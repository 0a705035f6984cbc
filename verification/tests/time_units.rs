use antegen::ordinal::OrdinalSet;
use antegen::specifier::{RootSpecifier, ScheduleError, Specifier};
use antegen::time_unit::{Months, Seconds, TimeUnitField, TimeUnitSpec};

#[test]
fn ordinal_set_is_kept_in_order() {
    let mut s = OrdinalSet::new();
    assert!(s.is_empty());
    s.insert(30);
    s.insert(10);
    s.insert(20);
    s.insert(10);
    assert_eq!(s.len(), 3);
    assert_eq!(s.ordinal_at(0), 10);
    assert_eq!(s.ordinal_at(1), 20);
    assert_eq!(s.ordinal_at(2), 30);
    assert!(s.contains(20));
    assert!(!s.contains(15));
}

#[test]
fn ordinal_set_from_range() {
    let s = OrdinalSet::from_range(5, 9);
    assert_eq!(s.len(), 5);
    assert!(s.contains(5) && s.contains(7) && s.contains(9));
    assert!(!s.contains(4) && !s.contains(10));
    assert!(OrdinalSet::from_range(9, 5).is_empty());
    assert_eq!(OrdinalSet::from_range(6, 6).len(), 1);
}

#[test]
fn ordinal_set_step_by() {
    let s = OrdinalSet::from_range(0, 59).step_by(15);
    assert_eq!(s.len(), 4);
    assert_eq!(s.ordinal_at(0), 0);
    assert_eq!(s.ordinal_at(1), 15);
    assert_eq!(s.ordinal_at(2), 30);
    assert_eq!(s.ordinal_at(3), 45);
    let t = OrdinalSet::from_range(1, 6).step_by(2);
    assert_eq!(t.len(), 3);
    assert_eq!(t.ordinal_at(0), 1);
    assert_eq!(t.ordinal_at(1), 3);
    assert_eq!(t.ordinal_at(2), 5);
    let single = OrdinalSet::singleton(8).step_by(3);
    assert_eq!(single.len(), 1);
    assert_eq!(single.ordinal_at(0), 8);
}

#[test]
fn ordinal_set_duplicate_matches() {
    let s = OrdinalSet::from_range(2, 4);
    assert_eq!(s.duplicate(), s);
}

#[test]
fn all_field_includes_every_supported_ordinal() {
    let seconds = Seconds::all();
    assert!(seconds.includes(0));
    assert!(seconds.includes(31));
    assert!(seconds.includes(59));
    assert!(!seconds.includes(60));
    assert_eq!(seconds.count(), 60);
    assert!(seconds.is_all());
}

#[test]
fn explicit_field_reports_membership_and_count() {
    let mut picked = OrdinalSet::new();
    picked.insert(1);
    picked.insert(15);
    let seconds = Seconds::from_ordinal_set(picked);
    assert!(seconds.includes(1));
    assert!(seconds.includes(15));
    assert!(!seconds.includes(2));
    assert_eq!(seconds.count(), 2);
    assert!(!seconds.is_all());
}

#[test]
fn months_field_bounds() {
    let months = Months::all();
    assert_eq!(months.count(), 12);
    assert!(months.is_all());
    assert!(months.includes(1) && months.includes(12));
    assert!(!months.includes(0) && !months.includes(13));
    assert_eq!(Months::inclusive_min(), 1);
    assert_eq!(Months::inclusive_max(), 12);
    assert_eq!(Months::name(), "Months");
    assert_eq!(Seconds::name(), "Seconds");
}

#[test]
fn single_ordinal_field() {
    let seconds = Seconds::from_ordinal(30);
    assert_eq!(seconds.count(), 1);
    assert!(seconds.includes(30));
    assert!(!seconds.includes(29));
}

#[test]
fn validate_ordinal_bounds() {
    assert_eq!(Seconds::validate_ordinal(0), Ok(0));
    assert_eq!(Seconds::validate_ordinal(59), Ok(59));
    assert_eq!(
        Seconds::validate_ordinal(60),
        Err(ScheduleError::AboveMaximum { ordinal: 60, max: 59 })
    );
    assert_eq!(
        Months::validate_ordinal(0),
        Err(ScheduleError::BelowMinimum { ordinal: 0, min: 1 })
    );
    assert_eq!(Months::validate_ordinal(7), Ok(7));
}

#[test]
fn specifier_all_and_point() {
    let all = Seconds::ordinals_from_specifier(&Specifier::All).unwrap();
    assert_eq!(all.len(), 60);
    assert!(all.contains(0) && all.contains(59));
    let point = Seconds::ordinals_from_specifier(&Specifier::Point(30)).unwrap();
    assert_eq!(point.len(), 1);
    assert!(point.contains(30));
}

#[test]
fn specifier_range_validated() {
    let r = Seconds::ordinals_from_specifier(&Specifier::Range(10, 15)).unwrap();
    assert_eq!(r.len(), 6);
    assert!(r.contains(10) && r.contains(15) && !r.contains(16));
    assert_eq!(
        Seconds::ordinals_from_specifier(&Specifier::Range(15, 10)),
        Err(ScheduleError::InvalidRange { start: 15, end: 10 })
    );
    assert_eq!(
        Seconds::ordinals_from_specifier(&Specifier::Range(0, 60)),
        Err(ScheduleError::InvalidRange { start: 0, end: 60 })
    );
}

#[test]
fn named_specifiers_are_refused() {
    assert_eq!(
        Seconds::ordinals_from_specifier(&Specifier::NamedRange(
            "JAN".to_string(),
            "MAR".to_string()
        )),
        Err(ScheduleError::NameUnsupported)
    );
    assert_eq!(
        Seconds::ordinals_from_root_specifier(&RootSpecifier::NamedPoint("FRI".to_string())),
        Err(ScheduleError::NameUnsupported)
    );
}

#[test]
fn root_specifier_passthrough() {
    let r = Months::ordinals_from_root_specifier(&RootSpecifier::Specifier(Specifier::Range(
        3, 5,
    )))
    .unwrap();
    assert_eq!(r.len(), 3);
    assert!(r.contains(3) && r.contains(4) && r.contains(5));
}

#[test]
fn period_over_point_extends_to_max() {
    let r = Seconds::ordinals_from_root_specifier(&RootSpecifier::Period(
        Specifier::Point(10),
        15,
    ))
    .unwrap();
    assert_eq!(r.len(), 4);
    assert_eq!(r.ordinal_at(0), 10);
    assert_eq!(r.ordinal_at(1), 25);
    assert_eq!(r.ordinal_at(2), 40);
    assert_eq!(r.ordinal_at(3), 55);
}

#[test]
fn period_over_all_and_range() {
    let r = Seconds::ordinals_from_root_specifier(&RootSpecifier::Period(Specifier::All, 20))
        .unwrap();
    assert_eq!(r.len(), 3);
    assert!(r.contains(0) && r.contains(20) && r.contains(40));
    let m = Months::ordinals_from_root_specifier(&RootSpecifier::Period(
        Specifier::Range(1, 6),
        2,
    ))
    .unwrap();
    assert_eq!(m.len(), 3);
    assert!(m.contains(1) && m.contains(3) && m.contains(5));
}

#[test]
fn period_errors() {
    assert_eq!(
        Seconds::ordinals_from_root_specifier(&RootSpecifier::Period(Specifier::All, 0)),
        Err(ScheduleError::ZeroStep)
    );
    // The base is validated before the step: a bad point wins over a zero step.
    assert_eq!(
        Seconds::ordinals_from_root_specifier(&RootSpecifier::Period(Specifier::Point(70), 0)),
        Err(ScheduleError::AboveMaximum { ordinal: 70, max: 59 })
    );
    assert_eq!(
        Months::ordinals_from_root_specifier(&RootSpecifier::Period(
            Specifier::Range(8, 2),
            3
        )),
        Err(ScheduleError::InvalidRange { start: 8, end: 2 })
    );
}

#[test]
fn supported_ordinals_cover_the_unit() {
    let s = Seconds::supported_ordinals();
    assert_eq!(s.len(), 60);
    let m = Months::supported_ordinals();
    assert_eq!(m.len(), 12);
    assert!(m.contains(1) && m.contains(12) && !m.contains(0));
}
