//! Methods exposing a schedule's configured ordinals for each unit of time,
//! and the expansion of field specifiers into ordinal sets.

use vstd::prelude::*;
use crate::ordinal::{
    lemma_sorted_bounds_len, spec_range_seq, spec_stepped, within_bounds,
    OrdinalSet,
};
use crate::specifier::{
    spec_period_base, spec_specifier_ordinals, spec_validated, RootSpecifier, ScheduleError,
    Specifier,
};

verus! {

/// A schedule field's configured ordinals for one unit of time: membership,
/// count, and whether the field admits every supported ordinal.
pub trait TimeUnitSpec {
    /// The ordinals the field admits, in increasing order.
    spec fn admitted(&self) -> Seq<u32>;

    /// How many ordinals the unit supports in total.
    spec fn supported_count(&self) -> int;

    /// Whether the ordinal is included in the schedule's spec for this unit.
    fn includes(&self, ordinal: u32) -> (r: bool)
        ensures
            r == self.admitted().contains(ordinal),
    ;

    /// The number of ordinals included.
    fn count(&self) -> (r: u32)
        ensures
            r == self.admitted().len(),
    ;

    /// Whether this field admits every supported ordinal, as one written
    /// with a wildcard does.
    fn is_all(&self) -> (r: bool)
        ensures
            r == (self.admitted().len() == self.supported_count()),
    ;
}

/// One unit of time in a schedule: its bounds, its configured ordinals, and
/// the expansion of parsed field specifiers into ordinal sets.
pub trait TimeUnitField where Self: Sized {
    /// The unit's inclusive lower bound.
    spec fn spec_min() -> u32;

    /// The unit's inclusive upper bound.
    spec fn spec_max() -> u32;

    /// The ordinals this field admits, in increasing order, all within the
    /// unit's bounds.
    spec fn spec_ordinals(&self) -> Seq<u32>;

    /// The unit's bounds are ordered and its supported count fits `u32`.
    proof fn bounds_ok()
        ensures
            Self::spec_min() <= Self::spec_max(),
            Self::spec_max() - Self::spec_min() < u32::MAX,
    ;

    /// Build a field from an explicit ordinal set, or from `None` meaning
    /// every supported ordinal.
    fn from_optional_ordinal_set(ordinal_set: Option<OrdinalSet>) -> (r: Self)
        requires
            (match ordinal_set {
                Some(s) => s.wf() && within_bounds(s@, Self::spec_min(), Self::spec_max()),
                None => true,
            }),
        ensures
            r.spec_ordinals() == (match ordinal_set {
                Some(s) => s@,
                None => spec_range_seq(Self::spec_min(), Self::spec_max()),
            }),
    ;

    /// The unit's display name.
    fn name() -> (r: String);

    /// The unit's inclusive lower bound.
    fn inclusive_min() -> (r: u32)
        ensures
            r == Self::spec_min(),
    ;

    /// The unit's inclusive upper bound.
    fn inclusive_max() -> (r: u32)
        ensures
            r == Self::spec_max(),
    ;

    /// The ordinals this field admits, in increasing order.
    fn ordinals(&self) -> (r: OrdinalSet)
        ensures
            r.wf(),
            r@ == self.spec_ordinals(),
            within_bounds(r@, Self::spec_min(), Self::spec_max()),
    ;

    /// The field admitting exactly one ordinal.
    fn from_ordinal(ordinal: u32) -> (r: Self)
        requires
            Self::spec_min() <= ordinal <= Self::spec_max(),
        ensures
            r.spec_ordinals() == seq![ordinal],
    {
        Self::from_ordinal_set(OrdinalSet::singleton(ordinal))
    }

    /// The set of every ordinal the unit supports.
    fn supported_ordinals() -> (r: OrdinalSet)
        ensures
            r.wf(),
            r@ == spec_range_seq(Self::spec_min(), Self::spec_max()),
    {
        OrdinalSet::from_range(Self::inclusive_min(), Self::inclusive_max())
    }

    /// The field admitting every supported ordinal.
    fn all() -> (r: Self)
        ensures
            r.spec_ordinals() == spec_range_seq(Self::spec_min(), Self::spec_max()),
    {
        Self::from_optional_ordinal_set(None)
    }

    /// The field admitting exactly the given ordinals.
    fn from_ordinal_set(ordinal_set: OrdinalSet) -> (r: Self)
        requires
            ordinal_set.wf(),
            within_bounds(ordinal_set@, Self::spec_min(), Self::spec_max()),
        ensures
            r.spec_ordinals() == ordinal_set@,
    {
        Self::from_optional_ordinal_set(Some(ordinal_set))
    }

    /// The ordinal a name denotes: no unit of this crate supports names,
    /// so every name is refused.
    fn ordinal_from_name(name: &str) -> (r: Result<u32, ScheduleError>)
        ensures
            r == Err::<u32, ScheduleError>(ScheduleError::NameUnsupported),
    {
        let _ = name;
        Err(ScheduleError::NameUnsupported)
    }

    /// Check an ordinal against the unit's bounds.
    fn validate_ordinal(ordinal: u32) -> (r: Result<u32, ScheduleError>)
        ensures
            r == spec_validated(ordinal, Self::spec_min(), Self::spec_max()),
    {
        if ordinal < Self::inclusive_min() {
            Err(ScheduleError::BelowMinimum { ordinal, min: Self::inclusive_min() })
        } else if ordinal > Self::inclusive_max() {
            Err(ScheduleError::AboveMaximum { ordinal, max: Self::inclusive_max() })
        } else {
            Ok(ordinal)
        }
    }

    /// Expand one specifier into its ordinal set: exactly what
    /// [`spec_specifier_ordinals`] denotes. A named range asks
    /// [`Self::ordinal_from_name`] for both ends, which refuses every name.
    fn ordinals_from_specifier(specifier: &Specifier) -> (r: Result<OrdinalSet, ScheduleError>)
        ensures
            (match spec_specifier_ordinals(*specifier, Self::spec_min(), Self::spec_max()) {
                Ok(sq) => r matches Ok(s) && s.wf() && s@ == sq,
                Err(e) => r == Err::<OrdinalSet, ScheduleError>(e),
            }),
    {
        match specifier {
            Specifier::All => Ok(Self::supported_ordinals()),
            Specifier::Point(ordinal) => Ok(OrdinalSet::singleton(*ordinal)),
            Specifier::Range(start, end) => {
                match (Self::validate_ordinal(*start), Self::validate_ordinal(*end)) {
                    (Ok(valid_start), Ok(valid_end)) => {
                        if valid_start <= valid_end {
                            Ok(OrdinalSet::from_range(valid_start, valid_end))
                        } else {
                            Err(ScheduleError::InvalidRange { start: *start, end: *end })
                        }
                    },
                    _ => Err(ScheduleError::InvalidRange { start: *start, end: *end }),
                }
            },
            Specifier::NamedRange(start_name, end_name) => {
                let start = match Self::ordinal_from_name(start_name.as_str()) {
                    Ok(o) => o,
                    Err(e) => {
                        return Err(e);
                    },
                };
                let end = match Self::ordinal_from_name(end_name.as_str()) {
                    Ok(o) => o,
                    Err(e) => {
                        return Err(e);
                    },
                };
                match (Self::validate_ordinal(start), Self::validate_ordinal(end)) {
                    (Ok(valid_start), Ok(valid_end)) => {
                        if valid_start <= valid_end {
                            Ok(OrdinalSet::from_range(valid_start, valid_end))
                        } else {
                            Err(ScheduleError::InvalidNamedRange)
                        }
                    },
                    _ => Err(ScheduleError::InvalidNamedRange),
                }
            },
        }
    }

    /// Expand a field's root specifier into its ordinal set: a plain
    /// specifier expands directly, a period steps over its base — a point
    /// base extends to the unit's maximum, and a zero step is refused after
    /// the base is validated — and a named point asks
    /// [`Self::ordinal_from_name`], which refuses every name.
    fn ordinals_from_root_specifier(root_specifier: &RootSpecifier) -> (r: Result<
        OrdinalSet,
        ScheduleError,
    >)
        ensures
            (match *root_specifier {
                RootSpecifier::Specifier(sp) => (match spec_specifier_ordinals(
                    sp,
                    Self::spec_min(),
                    Self::spec_max(),
                ) {
                    Ok(sq) => r matches Ok(s) && s.wf() && s@ == sq,
                    Err(e) => r == Err::<OrdinalSet, ScheduleError>(e),
                }),
                RootSpecifier::Period(start, step) => (match spec_period_base(
                    start,
                    Self::spec_min(),
                    Self::spec_max(),
                ) {
                    Ok(base) => if step == 0 {
                        r == Err::<OrdinalSet, ScheduleError>(ScheduleError::ZeroStep)
                    } else {
                        r matches Ok(s) && s.wf() && s@ == spec_stepped(base, step as nat)
                    },
                    Err(e) => r == Err::<OrdinalSet, ScheduleError>(e),
                }),
                RootSpecifier::NamedPoint(_) => r == Err::<OrdinalSet, ScheduleError>(
                    ScheduleError::NameUnsupported,
                ),
            }),
    {
        let ordinals = match root_specifier {
            RootSpecifier::Specifier(specifier) => {
                match Self::ordinals_from_specifier(specifier) {
                    Ok(s) => s,
                    Err(e) => {
                        return Err(e);
                    },
                }
            },
            RootSpecifier::Period(start, step) => {
                let base_set = match start {
                    Specifier::Point(point) => {
                        let valid = match Self::validate_ordinal(*point) {
                            Ok(o) => o,
                            Err(e) => {
                                return Err(e);
                            },
                        };
                        OrdinalSet::from_range(valid, Self::inclusive_max())
                    },
                    specifier => {
                        match Self::ordinals_from_specifier(specifier) {
                            Ok(s) => s,
                            Err(e) => {
                                return Err(e);
                            },
                        }
                    },
                };
                if *step == 0 {
                    return Err(ScheduleError::ZeroStep);
                }
                base_set.step_by(*step)
            },
            RootSpecifier::NamedPoint(name) => {
                let ordinal = match Self::ordinal_from_name(name.as_str()) {
                    Ok(o) => o,
                    Err(e) => {
                        return Err(e);
                    },
                };
                OrdinalSet::singleton(ordinal)
            },
        };
        Ok(ordinals)
    }
}

impl<T: TimeUnitField> TimeUnitSpec for T {
    open spec fn admitted(&self) -> Seq<u32> {
        self.spec_ordinals()
    }

    open spec fn supported_count(&self) -> int {
        T::spec_max() - T::spec_min() + 1
    }

    fn includes(&self, ordinal: u32) -> (r: bool) {
        self.ordinals().contains(ordinal)
    }

    fn count(&self) -> (r: u32) {
        let s = self.ordinals();
        proof {
            T::bounds_ok();
            if s@.len() > 0 {
                lemma_sorted_bounds_len(s@, T::spec_min(), T::spec_max());
            }
        }
        s.len() as u32
    }

    fn is_all(&self) -> (r: bool) {
        let s = self.ordinals();
        proof {
            T::bounds_ok();
            if s@.len() > 0 {
                lemma_sorted_bounds_len(s@, T::spec_min(), T::spec_max());
            }
        }
        let max_supported: u32 = T::inclusive_max() - T::inclusive_min() + 1;
        s.len() == max_supported as usize
    }
}

/// The seconds of a minute: ordinals 0 through 59.
#[derive(Debug, PartialEq, Eq)]
pub struct Seconds {
    ordinals: Option<OrdinalSet>,
}

impl Seconds {
    /// A stored set is strictly increasing and within the unit's bounds;
    /// `None` stands for every supported ordinal.
    #[verifier::type_invariant]
    closed spec fn type_inv(&self) -> bool {
        match self.ordinals {
            Some(s) => s.wf() && within_bounds(s@, 0, 59),
            None => true,
        }
    }
}

impl TimeUnitField for Seconds {
    open spec fn spec_min() -> u32 {
        0
    }

    open spec fn spec_max() -> u32 {
        59
    }

    closed spec fn spec_ordinals(&self) -> Seq<u32> {
        match self.ordinals {
            Some(s) => s@,
            None => spec_range_seq(0, 59),
        }
    }

    proof fn bounds_ok() {
    }

    fn from_optional_ordinal_set(ordinal_set: Option<OrdinalSet>) -> (r: Self) {
        Seconds { ordinals: ordinal_set }
    }

    fn name() -> (r: String) {
        "Seconds".to_string()
    }

    fn inclusive_min() -> (r: u32) {
        0
    }

    fn inclusive_max() -> (r: u32) {
        59
    }

    fn ordinals(&self) -> (r: OrdinalSet) {
        proof {
            use_type_invariant(&*self);
        }
        match &self.ordinals {
            Some(s) => s.duplicate(),
            None => OrdinalSet::from_range(0, 59),
        }
    }
}

/// The months of a year: ordinals 1 through 12.
#[derive(Debug, PartialEq, Eq)]
pub struct Months {
    ordinals: Option<OrdinalSet>,
}

impl Months {
    /// A stored set is strictly increasing and within the unit's bounds;
    /// `None` stands for every supported ordinal.
    #[verifier::type_invariant]
    closed spec fn type_inv(&self) -> bool {
        match self.ordinals {
            Some(s) => s.wf() && within_bounds(s@, 1, 12),
            None => true,
        }
    }
}

impl TimeUnitField for Months {
    open spec fn spec_min() -> u32 {
        1
    }

    open spec fn spec_max() -> u32 {
        12
    }

    closed spec fn spec_ordinals(&self) -> Seq<u32> {
        match self.ordinals {
            Some(s) => s@,
            None => spec_range_seq(1, 12),
        }
    }

    proof fn bounds_ok() {
    }

    fn from_optional_ordinal_set(ordinal_set: Option<OrdinalSet>) -> (r: Self) {
        Months { ordinals: ordinal_set }
    }

    fn name() -> (r: String) {
        "Months".to_string()
    }

    fn inclusive_min() -> (r: u32) {
        1
    }

    fn inclusive_max() -> (r: u32) {
        12
    }

    fn ordinals(&self) -> (r: OrdinalSet) {
        proof {
            use_type_invariant(&*self);
        }
        match &self.ordinals {
            Some(s) => s.duplicate(),
            None => OrdinalSet::from_range(1, 12),
        }
    }
}

} // verus!
