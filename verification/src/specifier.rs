//! Specifiers of a schedule field, and the errors of expanding them.

use vstd::prelude::*;
use crate::ordinal::spec_range_seq;

verus! {

/// Why a schedule field cannot be expanded into ordinals.
#[derive(Debug, Clone, PartialEq, Eq)]
pub enum ScheduleError {
    /// The unit does not support naming its ordinals.
    NameUnsupported,
    /// An ordinal lies below the unit's minimum.
    BelowMinimum { ordinal: u32, min: u32 },
    /// An ordinal lies above the unit's maximum.
    AboveMaximum { ordinal: u32, max: u32 },
    /// A range runs backwards or leaves the unit's bounds.
    InvalidRange { start: u32, end: u32 },
    /// A named range runs backwards or leaves the unit's bounds.
    InvalidNamedRange,
    /// A period's step is zero.
    ZeroStep,
}

/// One specifier of a schedule field.
#[derive(Debug, Clone, PartialEq, Eq)]
pub enum Specifier {
    /// Every supported ordinal.
    All,
    /// A single ordinal.
    Point(u32),
    /// An inclusive range of ordinals.
    Range(u32, u32),
    /// An inclusive range of named ordinals.
    NamedRange(String, String),
}

/// A field's root specifier: a plain specifier, a periodic step over a base,
/// or a single named ordinal.
#[derive(Debug, Clone, PartialEq, Eq)]
pub enum RootSpecifier {
    /// A plain specifier.
    Specifier(Specifier),
    /// Every `step`-th ordinal of the base the specifier denotes.
    Period(Specifier, u32),
    /// A single named ordinal.
    NamedPoint(String),
}

/// The outcome of validating an ordinal against a unit's bounds.
pub open spec fn spec_validated(ordinal: u32, min: u32, max: u32) -> Result<u32, ScheduleError> {
    if ordinal < min {
        Err(ScheduleError::BelowMinimum { ordinal, min })
    } else if ordinal > max {
        Err(ScheduleError::AboveMaximum { ordinal, max })
    } else {
        Ok(ordinal)
    }
}

/// The ordinals a specifier denotes for a unit bounded by `min..=max`:
/// every supported ordinal for `All`, a singleton for `Point` (left
/// unvalidated), a validated inclusive range for `Range`. A named range
/// resolves through the unit's name table, and no unit of this crate names
/// its ordinals, so it is refused.
pub open spec fn spec_specifier_ordinals(sp: Specifier, min: u32, max: u32) -> Result<
    Seq<u32>,
    ScheduleError,
> {
    match sp {
        Specifier::All => Ok(spec_range_seq(min, max)),
        Specifier::Point(o) => Ok(seq![o]),
        Specifier::Range(start, end) => if min <= start && start <= end && end <= max {
            Ok(spec_range_seq(start, end))
        } else {
            Err(ScheduleError::InvalidRange { start, end })
        },
        Specifier::NamedRange(_, _) => Err(ScheduleError::NameUnsupported),
    }
}

/// The base ordinals of a period: a point extends from itself to the unit's
/// maximum once validated; any other specifier denotes its own ordinals.
pub open spec fn spec_period_base(start: Specifier, min: u32, max: u32) -> Result<
    Seq<u32>,
    ScheduleError,
> {
    match start {
        Specifier::Point(p) => match spec_validated(p, min, max) {
            Ok(_) => Ok(spec_range_seq(p, max)),
            Err(e) => Err(e),
        },
        _ => spec_specifier_ordinals(start, min, max),
    }
}

} // verus!
