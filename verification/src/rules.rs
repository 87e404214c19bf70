//! Matching rules of the calibration engine: the text hard rule, and how a
//! dark master's dimensions are recorded once their values are compared.
use vstd::prelude::*;
use crate::text::str_eq;

verus! {

/// Hard-rule string dimension check (filter, binning, optic train): `true`
/// only when both values are present and exactly equal. Missing either side
/// always excludes.
pub fn hard_rule_string(session_val: Option<&str>, master_val: Option<&str>) -> (r: bool)
    ensures
        r <==> (session_val is Some && master_val is Some && session_val->0@ == master_val->0@),
{
    match (session_val, master_val) {
        (Some(s), Some(m)) => str_eq(s, m),
        _ => false,
    }
}

/// How a soft dimension's values compared.
pub enum SoftReading {
    /// A value is absent, or unusable as a measurement.
    Missing,
    /// Both values are present and within the tolerance.
    Within,
    /// Both values are present and outside the tolerance.
    Outside,
}

/// How a dimension is recorded on a match.
#[derive(PartialEq, Eq, Structural)]
pub enum DimRecord {
    /// Among the matched dimensions, with the tolerance's penalty.
    Matched,
    /// Among the mismatched dimensions as out of tolerance, with the full penalty.
    OutOfTolerance,
    /// Among the mismatched dimensions as missing metadata, with the full
    /// penalty; the master is not excluded for it.
    MetadataMissing,
}

/// The records of a dark master's soft dimensions: exposure and temperature
/// always, date proximity only when both observing nights are known.
pub struct DarkSoftRecords {
    pub exposure: DimRecord,
    pub temperature: DimRecord,
    pub date_proximity: Option<DimRecord>,
}

pub open spec fn record_of(r: SoftReading) -> DimRecord {
    match r {
        SoftReading::Missing => DimRecord::MetadataMissing,
        SoftReading::Within => DimRecord::Matched,
        SoftReading::Outside => DimRecord::OutOfTolerance,
    }
}

fn record(r: SoftReading) -> (d: DimRecord)
    ensures
        d == record_of(r),
{
    match r {
        SoftReading::Missing => DimRecord::MetadataMissing,
        SoftReading::Within => DimRecord::Matched,
        SoftReading::Outside => DimRecord::OutOfTolerance,
    }
}

/// The outline of a dark master's evaluation, once every comparison is made:
/// the master is excluded exactly when a hard rule (gain, offset, camera body)
/// fails; otherwise each soft dimension is recorded once, missing metadata
/// lowers the confidence without excluding, and the master's age is recorded
/// only when both observing nights are known (`age` is then whether the age
/// is within the limit).
pub fn dark_soft_records(
    gain_holds: bool,
    offset_holds: bool,
    camera_holds: bool,
    exposure: SoftReading,
    temperature: SoftReading,
    age: Option<bool>,
) -> (r: Option<DarkSoftRecords>)
    ensures
        r is None <==> !(gain_holds && offset_holds && camera_holds),
        r matches Some(x) ==> x.exposure == record_of(exposure) && x.temperature == record_of(temperature)
            && x.date_proximity == (match age {
            None => None,
            Some(true) => Some(DimRecord::Matched),
            Some(false) => Some(DimRecord::OutOfTolerance),
        }),
{
    if !(gain_holds && offset_holds && camera_holds) {
        return None;
    }
    let date_proximity = match age {
        None => None,
        Some(true) => Some(DimRecord::Matched),
        Some(false) => Some(DimRecord::OutOfTolerance),
    };
    Some(DarkSoftRecords { exposure: record(exposure), temperature: record(temperature), date_proximity })
}

} // verus!
