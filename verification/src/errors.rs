//! Error values shared by consumers of the library's numeric and
//! record-building facilities.

use vstd::prelude::*;

verus! {

/// A general argument error.
#[derive(Debug, PartialEq, Eq, Structural)]
pub enum CommonError {
    InvalidArgument,
}

impl CommonError {
    /// A human-readable description of the error.
    pub fn message(&self) -> (m: String)
        ensures
            m@ == "expected a valid argument"@,
    {
        "expected a valid argument".to_owned()
    }
}

/// Errors of range-validated market-record construction.
#[derive(Debug, PartialEq, Eq, Structural)]
pub enum OHLCVDataError {
    Invalid,
    Incomplete,
    Unknown,
}

impl OHLCVDataError {
    /// A human-readable description of the error.
    pub fn message(&self) -> (m: String)
        ensures
            self is Invalid ==> m@ == "expected a valid OHLCV input data"@,
            self is Incomplete ==> m@ == "expected a complete OHLCV input data"@,
            self is Unknown ==> m@ == "unknown data error"@,
    {
        match self {
            OHLCVDataError::Invalid => "expected a valid OHLCV input data".to_owned(),
            OHLCVDataError::Incomplete => "expected a complete OHLCV input data".to_owned(),
            OHLCVDataError::Unknown => "unknown data error".to_owned(),
        }
    }
}

} // verus!
