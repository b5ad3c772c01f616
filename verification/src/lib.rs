//! Exchange-rate lookup with bounded fallback over past calendar days.
//!
//! The central-bank rate service is date-exact: a query for a non-trading day
//! answers "not found". The core of this crate is the fallback search engine,
//! which walks backward from a target date, one calendar day at a time, until
//! a published rate is found or the lookback window is exhausted. Around it
//! stand the calendar arithmetic, an exact decimal type for rates and
//! amounts, the validated response parser, and the conversion step.
//!
//! Network transport and the command line live outside the library; they hand
//! in plain values (dates, response bodies) and drive the engine one fetch at
//! a time.

pub mod convert;
pub mod date;
pub mod dec;
pub mod engine;
pub mod model;
pub mod parse;
pub mod render;

use vstd::prelude::*;
use vstd::string::StringExecFns;

verus! {

/// Attaches one layer of context to an error's text, for the error messages
/// the front end reports.
pub trait ErrExt {
    fn wrap_err(self, message: &'static str) -> String;
}

impl ErrExt for String {
    /// `message`, a separating colon, then the original error text.
    fn wrap_err(self, message: &'static str) -> (r: String)
        ensures
            r@ == message@ + ": "@ + self@,
    {
        let mut out = String::from_str(message);
        out.append(": ");
        out.append(self.as_str());
        proof {
            assert(out@ =~= message@ + ": "@ + self@);
        }
        out
    }
}

} // verus!
