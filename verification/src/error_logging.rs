//! What is recorded about an error before it is written to the error log.

use vstd::prelude::*;

use crate::text::{chars_of, trim_chars, trim_spec};

verus! {

/// An error about to be logged, with what was known when it happened.
#[derive(Debug)]
pub struct ErrorLogDraft {
    pub error_type: String,
    pub error_message: String,
    pub stack_trace: Option<String>,
    pub user_action: Option<String>,
    pub route: Option<String>,
    pub vendor_id: Option<String>,
    pub purchase_id: Option<String>,
    pub details: Vec<String>,
}

impl Default for ErrorLogDraft {
    fn default() -> (r: Self)
        ensures
            r.error_type@.len() == 0,
            r.error_message@.len() == 0,
            r.stack_trace is None,
            r.user_action is None,
            r.route is None,
            r.vendor_id is None,
            r.purchase_id is None,
            r.details@.len() == 0,
    {
        ErrorLogDraft {
            error_type: String::new(),
            error_message: String::new(),
            stack_trace: None,
            user_action: None,
            route: None,
            vendor_id: None,
            purchase_id: None,
            details: Vec::new(),
        }
    }
}

/// The stack trace kept in a log entry: none when the trace is missing or
/// blank.
pub fn usable_stack_trace(raw: Option<String>) -> (r: Option<String>)
    ensures
        match raw {
            Some(s) => if trim_spec(s@).len() == 0 {
                r is None
            } else {
                r == Some(s)
            },
            None => r is None,
        },
{
    match raw {
        Some(s) => {
            if trim_chars(&chars_of(s.as_str())).len() == 0 {
                None
            } else {
                Some(s)
            }
        },
        None => None,
    }
}

} // verus!
