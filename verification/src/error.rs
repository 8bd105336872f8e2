//! The library's error type, and the remapping of protocol command errors
//! into it.

use vstd::prelude::*;
use crate::common::By;

verus! {

#[verifier::external_type_specification]
#[verifier::external_body]
pub struct ExCmdError(fantoccini::error::CmdError);

// Whether a command error is the standard WebDriver "no such element" error.
pub uninterp spec fn no_such_element_err(e: fantoccini::error::CmdError) -> bool;

/// Relies on fantoccini's `CmdError::is_no_such_element`: true exactly on a
/// standard WebDriver error whose status is "no such element".
#[verifier::external_body]
fn is_no_such_element(e: &fantoccini::error::CmdError) -> (r: bool)
    ensures
        r == no_such_element_err(*e),
{
    e.is_no_such_element()
}

/// Relies on fantoccini's `Display` for `CmdError`: prints the error.
#[verifier::external_body]
fn cmd_error_message(e: &fantoccini::error::CmdError) -> String {
    e.to_string()
}

/// What can go wrong when driving a browser through this library.
#[derive(Debug)]
pub enum WebDriverError {
    /// An element lookup matched nothing; holds a description of the query
    /// or of the failed command.
    NoSuchElement(String),
    /// Any other protocol command error, passed through.
    CmdError(fantoccini::error::CmdError),
    /// A JSON (de)serialization error, passed through.
    Json(serde_json::Error),
    /// A value could not be read as an element reference; holds the text
    /// of the value.
    Decode(String),
}

pub type WebDriverResult<T> = Result<T, WebDriverError>;

/// Error remapping behind an element search: a "no such element" outcome is
/// reported with the failed query's description, any other command error is
/// passed through.
pub fn map_find_error(e: fantoccini::error::CmdError, by: &By) -> (r: WebDriverError)
    ensures
        no_such_element_err(e) ==> (r matches WebDriverError::NoSuchElement(d)
            && d@ == by.spec_description()),
        !no_such_element_err(e) ==> r == WebDriverError::CmdError(e),
{
    if is_no_such_element(&e) {
        WebDriverError::NoSuchElement(by.description())
    } else {
        WebDriverError::CmdError(e)
    }
}

/// Error remapping behind every other forwarded command: a "no such element"
/// outcome becomes the library's `NoSuchElement`, anything else is passed
/// through.
pub fn map_cmd_error(e: fantoccini::error::CmdError) -> (r: WebDriverError)
    ensures
        no_such_element_err(e) ==> r matches WebDriverError::NoSuchElement(_),
        !no_such_element_err(e) ==> r == WebDriverError::CmdError(e),
{
    if is_no_such_element(&e) {
        WebDriverError::NoSuchElement(cmd_error_message(&e))
    } else {
        WebDriverError::CmdError(e)
    }
}

} // verus!
