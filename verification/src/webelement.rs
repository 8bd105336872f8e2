//! A single element on the current page, and the value-level logic of its
//! accessors: how an element crosses the JSON boundary, and how command
//! outcomes are read.

use vstd::prelude::*;
use crate::error::{WebDriverError, WebDriverResult};
use crate::json::{
    element_ref_json, json_text_of, parse_element_ref, spec_parse_element_ref, value_to_text,
};
use crate::session::handle::{clone_client, SessionHandle};

verus! {

#[verifier::external_type_specification]
#[verifier::external_body]
pub struct ExElement(fantoccini::elements::Element);

// The element id a protocol element handle carries.
pub uninterp spec fn element_id_of(e: fantoccini::elements::Element) -> Seq<char>;

/// Relies on fantoccini's `Element::element_id`: hands out the id the
/// element handle carries.
#[verifier::external_body]
fn element_id_str(e: &fantoccini::elements::Element) -> (r: String)
    ensures
        r@ == element_id_of(*e),
{
    String::from(e.element_id())
}

/// Relies on fantoccini's `Element::from_element_id`: builds the element
/// handle that carries exactly the given id, bound to the given client.
#[verifier::external_body]
fn element_from_id(client: fantoccini::client::Client, id: &str) -> (r:
    fantoccini::elements::Element)
    ensures
        element_id_of(r) == id@,
{
    fantoccini::elements::Element::from_element_id(
        client,
        fantoccini::elements::ElementRef::from(id.to_owned()),
    )
}

/// Relies on fantoccini's `Serialize` for `Element` and serde_json's
/// `to_value`: an element serializes to the W3C reference object holding
/// exactly its id (the client field is skipped), and serializing it cannot
/// fail.
#[verifier::external_body]
fn element_to_value(e: &fantoccini::elements::Element) -> (r: Result<
    serde_json::Value,
    serde_json::Error,
>)
    ensures
        r is Ok,
        (r matches Ok(v) ==> json_text_of(v) == element_ref_json(element_id_of(*e))),
{
    serde_json::to_value(e)
}

/// A single element on the current page, as found by a query on the driver
/// or on another element. It pairs the protocol's element handle with the
/// session that issued it.
pub struct WebElement {
    pub element: fantoccini::elements::Element,
    pub handle: SessionHandle,
}

impl WebElement {
    /// Pairs a protocol element handle with its owning session.
    pub(crate) fn new(element: fantoccini::elements::Element, handle: SessionHandle) -> (r: Self)
        ensures
            r.element == element,
            r.handle == handle,
    {
        WebElement { element, handle }
    }

    /// Reads an element out of a JSON value: succeeds exactly when the
    /// value is the W3C element reference object, and then carries the id
    /// that object holds; anything else is reported as a decode error with
    /// the text of the value.
    pub fn from_json(value: serde_json::Value, handle: SessionHandle) -> (r: WebDriverResult<Self>)
        ensures
            r is Ok <==> spec_parse_element_ref(json_text_of(value)) is Some,
            (r matches Ok(w) ==> element_id_of(w.element) == spec_parse_element_ref(
                json_text_of(value),
            ).unwrap() && w.handle == handle),
            (r matches Err(e) ==> (e matches WebDriverError::Decode(d) && d@ == json_text_of(
                value,
            ))),
    {
        let text = match value_to_text(&value) {
            Ok(t) => t,
            Err(e) => {
                return Err(WebDriverError::Json(e));
            },
        };
        match parse_element_ref(text.as_str()) {
            Some(id) => {
                let element = element_from_id(clone_client(&handle.client), id.as_str());
                Ok(WebElement { element, handle })
            },
            None => Err(WebDriverError::Decode(text)),
        }
    }

    /// Serializes this element as the W3C element reference object holding
    /// its id, e.g. to hand it to a script as an argument.
    pub fn to_json(&self) -> (r: WebDriverResult<serde_json::Value>)
        ensures
            r is Ok,
            (r matches Ok(v) ==> json_text_of(v) == element_ref_json(
                element_id_of(self.element),
            )),
    {
        match element_to_value(&self.element) {
            Ok(v) => Ok(v),
            Err(e) => Err(WebDriverError::Json(e)),
        }
    }

    /// The element id as issued by the webdriver.
    pub fn element_id(&self) -> (r: String)
        ensures
            r@ == element_id_of(self.element),
    {
        element_id_str(&self.element)
    }
}

/// Decision behind `WebElement::is_present`: present when the tag name could
/// be read, absent when the lookup ended in "no such element", and any other
/// error passes through.
pub fn presence_from_tag_name(r: WebDriverResult<String>) -> (p: WebDriverResult<bool>)
    ensures
        (r matches Ok(_) ==> p == Ok::<bool, WebDriverError>(true)),
        (r matches Err(e) ==> (match e {
            WebDriverError::NoSuchElement(_) => p == Ok::<bool, WebDriverError>(false),
            _ => (p matches Err(pe) && pe == e),
        })),
{
    match r {
        Ok(_) => Ok(true),
        Err(WebDriverError::NoSuchElement(_)) => Ok(false),
        Err(e) => Err(e),
    }
}

/// Decision behind the html accessors: a missing property reads as the
/// empty string.
pub fn html_from_property(p: Option<String>) -> (r: String)
    ensures
        (match p {
            Some(s) => r == s,
            None => r@ == Seq::<char>::empty(),
        }),
{
    match p {
        Some(s) => s,
        None => String::new(),
    }
}

} // verus!
