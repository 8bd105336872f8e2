//! The return value of an executed script, and the typed views a caller can
//! take of it.

use vstd::prelude::*;
use crate::error::{WebDriverError, WebDriverResult};
use crate::json::{json_is_array, json_items_of, json_text_of, spec_parse_element_ref, value_into_array};
use crate::session::handle::SessionHandle;
use crate::webelement::{element_id_of, WebElement};

verus! {

/// What a script handed back: the raw JSON value, paired with the session
/// that ran the script so element references inside it can be resolved.
pub struct ScriptRet {
    handle: SessionHandle,
    value: serde_json::Value,
}

impl ScriptRet {
    /// The session this return value belongs to.
    pub closed spec fn spec_handle(&self) -> SessionHandle {
        self.handle
    }

    /// The raw JSON value the script returned.
    pub closed spec fn spec_value(&self) -> serde_json::Value {
        self.value
    }

    /// Pairs a script's raw return value with the session that ran it.
    pub fn new(handle: SessionHandle, value: serde_json::Value) -> (r: Self)
        ensures
            r.spec_handle() == handle,
            r.spec_value() == value,
    {
        ScriptRet { handle, value }
    }

    /// The raw JSON value.
    pub fn value(&self) -> (r: &serde_json::Value)
        ensures
            *r == self.spec_value(),
    {
        &self.value
    }

    /// Relies on serde_json's `from_value`: deserializes the raw value into
    /// any deserializable type; whether that succeeds is the deserializer's
    /// decision.
    #[verifier::external_body]
    pub fn convert<T: serde::de::DeserializeOwned>(&self) -> WebDriverResult<T> {
        match serde_json::from_value(self.value.clone()) {
            Ok(v) => Ok(v),
            Err(e) => Err(WebDriverError::Json(e)),
        }
    }

    /// Reads the return value as a single element: succeeds exactly when
    /// the script returned one element reference.
    pub fn get_element(self) -> (r: WebDriverResult<WebElement>)
        ensures
            r is Ok <==> spec_parse_element_ref(json_text_of(self.spec_value())) is Some,
            (r matches Ok(w) ==> element_id_of(w.element) == spec_parse_element_ref(
                json_text_of(self.spec_value()),
            ).unwrap() && w.handle == self.spec_handle()),
    {
        WebElement::from_json(self.value, self.handle)
    }

    /// Reads the return value as a list of elements: succeeds exactly when
    /// the script returned an array whose every item is an element
    /// reference, and then carries their ids in order, each bound to this
    /// session.
    pub fn get_elements(self) -> (r: WebDriverResult<Vec<WebElement>>)
        ensures
            r is Ok <==> (json_is_array(self.spec_value()) && (forall|j: int|
                0 <= j < json_items_of(self.spec_value()).len() ==> spec_parse_element_ref(
                    json_text_of(#[trigger] json_items_of(self.spec_value())[j]),
                ) is Some)),
            (r matches Ok(ws) ==> ws@.len() == json_items_of(self.spec_value()).len() && (forall|
                j: int,
            |
                0 <= j < ws@.len() ==> element_id_of(#[trigger] ws@[j].element)
                    == spec_parse_element_ref(
                    json_text_of(json_items_of(self.spec_value())[j]),
                ).unwrap() && ws@[j].handle == self.spec_handle())),
            (r matches Err(e) ==> (e matches WebDriverError::Json(_) || e
                matches WebDriverError::Decode(_))),
    {
        let ghost gval = self.spec_value();
        let ghost ghandle = self.spec_handle();
        let ScriptRet { handle, value } = self;
        let mut items = match value_into_array(value) {
            Ok(it) => it,
            Err(e) => {
                return Err(WebDriverError::Json(e));
            },
        };
        let ghost orig = items@;
        let mut out: Vec<WebElement> = Vec::new();
        while items.len() > 0
            invariant
                gval == self.spec_value(),
                ghandle == self.spec_handle(),
                json_is_array(gval),
                orig == json_items_of(gval),
                handle == ghandle,
                out@.len() + items@.len() == orig.len(),
                items@ == orig.skip(out@.len() as int),
                forall|j: int|
                    0 <= j < out@.len() ==> spec_parse_element_ref(
                        json_text_of(#[trigger] orig[j]),
                    ) is Some,
                forall|j: int|
                    0 <= j < out@.len() ==> element_id_of(#[trigger] out@[j].element)
                        == spec_parse_element_ref(json_text_of(orig[j])).unwrap()
                        && out@[j].handle == ghandle,
            decreases items@.len(),
        {
            let ghost k = out@.len() as int;
            let item = items.remove(0);
            proof {
                assert(item == orig[k]);
                assert(items@ =~= orig.skip(k + 1));
            }
            match WebElement::from_json(item, handle.clone()) {
                Ok(w) => {
                    out.push(w);
                },
                Err(e) => {
                    proof {
                        assert(json_items_of(self.spec_value())[k] == item);
                        assert(spec_parse_element_ref(
                            json_text_of(json_items_of(self.spec_value())[k]),
                        ) is None);
                    }
                    return Err(e);
                },
            }
        }
        proof {
            assert(out@.len() == orig.len());
        }
        Ok(out)
    }
}

} // verus!
