//! The result in the form in which it is written as JSON.
use crate::model::{is_error_code, ResultView};
use crate::result::{copy_values, Result};
use crate::text::text_view;
use crate::value_map::ValueMap;
use serde_value::Value;
use uuid::Uuid;
use vstd::prelude::*;

verus! {

/// A result as it is written out: the same fields as `Result`, of which an
/// absent channel is left out of the written form.
#[derive(Debug)]
pub struct JsonResult {
    pub uuid: Uuid,
    pub retcode: u16,
    pub stdout: Option<String>,
    pub stderr: Option<String>,
    pub retval: ValueMap<Value>,
}

impl View for JsonResult {
    type V = ResultView<Value>;

    open spec fn view(&self) -> ResultView<Value> {
        ResultView {
            uuid: self.uuid,
            retcode: self.retcode,
            stdout: text_view(self.stdout),
            stderr: text_view(self.stderr),
            retval: self.retval@,
        }
    }
}

impl JsonResult {
    /// Whether the result stands for a failure: its status code is 1 or at
    /// least 300.
    pub fn is_error(&self) -> (b: bool)
        ensures
            b == is_error_code(self.retcode),
    {
        self.retcode >= 300 || self.retcode == 1
    }
}

impl Clone for JsonResult {
    fn clone(&self) -> (copy: JsonResult)
        ensures
            copy@ == self@,
    {
        JsonResult {
            uuid: self.uuid,
            retcode: self.retcode,
            stdout: self.stdout.clone(),
            stderr: self.stderr.clone(),
            retval: copy_values(&self.retval),
        }
    }
}

impl From<Result> for JsonResult {
    /// The same result, field by field.
    fn from(value: Result) -> (json: JsonResult)
        ensures
            json@ == value@,
    {
        JsonResult {
            uuid: value.uuid,
            retcode: value.retcode,
            stdout: value.stdout,
            stderr: value.stderr,
            retval: value.retval,
        }
    }
}

impl vstd::std_specs::convert::FromSpecImpl<Result> for JsonResult {
    open spec fn obeys_from_spec() -> bool {
        true
    }

    open spec fn from_spec(value: Result) -> JsonResult {
        JsonResult {
            uuid: value.uuid,
            retcode: value.retcode,
            stdout: value.stdout,
            stderr: value.stderr,
            retval: value.retval,
        }
    }
}

} // verus!
