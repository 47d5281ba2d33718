//! The result of an operation.
use crate::model::{combined_with_channels, is_error_code, rendered, ResultView};
use crate::outside::{
    debug_quote, error_code, error_details, error_message, error_parts, new_uuid,
};
use crate::text::{join_lines, render_line, text_view};
use crate::value_map::ValueMap;
use cdumay_error::Error;
use serde_value::Value;
use uuid::Uuid;
use vstd::prelude::*;

verus! {

/// The outcome of an operation: an identifier, a status code (0 for success),
/// what the operation wrote to its output and error channels, and the values
/// it returned, by key.
#[derive(Debug)]
pub struct Result {
    pub uuid: Uuid,
    pub retcode: u16,
    pub stdout: Option<String>,
    pub stderr: Option<String>,
    pub retval: ValueMap<Value>,
}

impl View for Result {
    type V = ResultView<Value>;

    open spec fn view(&self) -> ResultView<Value> {
        ResultView {
            uuid: self.uuid,
            retcode: self.retcode,
            stdout: text_view(self.stdout),
            stderr: text_view(self.stderr),
            retval: self.retval@,
        }
    }
}

/// A copy of a map of values: the same keys with the same values.
pub(crate) fn copy_values(map: &ValueMap<Value>) -> (copy: ValueMap<Value>)
    ensures
        copy@ == map@,
{
    let copy = map.clone();
    assert(copy@ =~= map@);
    copy
}

impl Result {
    /// Whether the result stands for a failure: its status code is 1 or at
    /// least 300.
    pub fn is_error(&self) -> (b: bool)
        ensures
            b == is_error_code(self.retcode),
    {
        self.retcode >= 300 || self.retcode == 1
    }

    /// The line that renders the result: `Result: Err(<code>, stderr: ..)` for
    /// a failure and `Result: Ok(<code>, stdout: ..)` for a success, the
    /// channel written as `{:?}` writes an optional string.
    pub fn to_string(&self) -> (line: String)
        ensures
            line@ == rendered(self@),
    {
        let error = self.is_error();
        let channel = if error {
            &self.stderr
        } else {
            &self.stdout
        };
        match channel {
            Some(text) => {
                let quoted = debug_quote(text.as_str());
                render_line(error, self.retcode, Some(quoted.as_str()))
            },
            None => render_line(error, self.retcode, None),
        }
    }

    /// The result with the given identifier that reports an error with the
    /// given code, message and details: the code as status code, the message
    /// on the error channel, no output, and the details, if any, as return
    /// values.
    pub fn from_error_parts_with_uuid(
        uuid: Uuid,
        code: u16,
        message: String,
        details: Option<ValueMap<Value>>,
    ) -> (result: Result)
        ensures
            result@ == (ResultView {
                uuid,
                retcode: code,
                stdout: None,
                stderr: Some(message@),
                retval: match details {
                    Some(values) => values@,
                    None => Map::<Seq<char>, Value>::empty(),
                },
            }),
    {
        let retval = match details {
            Some(values) => values,
            None => ValueMap::new(),
        };
        Result { uuid, retcode: code, stdout: None, stderr: Some(message), retval }
    }

    /// The result that reports an error with the given code, message and
    /// details, under a new random identifier.
    pub fn from_error_parts(code: u16, message: String, details: Option<ValueMap<Value>>) -> (result:
        Result)
        ensures
            result@.retcode == code,
            result@.stdout == None::<Seq<char>>,
            result@.stderr == Some(message@),
            result@.retval == match details {
                Some(values) => values@,
                None => Map::<Seq<char>, Value>::empty(),
            },
    {
        Result::from_error_parts_with_uuid(new_uuid(), code, message, details)
    }
}

impl Clone for Result {
    fn clone(&self) -> (copy: Result)
        ensures
            copy@ == self@,
    {
        Result {
            uuid: self.uuid,
            retcode: self.retcode,
            stdout: self.stdout.clone(),
            stderr: self.stderr.clone(),
            retval: copy_values(&self.retval),
        }
    }
}

impl<'a, 'b> core::ops::Add<&'b Result> for &'a Result {
    type Output = Result;

    /// Combines two results into a new one: the identifier of `other`, the
    /// greater status code, each channel joined (empty where neither result
    /// has it), and the return values of both, those of `other` replacing
    /// those of `self` under the same key. Neither operand is changed.
    fn add(self, other: &'b Result) -> (sum: Result)
        ensures
            sum@ == combined_with_channels(self@, other@),
    {
        let retcode = if self.retcode > other.retcode {
            self.retcode
        } else {
            other.retcode
        };
        let stdout = match join_lines(&self.stdout, &other.stdout) {
            Some(text) => text,
            None => String::new(),
        };
        let stderr = match join_lines(&self.stderr, &other.stderr) {
            Some(text) => text,
            None => String::new(),
        };
        let mut retval = copy_values(&self.retval);
        retval.merge(copy_values(&other.retval));
        Result { uuid: other.uuid, retcode, stdout: Some(stdout), stderr: Some(stderr), retval }
    }
}

impl<'a, 'b> vstd::std_specs::ops::AddSpecImpl<&'b Result> for &'a Result {
    open spec fn obeys_add_spec() -> bool {
        false
    }

    open spec fn add_req(self, other: &'b Result) -> bool {
        true
    }

    open spec fn add_spec(self, other: &'b Result) -> Result {
        arbitrary()
    }
}

impl From<Error> for Result {
    /// The result that reports `error`: the code of its kind as status code,
    /// its message on the error channel, no output, and its details, if it
    /// has any, as return values. Its identifier is new.
    fn from(error: Error) -> (result: Result)
        ensures
            result@.retcode == error_code(error),
            result@.stdout == None::<Seq<char>>,
            result@.stderr == Some(error_message(error)),
            result@.retval == match error_details(error) {
                Some(values) => values,
                None => Map::<Seq<char>, Value>::empty(),
            },
    {
        let (code, message, details) = error_parts(error);
        let details = match details {
            Some(entries) => Some(ValueMap::from_entries(entries)),
            None => None,
        };
        Result::from_error_parts(code, message, details)
    }
}

impl vstd::std_specs::convert::FromSpecImpl<Error> for Result {
    open spec fn obeys_from_spec() -> bool {
        false
    }

    open spec fn from_spec(error: Error) -> Result {
        arbitrary()
    }
}

} // verus!
