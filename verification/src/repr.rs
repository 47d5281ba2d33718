//! The result with JSON values, and with absent channels kept absent.
use crate::model::{combined, is_error_code, rendered, ResultView};
use crate::outside::{debug_quote, new_uuid};
use crate::text::{join_lines, render_line, text_view};
use crate::value_map::ValueMap;
use serde_json::Value;
use uuid::Uuid;
use vstd::prelude::*;

verus! {

/// The outcome of an operation whose return values are JSON values.
#[derive(Debug)]
pub struct ResultRepr {
    pub uuid: Uuid,
    pub retcode: u16,
    pub stdout: Option<String>,
    pub stderr: Option<String>,
    pub retval: ValueMap<Value>,
}

impl View for ResultRepr {
    type V = ResultView<Value>;

    open spec fn view(&self) -> ResultView<Value> {
        ResultView {
            uuid: self.uuid,
            retcode: self.retcode,
            stdout: text_view(self.stdout),
            stderr: text_view(self.stderr),
            retval: self.retval@,
        }
    }
}

/// A copy of a map of values: the same keys with the same values.
fn copy_values(map: &ValueMap<Value>) -> (copy: ValueMap<Value>)
    ensures
        copy@ == map@,
{
    let copy = map.clone();
    assert(copy@ =~= map@);
    copy
}

impl Default for ResultRepr {
    /// A success without output: a new random identifier, status code 0,
    /// both channels absent, no return values.
    fn default() -> (result: ResultRepr)
        ensures
            result@.retcode == 0,
            result@.stdout == None::<Seq<char>>,
            result@.stderr == None::<Seq<char>>,
            result@.retval == Map::<Seq<char>, Value>::empty(),
    {
        ResultRepr::with_uuid(new_uuid())
    }
}

impl ResultRepr {
    /// The success without output that has the given identifier: status code
    /// 0, both channels absent, no return values.
    pub fn with_uuid(uuid: Uuid) -> (result: ResultRepr)
        ensures
            result@ == (ResultView {
                uuid,
                retcode: 0,
                stdout: None,
                stderr: None,
                retval: Map::<Seq<char>, Value>::empty(),
            }),
    {
        ResultRepr { uuid, retcode: 0, stdout: None, stderr: None, retval: ValueMap::new() }
    }

    /// Whether the result stands for a failure: its status code is 1 or at
    /// least 300.
    pub fn is_error(&self) -> (b: bool)
        ensures
            b == is_error_code(self.retcode),
    {
        self.retcode >= 300 || self.retcode == 1
    }

    /// The line that renders the result: `Result: Err(<code>, stderr: ..)` for
    /// a failure and `Result: Ok(<code>, stdout: ..)` for a success, the
    /// channel written as `{:?}` writes an optional string.
    pub fn to_string(&self) -> (line: String)
        ensures
            line@ == rendered(self@),
    {
        let error = self.is_error();
        let channel = if error {
            &self.stderr
        } else {
            &self.stdout
        };
        match channel {
            Some(text) => {
                let quoted = debug_quote(text.as_str());
                render_line(error, self.retcode, Some(quoted.as_str()))
            },
            None => render_line(error, self.retcode, None),
        }
    }

    /// The result with the given identifier that reports an error with the
    /// given code, message and extra values: the code as status code, the
    /// message on the error channel, no output, and the extra values, if any,
    /// as return values.
    pub fn from_error_parts_with_uuid(
        uuid: Uuid,
        code: u16,
        message: String,
        extra: Option<ValueMap<Value>>,
    ) -> (result: ResultRepr)
        ensures
            result@ == (ResultView {
                uuid,
                retcode: code,
                stdout: None,
                stderr: Some(message@),
                retval: match extra {
                    Some(values) => values@,
                    None => Map::<Seq<char>, Value>::empty(),
                },
            }),
    {
        let retval = match extra {
            Some(values) => values,
            None => ValueMap::new(),
        };
        ResultRepr { uuid, retcode: code, stdout: None, stderr: Some(message), retval }
    }

    /// The result that reports an error with the given code, message and
    /// extra values, under a new random identifier.
    pub fn from_error_parts(code: u16, message: String, extra: Option<ValueMap<Value>>) -> (result:
        ResultRepr)
        ensures
            result@.retcode == code,
            result@.stdout == None::<Seq<char>>,
            result@.stderr == Some(message@),
            result@.retval == match extra {
                Some(values) => values@,
                None => Map::<Seq<char>, Value>::empty(),
            },
    {
        ResultRepr::from_error_parts_with_uuid(new_uuid(), code, message, extra)
    }
}

impl Clone for ResultRepr {
    fn clone(&self) -> (copy: ResultRepr)
        ensures
            copy@ == self@,
    {
        ResultRepr {
            uuid: self.uuid,
            retcode: self.retcode,
            stdout: self.stdout.clone(),
            stderr: self.stderr.clone(),
            retval: copy_values(&self.retval),
        }
    }
}

impl<'a, 'b> core::ops::Add<&'b ResultRepr> for &'a ResultRepr {
    type Output = ResultRepr;

    /// Combines two results into a new one: the identifier of `other`, the
    /// greater status code, each channel joined (absent where neither result
    /// has it), and the return values of both, those of `other` replacing
    /// those of `self` under the same key. Neither operand is changed.
    fn add(self, other: &'b ResultRepr) -> (sum: ResultRepr)
        ensures
            sum@ == combined(self@, other@),
    {
        let retcode = if self.retcode > other.retcode {
            self.retcode
        } else {
            other.retcode
        };
        let stdout = join_lines(&self.stdout, &other.stdout);
        let stderr = join_lines(&self.stderr, &other.stderr);
        let mut retval = copy_values(&self.retval);
        retval.merge(copy_values(&other.retval));
        ResultRepr { uuid: other.uuid, retcode, stdout, stderr, retval }
    }
}

impl<'a, 'b> vstd::std_specs::ops::AddSpecImpl<&'b ResultRepr> for &'a ResultRepr {
    open spec fn obeys_add_spec() -> bool {
        false
    }

    open spec fn add_req(self, other: &'b ResultRepr) -> bool {
        true
    }

    open spec fn add_spec(self, other: &'b ResultRepr) -> ResultRepr {
        arbitrary()
    }
}

} // verus!
