//! Building a result field by field.
use crate::model::ResultView;
use crate::outside::new_uuid;
use crate::result::Result;
use crate::text::text_view;
use crate::value_map::ValueMap;
use serde_value::Value;
use uuid::Uuid;
use vstd::prelude::*;

verus! {

/// A result in the making. It starts from the defaults (a new identifier,
/// status code 0, no output on either channel, no return values); each
/// method replaces one field, in any order, and `build` hands out the result.
pub struct ResultBuilder {
    uuid: Uuid,
    retcode: u16,
    stdout: Option<String>,
    stderr: Option<String>,
    retval: ValueMap<Value>,
}

impl View for ResultBuilder {
    type V = ResultView<Value>;

    /// What the result would hold if it were built now.
    closed spec fn view(&self) -> ResultView<Value> {
        ResultView {
            uuid: self.uuid,
            retcode: self.retcode,
            stdout: text_view(self.stdout),
            stderr: text_view(self.stderr),
            retval: self.retval@,
        }
    }
}

impl Default for ResultBuilder {
    /// The builder of a success without output: a new random identifier,
    /// status code 0, both channels absent, no return values.
    fn default() -> (builder: ResultBuilder)
        ensures
            builder@.retcode == 0,
            builder@.stdout == None::<Seq<char>>,
            builder@.stderr == None::<Seq<char>>,
            builder@.retval == Map::<Seq<char>, Value>::empty(),
    {
        ResultBuilder::with_uuid(new_uuid())
    }
}

impl ResultBuilder {
    /// The builder of the success without output that has the given
    /// identifier: status code 0, both channels absent, no return values.
    pub fn with_uuid(uuid: Uuid) -> (builder: Self)
        ensures
            builder@ == (ResultView {
                uuid,
                retcode: 0,
                stdout: None,
                stderr: None,
                retval: Map::<Seq<char>, Value>::empty(),
            }),
    {
        ResultBuilder { uuid, retcode: 0, stdout: None, stderr: None, retval: ValueMap::new() }
    }

    /// Sets the identifier.
    pub fn uuid(self, uuid: Uuid) -> (builder: Self)
        ensures
            builder@ == (ResultView { uuid, ..self@ }),
    {
        ResultBuilder {
            uuid,
            retcode: self.retcode,
            stdout: self.stdout,
            stderr: self.stderr,
            retval: self.retval,
        }
    }

    /// Sets the status code.
    pub fn retcode(self, retcode: u16) -> (builder: Self)
        ensures
            builder@ == (ResultView { retcode, ..self@ }),
    {
        ResultBuilder {
            uuid: self.uuid,
            retcode,
            stdout: self.stdout,
            stderr: self.stderr,
            retval: self.retval,
        }
    }

    /// Sets what was written to the output channel.
    pub fn stdout(self, stdout: String) -> (builder: Self)
        ensures
            builder@ == (ResultView { stdout: Some(stdout@), ..self@ }),
    {
        ResultBuilder {
            uuid: self.uuid,
            retcode: self.retcode,
            stdout: Some(stdout),
            stderr: self.stderr,
            retval: self.retval,
        }
    }

    /// Sets what was written to the error channel.
    pub fn stderr(self, stderr: String) -> (builder: Self)
        ensures
            builder@ == (ResultView { stderr: Some(stderr@), ..self@ }),
    {
        ResultBuilder {
            uuid: self.uuid,
            retcode: self.retcode,
            stdout: self.stdout,
            stderr: Some(stderr),
            retval: self.retval,
        }
    }

    /// Sets the return values.
    pub fn retval(self, retval: ValueMap<Value>) -> (builder: Self)
        ensures
            builder@ == (ResultView { retval: retval@, ..self@ }),
    {
        ResultBuilder {
            uuid: self.uuid,
            retcode: self.retcode,
            stdout: self.stdout,
            stderr: self.stderr,
            retval,
        }
    }

    /// The result with the fields as they were set.
    pub fn build(self) -> (result: Result)
        ensures
            result@ == self@,
    {
        Result {
            uuid: self.uuid,
            retcode: self.retcode,
            stdout: self.stdout,
            stderr: self.stderr,
            retval: self.retval,
        }
    }
}

} // verus!
