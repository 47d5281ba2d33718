//! The results as plain values: what a result holds, when it stands for a
//! failure, how it is rendered and how two results combine, with the laws of
//! the combination.
use crate::outside::debug_quoted;
use crate::text::{joined, lemma_joined_associative, line_text};
use uuid::Uuid;
use vstd::prelude::*;

verus! {

/// What a result holds: its identifier, its status code, its two optional
/// output channels and its return values by key.
pub struct ResultView<V> {
    pub uuid: Uuid,
    pub retcode: u16,
    pub stdout: Option<Seq<char>>,
    pub stderr: Option<Seq<char>>,
    pub retval: Map<Seq<char>, V>,
}

/// A status code stands for a failure where it is 1, the code by which a
/// process reports that it failed, or at least 300, as the codes of HTTP that
/// are no success.
pub open spec fn is_error_code(code: u16) -> bool {
    code >= 300 || code == 1
}

/// The greater of two status codes.
pub open spec fn worst_code(first: u16, second: u16) -> u16 {
    if first > second {
        first
    } else {
        second
    }
}

/// An optional text with the empty text in place of an absent one.
pub open spec fn materialized(text: Option<Seq<char>>) -> Option<Seq<char>> {
    match text {
        Some(t) => Some(t),
        None => Some(Seq::empty()),
    }
}

/// The combination of two results: the identifier of the second, the greater
/// status code, each channel joined, and the return values of both, those of
/// the second replacing those of the first under the same key.
pub open spec fn combined<V>(first: ResultView<V>, second: ResultView<V>) -> ResultView<V> {
    ResultView {
        uuid: second.uuid,
        retcode: worst_code(first.retcode, second.retcode),
        stdout: joined(first.stdout, second.stdout),
        stderr: joined(first.stderr, second.stderr),
        retval: first.retval.union_prefer_right(second.retval),
    }
}

/// The combination of two results with both channels present: a channel that
/// is absent from both results is empty.
pub open spec fn combined_with_channels<V>(
    first: ResultView<V>,
    second: ResultView<V>,
) -> ResultView<V> {
    ResultView {
        uuid: second.uuid,
        retcode: worst_code(first.retcode, second.retcode),
        stdout: materialized(joined(first.stdout, second.stdout)),
        stderr: materialized(joined(first.stderr, second.stderr)),
        retval: first.retval.union_prefer_right(second.retval),
    }
}

/// An optional text with the text quoted as `{:?}` quotes a string.
pub open spec fn quoted(text: Option<Seq<char>>) -> Option<Seq<char>> {
    match text {
        Some(t) => Some(debug_quoted(t)),
        None => None,
    }
}

/// The line that renders a result. A failure shows the code and the error
/// channel, a success the code and the output channel; the other channel is
/// not shown.
pub open spec fn rendered<V>(result: ResultView<V>) -> Seq<char> {
    if is_error_code(result.retcode) {
        line_text(true, result.retcode, quoted(result.stderr))
    } else {
        line_text(false, result.retcode, quoted(result.stdout))
    }
}

/// A status code is a failure exactly where it is 1 or at least 300; 0 and
/// the codes from 2 to 299 are successes.
pub proof fn lemma_error_codes(code: u16)
    ensures
        is_error_code(code) <==> (code >= 300 || code == 1),
        !is_error_code(code) <==> (code == 0 || 2 <= code <= 299),
{
}

/// The status code of a combination is the maximum of the two codes.
pub proof fn lemma_combined_retcode<V>(first: ResultView<V>, second: ResultView<V>)
    ensures
        combined(first, second).retcode >= first.retcode,
        combined(first, second).retcode >= second.retcode,
        combined(first, second).retcode == first.retcode || combined(first, second).retcode
            == second.retcode,
        combined_with_channels(first, second).retcode == combined(first, second).retcode,
{
}

/// A combination has the identifier of its second operand.
pub proof fn lemma_combined_uuid<V>(first: ResultView<V>, second: ResultView<V>)
    ensures
        combined(first, second).uuid == second.uuid,
        combined_with_channels(first, second).uuid == second.uuid,
{
}

/// A combination holds the keys of both operands. Under a key of the second
/// operand it holds the value of the second, whatever the first holds there;
/// under a key of the first alone, the value of the first.
pub proof fn lemma_combined_retval<V>(
    first: ResultView<V>,
    second: ResultView<V>,
    key: Seq<char>,
)
    ensures
        combined(first, second).retval.contains_key(key) <==> first.retval.contains_key(key)
            || second.retval.contains_key(key),
        second.retval.contains_key(key) ==> combined(first, second).retval[key]
            == second.retval[key],
        first.retval.contains_key(key) && !second.retval.contains_key(key) ==> combined(
            first,
            second,
        ).retval[key] == first.retval[key],
        combined_with_channels(first, second).retval == combined(first, second).retval,
{
}

/// Where both operands hold a key, the combination holds the value of the
/// second operand under it.
pub proof fn lemma_combined_shared_key<V>(
    first: ResultView<V>,
    second: ResultView<V>,
    key: Seq<char>,
)
    requires
        first.retval.contains_key(key),
        second.retval.contains_key(key),
    ensures
        combined(first, second).retval.contains_key(key),
        combined(first, second).retval[key] == second.retval[key],
        combined_with_channels(first, second).retval[key] == second.retval[key],
{
}

/// The channels of a combination: a channel absent from both operands is
/// absent, one present in a single operand is taken as it is, and one
/// present in both is the first, a line feed and the second.
pub proof fn lemma_combined_channels<V>(first: ResultView<V>, second: ResultView<V>)
    ensures
        first.stdout is None && second.stdout is None ==> combined(first, second).stdout is None,
        first.stdout is Some && second.stdout is None ==> combined(first, second).stdout
            == first.stdout,
        first.stdout is None && second.stdout is Some ==> combined(first, second).stdout
            == second.stdout,
        first.stdout is Some && second.stdout is Some ==> combined(first, second).stdout == Some(
            first.stdout->0 + seq!['\n'] + second.stdout->0,
        ),
        first.stderr is None && second.stderr is None ==> combined(first, second).stderr is None,
        first.stderr is Some && second.stderr is None ==> combined(first, second).stderr
            == first.stderr,
        first.stderr is None && second.stderr is Some ==> combined(first, second).stderr
            == second.stderr,
        first.stderr is Some && second.stderr is Some ==> combined(first, second).stderr == Some(
            first.stderr->0 + seq!['\n'] + second.stderr->0,
        ),
{
}

/// Combining is associative where absent channels stay absent: a sequence
/// of results folds to the same result however its steps are grouped.
pub proof fn lemma_combined_associative<V>(
    first: ResultView<V>,
    second: ResultView<V>,
    third: ResultView<V>,
)
    ensures
        combined(combined(first, second), third) == combined(first, combined(second, third)),
{
    let left = combined(combined(first, second), third);
    let right = combined(first, combined(second, third));
    lemma_joined_associative(first.stdout, second.stdout, third.stdout);
    lemma_joined_associative(first.stderr, second.stderr, third.stderr);
    assert(left.retval =~= right.retval);
}

} // verus!
