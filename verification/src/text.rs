//! Text that the results are made of: joined output channels, decimal
//! numbers and the one-line rendering.
use vstd::prelude::*;
use vstd::string::StringExecFns;

verus! {

/// The characters of an optional string.
pub open spec fn text_view(text: Option<String>) -> Option<Seq<char>> {
    match text {
        Some(t) => Some(t@),
        None => None,
    }
}

/// Two optional texts as one: absent where both are absent, the one that is
/// present where only one is, and otherwise the first, a line feed and the
/// second.
pub open spec fn joined(first: Option<Seq<char>>, second: Option<Seq<char>>) -> Option<
    Seq<char>,
> {
    match (first, second) {
        (None, None) => None,
        (Some(a), None) => Some(a),
        (None, Some(b)) => Some(b),
        (Some(a), Some(b)) => Some(a + seq!['\n'] + b),
    }
}

/// Joining optional texts is associative.
pub proof fn lemma_joined_associative(
    first: Option<Seq<char>>,
    second: Option<Seq<char>>,
    third: Option<Seq<char>>,
)
    ensures
        joined(joined(first, second), third) == joined(first, joined(second, third)),
{
    if let (Some(a), Some(b), Some(c)) = (first, second, third) {
        assert((a + seq!['\n'] + b) + seq!['\n'] + c =~= a + seq!['\n'] + (b + seq!['\n'] + c));
    }
}

/// Joins two optional texts as `joined` says.
pub fn join_lines(first: &Option<String>, second: &Option<String>) -> (text: Option<String>)
    ensures
        text_view(text) == joined(text_view(*first), text_view(*second)),
{
    match (first, second) {
        (None, None) => None,
        (Some(a), None) => Some(a.clone()),
        (None, Some(b)) => Some(b.clone()),
        (Some(a), Some(b)) => {
            let mut text = a.clone();
            proof {
                reveal_strlit("\n");
            }
            text.append("\n");
            text.append(b.as_str());
            assert(text@ =~= a@ + seq!['\n'] + b@);
            Some(text)
        },
    }
}

/// The character of a decimal digit.
pub open spec fn digit(d: nat) -> char {
    if d == 0 {
        '0'
    } else if d == 1 {
        '1'
    } else if d == 2 {
        '2'
    } else if d == 3 {
        '3'
    } else if d == 4 {
        '4'
    } else if d == 5 {
        '5'
    } else if d == 6 {
        '6'
    } else if d == 7 {
        '7'
    } else if d == 8 {
        '8'
    } else {
        '9'
    }
}

/// A number in decimal, without leading zeros.
pub open spec fn decimal(n: nat) -> Seq<char>
    decreases n,
{
    if n < 10 {
        seq![digit(n)]
    } else {
        decimal(n / 10).push(digit(n % 10))
    }
}

fn digit_text(d: u16) -> (text: &'static str)
    requires
        d < 10,
    ensures
        text@ == seq![digit(d as nat)],
{
    proof {
        reveal_strlit("0");
        reveal_strlit("1");
        reveal_strlit("2");
        reveal_strlit("3");
        reveal_strlit("4");
        reveal_strlit("5");
        reveal_strlit("6");
        reveal_strlit("7");
        reveal_strlit("8");
        reveal_strlit("9");
    }
    let text = if d == 0 {
        "0"
    } else if d == 1 {
        "1"
    } else if d == 2 {
        "2"
    } else if d == 3 {
        "3"
    } else if d == 4 {
        "4"
    } else if d == 5 {
        "5"
    } else if d == 6 {
        "6"
    } else if d == 7 {
        "7"
    } else if d == 8 {
        "8"
    } else {
        "9"
    };
    assert(text@ =~= seq![digit(d as nat)]);
    text
}

/// Writes a number in decimal.
pub fn decimal_string(n: u16) -> (text: String)
    ensures
        text@ == decimal(n as nat),
    decreases n,
{
    if n < 10 {
        String::from_str(digit_text(n))
    } else {
        let mut text = decimal_string(n / 10);
        text.append(digit_text(n % 10));
        assert(text@ =~= decimal(n as nat / 10).push(digit(n as nat % 10)));
        text
    }
}

/// How an optional text is written once the text itself has been quoted:
/// `None`, or the quoted text inside `Some(` and `)`.
pub open spec fn option_text(quoted: Option<Seq<char>>) -> Seq<char> {
    match quoted {
        None => "None"@,
        Some(q) => "Some("@ + q + ")"@,
    }
}

/// The line that renders a result: for an error `Result: Err(`, the code,
/// `, stderr: `, the error channel and `)`; otherwise the same with `Ok` and
/// `stdout`. `quoted` is the channel that is shown, its text already quoted.
pub open spec fn line_text(error: bool, retcode: u16, quoted: Option<Seq<char>>) -> Seq<char> {
    if error {
        "Result: Err("@ + decimal(retcode as nat) + ", stderr: "@ + option_text(quoted) + ")"@
    } else {
        "Result: Ok("@ + decimal(retcode as nat) + ", stdout: "@ + option_text(quoted) + ")"@
    }
}

/// Writes the line that renders a result from its parts.
pub fn render_line(error: bool, retcode: u16, quoted: Option<&str>) -> (line: String)
    ensures
        line@ == line_text(
            error,
            retcode,
            match quoted {
                Some(q) => Some(q@),
                None => None,
            },
        ),
{
    let mut line = if error {
        String::from_str("Result: Err(")
    } else {
        String::from_str("Result: Ok(")
    };
    let code = decimal_string(retcode);
    line.append(code.as_str());
    if error {
        line.append(", stderr: ");
    } else {
        line.append(", stdout: ");
    }
    let ghost head = line@;
    match quoted {
        Some(q) => {
            line.append("Some(");
            line.append(q);
            line.append(")");
            assert(line@ =~= head + ("Some("@ + q@ + ")"@));
        },
        None => {
            line.append("None");
        },
    }
    line.append(")");
    line
}

} // verus!
