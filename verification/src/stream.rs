//! Assembly of a model's newline-delimited streaming response: each line is
//! a JSON object that may carry a `response` text fragment; the fragments
//! are concatenated in arrival order. A line that is not valid JSON, or
//! carries no text fragment, is framing noise and is skipped.
use crate::text::{lines_spec, split_lines};
use vstd::prelude::*;

verus! {

/// The text fragment a stream line carries, if any: what serde_json parses
/// out of the line's `response` field when the line is a JSON object whose
/// `response` field holds a string.
pub uninterp spec fn response_fragment(line: Seq<char>) -> Option<Seq<char>>;

/// Relies on serde_json's `from_str` and `Value::{get, as_str}`: the
/// fragment is a function of the line's text alone. A line that does not
/// parse, has no `response` field, or holds one that is not a string,
/// yields nothing.
#[verifier::external_body]
fn parse_fragment(line: &str) -> (r: Option<String>)
    ensures
        r matches Some(s) ==> response_fragment(line@) matches Some(f) && s@ == f,
        r is None ==> response_fragment(line@) is None,
{
    match serde_json::from_str::<serde_json::Value>(line) {
        Ok(v) => match v.get("response") {
            Some(t) => t.as_str().map(|s| s.to_string()),
            None => None,
        },
        Err(_) => None,
    }
}

/// The fragments of the lines, concatenated in order; lines without a
/// fragment contribute nothing.
pub open spec fn assembled(lines: Seq<Seq<char>>) -> Seq<char>
    decreases lines.len(),
{
    if lines.len() == 0 {
        Seq::empty()
    } else {
        assembled(lines.drop_last()) + match response_fragment(lines.last()) {
            Option::Some(f) => f,
            Option::None => Seq::empty(),
        }
    }
}

proof fn lemma_assembled_take_step(lines: Seq<Seq<char>>, i: int)
    requires
        0 <= i < lines.len(),
    ensures
        assembled(lines.take(i + 1)) == assembled(lines.take(i)) + match response_fragment(
            lines[i],
        ) {
            Option::Some(f) => f,
            Option::None => Seq::<char>::empty(),
        },
{
    assert(lines.take(i + 1).drop_last() =~= lines.take(i));
    assert(lines.take(i + 1).last() == lines[i]);
}

/// Concatenate the text fragments of the given stream lines, in order.
pub fn assemble_stream(lines: &Vec<String>) -> (r: String)
    ensures
        r@ == assembled(lines.deep_view()),
{
    let mut out = String::new();
    proof {
        assert(lines.deep_view().take(0) =~= Seq::<Seq<char>>::empty());
    }
    let n = lines.len();
    let mut i: usize = 0;
    while i < n
        invariant
            i <= n,
            n == lines.len(),
            lines.deep_view().len() == n,
            out@ == assembled(lines.deep_view().take(i as int)),
        decreases n - i,
    {
        proof {
            lemma_assembled_take_step(lines.deep_view(), i as int);
            assert(lines.deep_view()[i as int] == lines@[i as int]@);
        }
        match parse_fragment(lines[i].as_str()) {
            Some(f) => {
                out.append(f.as_str());
            },
            None => {
                proof {
                    assert(out@ + Seq::<char>::empty() =~= out@);
                }
            },
        }
        i = i + 1;
    }
    proof {
        assert(lines.deep_view().take(n as int) =~= lines.deep_view());
    }
    out
}

/// Assemble the full completion from a whole response body: the body is
/// split into lines and the fragments are concatenated in arrival order.
pub fn assemble_body(body: &str) -> (r: String)
    ensures
        r@ == assembled(lines_spec(body@)),
{
    let lines = split_lines(body);
    assemble_stream(&lines)
}

} // verus!
