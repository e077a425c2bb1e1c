//! Character-level string utilities: equality, prefix and suffix tests,
//! line splitting and joining, whitespace trimming and decimal rendering.
use vstd::prelude::*;

verus! {

/// A sequence starts with the given prefix.
pub open spec fn starts_with(s: Seq<char>, p: Seq<char>) -> bool {
    p.len() <= s.len() && s.subrange(0, p.len() as int) == p
}

/// A sequence ends with the given suffix.
pub open spec fn ends_with(s: Seq<char>, p: Seq<char>) -> bool {
    p.len() <= s.len() && s.subrange(s.len() - p.len(), s.len() as int) == p
}

/// Character-by-character string equality.
pub fn str_eq(a: &str, b: &str) -> (r: bool)
    ensures
        r == (a@ == b@),
{
    let alen = a.unicode_len();
    let blen = b.unicode_len();
    if alen != blen {
        proof {
            assert(a@ != b@) by {
                if a@ == b@ {
                    assert(a@.len() == b@.len());
                }
            }
        }
        return false;
    }
    let mut i: usize = 0;
    while i < alen
        invariant
            i <= alen,
            alen == a@.len(),
            alen == b@.len(),
            forall|j: int| 0 <= j < i ==> a@[j] == b@[j],
        decreases alen - i,
    {
        if a.get_char(i) != b.get_char(i) {
            return false;
        }
        i = i + 1;
    }
    proof {
        assert(a@ =~= b@);
    }
    true
}

/// Whether the string starts with the given prefix.
pub fn str_starts_with(s: &str, p: &str) -> (r: bool)
    ensures
        r == starts_with(s@, p@),
{
    let plen = p.unicode_len();
    let slen = s.unicode_len();
    if plen > slen {
        return false;
    }
    let head = s.substring_char(0, plen);
    str_eq(head, p)
}

/// Whether the string ends with the given suffix.
pub fn str_ends_with(s: &str, p: &str) -> (r: bool)
    ensures
        r == ends_with(s@, p@),
{
    let plen = p.unicode_len();
    let slen = s.unicode_len();
    if plen > slen {
        return false;
    }
    let tail = s.substring_char(slen - plen, slen);
    str_eq(tail, p)
}


/// Index of the first newline character, or the length when there is none.
pub open spec fn first_nl(s: Seq<char>) -> int
    decreases s.len(),
{
    if s.len() == 0 {
        0
    } else if s[0] == '\n' {
        0
    } else {
        1 + first_nl(s.drop_first())
    }
}

/// A line with its trailing carriage return removed, as the line-splitting
/// convention of `str::lines` demands for lines that end in `\r\n`.
pub open spec fn chop_cr(l: Seq<char>) -> Seq<char> {
    if l.len() > 0 && l.last() == '\r' {
        l.drop_last()
    } else {
        l
    }
}

/// The lines of a text: pieces split at `\n`, each stripped of a trailing
/// `\r`, with no final empty piece after a trailing newline. This matches
/// the splitting convention of `str::lines`.
pub open spec fn lines_spec(s: Seq<char>) -> Seq<Seq<char>>
    decreases s.len(),
{
    if s.len() == 0 {
        Seq::empty()
    } else {
        let i = first_nl(s);
        if i == s.len() {
            seq![s]
        } else {
            proof {
                lemma_first_nl_bounds(s);
            }
            seq![chop_cr(s.take(i))] + lines_spec(s.skip(i + 1))
        }
    }
}

pub proof fn lemma_first_nl_bounds(s: Seq<char>)
    ensures
        0 <= first_nl(s) <= s.len(),
        forall|j: int| 0 <= j < first_nl(s) ==> s[j] != '\n',
        first_nl(s) < s.len() ==> s[first_nl(s)] == '\n',
    decreases s.len(),
{
    if s.len() > 0 && s[0] != '\n' {
        lemma_first_nl_bounds(s.drop_first());
        assert forall|j: int| 0 <= j < first_nl(s) implies s[j] != '\n' by {
            if j > 0 {
                assert(s.drop_first()[j - 1] == s[j]);
            }
        }
    }
}

/// The first newline is exactly at `i` when nothing before `i` is a newline
/// and `i` is either a newline or the end.
pub proof fn lemma_first_nl_is(s: Seq<char>, i: int)
    requires
        0 <= i <= s.len(),
        forall|j: int| 0 <= j < i ==> s[j] != '\n',
        i < s.len() ==> s[i] == '\n',
    ensures
        first_nl(s) == i,
    decreases s.len(),
{
    if s.len() > 0 && s[0] != '\n' {
        lemma_first_nl_is(s.drop_first(), i - 1);
    }
}


/// Splitting off one full line: when nothing in `[start, i)` is a newline
/// and `i` is one, the lines of the tail at `start` are that piece followed
/// by the lines of the tail after `i`.
proof fn lemma_lines_step(s: Seq<char>, start: int, i: int)
    requires
        0 <= start <= i < s.len(),
        forall|j: int| start <= j < i ==> s[j] != '\n',
        s[i] == '\n',
    ensures
        lines_spec(s.skip(start)) == seq![chop_cr(s.subrange(start, i))] + lines_spec(
            s.skip(i + 1),
        ),
{
    let t = s.skip(start);
    assert(forall|j: int| 0 <= j < i - start ==> t[j] != '\n');
    lemma_first_nl_is(t, i - start);
    assert(t.take(i - start) =~= s.subrange(start, i));
    assert(t.skip(i - start + 1) =~= s.skip(i + 1));
}

/// When nothing from `start` to the end is a newline, the tail at `start`
/// is a single line, or no line at all if it is empty.
proof fn lemma_lines_tail(s: Seq<char>, start: int)
    requires
        0 <= start <= s.len(),
        forall|j: int| start <= j < s.len() ==> s[j] != '\n',
    ensures
        start == s.len() ==> lines_spec(s.skip(start)) == Seq::<Seq<char>>::empty(),
        start < s.len() ==> lines_spec(s.skip(start)) == seq![s.subrange(start, s.len() as int)],
{
    let t = s.skip(start);
    if start < s.len() {
        assert(forall|j: int| 0 <= j < t.len() ==> t[j] != '\n');
        lemma_first_nl_is(t, t.len() as int);
        assert(t =~= s.subrange(start, s.len() as int));
    }
}

/// The lines of the string, in order, as `str::lines` yields them.
pub fn split_lines(s: &str) -> (lines: Vec<String>)
    ensures
        lines.deep_view() == lines_spec(s@),
{
    let len = s.unicode_len();
    let mut lines: Vec<String> = Vec::new();
    let mut start: usize = 0;
    let mut i: usize = 0;
    proof {
        assert(s@.skip(0) =~= s@);
    }
    while i < len
        invariant
            start <= i <= len,
            len == s@.len(),
            forall|j: int| start <= j < i ==> s@[j] != '\n',
            lines_spec(s@) == lines.deep_view() + lines_spec(s@.skip(start as int)),
        decreases len - i,
    {
        if s.get_char(i) == '\n' {
            let end = if i > start && s.get_char(i - 1) == '\r' {
                i - 1
            } else {
                i
            };
            let piece = s.substring_char(start, end).to_owned();
            proof {
                lemma_lines_step(s@, start as int, i as int);
                assert(chop_cr(s@.subrange(start as int, i as int)) =~= s@.subrange(
                    start as int,
                    end as int,
                ));
                assert(lines.deep_view().push(piece@) =~= lines.deep_view() + seq![piece@]);
            }
            let ghost old_lines = lines.deep_view();
            lines.push(piece);
            proof {
                assert(lines.deep_view() =~= old_lines.push(piece@));
                assert(lines.deep_view() + lines_spec(s@.skip(i + 1)) =~= lines_spec(s@));
            }
            start = i + 1;
        }
        i = i + 1;
    }
    if start < len {
        let piece = s.substring_char(start, len).to_owned();
        proof {
            lemma_lines_tail(s@, start as int);
        }
        let ghost old_lines = lines.deep_view();
        lines.push(piece);
        proof {
            assert(lines.deep_view() =~= old_lines.push(piece@));
            assert(lines.deep_view() =~= old_lines + seq![piece@]);
        }
    } else {
        proof {
            lemma_lines_tail(s@, start as int);
        }
    }
    proof {
        assert(lines.deep_view() =~= lines.deep_view() + Seq::<Seq<char>>::empty());
    }
    lines
}

/// Lines joined with a single newline between them.
pub open spec fn join_nl(ls: Seq<Seq<char>>) -> Seq<char>
    decreases ls.len(),
{
    if ls.len() == 0 {
        Seq::empty()
    } else if ls.len() == 1 {
        ls[0]
    } else {
        ls[0] + seq!['\n'] + join_nl(ls.drop_first())
    }
}

/// Joining one more line appends a separator exactly when lines came before.
pub proof fn lemma_join_nl_push(ls: Seq<Seq<char>>, x: Seq<char>)
    ensures
        ls.len() == 0 ==> join_nl(ls.push(x)) == x,
        ls.len() > 0 ==> join_nl(ls.push(x)) == join_nl(ls) + seq!['\n'] + x,
    decreases ls.len(),
{
    if ls.len() == 0 {
        assert(ls.push(x) =~= seq![x]);
        assert(join_nl(seq![x]) == x);
    } else {
        lemma_join_nl_push(ls.drop_first(), x);
        assert(ls.push(x).drop_first() =~= ls.drop_first().push(x));
        assert(ls.push(x)[0] == ls[0]);
        if ls.len() == 1 {
            assert(ls.drop_first().len() == 0);
            assert(join_nl(ls.push(x)) == ls[0] + seq!['\n'] + x);
            assert(join_nl(ls) == ls[0]);
        } else {
            assert(join_nl(ls.push(x)) == ls[0] + seq!['\n'] + (join_nl(ls.drop_first()) + seq![
                '\n',
            ] + x));
            assert(ls[0] + seq!['\n'] + (join_nl(ls.drop_first()) + seq!['\n'] + x) =~= (ls[0]
                + seq!['\n'] + join_nl(ls.drop_first())) + seq!['\n'] + x);
        }
    }
}

/// Whitespace characters, as Rust's `char::is_whitespace` defines them
/// (the Unicode White_Space property).
pub open spec fn is_ws(c: char) -> bool {
    c == ' ' || c == '\t' || c == '\n' || c == '\u{000B}' || c == '\u{000C}' || c == '\r' || c
        == '\u{0085}' || c == '\u{00A0}' || c == '\u{1680}' || (c >= '\u{2000}' && c
        <= '\u{200A}') || c == '\u{2028}' || c == '\u{2029}' || c == '\u{202F}' || c
        == '\u{205F}' || c == '\u{3000}'
}

/// Executable test for `is_ws`.
pub fn is_ws_char(c: char) -> (r: bool)
    ensures
        r == is_ws(c),
{
    c == ' ' || c == '\t' || c == '\n' || c == '\u{000B}' || c == '\u{000C}' || c == '\r' || c
        == '\u{0085}' || c == '\u{00A0}' || c == '\u{1680}' || (c >= '\u{2000}' && c
        <= '\u{200A}') || c == '\u{2028}' || c == '\u{2029}' || c == '\u{202F}' || c
        == '\u{205F}' || c == '\u{3000}'
}

/// Index of the first character that is not whitespace, or the length.
pub open spec fn first_non_ws(l: Seq<char>) -> int
    decreases l.len(),
{
    if l.len() == 0 {
        0
    } else if !is_ws(l[0]) {
        0
    } else {
        1 + first_non_ws(l.drop_first())
    }
}

/// End of the text once trailing whitespace is dropped.
pub open spec fn ws_trim_end(l: Seq<char>) -> int
    decreases l.len(),
{
    if l.len() == 0 {
        0
    } else if !is_ws(l.last()) {
        l.len() as int
    } else {
        ws_trim_end(l.drop_last())
    }
}

/// The text with leading and trailing whitespace removed, as `str::trim`.
pub open spec fn trim_spec(l: Seq<char>) -> Seq<char> {
    let a = first_non_ws(l);
    let b = ws_trim_end(l);
    if a <= b {
        l.subrange(a, b)
    } else {
        Seq::empty()
    }
}

pub proof fn lemma_first_non_ws_bounds(l: Seq<char>)
    ensures
        0 <= first_non_ws(l) <= l.len(),
        forall|j: int| 0 <= j < first_non_ws(l) ==> is_ws(l[j]),
        first_non_ws(l) < l.len() ==> !is_ws(l[first_non_ws(l)]),
    decreases l.len(),
{
    if l.len() > 0 && is_ws(l[0]) {
        lemma_first_non_ws_bounds(l.drop_first());
        assert forall|j: int| 0 <= j < first_non_ws(l) implies is_ws(l[j]) by {
            if j > 0 {
                assert(l.drop_first()[j - 1] == l[j]);
            }
        }
    }
}

pub proof fn lemma_ws_trim_end_bounds(l: Seq<char>)
    ensures
        0 <= ws_trim_end(l) <= l.len(),
        forall|j: int| ws_trim_end(l) <= j < l.len() ==> is_ws(l[j]),
        ws_trim_end(l) > 0 ==> !is_ws(l[ws_trim_end(l) - 1]),
    decreases l.len(),
{
    if l.len() > 0 && is_ws(l.last()) {
        lemma_ws_trim_end_bounds(l.drop_last());
        assert forall|j: int| ws_trim_end(l) <= j < l.len() implies is_ws(l[j]) by {
            if j < l.len() - 1 {
                assert(l.drop_last()[j] == l[j]);
            }
        }
    }
}

/// The first index without whitespace is exactly `a` when everything before
/// is whitespace and `a` is not, or is the end.
pub proof fn lemma_first_non_ws_is(l: Seq<char>, a: int)
    requires
        0 <= a <= l.len(),
        forall|j: int| 0 <= j < a ==> is_ws(l[j]),
        a < l.len() ==> !is_ws(l[a]),
    ensures
        first_non_ws(l) == a,
    decreases l.len(),
{
    if l.len() > 0 && is_ws(l[0]) {
        lemma_first_non_ws_is(l.drop_first(), a - 1);
    }
}

/// A line counts as documentation when its trimmed text starts with the
/// single-line comment marker `//`.
pub open spec fn is_doc_line(l: Seq<char>) -> bool {
    starts_with(trim_spec(l), seq!['/', '/'])
}

/// Executable test for `is_doc_line`: the first two non-whitespace
/// characters are both `/`.
pub fn is_doc_line_str(l: &str) -> (r: bool)
    ensures
        r == is_doc_line(l@),
{
    proof {
        lemma_first_non_ws_bounds(l@);
        lemma_ws_trim_end_bounds(l@);
    }
    let len = l.unicode_len();
    let mut a: usize = 0;
    while a < len && is_ws_char(l.get_char(a))
        invariant
            a <= len,
            len == l@.len(),
            forall|j: int| 0 <= j < a ==> is_ws(l@[j]),
        decreases len - a,
    {
        a = a + 1;
    }
    proof {
        lemma_first_non_ws_is(l@, a as int);
        lemma_ws_trim_end_bounds(l@);
    }
    let ghost b = ws_trim_end(l@);
    if a < len && a + 1 < len && l.get_char(a) == '/' && l.get_char(a + 1) == '/' {
        proof {
            assert(!is_ws('/'));
            assert(b >= a + 2) by {
                if b < a + 2 {
                    assert(is_ws(l@[a + 1]));
                }
            }
            assert(trim_spec(l@).len() >= 2);
            assert(trim_spec(l@).subrange(0, 2) =~= seq!['/', '/']);
        }
        true
    } else {
        proof {
            if starts_with(trim_spec(l@), seq!['/', '/']) {
                let t = trim_spec(l@);
                assert(t.len() >= 2);
                assert(t.subrange(0, 2) == seq!['/', '/']);
                assert(t[0] == '/' && t[1] == '/');
                if a as int == len as int {
                    assert(t.len() == 0);
                }
                assert(t[0] == l@[a as int]);
                assert(t[1] == l@[a + 1]);
            }
        }
        false
    }
}

/// The pattern occurs at position `i`.
pub open spec fn occurs_at(s: Seq<char>, p: Seq<char>, i: int) -> bool {
    0 <= i && i + p.len() <= s.len() && s.subrange(i, i + p.len()) == p
}

/// The pattern occurs somewhere in the text.
pub open spec fn contains_sub(s: Seq<char>, p: Seq<char>) -> bool {
    exists|i: int| occurs_at(s, p, i)
}

/// Substring search, as `str::contains`.
pub fn str_contains(s: &str, p: &str) -> (r: bool)
    ensures
        r == contains_sub(s@, p@),
{
    let slen = s.unicode_len();
    let plen = p.unicode_len();
    if plen > slen {
        proof {
            assert forall|i: int| !occurs_at(s@, p@, i) by {}
        }
        return false;
    }
    if plen == 0 {
        proof {
            assert(s@.subrange(0, 0) =~= p@);
            assert(occurs_at(s@, p@, 0));
        }
        return true;
    }
    let mut i: usize = 0;
    while i <= slen - plen
        invariant
            plen == p@.len(),
            slen == s@.len(),
            0 < plen <= slen,
            i <= slen - plen + 1,
            forall|k: int| 0 <= k < i ==> !occurs_at(s@, p@, k),
        decreases slen - plen + 1 - i,
    {
        let piece = s.substring_char(i, i + plen);
        if str_eq(piece, p) {
            proof {
                assert(occurs_at(s@, p@, i as int));
            }
            return true;
        }
        i = i + 1;
    }
    proof {
        assert forall|k: int| !occurs_at(s@, p@, k) by {
            if k >= i {
                assert(k + p@.len() > s@.len());
            }
        }
    }
    false
}

/// No more lines can be kept than there are.
pub proof fn lemma_doc_lines_len(ls: Seq<Seq<char>>)
    ensures
        doc_lines(ls).len() <= ls.len(),
    decreases ls.len(),
{
    if ls.len() > 0 {
        lemma_doc_lines_len(ls.drop_last());
    }
}

/// The filtered lines that count as documentation, in order.
pub open spec fn doc_lines(ls: Seq<Seq<char>>) -> Seq<Seq<char>>
    decreases ls.len(),
{
    if ls.len() == 0 {
        Seq::empty()
    } else if is_doc_line(ls.last()) {
        doc_lines(ls.drop_last()).push(ls.last())
    } else {
        doc_lines(ls.drop_last())
    }
}

pub proof fn lemma_doc_lines_take_step(ls: Seq<Seq<char>>, i: int)
    requires
        0 <= i < ls.len(),
    ensures
        is_doc_line(ls[i]) ==> doc_lines(ls.take(i + 1)) == doc_lines(ls.take(i)).push(ls[i]),
        !is_doc_line(ls[i]) ==> doc_lines(ls.take(i + 1)) == doc_lines(ls.take(i)),
{
    assert(ls.take(i + 1).drop_last() =~= ls.take(i));
    assert(ls.take(i + 1).last() == ls[i]);
}

/// Keep only the documentation-style lines of a text and join them with
/// newlines, as the comment extraction step of the documentation pipeline
/// does.
pub fn filter_doc_lines(lines: &Vec<String>) -> (r: String)
    ensures
        r@ == join_nl(doc_lines(lines.deep_view())),
{
    let mut out = String::new();
    let mut kept: usize = 0;
    let n = lines.len();
    proof {
        assert(lines.deep_view().take(0) =~= Seq::<Seq<char>>::empty());
    }
    let mut i: usize = 0;
    while i < n
        invariant
            i <= n,
            n == lines.len(),
            lines.deep_view().len() == n,
            out@ == join_nl(doc_lines(lines.deep_view().take(i as int))),
            kept == doc_lines(lines.deep_view().take(i as int)).len(),
        decreases n - i,
    {
        let line = &lines[i];
        proof {
            lemma_doc_lines_take_step(lines.deep_view(), i as int);
            lemma_doc_lines_len(lines.deep_view().take(i as int));
            assert(lines.deep_view()[i as int] == line@);
        }
        if is_doc_line_str(line.as_str()) {
            proof {
                lemma_join_nl_push(doc_lines(lines.deep_view().take(i as int)), line@);
            }
            if kept > 0 {
                out.append("\n");
                proof {
                    reveal_strlit("\n");
                    assert(("\n")@ =~= seq!['\n']);
                }
            }
            out.append(line.as_str());
            kept = kept + 1;
        }
        i = i + 1;
    }
    proof {
        assert(lines.deep_view().take(n as int) =~= lines.deep_view());
    }
    out
}

/// The first `n` lines, or all of them if there are fewer.
pub open spec fn first_n<A>(ls: Seq<A>, n: int) -> Seq<A> {
    if ls.len() <= n {
        ls
    } else {
        ls.take(n)
    }
}

/// Join the first `n` of the given lines with newlines.
pub fn join_first_n(lines: &Vec<String>, n: usize) -> (r: String)
    ensures
        r@ == join_nl(first_n(lines.deep_view(), n as int)),
{
    let m = if lines.len() < n {
        lines.len()
    } else {
        n
    };
    let mut out = String::new();
    proof {
        assert(lines.deep_view().take(0) =~= Seq::<Seq<char>>::empty());
    }
    let mut i: usize = 0;
    while i < m
        invariant
            i <= m,
            m <= lines.len(),
            m == if lines.deep_view().len() < n { lines.deep_view().len() as int } else {
                n as int
            },
            lines.deep_view().len() == lines.len(),
            out@ == join_nl(lines.deep_view().take(i as int)),
        decreases m - i,
    {
        let line = &lines[i];
        proof {
            assert(lines.deep_view().take(i + 1).drop_last() =~= lines.deep_view().take(i as int));
            assert(lines.deep_view().take(i + 1).last() == line@);
            lemma_join_nl_push(lines.deep_view().take(i as int), line@);
            assert(lines.deep_view().take(i as int).push(line@) =~= lines.deep_view().take(i + 1));
        }
        if i > 0 {
            out.append("\n");
            proof {
                reveal_strlit("\n");
                assert(("\n")@ =~= seq!['\n']);
            }
        }
        out.append(line.as_str());
        i = i + 1;
    }
    proof {
        assert(lines.deep_view().take(m as int) =~= first_n(lines.deep_view(), n as int));
    }
    out
}

/// The decimal digit for a value below ten.
pub open spec fn digit_char(d: int) -> char {
    if d == 0 {
        '0'
    } else if d == 1 {
        '1'
    } else if d == 2 {
        '2'
    } else if d == 3 {
        '3'
    } else if d == 4 {
        '4'
    } else if d == 5 {
        '5'
    } else if d == 6 {
        '6'
    } else if d == 7 {
        '7'
    } else if d == 8 {
        '8'
    } else {
        '9'
    }
}

/// The decimal rendering of a non-negative integer, most significant digit
/// first.
pub open spec fn dec_str(n: int) -> Seq<char>
    decreases n,
{
    if n < 10 {
        seq![digit_char(n)]
    } else {
        dec_str(n / 10).push(digit_char(n % 10))
    }
}

fn digit_literal(d: u64) -> (r: &'static str)
    requires
        d < 10,
    ensures
        r@ == seq![digit_char(d as int)],
{
    let r = match d {
        0 => "0",
        1 => "1",
        2 => "2",
        3 => "3",
        4 => "4",
        5 => "5",
        6 => "6",
        7 => "7",
        8 => "8",
        _ => "9",
    };
    proof {
        reveal_strlit("0");
        reveal_strlit("1");
        reveal_strlit("2");
        reveal_strlit("3");
        reveal_strlit("4");
        reveal_strlit("5");
        reveal_strlit("6");
        reveal_strlit("7");
        reveal_strlit("8");
        reveal_strlit("9");
        assert(r@ =~= seq![digit_char(d as int)]);
    }
    r
}

/// The decimal rendering of `n`.
pub fn u64_to_dec(n: u64) -> (r: String)
    ensures
        r@ == dec_str(n as int),
    decreases n,
{
    if n < 10 {
        digit_literal(n).to_owned()
    } else {
        proof {
            assert(n / 10 < n) by (nonlinear_arith)
                requires
                    n >= 10,
            ;
        }
        let mut s = u64_to_dec(n / 10);
        s.append(digit_literal(n % 10));
        proof {
            assert(dec_str((n / 10) as int) + seq![digit_char((n % 10) as int)] =~= dec_str(
                (n / 10) as int,
            ).push(digit_char((n % 10) as int)));
        }
        s
    }
}

} // verus!
