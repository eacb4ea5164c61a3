use vstd::prelude::*;

verus! {

/// Whether `c` has the Unicode `White_Space` property.
pub open spec fn white_space(c: char) -> bool {
    ('\u{9}' <= c && c <= '\u{d}') || c == ' ' || c == '\u{85}' || c == '\u{a0}' || c
        == '\u{1680}' || ('\u{2000}' <= c && c <= '\u{200a}') || c == '\u{2028}' || c == '\u{2029}'
        || c == '\u{202f}' || c == '\u{205f}' || c == '\u{3000}'
}

/// A line is blank when nothing but white space is left after trimming it,
/// that is, when every character of it is white space.
pub open spec fn blank(line: Seq<char>) -> bool {
    forall|i: int| 0 <= i < line.len() ==> white_space(#[trigger] line[i])
}

/// Tests a character for the Unicode `White_Space` property.
pub fn is_white_space(c: char) -> (r: bool)
    ensures
        r == white_space(c),
{
    ('\u{9}' <= c && c <= '\u{d}') || c == ' ' || c == '\u{85}' || c == '\u{a0}' || c
        == '\u{1680}' || ('\u{2000}' <= c && c <= '\u{200a}') || c == '\u{2028}' || c == '\u{2029}'
        || c == '\u{202f}' || c == '\u{205f}' || c == '\u{3000}'
}

/// Tests whether a line is blank.
pub fn is_blank(line: &str) -> (r: bool)
    ensures
        r == blank(line@),
{
    let mut all: bool = true;
    for c in it: line.chars()
        invariant
            it.seq() == line@,
            all == (forall|i: int| 0 <= i < it.index() ==> white_space(#[trigger] line@[i])),
    {
        if !is_white_space(c) {
            all = false;
        }
    }
    all
}

/// Relies on `String::push`: appends one character at the end.
#[verifier::external_body]
pub(crate) fn push_char(s: &mut String, c: char)
    ensures
        final(s)@ == old(s)@.push(c),
{
    s.push(c);
}

/// The pieces of `s` between line terminators, in order: one more than the
/// terminators in `s`, the last one being what follows the last terminator.
pub open spec fn pieces(s: Seq<char>) -> Seq<Seq<char>>
    decreases s.len(),
{
    if s.len() == 0 {
        seq![Seq::empty()]
    } else {
        let p = pieces(s.drop_last());
        if s.last() == '\n' {
            p.push(Seq::empty())
        } else {
            p.update(p.len() - 1, p.last().push(s.last()))
        }
    }
}

/// The lines of `s`: its pieces, but for an empty last piece, which a final
/// terminator (or an empty text) leaves and which is no line.
pub open spec fn lines_of(s: Seq<char>) -> Seq<Seq<char>> {
    let p = pieces(s);
    if p.last().len() == 0 {
        p.drop_last()
    } else {
        p
    }
}

/// Each line followed by a line terminator, all joined.
pub open spec fn terminated(lines: Seq<Seq<char>>) -> Seq<char>
    decreases lines.len(),
{
    if lines.len() == 0 {
        Seq::empty()
    } else {
        terminated(lines.drop_last()) + lines.last().push('\n')
    }
}

/// What a sequence of strings holds.
pub open spec fn views(v: Seq<String>) -> Seq<Seq<char>> {
    v.map_values(|s: String| s@)
}

proof fn lemma_pieces_len(s: Seq<char>)
    ensures
        pieces(s).len() >= 1,
    decreases s.len(),
{
    if s.len() > 0 {
        lemma_pieces_len(s.drop_last());
    }
}

/// Splits a text into its lines at each line terminator; a final terminator
/// ends the last line and starts no new one.
pub fn split_lines(text: &str) -> (r: Vec<String>)
    ensures
        views(r@) == lines_of(text@),
{
    let mut out: Vec<String> = Vec::new();
    let mut cur = String::new();
    let ghost mut seen: Seq<char> = Seq::empty();
    for c in it: text.chars()
        invariant
            it.seq() == text@,
            seen == text@.take(it.index() as int),
            pieces(seen) == views(out@).push(cur@),
    {
        proof {
            lemma_pieces_len(seen);
        }
        let ghost before = seen;
        proof {
            seen = seen.push(c);
            assert(seen == text@.take(it.index() + 1));
            assert(seen.drop_last() == before);
        }
        if c == '\n' {
            out.push(cur);
            cur = String::new();
            assert(pieces(seen) =~= views(out@).push(cur@));
        } else {
            push_char(&mut cur, c);
            assert(pieces(seen) =~= views(out@).push(cur@));
        }
    }
    assert(seen =~= text@);
    if cur.as_str().unicode_len() > 0 {
        out.push(cur);
        assert(views(out@) =~= lines_of(text@));
    } else {
        assert(views(out@) =~= lines_of(text@));
    }
    out
}

} // verus!
