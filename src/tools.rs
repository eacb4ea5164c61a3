use vstd::prelude::*;

use crate::text::{is_white_space, lines_of, push_char, split_lines, views, white_space};

verus! {

/// What to do about a copy or a rename onto a target.
#[derive(Clone, Copy, Debug, PartialEq, Eq, Structural)]
pub enum Overwrite {
    /// Go ahead.
    Proceed,
    /// Ask the user first, and go ahead only on a yes.
    Ask,
    /// Leave the existing target alone.
    Skip,
}

/// The decision for a target that exists or not: a missing target is always
/// written; an existing one is kept under no-clobber, asked about when
/// interactive, and overwritten otherwise.
pub open spec fn overwrite_decision(target_exists: bool, no_clobber: bool, interactive: bool) -> Overwrite {
    if !target_exists {
        Overwrite::Proceed
    } else if no_clobber {
        Overwrite::Skip
    } else if interactive {
        Overwrite::Ask
    } else {
        Overwrite::Proceed
    }
}

/// Decides whether a target may be overwritten.
pub fn should_overwrite(target_exists: bool, no_clobber: bool, interactive: bool) -> (r: Overwrite)
    ensures
        r == overwrite_decision(target_exists, no_clobber, interactive),
{
    if !target_exists {
        return Overwrite::Proceed;
    }
    if no_clobber {
        return Overwrite::Skip;
    }
    if interactive {
        return Overwrite::Ask;
    }
    Overwrite::Proceed
}

/// A reply is a yes when its first character that is not white space is a
/// `y`, in either case.
pub open spec fn is_yes(reply: Seq<char>) -> bool {
    exists|i: int|
        0 <= i < reply.len() && (forall|j: int| 0 <= j < i ==> white_space(#[trigger] reply[j])) && (
        reply[i] == 'y' || reply[i] == 'Y')
}

/// Tests whether a reply to an overwrite prompt is a yes.
pub fn confirms(reply: &str) -> (r: bool)
    ensures
        r == is_yes(reply@),
{
    let mut leading: bool = true;
    let mut yes: bool = false;
    for c in it: reply.chars()
        invariant
            it.seq() == reply@,
            leading ==> !yes,
            leading ==> forall|j: int| 0 <= j < it.index() ==> white_space(#[trigger] reply@[j]),
            !leading ==> exists|i: int|
                0 <= i < it.index() && (forall|j: int| 0 <= j < i ==> white_space(#[trigger] reply@[j]))
                    && !white_space(reply@[i]) && yes == (reply@[i] == 'y' || reply@[i] == 'Y'),
    {
        if leading && !is_white_space(c) {
            leading = false;
            yes = c == 'y' || c == 'Y';
            assert(reply@[it.index() as int] == c);
        }
    }
    proof {
        if leading {
            assert(!is_yes(reply@));
        } else {
            let i = choose|i: int|
                0 <= i < reply@.len() && (forall|j: int| 0 <= j < i ==> white_space(#[trigger] reply@[j]))
                    && !white_space(reply@[i]) && yes == (reply@[i] == 'y' || reply@[i] == 'Y');
            if yes {
                assert(is_yes(reply@));
            } else {
                assert forall|k: int|
                    0 <= k < reply@.len() && (forall|j: int| 0 <= j < k ==> white_space(#[trigger] reply@[j]))
                    implies !(reply@[k] == 'y' || reply@[k] == 'Y') by {
                    if k > i {
                        assert(white_space(reply@[i]));
                    } else if k < i {
                        assert(white_space(reply@[k]));
                    }
                }
            }
        }
    }
    yes
}

/// The first `count` lines of a text, or all of them where it has fewer.
pub fn head_lines(text: &str, count: usize) -> (r: Vec<String>)
    ensures
        views(r@) == lines_of(text@).take(if count < lines_of(text@).len() {
            count as int
        } else {
            lines_of(text@).len() as int
        }),
{
    let mut lines = split_lines(text);
    if count < lines.len() {
        lines.truncate(count);
    }
    assert(views(lines@) =~= lines_of(text@).take(if count < lines_of(text@).len() {
        count as int
    } else {
        lines_of(text@).len() as int
    }));
    lines
}

/// The text that echoing `s` writes: `s`, followed by a line terminator unless
/// `no_newline`.
pub fn echo_text(s: &str, no_newline: bool) -> (r: String)
    ensures
        r@ == (if no_newline {
            s@
        } else {
            s@.push('\n')
        }),
{
    let mut out = String::new();
    out.append(s);
    if !no_newline {
        push_char(&mut out, '\n');
    }
    out
}

} // verus!
