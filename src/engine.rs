use vstd::prelude::*;

use crate::number::{format_number, number_field};
use crate::text::{blank, is_blank, lines_of, push_char, split_lines, views};

verus! {

/// How lines are transformed: three independent switches. Numbering the
/// non-blank lines takes precedence over numbering all of them.
#[derive(Clone, Copy, Debug, PartialEq, Eq)]
pub struct Config {
    pub number_non_blank: bool,
    pub number_all: bool,
    pub squeeze: bool,
}

/// What the engine carries from one line to the next within one input:
/// whether the previous line was blank, and how many lines have advanced the
/// line counter (the counter itself is one more).
#[derive(Clone, Copy, Debug, PartialEq, Eq)]
pub struct LineState {
    pub prev_blank: bool,
    pub counted: u64,
}

/// A blank line that follows a blank line is dropped when squeezing.
pub open spec fn drops(cfg: Config, prev_blank: bool, line: Seq<char>) -> bool {
    cfg.squeeze && prev_blank && blank(line)
}

/// Whether an emitted line carries its number.
pub open spec fn numbered(cfg: Config, line: Seq<char>) -> bool {
    if cfg.number_non_blank {
        !blank(line)
    } else {
        cfg.number_all
    }
}

/// Whether an emitted line advances the counter: all but the blank lines
/// under non-blank numbering.
pub open spec fn advances(cfg: Config, line: Seq<char>) -> bool {
    !(cfg.number_non_blank && blank(line))
}

/// The output line for `line`, numbered `number` where it is numbered.
pub open spec fn rendered(cfg: Config, number: nat, line: Seq<char>) -> Seq<char> {
    if numbered(cfg, line) {
        number_field(number) + seq![' '] + line
    } else {
        line
    }
}

/// What one input line gives, from the state before it: nothing when it is
/// dropped, else its output line.
pub open spec fn emission(cfg: Config, prev_blank: bool, counted: nat, line: Seq<char>) -> Option<
    Seq<char>,
> {
    if drops(cfg, prev_blank, line) {
        None
    } else {
        Some(rendered(cfg, counted + 1, line))
    }
}

/// The count of lines that advanced the counter, after one more input line.
pub open spec fn counted_after(cfg: Config, prev_blank: bool, counted: nat, line: Seq<char>) -> nat {
    if !drops(cfg, prev_blank, line) && advances(cfg, line) {
        counted + 1
    } else {
        counted
    }
}

/// What an optional string holds.
pub open spec fn text_of(o: Option<String>) -> Option<Seq<char>> {
    match o {
        Some(s) => Some(s@),
        None => None,
    }
}

/// The whole-buffer form: the output for `lines` from the state given by
/// `prev_blank` and `counted`, each emitted line followed by a terminator.
pub open spec fn render_from(cfg: Config, prev_blank: bool, counted: nat, lines: Seq<Seq<char>>) -> Seq<
    char,
>
    decreases lines.len(),
{
    if lines.len() == 0 {
        Seq::empty()
    } else {
        let line = lines[0];
        let rest = render_from(
            cfg,
            blank(line),
            counted_after(cfg, prev_blank, counted, line),
            lines.drop_first(),
        );
        if drops(cfg, prev_blank, line) {
            rest
        } else {
            rendered(cfg, counted + 1, line).push('\n') + rest
        }
    }
}

/// The output for a whole text, from the initial state.
pub open spec fn render(cfg: Config, text: Seq<char>) -> Seq<char> {
    render_from(cfg, false, 0, lines_of(text))
}

/// The streaming form: the state after feeding `lines` one at a time from
/// the initial state, as whether the last line was blank and the count.
pub open spec fn state_after(cfg: Config, lines: Seq<Seq<char>>) -> (bool, nat)
    decreases lines.len(),
{
    if lines.len() == 0 {
        (false, 0)
    } else {
        let (prev_blank, counted) = state_after(cfg, lines.drop_last());
        (blank(lines.last()), counted_after(cfg, prev_blank, counted, lines.last()))
    }
}

/// The streaming form: the output lines given by feeding `lines` one at a
/// time from the initial state.
pub open spec fn emitted(cfg: Config, lines: Seq<Seq<char>>) -> Seq<Seq<char>>
    decreases lines.len(),
{
    if lines.len() == 0 {
        Seq::empty()
    } else {
        let (prev_blank, counted) = state_after(cfg, lines.drop_last());
        let before = emitted(cfg, lines.drop_last());
        match emission(cfg, prev_blank, counted, lines.last()) {
            Some(o) => before.push(o),
            None => before,
        }
    }
}

/// The input lines that squeezing keeps, in order.
pub open spec fn kept(cfg: Config, lines: Seq<Seq<char>>) -> Seq<Seq<char>>
    decreases lines.len(),
{
    if lines.len() == 0 {
        Seq::empty()
    } else {
        let before = kept(cfg, lines.drop_last());
        if drops(cfg, state_after(cfg, lines.drop_last()).0, lines.last()) {
            before
        } else {
            before.push(lines.last())
        }
    }
}

/// Squeezing alone, with no numbering.
pub open spec fn squeeze_config() -> Config {
    Config { number_non_blank: false, number_all: false, squeeze: true }
}

/// Numbering alone: of the non-blank lines where `skip_empty`, else of all.
pub open spec fn numbering_config(skip_empty: bool) -> Config {
    Config { number_non_blank: skip_empty, number_all: !skip_empty, squeeze: false }
}

impl LineState {
    /// The state at the start of an input: no blank line before, nothing counted.
    pub fn new() -> (r: LineState)
        ensures
            r.prev_blank == false,
            r.counted == 0,
    {
        LineState { prev_blank: false, counted: 0 }
    }
}

/// Transforms one input line: returns its output line, or `None` where
/// squeezing drops it, and the state for the next line.
pub fn process_line(config: Config, state: LineState, line: &str) -> (r: (Option<String>, LineState))
    requires
        state.counted < u64::MAX,
    ensures
        text_of(r.0) == emission(config, state.prev_blank, state.counted as nat, line@),
        r.1.prev_blank == blank(line@),
        r.1.counted == counted_after(config, state.prev_blank, state.counted as nat, line@),
{
    let line_blank = is_blank(line);
    let next_state = LineState {
        prev_blank: line_blank,
        counted: if config.squeeze && state.prev_blank && line_blank {
            state.counted
        } else if config.number_non_blank && line_blank {
            state.counted
        } else {
            state.counted + 1
        },
    };
    if config.squeeze && state.prev_blank && line_blank {
        return (None, next_state);
    }
    let show_number = if config.number_non_blank {
        !line_blank
    } else {
        config.number_all
    };
    let mut out = String::new();
    if show_number {
        out = format_number(state.counted + 1);
        push_char(&mut out, ' ');
    }
    out.append(line);
    assert(out@ =~= rendered(config, state.counted as nat + 1, line@));
    (Some(out), next_state)
}

/// Transforms a whole text: each line of it goes through `process_line` in
/// order from the initial state, and each output line is followed by a line
/// terminator.
pub fn render_text(config: Config, text: &str) -> (r: String)
    ensures
        r@ == render(config, text@),
{
    let lines = split_lines(text);
    let ghost all = views(lines@);
    let mut out = String::new();
    let mut state = LineState::new();
    let mut i: usize = 0;
    assert(all.skip(0) =~= all);
    assert(out@ + render(config, text@) =~= render(config, text@));
    while i < lines.len()
        invariant
            all == views(lines@),
            all == lines_of(text@),
            i <= lines.len(),
            state.counted <= i,
            out@ + render_from(config, state.prev_blank, state.counted as nat, all.skip(i as int))
                == render(config, text@),
        decreases lines.len() - i,
    {
        let ghost rest = all.skip(i as int);
        assert(rest[0] == lines@[i as int]@);
        assert(rest.drop_first() =~= all.skip(i + 1));
        let (emitted, next_state) = process_line(config, state, lines[i].as_str());
        match emitted {
            Some(o) => {
                let ghost before = out@;
                out.append(o.as_str());
                push_char(&mut out, '\n');
                assert(out@ =~= before + o@.push('\n'));
            },
            None => {},
        }
        state = next_state;
        i = i + 1;
    }
    assert(all.skip(i as int) =~= Seq::empty());
    out
}

/// Collapses each run of consecutive blank lines of a text into its first
/// line; every output line is followed by a line terminator.
pub fn squeeze_blank_lines(contents: String) -> (r: String)
    ensures
        r@ == render(squeeze_config(), contents@),
{
    let config = Config { number_non_blank: false, number_all: false, squeeze: true };
    render_text(config, contents.as_str())
}

/// Numbers the lines of a text: only the non-blank ones where `skip_empty`,
/// else all of them; blank lines left unnumbered keep no number.
pub fn number_lines(contents: String, skip_empty: bool) -> (r: String)
    ensures
        r@ == render(numbering_config(skip_empty), contents@),
{
    let config = Config { number_non_blank: skip_empty, number_all: !skip_empty, squeeze: false };
    render_text(config, contents.as_str())
}

} // verus!
