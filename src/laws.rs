use vstd::prelude::*;

use crate::engine::{
    Config, counted_after, drops, emission, emitted, kept, render, render_from, rendered,
    state_after, squeeze_config,
};
use crate::number::number_field;
use crate::text::{blank, lines_of, pieces, terminated};

verus! {

/// Feeding the lines `a` and then the whole-buffer form of `b` from the
/// state reached gives the stream's output for `a + b`.
proof fn lemma_render_continues(cfg: Config, a: Seq<Seq<char>>, b: Seq<Seq<char>>)
    ensures
        terminated(emitted(cfg, a)) + render_from(cfg, state_after(cfg, a).0, state_after(cfg, a).1, b)
            == terminated(emitted(cfg, a + b)),
    decreases b.len(),
{
    if b.len() == 0 {
        assert(a + b =~= a);
        assert(terminated(emitted(cfg, a)) + Seq::<char>::empty() =~= terminated(emitted(cfg, a)));
    } else {
        let a2 = a.push(b[0]);
        let b2 = b.drop_first();
        assert(a2 + b2 =~= a + b);
        assert(a2.drop_last() =~= a);
        lemma_render_continues(cfg, a2, b2);
        let (p, c) = state_after(cfg, a);
        let rest = render_from(cfg, blank(b[0]), counted_after(cfg, p, c, b[0]), b2);
        match emission(cfg, p, c, b[0]) {
            Some(o) => {
                assert(emitted(cfg, a2) == emitted(cfg, a).push(o));
                assert(emitted(cfg, a).push(o).drop_last() =~= emitted(cfg, a));
                assert(terminated(emitted(cfg, a2)) =~= terminated(emitted(cfg, a)) + o.push('\n'));
                assert(terminated(emitted(cfg, a)) + (o.push('\n') + rest) =~= terminated(
                    emitted(cfg, a),
                ) + o.push('\n') + rest);
            },
            None => {
                assert(emitted(cfg, a2) == emitted(cfg, a));
            },
        }
    }
}

/// The whole-buffer form of a text and the stream fed with its lines one at a
/// time, each output line followed by a terminator, give the same output.
pub proof fn lemma_streaming_matches_buffered(cfg: Config, text: Seq<char>)
    ensures
        render(cfg, text) == terminated(emitted(cfg, lines_of(text))),
{
    let lines = lines_of(text);
    lemma_render_continues(cfg, Seq::empty(), lines);
    assert(Seq::<Seq<char>>::empty() + lines =~= lines);
    assert(Seq::<char>::empty() + render(cfg, text) =~= render(cfg, text));
}

/// Numbering the non-blank lines with `number_all` set as well behaves as
/// numbering the non-blank lines alone: in the stream and over a whole text.
pub proof fn lemma_non_blank_precedence(cfg: Config, lines: Seq<Seq<char>>, text: Seq<char>)
    requires
        cfg.number_non_blank,
    ensures
        emitted(cfg, lines) == emitted(non_blank_only(cfg.squeeze), lines),
        render(cfg, text) == render(non_blank_only(cfg.squeeze), text),
{
    lemma_precedence_stream(cfg, lines);
    lemma_precedence_render(cfg, false, 0, lines_of(text));
}

/// Numbering of the non-blank lines alone, squeezing as given.
pub open spec fn non_blank_only(squeeze: bool) -> Config {
    Config { number_non_blank: true, number_all: false, squeeze: squeeze }
}

proof fn lemma_precedence_stream(cfg: Config, lines: Seq<Seq<char>>)
    requires
        cfg.number_non_blank,
    ensures
        emitted(cfg, lines) == emitted(non_blank_only(cfg.squeeze), lines),
        state_after(cfg, lines) == state_after(non_blank_only(cfg.squeeze), lines),
    decreases lines.len(),
{
    if lines.len() > 0 {
        lemma_precedence_stream(cfg, lines.drop_last());
    }
}

proof fn lemma_precedence_render(
    cfg: Config,
    prev_blank: bool,
    counted: nat,
    lines: Seq<Seq<char>>,
)
    requires
        cfg.number_non_blank,
    ensures
        render_from(cfg, prev_blank, counted, lines) == render_from(
            non_blank_only(cfg.squeeze),
            prev_blank,
            counted,
            lines,
        ),
    decreases lines.len(),
{
    if lines.len() > 0 {
        lemma_precedence_render(
            cfg,
            blank(lines[0]),
            counted_after(cfg, prev_blank, counted, lines[0]),
            lines.drop_first(),
        );
    }
}

/// Under numbering of all lines (and not of the non-blank ones only), the
/// k-th output line of the stream carries the number k, followed by one space
/// and the k-th line that squeezing keeps; the counter stands at the number of
/// lines put out.
pub proof fn lemma_number_all_monotone(cfg: Config, lines: Seq<Seq<char>>)
    requires
        !cfg.number_non_blank,
        cfg.number_all,
    ensures
        state_after(cfg, lines).1 == emitted(cfg, lines).len(),
        emitted(cfg, lines).len() == kept(cfg, lines).len(),
        forall|k: int|
            0 <= k < emitted(cfg, lines).len() ==> #[trigger] emitted(cfg, lines)[k] == number_field(
                (k + 1) as nat,
            ) + seq![' '] + kept(cfg, lines)[k],
    decreases lines.len(),
{
    if lines.len() > 0 {
        lemma_number_all_monotone(cfg, lines.drop_last());
    }
}

/// The number of non-blank lines among `lines`.
pub open spec fn non_blank_count(lines: Seq<Seq<char>>) -> nat
    decreases lines.len(),
{
    if lines.len() == 0 {
        0
    } else {
        non_blank_count(lines.drop_last()) + if blank(lines.last()) {
            0nat
        } else {
            1nat
        }
    }
}

/// Under numbering of the non-blank lines, a blank line leaves the counter
/// where it was and, unless squeezing drops it, is put out as it is.
pub proof fn lemma_blank_line_unnumbered(
    cfg: Config,
    prev_blank: bool,
    counted: nat,
    line: Seq<char>,
)
    requires
        cfg.number_non_blank,
        blank(line),
    ensures
        counted_after(cfg, prev_blank, counted, line) == counted,
        emission(cfg, prev_blank, counted, line) is None || emission(
            cfg,
            prev_blank,
            counted,
            line,
        ) == Some(line),
{
}

/// Under numbering of the non-blank lines, the counter after any input is the
/// number of its non-blank lines.
pub proof fn lemma_non_blank_counter(cfg: Config, lines: Seq<Seq<char>>)
    requires
        cfg.number_non_blank,
    ensures
        state_after(cfg, lines).1 == non_blank_count(lines),
    decreases lines.len(),
{
    if lines.len() > 0 {
        lemma_non_blank_counter(cfg, lines.drop_last());
    }
}

/// No two consecutive lines are both blank.
pub open spec fn no_blank_runs(lines: Seq<Seq<char>>) -> bool {
    forall|i: int| 0 <= i < lines.len() - 1 ==> !(blank(#[trigger] lines[i]) && blank(lines[i + 1]))
}

proof fn lemma_pieces_join(s: Seq<char>)
    ensures
        pieces(s).len() >= 1,
        terminated(pieces(s).drop_last()) + pieces(s).last() == s,
    decreases s.len(),
{
    if s.len() > 0 {
        let t = s.drop_last();
        lemma_pieces_join(t);
        let p = pieces(t);
        if s.last() == '\n' {
            assert(pieces(s).drop_last() =~= p);
            assert(p =~= p.drop_last().push(p.last()));
            assert(terminated(p) == terminated(p.drop_last()) + p.last().push('\n'));
            let x = terminated(p.drop_last());
            assert(s =~= t.push('\n'));
            assert(x + p.last().push('\n') =~= (x + p.last()).push('\n'));
            assert(terminated(p) + Seq::<char>::empty() =~= s);
        } else {
            assert(pieces(s).drop_last() =~= p.drop_last());
            let x = terminated(p.drop_last());
            assert(s =~= t.push(s.last()));
            assert(pieces(s).last() == p.last().push(s.last()));
            assert(x + p.last().push(s.last()) =~= (x + p.last()).push(s.last()));
        }
    }
}

proof fn lemma_terminated_front(lines: Seq<Seq<char>>)
    requires
        lines.len() > 0,
    ensures
        terminated(lines) == lines[0].push('\n') + terminated(lines.drop_first()),
    decreases lines.len(),
{
    if lines.len() == 1 {
        assert(lines.drop_last() =~= Seq::<Seq<char>>::empty());
        assert(lines.drop_first() =~= Seq::<Seq<char>>::empty());
        assert(Seq::<char>::empty() + lines[0].push('\n') =~= lines[0].push('\n') + Seq::<char>::empty());
    } else {
        lemma_terminated_front(lines.drop_last());
        assert(lines.drop_last().drop_first() =~= lines.drop_first().drop_last());
        assert(lines.drop_first().last() == lines.last());
        assert(lines.drop_last()[0] == lines[0]);
        let a = lines[0].push('\n');
        let b = terminated(lines.drop_first().drop_last());
        let c = lines.last().push('\n');
        assert(a + b + c =~= a + (b + c));
    }
}

proof fn lemma_squeeze_keeps(prev_blank: bool, counted: nat, lines: Seq<Seq<char>>)
    requires
        no_blank_runs(lines),
        lines.len() > 0 ==> !(prev_blank && blank(lines[0])),
    ensures
        render_from(squeeze_config(), prev_blank, counted, lines) == terminated(lines),
    decreases lines.len(),
{
    if lines.len() > 0 {
        let cfg = squeeze_config();
        let rest = lines.drop_first();
        assert(no_blank_runs(rest)) by {
            assert forall|i: int| 0 <= i < rest.len() - 1 implies !(blank(#[trigger] rest[i]) && blank(
                rest[i + 1],
            )) by {
                assert(rest[i] == lines[i + 1]);
                assert(rest[i + 1] == lines[i + 2]);
            }
        }
        if rest.len() > 0 {
            assert(rest[0] == lines[1]);
        }
        lemma_squeeze_keeps(blank(lines[0]), counted_after(cfg, prev_blank, counted, lines[0]), rest);
        lemma_terminated_front(lines);
        assert(rendered(cfg, counted + 1, lines[0]) == lines[0]);
    }
}

/// Squeezing a text in which no two consecutive lines are blank, and whose
/// last line is terminated, gives the text back unchanged.
pub proof fn lemma_squeeze_no_op(text: Seq<char>)
    requires
        no_blank_runs(lines_of(text)),
        text.len() == 0 || text.last() == '\n',
    ensures
        render(squeeze_config(), text) == text,
{
    lemma_pieces_join(text);
    if text.len() > 0 {
        assert(pieces(text).last().len() == 0);
    }
    assert(pieces(text).last() =~= Seq::<char>::empty());
    assert(terminated(lines_of(text)) + Seq::<char>::empty() =~= terminated(lines_of(text)));
    lemma_squeeze_keeps(false, 0, lines_of(text));
}

} // verus!
