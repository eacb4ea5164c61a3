use rtools::engine::{number_lines, process_line, render_text, squeeze_blank_lines, Config, LineState};
use rtools::text::split_lines;

fn config(number_non_blank: bool, number_all: bool, squeeze: bool) -> Config {
    Config { number_non_blank, number_all, squeeze }
}

fn all_configs() -> Vec<Config> {
    let mut v = Vec::new();
    for bits in 0..8u8 {
        v.push(config(bits & 1 != 0, bits & 2 != 0, bits & 4 != 0));
    }
    v
}

fn streamed(cfg: Config, text: &str) -> String {
    let mut state = LineState::new();
    let mut out = String::new();
    for line in split_lines(text) {
        let (emitted, next) = process_line(cfg, state, &line);
        if let Some(o) = emitted {
            out.push_str(&o);
            out.push('\n');
        }
        state = next;
    }
    out
}

#[test]
fn squeeze_collapses_blank_run() {
    assert_eq!(render_text(config(false, false, true), "a\n\n\nb\n"), "a\n\nb\n");
}

#[test]
fn number_non_blank_skips_blank_lines() {
    assert_eq!(render_text(config(true, false, false), "x\n\ny\n"), "     1 x\n\n     2 y\n");
}

#[test]
fn number_all_numbers_every_line() {
    assert_eq!(render_text(config(false, true, false), "x\ny\n"), "     1 x\n     2 y\n");
}

#[test]
fn empty_input_gives_empty_output() {
    for cfg in all_configs() {
        assert_eq!(render_text(cfg, ""), "");
        assert_eq!(streamed(cfg, ""), "");
    }
}

#[test]
fn squeeze_is_no_op_on_squeezed_text() {
    let text = "a\n\nb\n  \nc\n";
    assert_eq!(render_text(config(false, false, true), text), text);
    let once = squeeze_blank_lines(String::from("a\n\n\n\nb\n \t\n\n"));
    assert_eq!(once, "a\n\nb\n \t\n");
    assert_eq!(squeeze_blank_lines(once.clone()), once);
}

#[test]
fn number_all_counts_emitted_lines() {
    let out = render_text(config(false, true, true), "a\n\n\n\nb\n\nc\n");
    assert_eq!(out, "     1 a\n     2 \n     3 b\n     4 \n     5 c\n");
}

#[test]
fn blank_lines_do_not_advance_non_blank_counter() {
    let out = render_text(config(true, false, false), "\n a\n \n\t\nb\n");
    assert_eq!(out, "\n     1  a\n \n\t\n     2 b\n");
}

#[test]
fn non_blank_takes_precedence() {
    let texts = ["x\n\ny\n", "\n\n\na\n\n", "one\ntwo\n\n\nthree"];
    for text in texts.iter() {
        for squeeze in [false, true] {
            assert_eq!(
                render_text(config(true, true, squeeze), text),
                render_text(config(true, false, squeeze), text)
            );
        }
    }
}

#[test]
fn streaming_matches_buffered() {
    let texts = ["", "\n", "a", "a\nb", "a\n\n\nb\n", " \n\t\n\nx\n\n\ny", "x\r\ny\r\n"];
    for text in texts.iter() {
        for cfg in all_configs() {
            assert_eq!(render_text(cfg, text), streamed(cfg, text));
        }
    }
}

#[test]
fn missing_final_terminator_is_added() {
    assert_eq!(render_text(config(false, false, false), "a\nb"), "a\nb\n");
}

#[test]
fn whitespace_only_lines_are_blank() {
    assert_eq!(render_text(config(false, false, true), "a\n \n\t\n\u{3000}\nb\n"), "a\n \nb\n");
}

#[test]
fn number_lines_modes() {
    assert_eq!(number_lines(String::from("x\n\ny\n"), true), "     1 x\n\n     2 y\n");
    assert_eq!(number_lines(String::from("x\n\ny\n"), false), "     1 x\n     2 \n     3 y\n");
}

#[test]
fn process_line_steps() {
    let cfg = config(false, true, true);
    let (o1, s1) = process_line(cfg, LineState::new(), "");
    assert_eq!(o1, Some(String::from("     1 ")));
    assert_eq!(s1, LineState { prev_blank: true, counted: 1 });
    let (o2, s2) = process_line(cfg, s1, " ");
    assert_eq!(o2, None);
    assert_eq!(s2, LineState { prev_blank: true, counted: 1 });
    let (o3, s3) = process_line(cfg, s2, "z");
    assert_eq!(o3, Some(String::from("     2 z")));
    assert_eq!(s3, LineState { prev_blank: false, counted: 2 });
}

#[test]
fn plain_mode_still_counts() {
    let (o, s) = process_line(config(false, false, false), LineState::new(), "abc");
    assert_eq!(o, Some(String::from("abc")));
    assert_eq!(s.counted, 1);
}

#[test]
fn wide_counter_overflows_field() {
    let state = LineState { prev_blank: false, counted: 999_999 };
    let (o, _) = process_line(config(false, true, false), state, "w");
    assert_eq!(o, Some(String::from("1000000 w")));
    let state = LineState { prev_blank: false, counted: u64::MAX - 1 };
    let (o, s) = process_line(config(false, true, false), state, "m");
    assert_eq!(o, Some(format!("{} m", u64::MAX)));
    assert_eq!(s.counted, u64::MAX);
}
