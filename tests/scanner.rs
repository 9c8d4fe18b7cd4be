use mathdown::scanner::{scan_text, MathSpan, ScanState, Action, Segment};

fn text(s: &str) -> Segment {
    Segment::Text(s.to_string())
}

fn math(s: &str, is_inline: bool) -> Segment {
    Segment::Math(MathSpan { source: s.to_string(), is_inline })
}

#[test]
fn plain_run_is_verbatim() {
    assert_eq!(scan_text("hello, world 42 ~!"), vec![text("hello, world 42 ~!")]);
}

#[test]
fn empty_run_gives_nothing() {
    assert_eq!(scan_text(""), vec![]);
}

#[test]
fn escaped_delimiter_is_literal() {
    assert_eq!(scan_text("\\$"), vec![text("$")]);
}

#[test]
fn tight_span_is_inline() {
    assert_eq!(scan_text("$x$"), vec![math("$x$", true)]);
}

#[test]
fn spaced_span_is_block() {
    assert_eq!(scan_text("$ x $"), vec![math("$ x $", false)]);
}

#[test]
fn one_sided_space_stays_inline() {
    assert_eq!(scan_text("$ x$"), vec![math("$ x$", true)]);
    assert_eq!(scan_text("$x $"), vec![math("$x $", true)]);
}

#[test]
fn tab_and_newline_count_as_whitespace() {
    assert_eq!(scan_text("$\tx\n$"), vec![math("$\tx\n$", false)]);
}

#[test]
fn escapes_then_inline_span() {
    assert_eq!(
        scan_text("\\$5\\$ and $y=mx+c$"),
        vec![text("$5$ and "), math("$y=mx+c$", true)]
    );
}

#[test]
fn unterminated_span_is_dropped() {
    assert_eq!(scan_text("a $b c"), vec![text("a ")]);
}

#[test]
fn empty_span_closes() {
    assert_eq!(scan_text("$$"), vec![math("$$", true)]);
}

#[test]
fn escape_marker_is_consumed_inside_math() {
    assert_eq!(scan_text("$\\alpha$"), vec![math("$alpha$", true)]);
}

#[test]
fn double_escape_gives_one_backslash() {
    assert_eq!(scan_text("a\\\\b"), vec![text("a\\b")]);
}

#[test]
fn text_around_two_spans() {
    assert_eq!(
        scan_text("a $x$ b $ y $ c"),
        vec![text("a "), math("$x$", true), text(" b "), math("$ y $", false), text(" c")]
    );
}

#[test]
fn step_by_step() {
    let mut s = ScanState::new();
    assert_eq!(s.step('a'), Action::Emit('a'));
    assert_eq!(s.step('$'), Action::Nothing);
    assert!(s.in_math);
    assert_eq!(s.step('z'), Action::Nothing);
    assert_eq!(
        s.step('$'),
        Action::Render(MathSpan { source: "$z$".to_string(), is_inline: true })
    );
    assert!(!s.in_math);
    assert_eq!(s.buffer, "");
}

#[test]
fn unicode_whitespace_counts() {
    assert_eq!(scan_text("$\u{a0}x\u{a0}$"), vec![math("$\u{a0}x\u{a0}$", false)]);
    assert_eq!(scan_text("$\u{b}x\u{3000}$"), vec![math("$\u{b}x\u{3000}$", false)]);
    assert_eq!(scan_text("$\u{200b}x\u{200b}$"), vec![math("$\u{200b}x\u{200b}$", true)]);
}

#[test]
fn whitespace_test_agrees_with_std() {
    for u in 0u32..0x3100 {
        if let Some(c) = char::from_u32(u) {
            assert_eq!(mathdown::scanner::is_space_char(c), c.is_whitespace(), "{u:#x}");
        }
    }
}
