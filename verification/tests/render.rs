use chat_stream::decimal::{push_decimal, to_decimal};
use chat_stream::delta::Delta;
use chat_stream::fragment::Usage;
use chat_stream::palette::Palette;
use chat_stream::render::{render_banner, render_usage, RenderState};

fn palette() -> Palette {
    Palette::new("<G>".to_string(), "<Y>".to_string(), "<R>".to_string())
}

fn reasoning(text: &str) -> Delta {
    Delta::ReasoningText(text.to_string())
}

fn answer(text: &str) -> Delta {
    Delta::AnswerText(text.to_string())
}

#[test]
fn decimal_of_small_numbers() {
    assert_eq!(to_decimal(0), "0");
    assert_eq!(to_decimal(7), "7");
    assert_eq!(to_decimal(10), "10");
    assert_eq!(to_decimal(12), "12");
    assert_eq!(to_decimal(1000), "1000");
    assert_eq!(to_decimal(90210), "90210");
}

#[test]
fn decimal_of_largest_number() {
    assert_eq!(to_decimal(u64::MAX), "18446744073709551615");
    assert_eq!(to_decimal(u64::MAX), u64::MAX.to_string());
}

#[test]
fn decimal_agrees_with_std() {
    let mut n: u64 = 1;
    for _ in 0..19 {
        assert_eq!(to_decimal(n), n.to_string());
        assert_eq!(to_decimal(n - 1), (n - 1).to_string());
        n *= 10;
    }
}

#[test]
fn push_decimal_appends() {
    let mut s = "n=".to_string();
    push_decimal(&mut s, 305);
    assert_eq!(s, "n=305");
}

#[test]
fn palette_new_keeps_codes() {
    let p = palette();
    assert_eq!(p.reasoning, "<G>");
    assert_eq!(p.summary, "<Y>");
    assert_eq!(p.reset, "<R>");
}

#[test]
fn palette_of_terminal() {
    let p = Palette::terminal();
    assert_eq!(p.reset, "\x1b[39m");
    assert!(p.reasoning.is_empty() || p.reasoning == "\x1b[38;2;200;200;200m");
    assert!(p.summary.is_empty() || p.summary == "\x1b[38;5;3m");
}

#[test]
fn render_starts_outside_reasoning() {
    assert!(!RenderState::new().inside_reasoning);
}

#[test]
fn first_reasoning_opens_block() {
    let mut s = RenderState::new();
    assert_eq!(s.render(&reasoning("Thinking"), &palette()), "<G><think>\nThinking");
    assert!(s.inside_reasoning);
}

#[test]
fn open_marker_comes_once_for_a_run_of_reasoning() {
    let mut s = RenderState::new();
    let p = palette();
    let mut out = String::new();
    for piece in ["a", "b", "c", "d"] {
        out.push_str(&s.render(&reasoning(piece), &p));
    }
    assert_eq!(out, "<G><think>\nabcd");
    assert_eq!(out.matches("<think>").count(), 1);
    assert!(s.inside_reasoning);
}

#[test]
fn first_answer_closes_block_once() {
    let mut s = RenderState::new();
    let p = palette();
    let mut out = String::new();
    out.push_str(&s.render(&reasoning("hm"), &p));
    out.push_str(&s.render(&answer("A"), &p));
    assert!(!s.inside_reasoning);
    out.push_str(&s.render(&answer("B"), &p));
    out.push_str(&s.render(&answer("C"), &p));
    assert_eq!(out, "<G><think>\nhm\n</think>\n<R>\nABC");
    assert_eq!(out.matches("</think>").count(), 1);
    assert!(!s.inside_reasoning);
}

#[test]
fn answer_without_reasoning_has_no_marker() {
    let mut s = RenderState::new();
    let p = palette();
    assert_eq!(s.render(&answer("Hi"), &p), "Hi");
    assert_eq!(s.render(&answer("!"), &p), "!");
    assert!(!s.inside_reasoning);
}

#[test]
fn empty_delta_writes_nothing_and_keeps_state() {
    let p = palette();
    let mut s = RenderState::new();
    assert_eq!(s.render(&Delta::Empty, &p), "");
    assert!(!s.inside_reasoning);
    s.render(&reasoning("x"), &p);
    assert_eq!(s.render(&Delta::Empty, &p), "");
    assert!(s.inside_reasoning);
}

#[test]
fn empty_answer_text_still_closes_block() {
    let p = palette();
    let mut s = RenderState::new();
    s.render(&reasoning("x"), &p);
    assert_eq!(s.render(&answer(""), &p), "\n</think>\n<R>\n");
    assert!(!s.inside_reasoning);
}

#[test]
fn empty_reasoning_text_still_opens_block() {
    let p = palette();
    let mut s = RenderState::new();
    assert_eq!(s.render(&reasoning(""), &p), "<G><think>\n");
    assert!(s.inside_reasoning);
}

#[test]
fn reasoning_after_answer_opens_a_new_block() {
    let p = palette();
    let mut s = RenderState::new();
    let mut out = String::new();
    out.push_str(&s.render(&reasoning("r1"), &p));
    out.push_str(&s.render(&answer("a1"), &p));
    out.push_str(&s.render(&reasoning("r2"), &p));
    out.push_str(&s.render(&answer("a2"), &p));
    assert_eq!(out, "<G><think>\nr1\n</think>\n<R>\na1<G><think>\nr2\n</think>\n<R>\na2");
}

#[test]
fn text_is_written_verbatim() {
    let p = palette();
    let mut s = RenderState::new();
    assert_eq!(s.render(&answer("  two  spaces\n\tand <think> "), &p), "  two  spaces\n\tand <think> ");
}

#[test]
fn markers_with_terminal_codes() {
    let p = Palette::new(
        "\x1b[38;2;200;200;200m".to_string(),
        "\x1b[38;5;3m".to_string(),
        "\x1b[39m".to_string(),
    );
    let mut s = RenderState::new();
    assert_eq!(s.render(&reasoning("x"), &p), "\x1b[38;2;200;200;200m<think>\nx");
    assert_eq!(s.render(&answer("y"), &p), "\n</think>\n\x1b[39m\ny");
}

#[test]
fn usage_line_exact() {
    let u = Usage { total_tokens: 12, prompt_tokens: 5, completion_tokens: 7 };
    assert_eq!(render_usage(&u, &palette()), "\n<Y>total tokens: 12 = 5 + 7<R>\n");
}

#[test]
fn usage_line_of_zero_snapshot() {
    assert_eq!(render_usage(&Usage::zero(), &palette()), "\n<Y>total tokens: 0 = 0 + 0<R>\n");
}

#[test]
fn usage_line_without_colours() {
    let p = Palette::new(String::new(), String::new(), String::new());
    let u = Usage { total_tokens: 300, prompt_tokens: 100, completion_tokens: 200 };
    assert_eq!(render_usage(&u, &p), "\ntotal tokens: 300 = 100 + 200\n");
}

#[test]
fn banner_names_the_model() {
    assert_eq!(render_banner("deepseek-ai/DeepSeek-R1"), "🚀 deepseek-ai/DeepSeek-R1\n");
}
