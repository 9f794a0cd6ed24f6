use lume::diagnostic::{render_diagnostic, Diagnostic};
use lume::source::{Position, Span};

fn at(line: usize, column: usize) -> Diagnostic {
    let pos = Position { line, column };
    Diagnostic::error("unexpected_token", "expected an expression".to_string(), Span::new(0, 1, pos, pos))
}

#[test]
fn renders_the_location_code_message_and_source_line() {
    let text = render_diagnostic("main.lum", "a = 1\nb = ?\n", &at(2, 5));
    assert_eq!(text, "main.lum:2:5: error[unexpected_token]: expected an expression\n  | b = ?");
}

#[test]
fn a_carriage_return_before_the_newline_is_not_shown() {
    let text = render_diagnostic("w.lum", "first\r\nsecond\r\n", &at(1, 12));
    assert_eq!(text, "w.lum:1:12: error[unexpected_token]: expected an expression\n  | first");
}

#[test]
fn a_line_past_the_end_renders_the_header_alone() {
    let text = render_diagnostic("x.lum", "only\n", &at(3, 1));
    assert_eq!(text, "x.lum:3:1: error[unexpected_token]: expected an expression");
    let empty = render_diagnostic("x.lum", "", &at(1, 1));
    assert_eq!(empty, "x.lum:1:1: error[unexpected_token]: expected an expression");
}

#[test]
fn line_zero_reads_as_the_first_line() {
    let text = render_diagnostic("z.lum", "top\nnext", &at(0, 0));
    assert_eq!(text, "z.lum:0:0: error[unexpected_token]: expected an expression\n  | top");
    let last = render_diagnostic("z.lum", "top\nnext", &at(2, 3));
    assert_eq!(last, "z.lum:2:3: error[unexpected_token]: expected an expression\n  | next");
}
