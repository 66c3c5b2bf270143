use smc_assembler::span::Span;
use smc_assembler::text::{decimal_string, repeat};

const SOURCE: &str = "ldi r0, 5\nadd r0, r0\r\nhlt";

#[test]
fn span_keeps_its_ends() {
    let span = Span::new(3, 9);
    assert_eq!(span.start(), 3);
    assert_eq!(span.end(), 9);
}

#[test]
fn location_counts_lines_and_columns_from_one() {
    assert_eq!(Span::offset_to_location(SOURCE, 0), (1, 1));
    assert_eq!(Span::offset_to_location(SOURCE, 4), (1, 5));
    assert_eq!(Span::offset_to_location(SOURCE, 9), (1, 10));
    assert_eq!(Span::offset_to_location(SOURCE, 10), (2, 1));
    assert_eq!(Span::offset_to_location(SOURCE, 14), (2, 5));
    assert_eq!(Span::offset_to_location(SOURCE, 22), (3, 1));
    assert_eq!(Span::offset_to_location(SOURCE, 1000), (3, 4));
}

#[test]
fn location_counts_characters_not_bytes() {
    let text = "é→x\nyz";
    assert_eq!(Span::offset_to_location(text, 2), (1, 2));
    assert_eq!(Span::offset_to_location(text, 3), (1, 3));
    assert_eq!(Span::offset_to_location(text, 5), (1, 3));
    assert_eq!(Span::offset_to_location(text, 6), (1, 4));
    assert_eq!(Span::offset_to_location(text, 7), (2, 1));
}

#[test]
fn start_end_and_location_agree_with_offsets() {
    let span = Span::new(14, 24);
    assert_eq!(span.start_location(SOURCE), (2, 5));
    assert_eq!(span.location(SOURCE), (2, 5));
    assert_eq!(span.end_location(SOURCE), (3, 3));
}

#[test]
fn snippet_selects_the_range() {
    assert_eq!(Span::new(4, 6).snippet(SOURCE), "r0");
    assert_eq!(Span::new(22, 400).snippet(SOURCE), "hlt");
    assert_eq!(Span::new(5, 5).snippet(SOURCE), "");
}

#[test]
fn is_within_tells_what_snippet_accepts() {
    let text = "aé";
    assert!(Span::new(0, 1).is_within(text));
    assert!(Span::new(1, 3).is_within(text));
    assert!(Span::new(1, 99).is_within(text));
    assert!(!Span::new(2, 3).is_within(text));
    assert!(!Span::new(1, 2).is_within(text));
    assert!(!Span::new(4, 5).is_within(text));
}

#[test]
fn get_line_drops_the_line_ending() {
    assert_eq!(Span::new(0, 3).get_line(SOURCE), "ldi r0, 5");
    assert_eq!(Span::new(9, 9).get_line(SOURCE), "ldi r0, 5");
    assert_eq!(Span::new(12, 13).get_line(SOURCE), "add r0, r0");
    assert_eq!(Span::new(22, 25).get_line(SOURCE), "hlt");
    assert_eq!(Span::new(99, 99).get_line(SOURCE), "hlt");
}

#[test]
fn get_line_on_edges() {
    assert_eq!(Span::new(0, 0).get_line(""), "");
    assert_eq!(Span::new(2, 2).get_line("a\n"), "");
    assert_eq!(Span::new(0, 0).get_line("a\r"), "a\r");
    assert_eq!(Span::new(0, 0).get_line("\r\nb"), "");
    assert_eq!(Span::new(3, 3).get_line("a\n\nb"), "b");
    assert_eq!(Span::new(2, 2).get_line("a\n\nb"), "");
}

#[test]
fn get_line_matches_std_lines() {
    let text = "one\r\ntwo\n\nfour\r";
    let lines: Vec<&str> = text.lines().collect();
    for offset in 0..text.len() + 2 {
        let span = Span::new(offset, offset);
        let (line, _) = span.start_location(text);
        let expected = if line <= lines.len() { lines[line - 1] } else { "" };
        assert_eq!(span.get_line(text), expected);
    }
}

#[test]
fn format_error_on_one_line() {
    let block = Span::new(4, 6).format_error("prog.s", SOURCE, "bad register");
    assert_eq!(
        block,
        "  --> prog.s:1:5\n  |\n1 | ldi r0, 5\n  |     ^^\n  | bad register\n"
    );
}

#[test]
fn format_error_across_lines() {
    let block = Span::new(4, 13).format_error("p", SOURCE, "m");
    assert_eq!(block, "  --> p:1:5-2:4\n  |\n1 | ldi r0, 5\n  |     ^^^^^^^^^\n  | m\n");
}

#[test]
fn format_error_of_empty_span_has_one_caret() {
    let block = Span::new(25, 25).format_error("p", SOURCE, "unexpected end");
    assert_eq!(block, "  --> p:3:4\n  |\n3 | hlt\n  |    ^\n  | unexpected end\n");
}

#[test]
fn format_error_pads_to_the_line_number() {
    let text = "\n\n\n\n\n\n\n\n\n\nx y";
    let block = Span::new(12, 13).format_error("f", text, "e");
    assert_eq!(block, "   --> f:11:3\n   |\n11 | x y\n   |   ^\n   | e\n");
}

#[test]
fn decimal_string_writes_numbers() {
    assert_eq!(decimal_string(0), "0");
    assert_eq!(decimal_string(7), "7");
    assert_eq!(decimal_string(10), "10");
    assert_eq!(decimal_string(9081), "9081");
    assert_eq!(decimal_string(usize::MAX), usize::MAX.to_string());
}

#[test]
fn repeat_writes_the_piece_count_times() {
    assert_eq!(repeat("^", 0), "");
    assert_eq!(repeat("ab", 3), "ababab");
}
