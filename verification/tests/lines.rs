use honey_shell::lines::{decode, lines_of_output, LineAssembler, CARRIAGE_RETURN, LINE_FEED};

#[test]
fn two_lines_come_out_as_two_lines() {
    assert_eq!(lines_of_output(b"hello\nworld\n"), vec!["hello".to_string(), "world".to_string()]);
}

#[test]
fn line_feed_and_carriage_return_are_the_usual_bytes() {
    assert_eq!(LINE_FEED, b'\n');
    assert_eq!(CARRIAGE_RETURN, b'\r');
}

#[test]
fn empty_output_has_no_lines() {
    assert_eq!(lines_of_output(b""), Vec::<String>::new());
}

#[test]
fn carriage_return_before_line_feed_is_dropped() {
    assert_eq!(lines_of_output(b"one\r\ntwo\r\n"), vec!["one", "two"]);
}

#[test]
fn only_one_carriage_return_is_dropped() {
    assert_eq!(lines_of_output(b"a\r\r\nb\rc\n"), vec!["a\r", "b\rc"]);
}

#[test]
fn empty_lines_are_lines() {
    assert_eq!(lines_of_output(b"\n\nx\n\r\n"), vec!["", "", "x", ""]);
}

#[test]
fn unfinished_tail_is_the_last_line_as_it_stands() {
    assert_eq!(lines_of_output(b"done\npartial"), vec!["done", "partial"]);
    assert_eq!(lines_of_output(b"tail\r"), vec!["tail\r"]);
}

#[test]
fn invalid_utf8_is_replaced_and_later_lines_still_flow() {
    let lines = lines_of_output(b"ab\xFFcd\nnext\n");
    assert_eq!(lines, vec!["ab\u{FFFD}cd".to_string(), "next".to_string()]);
}

#[test]
fn truncated_multibyte_sequence_is_replaced() {
    assert_eq!(lines_of_output(b"caf\xC3\nok\n"), vec!["caf\u{FFFD}", "ok"]);
}

#[test]
fn valid_multibyte_text_is_kept() {
    let text = "héllo wörld — 日本語 🎤";
    let mut output = text.as_bytes().to_vec();
    output.push(b'\n');
    assert_eq!(lines_of_output(&output), vec![text.to_string()]);
}

#[test]
fn decode_keeps_valid_text_and_replaces_the_rest() {
    assert_eq!(decode(b"plain"), "plain");
    assert_eq!(decode("žluťoučký".as_bytes()), "žluťoučký");
    assert_eq!(decode(b"\xF0\x9F"), "\u{FFFD}");
    assert_eq!(decode(b""), "");
}

#[test]
fn assembler_holds_back_what_is_unfinished() {
    let mut assembler = LineAssembler::new();
    assert_eq!(assembler.feed(b"hel"), Vec::<String>::new());
    assert_eq!(assembler.feed(b"lo\nwor"), vec!["hello"]);
    assert_eq!(assembler.feed(b"ld\n"), vec!["world"]);
    assert_eq!(assembler.finish(), None);
}

#[test]
fn assembler_joins_a_line_ending_cut_in_two() {
    let mut assembler = LineAssembler::new();
    assert_eq!(assembler.feed(b"first\r"), Vec::<String>::new());
    assert_eq!(assembler.feed(b"\nsecond"), vec!["first"]);
    assert_eq!(assembler.finish(), Some("second".to_string()));
    assert_eq!(assembler.finish(), None);
}

#[test]
fn assembler_joins_a_character_cut_in_two() {
    let bytes = "é\n".as_bytes();
    let mut assembler = LineAssembler::new();
    assert_eq!(assembler.feed(&bytes[..1]), Vec::<String>::new());
    assert_eq!(assembler.feed(&bytes[1..]), vec!["é"]);
}

#[test]
fn pieces_give_the_lines_of_the_whole() {
    let output = b"alpha\r\nbeta\n\ngamma\xFF\ndelta";
    let whole = lines_of_output(output);
    for cut in 0..=output.len() {
        let mut assembler = LineAssembler::new();
        let mut lines = assembler.feed(&output[..cut]);
        lines.extend(assembler.feed(&output[cut..]));
        lines.extend(assembler.finish());
        assert_eq!(lines, whole);
    }
}

#[test]
fn byte_by_byte_gives_the_lines_of_the_whole() {
    let output = b"x\ny\r\n\nz";
    let mut assembler = LineAssembler::new();
    let mut lines = Vec::new();
    for byte in output.iter() {
        lines.extend(assembler.feed(&[*byte]));
    }
    lines.extend(assembler.finish());
    assert_eq!(lines, vec!["x", "y", "", "z"]);
}

#[test]
fn written_lines_come_back_in_order() {
    let written = ["first", "", "third line", "ünïcödé", "first"];
    let mut output = Vec::new();
    for line in written.iter() {
        output.extend_from_slice(line.as_bytes());
        output.push(b'\n');
    }
    assert_eq!(lines_of_output(&output), written);
}
