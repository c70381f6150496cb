use wordcount::count::{count_lines, count_words, WC};
use wordcount::options::Options;
use wordcount::render::{pad_field, usize_to_string};

fn opts(bytes: bool, chars: bool, words: bool, lines: bool) -> Options {
    let mut op = Options::init();
    op.bytes = bytes;
    op.chars = chars;
    op.words = words;
    op.lines = lines;
    op
}

#[test]
fn line_count_terminated_and_unterminated() {
    assert_eq!(count_lines("a\nb\nc"), 3);
    assert_eq!(count_lines("a\nb\nc\n"), 3);
    assert_eq!(count_lines(""), 0);
}

#[test]
fn line_count_edges() {
    assert_eq!(count_lines("\n"), 1);
    assert_eq!(count_lines("a"), 1);
    assert_eq!(count_lines("\n\n"), 2);
}

#[test]
fn word_count_maximal_runs() {
    assert_eq!(count_words("  a  b   "), 2);
    assert_eq!(count_words(""), 0);
}

#[test]
fn word_count_separators() {
    assert_eq!(count_words("one\ttwo\nthree four"), 4);
    assert_eq!(count_words("   \t \n "), 0);
    assert_eq!(count_words("a\u{a0}b"), 2);
}

#[test]
fn byte_count_ascii_equals_char_count() {
    let wc = WC::read("a".to_string(), "hello");
    assert_eq!(wc.bytes, 5);
    assert_eq!(wc.chars, 5);
}

#[test]
fn byte_count_multibyte_exceeds_char_count() {
    let wc = WC::read("c".to_string(), "caf\u{e9}");
    assert_eq!(wc.bytes, 5);
    assert_eq!(wc.chars, 4);
    assert!(wc.bytes > wc.chars);
}

#[test]
fn read_hello_world_record() {
    let wc = WC::read("-".to_string(), "hello world\n");
    assert_eq!(wc.lines, 1);
    assert_eq!(wc.words, 2);
    assert_eq!(wc.bytes, 12);
    assert_eq!(wc.chars, 12);
    assert_eq!(wc.name, "-");
}

#[test]
fn init_starts_at_zero() {
    let wc = WC::init("Total".to_string());
    assert_eq!(wc.bytes, 0);
    assert_eq!(wc.chars, 0);
    assert_eq!(wc.words, 0);
    assert_eq!(wc.lines, 0);
    assert_eq!(wc.name, "Total");
}

#[test]
fn add_accumulates_fields() {
    let mut total = WC::init("Total".to_string());
    let a = WC::read("a".to_string(), "one two\n");
    let b = WC::read("b".to_string(), "three\nfour\n");
    total.add(&a);
    total.add(&b);
    assert_eq!(total.bytes, a.bytes + b.bytes);
    assert_eq!(total.chars, a.chars + b.chars);
    assert_eq!(total.words, a.words + b.words);
    assert_eq!(total.lines, a.lines + b.lines);
    assert_eq!(total.name, "Total");
}

#[test]
fn tally_sums_two_records() {
    let a = WC::read("a".to_string(), "alpha beta\ngamma\n");
    let b = WC::read("b".to_string(), "caf\u{e9} au lait");
    let records = vec![a.clone(), b.clone()];
    let total = wordcount::count::tally(&records);
    assert_eq!(total.bytes, a.bytes + b.bytes);
    assert_eq!(total.chars, a.chars + b.chars);
    assert_eq!(total.words, a.words + b.words);
    assert_eq!(total.lines, a.lines + b.lines);
    assert_eq!(total.name, "Total");
}

#[test]
fn tally_of_nothing_is_zero() {
    let records: Vec<WC> = Vec::new();
    let total = wordcount::count::tally(&records);
    assert_eq!(total.bytes, 0);
    assert_eq!(total.chars, 0);
    assert_eq!(total.words, 0);
    assert_eq!(total.lines, 0);
}

#[test]
fn decimal_rendering() {
    assert_eq!(usize_to_string(0), "0");
    assert_eq!(usize_to_string(7), "7");
    assert_eq!(usize_to_string(120), "120");
    assert_eq!(usize_to_string(1234567), "1234567");
}

#[test]
fn field_padding_width_six() {
    assert_eq!(pad_field(0), "     0 ");
    assert_eq!(pad_field(123456), "123456 ");
    assert_eq!(pad_field(1234567), "1234567 ");
}

#[test]
fn default_mode_prints_lines_words_bytes() {
    let wc = WC::read("-".to_string(), "hello world\n");
    let line = wc.render(&Options::init());
    assert_eq!(line, "     1      2     12 -\n");
}

#[test]
fn selected_fields_only() {
    let wc = WC::read("f".to_string(), "hello world\n");
    let line = wc.render(&opts(false, false, true, false));
    assert_eq!(line, "     2 f\n");
    let line = wc.render(&opts(false, false, false, true));
    assert_eq!(line, "     1 f\n");
    let line = wc.render(&opts(false, false, true, true));
    assert_eq!(line, "     1      2 f\n");
}

#[test]
fn bytes_take_precedence_over_chars() {
    let wc = WC::read("c".to_string(), "caf\u{e9}");
    let line = wc.render(&opts(true, true, false, false));
    assert_eq!(line, "     5 c\n");
    let line = wc.render(&opts(false, true, false, false));
    assert_eq!(line, "     4 c\n");
}
