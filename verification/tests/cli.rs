use wordcount::options::Options;
use wordcount::resolve::{effective_sources, resolve_args, str_eq, Source};

fn strings(tokens: &[&str]) -> Vec<String> {
    tokens.iter().map(|t| t.to_string()).collect()
}

#[test]
fn options_init_all_false() {
    let op = Options::init();
    assert!(!op.bytes);
    assert!(!op.chars);
    assert!(!op.words);
    assert!(!op.lines);
    assert!(op.nofiles);
}

#[test]
fn flags_set_options() {
    let (op, sources) = resolve_args(&strings(&["-c", "-w", "-l", "-m"]));
    assert!(op.bytes);
    assert!(op.words);
    assert!(op.lines);
    assert!(op.chars);
    assert!(op.nofiles);
    assert_eq!(sources.len(), 0);
}

#[test]
fn long_flags_set_options() {
    let (op, _) = resolve_args(&strings(&["--bytes", "--words", "--lines", "--chars"]));
    assert!(op.bytes && op.words && op.lines && op.chars);
}

#[test]
fn flags_are_idempotent_and_order_independent() {
    let (a, _) = resolve_args(&strings(&["-w", "-w", "--words"]));
    let (b, _) = resolve_args(&strings(&["--words"]));
    assert_eq!(a.words, b.words);
    assert_eq!(a.bytes, b.bytes);
    assert_eq!(a.lines, b.lines);
    assert_eq!(a.chars, b.chars);
}

#[test]
fn sources_keep_their_order() {
    let (op, sources) = resolve_args(&strings(&["a.txt", "-w", "-", "b.txt"]));
    assert!(op.words);
    assert!(!op.nofiles);
    assert_eq!(sources.len(), 3);
    assert!(matches!(&sources[0], Source::File(p) if p == "a.txt"));
    assert!(matches!(&sources[1], Source::Stdin));
    assert!(matches!(&sources[2], Source::File(p) if p == "b.txt"));
}

#[test]
fn unrecognized_flag_is_a_path() {
    let (op, sources) = resolve_args(&strings(&["-x", "-cw"]));
    assert!(!op.bytes && !op.chars && !op.words && !op.lines);
    assert!(!op.nofiles);
    assert_eq!(sources.len(), 2);
    assert!(matches!(&sources[0], Source::File(p) if p == "-x"));
    assert!(matches!(&sources[1], Source::File(p) if p == "-cw"));
}

#[test]
fn no_arguments_means_no_sources() {
    let (op, sources) = resolve_args(&strings(&[]));
    assert!(op.nofiles);
    assert_eq!(sources.len(), 0);
    let sources = effective_sources(sources);
    assert_eq!(sources.len(), 1);
    assert!(matches!(&sources[0], Source::Stdin));
}

#[test]
fn named_sources_stay_as_given() {
    let (_, sources) = resolve_args(&strings(&["a.txt"]));
    let sources = effective_sources(sources);
    assert_eq!(sources.len(), 1);
    assert!(matches!(&sources[0], Source::File(p) if p == "a.txt"));
}

#[test]
fn str_eq_compares_characters() {
    assert!(str_eq("", ""));
    assert!(str_eq("-c", "-c"));
    assert!(!str_eq("-c", "-w"));
    assert!(!str_eq("-c", "--bytes"));
    assert!(str_eq("caf\u{e9}", "caf\u{e9}"));
    assert!(!str_eq("caf\u{e9}", "cafe"));
}
