use fract::checksum::{
    check_digest, digest_line, parse_check_line, stdin_line, verbose_line, CheckLine,
};
use fract::hexfmt::{hash512_to_hex, hash_to_hex};

fn matches_digest(expected: &str, data: &[u8]) -> bool {
    check_digest(expected, data).matches
}

fn entry(line: &str) -> (String, String) {
    match parse_check_line(line) {
        CheckLine::Entry { expected, filename } => (expected, filename),
        other => panic!("no entry: {:?}", other),
    }
}

#[test]
fn a_text_mode_line_gives_hash_and_name() {
    assert_eq!(
        entry("abc123  notes.txt"),
        ("abc123".to_string(), "notes.txt".to_string())
    );
}

#[test]
fn a_binary_mode_line_gives_hash_and_name() {
    assert_eq!(
        entry("abc123 *notes.txt"),
        ("abc123".to_string(), "notes.txt".to_string())
    );
}

#[test]
fn a_line_is_trimmed_before_it_is_read() {
    assert_eq!(
        entry("  \tabc123  notes.txt \r\n"),
        ("abc123".to_string(), "notes.txt".to_string())
    );
    assert_eq!(
        entry("\u{a0}abc123 *a b.txt\u{3000}"),
        ("abc123".to_string(), "a b.txt".to_string())
    );
}

#[test]
fn white_space_before_a_name_is_dropped_in_text_mode_only() {
    assert_eq!(
        entry("abc \t  name"),
        ("abc".to_string(), "name".to_string())
    );
    assert_eq!(
        entry("abc * name"),
        ("abc".to_string(), " name".to_string())
    );
    assert_eq!(
        entry("abc  *name"),
        ("abc".to_string(), "*name".to_string())
    );
}

#[test]
fn a_name_may_hold_spaces() {
    assert_eq!(
        entry("abc  my file.txt"),
        ("abc".to_string(), "my file.txt".to_string())
    );
}

#[test]
fn a_lone_star_names_the_empty_name() {
    assert_eq!(entry("abc *"), ("abc".to_string(), String::new()));
}

#[test]
fn blank_lines_and_comments_say_nothing() {
    assert!(matches!(parse_check_line(""), CheckLine::Ignored));
    assert!(matches!(parse_check_line("   \t "), CheckLine::Ignored));
    assert!(matches!(parse_check_line("# a comment"), CheckLine::Ignored));
    assert!(matches!(parse_check_line("  #abc  name"), CheckLine::Ignored));
}

#[test]
fn a_line_without_a_space_is_malformed() {
    assert!(matches!(parse_check_line("abc123"), CheckLine::Malformed));
    assert!(matches!(parse_check_line("  abc123  "), CheckLine::Malformed));
    assert!(matches!(
        parse_check_line("abc123\tname"),
        CheckLine::Malformed
    ));
}

#[test]
fn lines_are_written_in_both_modes() {
    assert_eq!(digest_line("abc123", "notes.txt", false), "abc123  notes.txt");
    assert_eq!(digest_line("abc123", "notes.txt", true), "abc123 *notes.txt");
    assert_eq!(digest_line("", "", false), "  ");
}

#[test]
fn standard_input_has_its_own_lines() {
    assert_eq!(stdin_line("abc123", false), "abc123  -");
    assert_eq!(stdin_line("abc123", true), "abc123 *--");
}

#[test]
fn verbose_lines_name_algorithm_and_width() {
    assert_eq!(verbose_line("X", "", "", false, false), "X    256");
    assert_eq!(
        verbose_line("FRACT", "abc123", "notes.txt", false, false),
        "FRACT abc123   256notes.txt"
    );
    assert_eq!(
        verbose_line("FRACT", "abc123", "notes.txt", false, true),
        "FRACT abc123*  256notes.txt"
    );
    assert_eq!(
        verbose_line("FRACT", "abc123", "notes.txt", true, false),
        "FRACT abc123   512notes.txt"
    );
    assert_eq!(
        verbose_line("FRACT", "abc123", "notes.txt", true, true),
        "FRACT abc123*  512notes.txt"
    );
}

#[test]
fn a_written_line_reads_back() {
    let hash = hash_to_hex(b"contents");
    let line = digest_line(&hash, "some file.bin", false);
    assert_eq!(entry(&line), (hash.clone(), "some file.bin".to_string()));
    let line = digest_line(&hash, "some file.bin", true);
    assert_eq!(entry(&line), (hash, "some file.bin".to_string()));
}

#[test]
fn a_digest_is_checked_in_the_mode_its_length_asks_for() {
    let data = b"checked data";
    let short = hash_to_hex(data);
    let long = hash512_to_hex(data);
    assert_eq!(short.len(), 64);
    assert_eq!(long.len(), 128);
    assert!(matches_digest(&short, data));
    assert!(matches_digest(&long, data));
    assert!(!matches_digest(&short, b"other data"));
    assert!(!matches_digest(&long, b"other data"));
    // The first half of the long digest is the short one, but a text of
    // 128 characters is held against the long digest as a whole.
    assert!(matches_digest(&long[..64], data));
    assert!(!matches_digest(&long[64..], data));
}

#[test]
fn a_digest_in_upper_case_or_of_odd_length_does_not_match() {
    let data = b"";
    let short = hash_to_hex(data);
    assert_eq!(
        short,
        "89725f1118452e010a45e713ca6402a460627476dfdb937f7d17eb87890ac73b"
    );
    assert!(!matches_digest(
        "89725F1118452E010A45E713CA6402A460627476DFDB937F7D17EB87890AC73B",
        data
    ));
    assert!(!matches_digest(&short[..63], data));
    assert!(!matches_digest("", data));
    let padded = format!("{}{}", short, short);
    assert_eq!(padded.len(), 128);
    assert!(!matches_digest(&padded, data));
}

#[test]
fn a_check_shows_the_digest_it_computed() {
    let check = check_digest("0000", b"");
    assert!(!check.matches);
    assert_eq!(
        check.actual,
        "89725f1118452e010a45e713ca6402a460627476dfdb937f7d17eb87890ac73b"
    );
    let wrong = "0".repeat(128);
    let check = check_digest(&wrong, b"test");
    assert!(!check.matches);
    assert_eq!(
        check.actual,
        "3ad0ea8498e0d6314892ea00b78f561d9d18c96dc9379c71f34dba1662264815\
         d324fbc385676f42ce099b0d2da227b3f64e826f405afb43a44ec2e577e93549"
    );
}

#[test]
fn a_known_digest_matches_its_data() {
    assert!(matches_digest(
        "89725f1118452e010a45e713ca6402a460627476dfdb937f7d17eb87890ac73b",
        b""
    ));
    assert!(matches_digest(
        "3ad0ea8498e0d6314892ea00b78f561d9d18c96dc9379c71f34dba1662264815\
         d324fbc385676f42ce099b0d2da227b3f64e826f405afb43a44ec2e577e93549",
        b"test"
    ));
}
