use netruko::drivers::linux::Linux;
use netruko::sanitize::{sanitize, Scan, BRACKET, ESC};

fn clean(text: &str) -> String {
    Linux::new().parse_string(text.to_string())
}

#[test]
fn control_sequence_is_removed() {
    assert_eq!(
        clean("This is an initial prompt\u{001b}[2001l unicode"),
        "This is an initial prompt unicode"
    );
}

#[test]
fn spaces_around_a_sequence_are_kept() {
    assert_eq!(clean("a \u{1b}[0m b"), "a  b");
    assert_eq!(clean(" \u{1b}[1mbold\u{1b}[0m "), " bold ");
}

#[test]
fn plain_text_is_unchanged() {
    for text in ["", "whoami", "a[b]c", "{~}@^_`", "x = y[0] + z[1];", "tab\tand\rreturn"] {
        assert_eq!(clean(text), text);
    }
}

#[test]
fn sanitizing_twice_changes_nothing_more() {
    for text in [
        "plain",
        "\u{1b}[31mred\u{1b}[0m",
        "\u{1b}A[x[y",
        "a\u{1b}[[b",
        "\u{1b}\u{1b}[[[",
        "caf\u{e9} \u{1b}[K\u{4e16}\u{754c}",
    ] {
        let once = clean(text);
        assert_eq!(clean(&once), once);
        assert!(!once.contains('\u{1b}'));
    }
}

#[test]
fn text_outside_ascii_is_kept() {
    assert_eq!(clean("\u{1b}[1mcaf\u{e9}\u{1b}[0m \u{4e16}\u{754c}"), "caf\u{e9} \u{4e16}\u{754c}");
    assert_eq!(clean("\u{1f600}"), "\u{1f600}");
}

#[test]
fn characters_inside_a_sequence_are_dropped() {
    assert_eq!(clean("\u{1b}[12;34Hx"), "x");
    assert_eq!(clean("\u{1b}[\u{e9}1 ;mx"), "x");
    assert_eq!(clean("a\u{1b}[?25"), "a");
}

#[test]
fn the_final_byte_range_ends_a_sequence() {
    assert_eq!(clean("\u{1b}[@x"), "x");
    assert_eq!(clean("\u{1b}[~x"), "x");
    assert_eq!(clean("\u{1b}[?x"), "");
    assert_eq!(clean("\u{1b}[\u{7f}x"), "");
    assert_eq!(clean("\u{1b}[\u{7f}xy"), "y");
}

#[test]
fn a_second_bracket_ends_an_open_sequence() {
    assert_eq!(clean("\u{1b}[[x"), "x");
    assert_eq!(clean("\u{1b}[12[34m"), "34m");
}

#[test]
fn an_escape_stays_pending_until_a_bracket() {
    assert_eq!(clean("\u{1b}A[x"), "A");
    assert_eq!(clean("\u{1b}abc"), "abc");
    assert_eq!(clean("\u{1b}abc[0m-"), "abc-");
}

#[test]
fn an_escape_inside_a_sequence_does_not_end_it() {
    assert_eq!(clean("\u{1b}[1\u{1b}2mx"), "x");
    assert_eq!(clean("\u{1b}[1\u{1b}m[0mx"), "x");
}

#[test]
fn a_bracket_without_escape_is_text() {
    assert_eq!(clean("[0m"), "[0m");
    assert_eq!(clean("\u{1b}[0m[0m"), "[0m");
}

#[test]
fn each_call_starts_afresh() {
    let driver = Linux::new();
    assert_eq!(driver.parse_string("a\u{1b}[".to_string()), "a");
    assert_eq!(driver.parse_string("31mb".to_string()), "31mb");
}

#[test]
fn sanitize_works_on_characters() {
    let line: Vec<char> = "ok\u{1b}[2J!".chars().collect();
    let out: String = sanitize(&line).into_iter().collect();
    assert_eq!(out, "ok!");
    assert_eq!(sanitize(&[]), Vec::<char>::new());
}

#[test]
fn scanner_steps() {
    let start = Scan::new();
    assert_eq!(start, Scan { escape: false, csi: false });
    assert_eq!(start.feed('a'), (start, true));
    assert_eq!(start.feed(BRACKET), (start, true));
    let pending = Scan { escape: true, csi: false };
    assert_eq!(start.feed(ESC), (pending, false));
    assert_eq!(pending.feed('a'), (pending, true));
    assert_eq!(pending.feed(ESC), (pending, false));
    let inside = Scan { escape: false, csi: true };
    assert_eq!(pending.feed(BRACKET), (inside, false));
    assert_eq!(inside.feed('1'), (inside, false));
    assert_eq!(inside.feed(';'), (inside, false));
    assert_eq!(inside.feed('m'), (start, false));
    assert_eq!(inside.feed('@'), (start, false));
    assert_eq!(inside.feed('~'), (start, false));
    assert_eq!(inside.feed(BRACKET), (start, false));
    let both = Scan { escape: true, csi: true };
    assert_eq!(inside.feed(ESC), (both, false));
    assert_eq!(both.feed(BRACKET), (start, false));
    assert_eq!(both.feed('m'), (pending, false));
    assert_eq!(both.feed('1'), (both, false));
}
