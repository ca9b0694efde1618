use netruko::drivers::linux::{find_prompt, Linux};
use netruko::drivers::{
    decode, read_lines, to_strings, Mode, NetrukoDriver, NetrukoError, ParseError,
};
use netruko::text::chars_of;
use russh::CryptoVec;

fn read(driver: &mut Linux, text: &str) -> Vec<String> {
    let mut buffer = CryptoVec::from_slice(text.as_bytes());
    driver.get_input(&mut buffer).unwrap()
}

#[test]
fn mode_selection() {
    let mut driver = Linux::new();
    let mut buffer = CryptoVec::from_slice(b"This is an initial prompt\n\rlocalhost:~$");
    let _ = driver.get_input(&mut buffer);
    assert_eq!(driver.get_mode(), Mode::User);
    let mut buffer = CryptoVec::from_slice(b"This is an initial prompt\n\rlocalhost:~#");
    let _ = driver.get_input(&mut buffer);
    assert_eq!(driver.get_mode(), Mode::Superuser);
}

#[test]
fn escape_sequences() {
    let mut driver = Linux::new();
    let mut buffer = CryptoVec::from_slice(
        "This is an initial prompt\u{001b}[2001l unicode\n\rlocalhost:~$".as_bytes(),
    );
    let result = driver.get_input(&mut buffer).unwrap();
    assert_eq!(result[0], String::from("This is an initial prompt unicode"));
}

#[test]
fn it_works() {
    let result = 2 + 2;
    assert_eq!(result, 4);
}

#[test]
fn a_new_driver_has_seen_no_prompt() {
    assert_eq!(Linux::new().get_mode(), Mode::Undefined);
}

#[test]
fn set_mode_overwrites_the_mode() {
    let mut driver = Linux::new();
    for mode in [Mode::User, Mode::Superuser, Mode::Config, Mode::Undefined] {
        driver.set_mode(mode);
        assert_eq!(driver.get_mode(), mode);
    }
}

#[test]
fn text_without_a_marker_leaves_the_mode() {
    let mut driver = Linux::new();
    assert_eq!(read(&mut driver, "first\nsecond"), vec!["first", "second"]);
    assert_eq!(driver.get_mode(), Mode::Undefined);
    driver.set_mode(Mode::Superuser);
    assert_eq!(read(&mut driver, "still running..."), vec!["still running..."]);
    assert_eq!(driver.get_mode(), Mode::Superuser);
    assert_eq!(read(&mut driver, ""), Vec::<String>::new());
    assert_eq!(read(&mut driver, " \r\n \n"), Vec::<String>::new());
    assert_eq!(driver.get_mode(), Mode::Superuser);
}

#[test]
fn the_prompt_is_taken_off_the_lines() {
    let mut driver = Linux::new();
    assert_eq!(read(&mut driver, "whoami\nalice\nlocalhost:~$"), vec!["whoami", "alice"]);
    assert_eq!(driver.get_mode(), Mode::User);
    assert_eq!(read(&mut driver, "localhost:~# "), Vec::<String>::new());
    assert_eq!(driver.get_mode(), Mode::Superuser);
}

#[test]
fn only_the_last_line_is_looked_at() {
    let mut driver = Linux::new();
    assert_eq!(
        read(&mut driver, "cost: 5$\n# comment\ndone"),
        vec!["cost: 5$", "# comment", "done"]
    );
    assert_eq!(driver.get_mode(), Mode::Undefined);
}

#[test]
fn only_a_trailing_marker_makes_a_prompt() {
    let mut driver = Linux::new();
    assert_eq!(read(&mut driver, "total $5 due"), vec!["total $5 due"]);
    assert_eq!(driver.get_mode(), Mode::Undefined);
    assert_eq!(
        read(&mut driver, "out\nroot@host:/tmp# echo $HOME"),
        vec!["out", "root@host:/tmp# echo $HOME"]
    );
    assert_eq!(driver.get_mode(), Mode::Undefined);
    driver.set_mode(Mode::Superuser);
    assert_eq!(read(&mut driver, "user@host:~$ ls"), vec!["user@host:~$ ls"]);
    assert_eq!(driver.get_mode(), Mode::Superuser);
}

#[test]
fn the_marker_at_the_end_decides() {
    let mut driver = Linux::new();
    assert_eq!(read(&mut driver, "root#box:~$"), Vec::<String>::new());
    assert_eq!(driver.get_mode(), Mode::User);
    assert_eq!(read(&mut driver, "out\nso$me#"), vec!["out"]);
    assert_eq!(driver.get_mode(), Mode::Superuser);
    assert_eq!(read(&mut driver, "user@host:~$ # note $ \r\n"), Vec::<String>::new());
    assert_eq!(driver.get_mode(), Mode::User);
}

#[test]
fn lines_are_sanitized_trimmed_and_empty_ones_dropped() {
    let mut driver = Linux::new();
    let text = "\r\n  \u{1b}[1mtotal 0\u{1b}[0m  \r\n\r\n\u{1b}[K\r\n\tlast\t\r\n";
    assert_eq!(read(&mut driver, text), vec!["total 0", "last"]);
}

#[test]
fn a_prompt_behind_a_control_sequence_is_found() {
    let mut driver = Linux::new();
    assert_eq!(read(&mut driver, "out\n\u{1b}[32mhost\u{1b}[0m:~$ "), vec!["out"]);
    assert_eq!(driver.get_mode(), Mode::User);
}

#[test]
fn a_marker_inside_a_control_sequence_is_no_prompt() {
    let mut driver = Linux::new();
    assert_eq!(read(&mut driver, "a\u{1b}[$1mb"), vec!["ab"]);
    assert_eq!(driver.get_mode(), Mode::Undefined);
}

#[test]
fn bytes_that_are_no_text_are_refused() {
    let mut driver = Linux::new();
    driver.set_mode(Mode::User);
    for bytes in [&[0xffu8][..], &[0x61, 0x80], &[0xc3], &[0xed, 0xa0, 0x80], &[0xc0, 0xaf]] {
        let mut buffer = CryptoVec::from_slice(bytes);
        assert_eq!(driver.get_input(&mut buffer), Err(ParseError::Decode));
        assert_eq!(driver.get_mode(), Mode::User);
        assert_eq!(&buffer[..], bytes);
    }
}

#[test]
fn reading_leaves_the_buffer_as_it_was() {
    let mut driver = Linux::new();
    let mut buffer = CryptoVec::from_slice(b"a\n$");
    let _ = driver.get_input(&mut buffer);
    assert_eq!(&buffer[..], b"a\n$");
}

#[test]
fn text_outside_ascii_is_read() {
    let mut driver = Linux::new();
    assert_eq!(
        read(&mut driver, "h\u{e9}llo \u{4e16}\u{754c}\n\u{3bb}$"),
        vec!["h\u{e9}llo \u{4e16}\u{754c}"]
    );
    assert_eq!(driver.get_mode(), Mode::User);
}

#[test]
fn text_can_be_read_without_a_buffer() {
    let mut driver = Linux::new();
    assert_eq!(driver.parse_text(&chars_of("a\nb\n#")), vec!["a", "b"]);
    assert_eq!(driver.get_mode(), Mode::Superuser);
}

#[test]
fn decoding_gives_the_characters() {
    assert_eq!(decode("caf\u{e9}".as_bytes()), Ok(vec!['c', 'a', 'f', '\u{e9}']));
    assert_eq!(decode(b""), Ok(vec![]));
    assert_eq!(decode(&[0x80]), Err(ParseError::Decode));
}

#[test]
fn tidying_gives_the_logical_lines() {
    let rows = read_lines(&chars_of("  one \n\n \u{1b}[0m\ntwo\u{1b}[1m  \n"));
    assert_eq!(to_strings(&rows), vec!["one", "two"]);
    assert_eq!(read_lines(&chars_of("")), Vec::<Vec<char>>::new());
}

#[test]
fn prompts_are_found_by_their_marker() {
    assert_eq!(find_prompt(&chars_of("localhost:~$")), Some(Mode::User));
    assert_eq!(find_prompt(&chars_of("localhost:~#")), Some(Mode::Superuser));
    assert_eq!(find_prompt(&chars_of("#$")), Some(Mode::User));
    assert_eq!(find_prompt(&chars_of("$#")), Some(Mode::Superuser));
    assert_eq!(find_prompt(&chars_of("$")), Some(Mode::User));
    assert_eq!(find_prompt(&chars_of("total $5 due")), None);
    assert_eq!(find_prompt(&chars_of("localhost:~$ ")), None);
    assert_eq!(find_prompt(&chars_of("localhost:~>")), None);
    assert_eq!(find_prompt(&chars_of("")), None);
}

#[test]
fn escalation_goes_by_su() {
    let mut driver = Linux::new();
    driver.set_mode(Mode::User);
    assert_eq!(driver.do_become(), ("su".to_string(), "Password:".to_string()));
    assert_eq!(driver.get_mode(), Mode::User);
}

#[test]
fn capabilities_of_the_dialect() {
    assert!(Linux::new().can_become());
    assert!(!Linux::new().can_config());
    assert_eq!(Linux::new().do_config(), (String::new(), String::new()));
}

#[test]
fn the_dialect_is_known_by_its_name() {
    assert!(Linux::is_named("linux"));
    assert!(Linux::is_named("LiNuX"));
    assert!(!Linux::is_named("linux2"));
    assert!(!Linux::is_named(""));
    assert!(Linux::is_name("linux"));
    assert!(!Linux::is_name("Linux"));
}

#[test]
fn an_error_keeps_its_cause() {
    let error = NetrukoError::new("Failed to become".into());
    assert_eq!(error.description(), "Failed to become");
    assert_eq!(NetrukoError::new("".into()).description(), "");
}

#[test]
fn bytes_can_be_read_without_a_buffer() {
    let mut driver = Linux::new();
    assert_eq!(driver.parse_bytes(b"total $5 due"), Ok(vec!["total $5 due".to_string()]));
    assert_eq!(driver.get_mode(), Mode::Undefined);
    assert_eq!(driver.parse_bytes(b"root#box:~$"), Ok(vec![]));
    assert_eq!(driver.get_mode(), Mode::User);
    assert_eq!(driver.parse_bytes(&[0x24, 0xff]), Err(ParseError::Decode));
    assert_eq!(driver.get_mode(), Mode::User);
    assert_eq!(driver.parse_bytes(b"Password: "), Ok(vec!["Password:".to_string()]));
    assert_eq!(driver.parse_bytes(b"\r\nlocalhost:~#"), Ok(vec![]));
    assert_eq!(driver.get_mode(), Mode::Superuser);
}
