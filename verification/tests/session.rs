use netruko::drivers::linux::Linux;
use netruko::drivers::{Mode, NetrukoDriver};
use netruko::protocol::SessionError;
use netruko::{Message, Netruko, Step};
use russh::CryptoVec;

fn data(text: &str) -> Option<Message> {
    Some(Message::Data { data: CryptoVec::from_slice(text.as_bytes()) })
}

fn lines(items: &[&str]) -> Vec<String> {
    items.iter().map(|s| s.to_string()).collect()
}

fn authenticate() -> Step {
    Step::Authenticate {
        host: "localhost:22".to_string(),
        login: "alice".to_string(),
        password: "wonderland".to_string(),
    }
}

fn open_shell() -> Step {
    Step::OpenShell { terminal: "vt100".to_string(), columns: 80, rows: 25 }
}

fn close() -> Step {
    Step::Close { description: String::new(), language: "English".to_string() }
}

fn session(secret: Option<&str>) -> Netruko<Linux> {
    Netruko::new("localhost:22", "linux", "alice", "wonderland", secret).unwrap()
}

/// A session that has gone through `connect` and has seen a user prompt.
fn connected(secret: Option<&str>) -> Netruko<Linux> {
    let mut s = session(secret);
    assert_eq!(s.connect(), authenticate());
    assert_eq!(s.on_authenticated(true), open_shell());
    assert_eq!(s.on_shell_opened(), Step::Receive);
    assert_eq!(s.on_message(data("Welcome\nlocalhost:~$")), Step::Done(vec![]));
    assert!(s.is_connected());
    s
}

#[test]
fn unrecognized_dialect_gives_no_session() {
    assert!(Netruko::new("h", "cisco", "u", "p", None).is_none());
    assert!(Netruko::new("h", "", "u", "p", Some("s")).is_none());
    assert!(Netruko::new("h", "linux ", "u", "p", None).is_none());
}

#[test]
fn dialect_name_is_matched_without_case() {
    assert!(Netruko::new("h", "linux", "u", "p", None).is_some());
    assert!(Netruko::new("h", "Linux", "u", "p", None).is_some());
    assert!(Netruko::new("h", "LINUX", "u", "p", None).is_some());
}

#[test]
fn new_session_is_disconnected_and_keeps_its_credentials() {
    let s = session(Some("secret"));
    assert!(!s.is_connected());
    assert_eq!(s.mode(), Mode::Undefined);
    assert_eq!(s.host(), "localhost:22");
    assert_eq!(s.login(), "alice");
    assert_eq!(s.password(), "wonderland");
    assert!(!s.awaits_message());
    assert!(!s.awaits_sent());
}

#[test]
fn with_driver_starts_in_the_mode_of_the_driver() {
    let mut driver = Linux::new();
    driver.set_mode(Mode::Config);
    let s = Netruko::with_driver("h", driver, "u", "p", None);
    assert_eq!(s.mode(), Mode::Config);
    assert!(!s.is_connected());
}

#[test]
fn connect_reads_until_the_first_prompt() {
    let mut s = session(None);
    assert_eq!(s.connect(), authenticate());
    assert_eq!(s.on_authenticated(true), open_shell());
    assert_eq!(s.on_shell_opened(), Step::Receive);
    assert!(s.awaits_message());
    assert_eq!(s.on_message(data("Last login: yesterday\n")), Step::Receive);
    assert!(!s.is_connected());
    assert_eq!(s.on_message(Some(Message::Other)), Step::Receive);
    assert_eq!(s.on_message(data("motd\nlocalhost:~$ ")), Step::Done(vec![]));
    assert!(s.is_connected());
    assert_eq!(s.mode(), Mode::User);
}

#[test]
fn connect_fails_when_the_credentials_are_rejected() {
    let mut s = session(None);
    assert_eq!(s.connect(), authenticate());
    assert_eq!(s.on_authenticated(false), Step::Failed(SessionError::NotAuthenticated));
    assert!(!s.is_connected());
    assert_eq!(s.command("whoami".to_string(), false), Step::Failed(SessionError::NotConnected));
}

#[test]
fn connect_fails_when_the_transport_fails() {
    let mut s = session(None);
    assert_eq!(s.connect(), authenticate());
    assert_eq!(s.on_failure(), Step::Failed(SessionError::Transport));
    assert!(!s.is_connected());
    let mut s = session(None);
    s.connect();
    s.on_authenticated(true);
    assert_eq!(s.on_failure(), Step::Failed(SessionError::Transport));
    assert!(!s.is_connected());
}

#[test]
fn connect_fails_on_bytes_that_are_no_text() {
    let mut s = session(None);
    s.connect();
    s.on_authenticated(true);
    s.on_shell_opened();
    let garbled = Some(Message::Data { data: CryptoVec::from_slice(&[0x66, 0xff, 0x6f]) });
    assert_eq!(s.on_message(garbled), Step::Failed(SessionError::Decode));
    assert!(!s.is_connected());
    assert_eq!(s.mode(), Mode::Undefined);
}

#[test]
fn reconnect_gives_up_the_earlier_connection() {
    let mut s = connected(None);
    assert_eq!(s.connect(), authenticate());
    assert!(!s.is_connected());
}

#[test]
fn command_echo_is_stripped() {
    let mut s = connected(None);
    let step = s.command("whoami".to_string(), false);
    assert_eq!(step, Step::Send(b"whoami\n".to_vec()));
    assert_eq!(s.mode(), Mode::Undefined);
    assert!(s.awaits_sent());
    assert_eq!(s.on_sent(), Step::Receive);
    assert_eq!(s.on_message(data("whoami\nalice\nlocalhost:~$")), Step::Done(lines(&["alice"])));
    assert_eq!(s.mode(), Mode::User);
}

#[test]
fn command_output_is_collected_over_several_reads() {
    let mut s = connected(None);
    s.command("ls".to_string(), false);
    s.on_sent();
    assert_eq!(s.on_message(data("ls\r\nbin\r\n")), Step::Receive);
    assert_eq!(s.on_message(Some(Message::Eof)), Step::Receive);
    assert_eq!(s.on_message(data("etc\r\nusr")), Step::Receive);
    assert_eq!(
        s.on_message(data("\r\nvar\r\nlocalhost:~$ ")),
        Step::Done(lines(&["bin", "etc", "usr", "var"]))
    );
}

#[test]
fn a_single_line_is_kept_as_output() {
    let mut s = connected(None);
    s.command("true".to_string(), false);
    s.on_sent();
    assert_eq!(s.on_message(data("true\nlocalhost:~$")), Step::Done(lines(&["true"])));
}

#[test]
fn a_command_without_output_returns_no_lines() {
    let mut s = connected(None);
    s.command("true".to_string(), false);
    s.on_sent();
    assert_eq!(s.on_message(data("localhost:~#")), Step::Done(vec![]));
    assert_eq!(s.mode(), Mode::Superuser);
}

#[test]
fn two_lines_lose_the_first() {
    let mut s = connected(None);
    s.command("id".to_string(), false);
    s.on_sent();
    assert_eq!(s.on_message(data("uid=0\ngid=0\n$")), Step::Done(lines(&["gid=0"])));
}

#[test]
fn command_fails_when_not_connected() {
    let mut s = session(None);
    assert_eq!(s.command("whoami".to_string(), false), Step::Failed(SessionError::NotConnected));
    assert_eq!(s.on_sent(), Step::Failed(SessionError::Unexpected));
}

#[test]
fn command_fails_on_bytes_that_are_no_text() {
    let mut s = connected(None);
    s.command("cat blob".to_string(), false);
    s.on_sent();
    let garbled = Some(Message::Data { data: CryptoVec::from_slice(&[0xc3, 0x28]) });
    assert_eq!(s.on_message(garbled), Step::Failed(SessionError::Decode));
    assert_eq!(s.mode(), Mode::Undefined);
    assert!(s.is_connected());
    assert!(!s.awaits_message());
}

#[test]
fn command_fails_when_the_send_fails() {
    let mut s = connected(None);
    s.command("ls".to_string(), false);
    assert_eq!(s.on_failure(), Step::Failed(SessionError::Transport));
    assert_eq!(s.on_sent(), Step::Failed(SessionError::Unexpected));
}

#[test]
fn the_wait_goes_on_when_the_stream_ends() {
    let mut s = connected(None);
    s.command("sleep 1".to_string(), false);
    s.on_sent();
    for _ in 0..5 {
        assert_eq!(s.on_message(None), Step::Receive);
        assert!(s.awaits_message());
        assert_eq!(s.mode(), Mode::Undefined);
    }
    assert_eq!(s.on_message(Some(Message::Close)), Step::Receive);
}

#[test]
fn escalation_handshake_sends_the_secret_once_per_request() {
    let mut s = connected(Some("hunter2"));
    assert_eq!(s.do_become(), Step::Send(b"su\n".to_vec()));
    assert_eq!(s.mode(), Mode::Undefined);
    assert_eq!(s.on_sent(), Step::Receive);
    assert_eq!(s.on_message(data("su\n")), Step::Receive);
    assert_eq!(s.on_message(data("Password:")), Step::Send(b"hunter2\n".to_vec()));
    assert_eq!(s.on_sent(), Step::Receive);
    assert_eq!(s.on_message(data("\nlocalhost:~#")), Step::Done(vec![]));
    assert_eq!(s.mode(), Mode::Superuser);
}

#[test]
fn escalation_answers_every_request_of_one_read() {
    let mut s = connected(Some("pw"));
    s.do_become();
    s.on_sent();
    assert_eq!(
        s.on_message(data("Password:\nsorry\nPassword:\nPassword: \n")),
        Step::Send(b"pw\n".to_vec())
    );
    assert_eq!(s.on_sent(), Step::Send(b"pw\n".to_vec()));
    assert_eq!(s.on_sent(), Step::Send(b"pw\n".to_vec()));
    assert_eq!(s.on_sent(), Step::Receive);
    assert_eq!(s.on_message(data("root#")), Step::Done(vec![]));
}

#[test]
fn escalation_ignores_lines_that_only_contain_the_prompt() {
    let mut s = connected(Some("pw"));
    s.do_become();
    s.on_sent();
    assert_eq!(s.on_message(data("Enter Password:\npassword:")), Step::Receive);
}

#[test]
fn escalation_answers_before_it_looks_at_the_prompt() {
    let mut s = connected(Some("pw"));
    s.do_become();
    s.on_sent();
    assert_eq!(s.on_message(data("Password:\nhost#")), Step::Send(b"pw\n".to_vec()));
    assert_eq!(s.mode(), Mode::Superuser);
    assert_eq!(s.on_sent(), Step::Done(vec![]));
}

#[test]
fn escalation_fails_unless_the_mode_is_superuser() {
    let mut s = connected(Some("wrong"));
    s.do_become();
    s.on_sent();
    assert_eq!(s.on_message(data("Password:")), Step::Send(b"wrong\n".to_vec()));
    assert_eq!(s.on_sent(), Step::Receive);
    assert_eq!(
        s.on_message(data("su: Authentication failure\nlocalhost:~$")),
        Step::Failed(SessionError::EscalationFailed)
    );
    assert_eq!(s.mode(), Mode::User);
    assert!(s.is_connected());
}

#[test]
fn escalation_needs_a_secret() {
    let mut s = connected(None);
    assert_eq!(s.do_become(), Step::Failed(SessionError::NoEscalationSecret));
    assert_eq!(s.mode(), Mode::User);
    assert_eq!(
        s.command("id".to_string(), true),
        Step::Failed(SessionError::NoEscalationSecret)
    );
    let mut s = session(None);
    assert_eq!(s.do_become(), Step::Failed(SessionError::NoEscalationSecret));
}

#[test]
fn escalation_needs_a_connection() {
    let mut s = session(Some("pw"));
    assert_eq!(s.do_become(), Step::Failed(SessionError::NotConnected));
}

#[test]
fn command_with_escalation_runs_after_the_handshake() {
    let mut s = connected(Some("pw"));
    assert_eq!(s.command("whoami".to_string(), true), Step::Send(b"su\n".to_vec()));
    assert_eq!(s.on_sent(), Step::Receive);
    assert_eq!(s.on_message(data("Password:")), Step::Send(b"pw\n".to_vec()));
    assert_eq!(s.on_sent(), Step::Receive);
    assert_eq!(s.on_message(data("localhost:~#")), Step::Send(b"whoami\n".to_vec()));
    assert_eq!(s.mode(), Mode::Undefined);
    assert_eq!(s.on_sent(), Step::Receive);
    assert_eq!(s.on_message(data("whoami\nroot\nlocalhost:~#")), Step::Done(lines(&["root"])));
}

#[test]
fn command_with_escalation_fails_with_the_handshake() {
    let mut s = connected(Some("pw"));
    s.command("whoami".to_string(), true);
    s.on_sent();
    assert_eq!(s.on_message(data("localhost:~$")), Step::Failed(SessionError::EscalationFailed));
    assert!(!s.awaits_sent());
}

#[test]
fn explicit_escalation_takes_the_exchange_as_given() {
    let mut s = connected(Some("pw"));
    let step = s.escalate("enable", "Secret?".to_string(), Some("show".to_string()));
    assert_eq!(step, Step::Send(b"enable\n".to_vec()));
    s.on_sent();
    assert_eq!(s.on_message(data("Password:")), Step::Receive);
    assert_eq!(s.on_message(data("Secret?")), Step::Send(b"pw\n".to_vec()));
    s.on_sent();
    assert_eq!(s.on_message(data("router#")), Step::Send(b"show\n".to_vec()));
}

#[test]
fn lines_can_be_handed_in_directly() {
    let mut s = connected(None);
    s.command("x".to_string(), false);
    s.on_sent();
    assert_eq!(s.on_lines(lines(&["x", "y"])), Step::Receive);
    assert_eq!(s.on_message(data("z\n$")), Step::Done(lines(&["y", "z"])));
    assert_eq!(s.on_lines(vec![]), Step::Failed(SessionError::Unexpected));
}

#[test]
fn disconnect_twice_succeeds_both_times() {
    let mut s = connected(None);
    assert_eq!(s.disconnect(), close());
    assert!(!s.is_connected());
    assert_eq!(s.on_closed(), Step::Done(vec![]));
    assert_eq!(s.disconnect(), Step::Done(vec![]));
    assert!(!s.is_connected());
    assert_eq!(s.disconnect(), Step::Done(vec![]));
}

#[test]
fn disconnect_of_a_new_session_is_done_at_once() {
    let mut s = session(None);
    assert_eq!(s.disconnect(), Step::Done(vec![]));
    assert_eq!(s.on_closed(), Step::Failed(SessionError::Unexpected));
}

#[test]
fn failed_teardown_still_disconnects() {
    let mut s = connected(None);
    assert_eq!(s.disconnect(), close());
    assert_eq!(s.on_failure(), Step::Failed(SessionError::Disconnect));
    assert!(!s.is_connected());
    assert_eq!(s.disconnect(), Step::Done(vec![]));
}

#[test]
fn commands_fail_after_disconnect() {
    let mut s = connected(Some("pw"));
    s.disconnect();
    s.on_closed();
    assert_eq!(s.command("ls".to_string(), false), Step::Failed(SessionError::NotConnected));
    assert_eq!(s.do_become(), Step::Failed(SessionError::NotConnected));
}

#[test]
fn reports_out_of_turn_are_refused() {
    let mut s = session(None);
    assert_eq!(s.on_authenticated(true), Step::Failed(SessionError::Unexpected));
    assert_eq!(s.on_shell_opened(), Step::Failed(SessionError::Unexpected));
    assert_eq!(s.on_sent(), Step::Failed(SessionError::Unexpected));
    assert_eq!(s.on_message(data("localhost:~$")), Step::Failed(SessionError::Unexpected));
    assert_eq!(s.mode(), Mode::Undefined);
    assert_eq!(s.on_closed(), Step::Failed(SessionError::Unexpected));
    assert_eq!(s.on_failure(), Step::Failed(SessionError::Unexpected));
    let mut s = connected(None);
    s.command("ls".to_string(), false);
    assert_eq!(s.on_message(data("ls\n$")), Step::Failed(SessionError::Unexpected));
    assert_eq!(s.mode(), Mode::Undefined);
}

#[test]
fn a_new_operation_replaces_the_one_under_way() {
    let mut s = connected(None);
    s.command("first".to_string(), false);
    s.on_sent();
    s.on_message(data("first\npartial"));
    assert_eq!(s.command("second".to_string(), false), Step::Send(b"second\n".to_vec()));
    s.on_sent();
    assert_eq!(s.on_message(data("second\nout\n$")), Step::Done(lines(&["out"])));
}

#[test]
fn text_is_sent_as_utf8() {
    let mut s = connected(None);
    assert_eq!(
        s.command("echo \u{e9}t\u{e9}".to_string(), false),
        Step::Send("echo \u{e9}t\u{e9}\n".as_bytes().to_vec())
    );
}

#[test]
fn errors_come_with_a_description() {
    assert_eq!(SessionError::EscalationFailed.description(), "Failed to become");
    assert_eq!(SessionError::NotConnected.description(), "Not connected");
    assert_eq!(
        SessionError::NotAuthenticated.description(),
        "No authentication method succeeded"
    );
    assert_eq!(SessionError::NoEscalationSecret.description(), "No secret to become with");
    assert_eq!(
        SessionError::Decode.description(),
        "The channel delivered bytes that are no text"
    );
    assert_eq!(SessionError::Disconnect.description(), "Failed to disconnect");
    assert_eq!(SessionError::Transport.description(), "The transport failed");
    assert_eq!(SessionError::Unexpected.description(), "Unexpected report");
}

#[test]
fn escalation_with_a_prompt_that_has_a_trailing_space() {
    let mut s = connected(Some("s3"));
    assert_eq!(s.do_become(), Step::Send(b"su\n".to_vec()));
    assert_eq!(s.on_sent(), Step::Receive);
    assert_eq!(s.on_message(data("Password: ")), Step::Send(b"s3\n".to_vec()));
    assert_eq!(s.on_sent(), Step::Receive);
    assert_eq!(s.on_message(data("\r\nlocalhost:~#")), Step::Done(vec![]));
    assert_eq!(s.mode(), Mode::Superuser);
}

#[test]
fn output_with_a_marker_in_it_does_not_end_a_command() {
    let mut s = connected(None);
    s.command("cat bill".to_string(), false);
    s.on_sent();
    assert_eq!(s.on_message(data("cat bill\ntotal $5 due")), Step::Receive);
    assert_eq!(s.mode(), Mode::Undefined);
    assert_eq!(
        s.on_message(data("# paid\nroot#box:~$")),
        Step::Done(lines(&["total $5 due", "# paid"]))
    );
    assert_eq!(s.mode(), Mode::User);
}
