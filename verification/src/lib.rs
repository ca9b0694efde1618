//! Interactive sessions on a remote shell, driven by a program as a human
//! operator would: type a command, wait for the prompt, read what came back.
//!
//! A [`Netruko`] session owns a driver for the dialect of the shell and keeps
//! track of what it is waiting for. It does no input or output of its own.
//! Every operation returns a [`Step`] that says what the caller has to do
//! next on the transport, and the caller reports the outcome through one of
//! the `on_` methods, which returns the next step. The rules of this dialogue
//! are those of [`protocol::State`].
//!
//! A command runs like this: `command` returns `Step::Send` with the bytes
//! to write; `on_sent` then returns `Step::Receive`; each message that the
//! channel delivers goes to `on_message`, which returns `Step::Receive` again
//! until a chunk ends in a prompt, and then `Step::Done` with the output.
//!
//! The modules, leaves first: [`text`] trims and splits text, [`sanitize`]
//! removes terminal control sequences, [`drivers`] holds the interface of a
//! dialect and the driver for Unix shells, and [`protocol`] the rules of a
//! session.

pub mod drivers;
pub mod protocol;
pub mod sanitize;
pub mod text;

use crate::drivers::linux::{
    become_command, become_prompt, lemma_become_prompt_is_text, lemma_one_line_chunk,
    names_linux, Linux, SUPERUSER, USER,
};
use crate::drivers::{cryptovec_bytes, Mode, NetrukoDriver, Parsed};
use crate::protocol::{
    occurrences, payload, Read, Request, SessionError, State, Task, COLUMNS, ROWS,
};
use crate::sanitize::is_plain;
use crate::text::{texts, trim};
use vstd::prelude::*;
use vstd::string::StrSliceExecFns;
use vstd::utf8::{decode_utf8, valid_utf8};

verus! {

/// One message of the shell channel.
#[derive(Debug)]
pub enum Message {
    /// A chunk of the shell's output.
    Data { data: russh::CryptoVec },
    /// The remote side will send no more data.
    Eof,
    /// The remote side closes the channel.
    Close,
    /// Any other notification.
    Other,
}

/// What the caller of a session has to do next.
#[derive(Debug, PartialEq, Eq)]
pub enum Step {
    /// Open the transport to the host and authenticate with login and
    /// password; report the outcome with `on_authenticated`.
    Authenticate { host: String, login: String, password: String },
    /// Open a channel, request a pseudo-terminal of this type and size on
    /// it, and then a shell; report with `on_shell_opened`.
    OpenShell { terminal: String, columns: u32, rows: u32 },
    /// Write these bytes to the channel; report with `on_sent`.
    Send(Vec<u8>),
    /// Wait for the next message of the channel; report it with
    /// `on_message`.
    Receive,
    /// Close the channel, then the connection with this description and
    /// language tag, and let go of both; report with `on_closed`.
    Close { description: String, language: String },
    /// The operation is over; these are the lines it returns.
    Done(Vec<String>),
    /// The operation has failed.
    Failed(SessionError),
}

impl View for Step {
    type V = Request;

    open spec fn view(&self) -> Request {
        match self {
            Step::Authenticate { host, login, password } => Request::Authenticate {
                host: host@,
                login: login@,
                password: password@,
            },
            Step::OpenShell { terminal, columns, rows } => Request::OpenShell {
                terminal: terminal@,
                columns: *columns,
                rows: *rows,
            },
            Step::Send(bytes) => Request::Send(bytes@),
            Step::Receive => Request::Receive,
            Step::Close { description, language } => Request::Close {
                description: description@,
                language: language@,
            },
            Step::Done(found) => Request::Done(texts(found@)),
            Step::Failed(error) => Request::Failed(*error),
        }
    }
}

/// The text of an optional string.
pub open spec fn text_of(s: Option<String>) -> Option<Seq<char>> {
    match s {
        Some(s) => Some(s@),
        None => None,
    }
}

/// The text of an optional string slice.
pub open spec fn text_of_slice(s: Option<&str>) -> Option<Seq<char>> {
    match s {
        Some(s) => Some(s@),
        None => None,
    }
}

/// What a driver of dialect `D` in mode `mode` makes of a chunk of bytes.
pub open spec fn chunk_of<D: NetrukoDriver>(mode: Mode, raw: Seq<u8>) -> Read {
    let reading = D::reads(mode, raw);
    match reading.lines {
        Some(lines) => Read::Chunk(Parsed { lines, mode: reading.mode }),
        None => Read::Garbled { mode: reading.mode },
    }
}

/// What the channel delivered, as a driver of dialect `D` in mode `mode`
/// reads it.
pub open spec fn read_of<D: NetrukoDriver>(mode: Mode, message: Option<Message>) -> Read {
    match message {
        None => Read::End,
        Some(Message::Data { data }) => chunk_of::<D>(mode, cryptovec_bytes(data)),
        Some(_) => Read::Control,
    }
}

/// What a session is in the middle of, with the data it needs to go on.
enum Work {
    Idle,
    Authenticating,
    OpeningShell,
    Greeting,
    Escalating {
        prompt: String,
        answer: Vec<u8>,
        owed: usize,
        sending: bool,
        next: Option<String>,
    },
    Running { collected: Vec<String>, sending: bool },
    Closing,
}

impl View for Work {
    type V = Task;

    closed spec fn view(&self) -> Task {
        match self {
            Work::Idle => Task::Idle,
            Work::Authenticating => Task::Authenticating,
            Work::OpeningShell => Task::OpeningShell,
            Work::Greeting => Task::Greeting,
            Work::Escalating { prompt, answer, owed, sending, next } => Task::Escalating {
                prompt: prompt@,
                answer: answer@,
                owed: *owed as nat,
                sending: *sending,
                next: text_of(*next),
            },
            Work::Running { collected, sending } => Task::Running {
                collected: texts(collected@),
                sending: *sending,
            },
            Work::Closing => Task::Closing,
        }
    }
}

/// The bytes that submit one line of input.
fn line_bytes(text: &str) -> (bytes: Vec<u8>)
    ensures
        bytes@ == payload(text@),
{
    let mut line = text.to_owned();
    line.push('\n');
    line.as_str().as_bytes_vec()
}

/// The step that ends an operation which returns no lines.
fn done() -> (step: Step)
    ensures
        step@ == Request::Done(Seq::empty()),
{
    let none: Vec<String> = Vec::new();
    assert(texts(none@) == Seq::<Seq<char>>::empty());
    Step::Done(none)
}

/// How many of the lines are exactly `prompt`.
fn count_prompts(found: &Vec<String>, prompt: &String) -> (count: usize)
    ensures
        count == occurrences(texts(found@), prompt@),
{
    let mut count: usize = 0;
    let mut i: usize = 0;
    while i < found.len()
        invariant
            i <= found.len(),
            count <= i,
            count == occurrences(texts(found@).take(i as int), prompt@),
        decreases found.len() - i,
    {
        assert(texts(found@).take(i + 1).drop_last() == texts(found@).take(i as int));
        if found[i] == *prompt {
            count += 1;
        }
        i += 1;
    }
    assert(texts(found@).take(found@.len() as int) == texts(found@));
    count
}

/// One logical connection to a remote shell: the host and the credentials,
/// the driver of the dialect, and what the session is in the middle of.
pub struct Netruko<D: NetrukoDriver> {
    host: String,
    login: String,
    password: String,
    become_password: Option<String>,
    driver: D,
    connected: bool,
    work: Work,
}

impl<D: NetrukoDriver> View for Netruko<D> {
    type V = State;

    closed spec fn view(&self) -> State {
        State {
            host: self.host@,
            login: self.login@,
            password: self.password@,
            secret: text_of(self.become_password),
            connected: self.connected,
            mode: self.driver.mode(),
            task: self.work@,
        }
    }
}

impl Netruko<Linux> {
    /// A session on a host whose shell speaks the dialect named `driver`.
    /// The name is matched without regard to case, and `"linux"` is the one
    /// dialect known: any other name gives no session. The session starts
    /// disconnected, with no prompt seen.
    pub fn new(
        host: &str,
        driver: &str,
        username: &str,
        password: &str,
        become_password: Option<&str>,
    ) -> (session: Option<Self>)
        ensures
            session is Some <==> names_linux(driver@),
            session matches Some(s) ==> s@ == State::fresh(
                host@,
                username@,
                password@,
                text_of_slice(become_password),
            ),
    {
        if Linux::is_named(driver) {
            Some(Self::with_driver(host, Linux::new(), username, password, become_password))
        } else {
            None
        }
    }
}

/// The escalation handshake on a Unix shell. A connected session with a
/// secret sends `su`, waits, and answers the chunk that asks for the
/// password with the secret, sent once. When a chunk then shows a prompt,
/// the escalation is done if the prompt ends in `#`, and has failed if it
/// ends in `$`. This holds of every chunk that asks by the text `Password:`
/// with whitespace around it, and of every prompt on one line.
pub proof fn lemma_su_handshake(s: State, asked: Seq<u8>, shown: Seq<u8>)
    requires
        s.connected,
        s.secret is Some,
        valid_utf8(asked),
        trim(decode_utf8(asked)) == become_prompt(),
        valid_utf8(shown),
        trim(decode_utf8(shown)).len() > 0,
        is_plain(trim(decode_utf8(shown))),
        forall|i: int|
            0 <= i < trim(decode_utf8(shown)).len() ==> trim(decode_utf8(shown))[i] != '\n',
    ensures
        ({
            let begun = s.escalate(become_command(), become_prompt(), None);
            let waiting = begun.0.on_sent();
            let request = waiting.0.on_message(chunk_of::<Linux>(waiting.0.mode, asked));
            let answered = request.0.on_sent();
            let end = answered.0.on_message(chunk_of::<Linux>(answered.0.mode, shown));
            let marker = trim(decode_utf8(shown)).last();
            &&& begun.1 == Request::Send(payload(become_command()))
            &&& waiting.1 == Request::Receive
            &&& request.1 == Request::Send(payload(s.secret->0))
            &&& answered.1 == Request::Receive
            &&& marker == SUPERUSER ==> end == (
                State { mode: Mode::Superuser, task: Task::Idle, ..s },
                Request::Done(Seq::empty()),
            )
            &&& marker == USER ==> end == (
                State { mode: Mode::User, task: Task::Idle, ..s },
                Request::Failed(SessionError::EscalationFailed),
            )
        }),
{
    lemma_become_prompt_is_text();
    lemma_one_line_chunk(Mode::Undefined, decode_utf8(asked));
    lemma_one_line_chunk(Mode::Undefined, decode_utf8(shown));
    let none = Seq::<Seq<char>>::empty();
    assert(seq![become_prompt()].drop_last() == none);
    assert(occurrences(none, become_prompt()) == 0);
}

impl<D: NetrukoDriver> Netruko<D> {
    /// A session that talks through the given driver. It starts
    /// disconnected, in the mode that the driver is in.
    pub fn with_driver(
        host: &str,
        driver: D,
        username: &str,
        password: &str,
        become_password: Option<&str>,
    ) -> (session: Self)
        ensures
            session@ == (State {
                mode: driver.mode(),
                ..State::fresh(host@, username@, password@, text_of_slice(become_password))
            }),
    {
        let secret = match become_password {
            Some(secret) => Some(secret.to_owned()),
            None => None,
        };
        Netruko {
            host: host.to_owned(),
            login: username.to_owned(),
            password: password.to_owned(),
            become_password: secret,
            driver,
            connected: false,
            work: Work::Idle,
        }
    }

    /// The host to connect to.
    pub fn host(&self) -> (host: &str)
        ensures
            host@ == self@.host,
    {
        self.host.as_str()
    }

    /// The name to log in with.
    pub fn login(&self) -> (login: &str)
        ensures
            login@ == self@.login,
    {
        self.login.as_str()
    }

    /// The password to log in with.
    pub fn password(&self) -> (password: &str)
        ensures
            password@ == self@.password,
    {
        self.password.as_str()
    }

    /// Whether the session holds an open channel and connection.
    pub fn is_connected(&self) -> (connected: bool)
        ensures
            connected == self@.connected,
    {
        self.connected
    }

    /// The mode that the shell last announced.
    pub fn mode(&self) -> (mode: Mode)
        ensures
            mode == self@.mode,
    {
        self.driver.get_mode()
    }

    fn fail(&mut self, error: SessionError) -> (step: Step)
        ensures
            (final(self)@, step@) == old(self)@.fail(error),
    {
        self.work = Work::Idle;
        Step::Failed(error)
    }

    fn submit(&mut self, text: &str) -> (step: Step)
        ensures
            (final(self)@, step@) == old(self)@.submit(text@),
    {
        self.driver.set_mode(Mode::Undefined);
        if self.connected {
            self.work = Work::Running { collected: Vec::new(), sending: true };
            assert(texts(Seq::<String>::empty()) == Seq::<Seq<char>>::empty());
            Step::Send(line_bytes(text))
        } else {
            self.fail(SessionError::NotConnected)
        }
    }

    fn proceed(&mut self) -> (step: Step)
        ensures
            (final(self)@, step@) == old(self)@.proceed(),
    {
        let waiting = self.driver.get_mode() == Mode::Undefined;
        let superuser = self.driver.get_mode() == Mode::Superuser;
        let mut work = Work::Idle;
        core::mem::swap(&mut self.work, &mut work);
        match work {
            Work::Greeting => {
                if waiting {
                    self.work = Work::Greeting;
                    Step::Receive
                } else {
                    self.connected = true;
                    done()
                }
            },
            Work::Running { collected, sending } => {
                if waiting {
                    self.work = Work::Running { collected, sending: false };
                    Step::Receive
                } else {
                    let mut output = collected;
                    if output.len() > 1 {
                        let _ = output.remove(0);
                        assert(texts(output@) == texts(collected@).drop_first());
                    }
                    Step::Done(output)
                }
            },
            Work::Escalating { prompt, answer, owed, sending, next } => {
                if owed > 0 {
                    let bytes = answer.clone();
                    self.work = Work::Escalating {
                        prompt,
                        answer,
                        owed: owed - 1,
                        sending: true,
                        next,
                    };
                    Step::Send(bytes)
                } else if waiting {
                    self.work = Work::Escalating { prompt, answer, owed: 0, sending: false, next };
                    Step::Receive
                } else if !superuser {
                    Step::Failed(SessionError::EscalationFailed)
                } else {
                    match next {
                        None => done(),
                        Some(text) => self.submit(text.as_str()),
                    }
                }
            },
            _ => Step::Failed(SessionError::Unexpected),
        }
    }

    /// Begins the escalation handshake with the dialect's command and the
    /// prompt it is expected to draw. Fails at once if the session has no
    /// secret, or no channel to send on. `next` is a command to run once
    /// privilege is raised.
    pub fn escalate(&mut self, command: &str, prompt: String, next: Option<String>) -> (step: Step)
        ensures
            (final(self)@, step@) == old(self)@.escalate(command@, prompt@, text_of(next)),
    {
        match &self.become_password {
            None => self.fail(SessionError::NoEscalationSecret),
            Some(secret) => {
                let answer = line_bytes(secret.as_str());
                self.driver.set_mode(Mode::Undefined);
                if self.connected {
                    self.work = Work::Escalating { prompt, answer, owed: 0, sending: true, next };
                    Step::Send(line_bytes(command))
                } else {
                    self.fail(SessionError::NotConnected)
                }
            },
        }
    }

    /// Begins to connect. The caller is asked to authenticate, then to open
    /// the shell; after that the session reads until the first prompt, and
    /// only then counts as connected.
    pub fn connect(&mut self) -> (step: Step)
        ensures
            (final(self)@, step@) == old(self)@.connect(),
    {
        self.connected = false;
        self.work = Work::Authenticating;
        Step::Authenticate {
            host: self.host.clone(),
            login: self.login.clone(),
            password: self.password.clone(),
        }
    }

    /// Begins to disconnect. A connected session asks the caller to close
    /// channel and connection and counts as disconnected from now on; a
    /// disconnected one is done at once.
    pub fn disconnect(&mut self) -> (step: Step)
        ensures
            (final(self)@, step@) == old(self)@.disconnect(),
    {
        if self.connected {
            self.connected = false;
            self.work = Work::Closing;
            Step::Close { description: String::new(), language: "English".to_owned() }
        } else {
            self.work = Work::Idle;
            done()
        }
    }

    /// Begins to run a command, after raising privilege if `need_become`
    /// says so. The step that ends the operation carries the output of the
    /// command.
    pub fn command(&mut self, cmd: String, need_become: bool) -> (step: Step)
        ensures
            (final(self)@, step@) == old(self)@.command(cmd@, need_become, D::escalation()),
    {
        if need_become {
            if self.become_password.is_none() {
                return self.fail(SessionError::NoEscalationSecret);
            }
            let (command, prompt) = self.driver.do_become();
            self.escalate(command.as_str(), prompt, Some(cmd))
        } else {
            self.submit(cmd.as_str())
        }
    }

    /// Begins to raise privilege: sends the dialect's command and answers
    /// each request for the secret, until the shell shows a prompt again.
    pub fn do_become(&mut self) -> (step: Step)
        ensures
            (final(self)@, step@) == old(self)@.escalate(
                D::escalation().0,
                D::escalation().1,
                None,
            ),
    {
        if self.become_password.is_none() {
            return self.fail(SessionError::NoEscalationSecret);
        }
        let (command, prompt) = self.driver.do_become();
        self.escalate(command.as_str(), prompt, None)
    }

    /// The caller reports whether the server accepted the credentials.
    pub fn on_authenticated(&mut self, accepted: bool) -> (step: Step)
        ensures
            (final(self)@, step@) == old(self)@.on_authenticated(accepted),
    {
        match self.work {
            Work::Authenticating => {
                if accepted {
                    self.work = Work::OpeningShell;
                    Step::OpenShell { terminal: "vt100".to_owned(), columns: COLUMNS, rows: ROWS }
                } else {
                    self.fail(SessionError::NotAuthenticated)
                }
            },
            _ => self.fail(SessionError::Unexpected),
        }
    }

    /// The caller reports that the shell channel is open.
    pub fn on_shell_opened(&mut self) -> (step: Step)
        ensures
            (final(self)@, step@) == old(self)@.on_shell_opened(),
    {
        match self.work {
            Work::OpeningShell => {
                self.work = Work::Greeting;
                self.proceed()
            },
            _ => self.fail(SessionError::Unexpected),
        }
    }

    /// The caller reports that the bytes were written.
    pub fn on_sent(&mut self) -> (step: Step)
        ensures
            (final(self)@, step@) == old(self)@.on_sent(),
    {
        if self.awaits_sent() {
            self.proceed()
        } else {
            self.fail(SessionError::Unexpected)
        }
    }

    /// Whether the session awaits the end of a send.
    pub fn awaits_sent(&self) -> (awaited: bool)
        ensures
            awaited == self@.awaits_sent(),
    {
        match &self.work {
            Work::Escalating { sending, .. } => *sending,
            Work::Running { sending, .. } => *sending,
            _ => false,
        }
    }

    /// Whether the session awaits a message of the channel.
    pub fn awaits_message(&self) -> (awaited: bool)
        ensures
            awaited == self@.awaits_message(),
    {
        match &self.work {
            Work::Greeting => true,
            Work::Escalating { sending, .. } => !*sending,
            Work::Running { sending, .. } => !*sending,
            _ => false,
        }
    }

    /// Takes in the lines of one read. The mode is the one that the read
    /// has left.
    pub fn on_lines(&mut self, found: Vec<String>) -> (step: Step)
        ensures
            (final(self)@, step@) == old(self)@.absorb(texts(found@)),
    {
        if !self.awaits_message() {
            return self.fail(SessionError::Unexpected);
        }
        let mut work = Work::Idle;
        core::mem::swap(&mut self.work, &mut work);
        match work {
            Work::Running { collected, sending } => {
                let mut collected = collected;
                let mut found = found;
                let ghost before = texts(collected@);
                let ghost added = texts(found@);
                collected.append(&mut found);
                assert(texts(collected@) == before + added);
                self.work = Work::Running { collected, sending };
            },
            Work::Escalating { prompt, answer, owed, sending, next } => {
                let owed = count_prompts(&found, &prompt);
                self.work = Work::Escalating { prompt, answer, owed, sending, next };
            },
            other => {
                self.work = other;
            },
        }
        self.proceed()
    }

    /// The caller reports what the wait on the channel has returned:
    /// a message, or nothing where the stream is over.
    pub fn on_message(&mut self, message: Option<Message>) -> (step: Step)
        ensures
            (final(self)@, step@) == old(self)@.on_message(
                read_of::<D>(old(self)@.mode, message),
            ),
    {
        if !self.awaits_message() {
            return self.fail(SessionError::Unexpected);
        }
        match message {
            None => {
                let none: Vec<String> = Vec::new();
                self.on_lines(none)
            },
            Some(Message::Data { data }) => {
                let mut data = data;
                match self.driver.get_input(&mut data) {
                    Ok(found) => self.on_lines(found),
                    Err(_) => self.fail(SessionError::Decode),
                }
            },
            Some(_) => Step::Receive,
        }
    }

    /// The caller reports that channel and connection are closed.
    pub fn on_closed(&mut self) -> (step: Step)
        ensures
            (final(self)@, step@) == old(self)@.on_closed(),
    {
        match self.work {
            Work::Closing => {
                self.work = Work::Idle;
                done()
            },
            _ => self.fail(SessionError::Unexpected),
        }
    }

    /// The caller reports that it could not carry out the last request.
    pub fn on_failure(&mut self) -> (step: Step)
        ensures
            (final(self)@, step@) == old(self)@.on_failure(),
    {
        match self.work {
            Work::Idle => self.fail(SessionError::Unexpected),
            Work::Closing => self.fail(SessionError::Disconnect),
            _ => self.fail(SessionError::Transport),
        }
    }
}

} // verus!
