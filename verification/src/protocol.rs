//! The session protocol as a state machine over plain values.
//!
//! A session never talks to the transport itself. Each operation is a
//! dialogue: the session hands out a request, the caller carries it out and
//! reports what happened, and the session answers with the next request,
//! until the operation is done or has failed. This module says, for every
//! state and every report, what the next state and the next request are, and
//! proves what holds of every run.
//!
//! All waiting goes by one rule: after a command or an answer has been sent,
//! the session keeps asking for the next message of the channel until the
//! mode of the shell is no longer `Undefined`.

use crate::drivers::{Mode, Parsed};
use vstd::prelude::*;
use vstd::utf8::encode_utf8;

verus! {

/// Why an operation of a session failed.
#[derive(Clone, Copy, Debug, PartialEq, Eq, Structural)]
pub enum SessionError {
    /// The server rejected the credentials.
    NotAuthenticated,
    /// The channel delivered bytes that the driver could not read as text.
    Decode,
    /// Something was to be sent, and the session has no open channel.
    NotConnected,
    /// Privilege was to be raised, and the session has no secret for it.
    NoEscalationSecret,
    /// The shell answered the escalation with a prompt other than the
    /// superuser's.
    EscalationFailed,
    /// Closing the channel or the connection failed.
    Disconnect,
    /// The transport failed to carry out a request.
    Transport,
    /// A report arrived that answers no request of the session.
    Unexpected,
}

impl SessionError {
    /// The error in words.
    pub open spec fn text(self) -> Seq<char> {
        match self {
            SessionError::NotAuthenticated => "No authentication method succeeded"@,
            SessionError::Decode => "The channel delivered bytes that are no text"@,
            SessionError::NotConnected => "Not connected"@,
            SessionError::NoEscalationSecret => "No secret to become with"@,
            SessionError::EscalationFailed => "Failed to become"@,
            SessionError::Disconnect => "Failed to disconnect"@,
            SessionError::Transport => "The transport failed"@,
            SessionError::Unexpected => "Unexpected report"@,
        }
    }

    /// The error in words.
    pub fn description(self) -> (text: &'static str)
        ensures
            text@ == self.text(),
    {
        match self {
            SessionError::NotAuthenticated => "No authentication method succeeded",
            SessionError::Decode => "The channel delivered bytes that are no text",
            SessionError::NotConnected => "Not connected",
            SessionError::NoEscalationSecret => "No secret to become with",
            SessionError::EscalationFailed => "Failed to become",
            SessionError::Disconnect => "Failed to disconnect",
            SessionError::Transport => "The transport failed",
            SessionError::Unexpected => "Unexpected report",
        }
    }
}

/// What a session is in the middle of.
pub enum Task {
    /// Nothing: the last operation is over.
    Idle,
    /// Connecting: the outcome of the authentication is awaited.
    Authenticating,
    /// Connecting: the shell channel is being opened.
    OpeningShell,
    /// Connecting: the banner is being read, up to the first prompt.
    Greeting,
    /// Raising privilege.
    Escalating {
        /// The text by which the shell asks for the secret.
        prompt: Seq<char>,
        /// The bytes that answer it.
        answer: Seq<u8>,
        /// How often the answer is still to be sent after the send that is
        /// under way.
        owed: nat,
        /// Whether a send is under way (else a message is awaited).
        sending: bool,
        /// The command to run once privilege is raised, if any.
        next: Option<Seq<char>>,
    },
    /// Running a command.
    Running {
        /// The lines of output read so far.
        collected: Seq<Seq<char>>,
        /// Whether the command is still being sent (else a message is
        /// awaited).
        sending: bool,
    },
    /// Disconnecting: the channel and the connection are being closed.
    Closing,
}

/// A session, as the protocol sees it.
pub struct State {
    pub host: Seq<char>,
    pub login: Seq<char>,
    pub password: Seq<char>,
    /// The secret that raises privilege, if one was configured.
    pub secret: Option<Seq<char>>,
    /// Whether the session holds an open channel and connection.
    pub connected: bool,
    /// The mode that the driver tracks.
    pub mode: Mode,
    pub task: Task,
}

/// What a session asks of its caller.
pub enum Request {
    /// Open the transport to the host and authenticate with login and
    /// password; report whether the server accepted them.
    Authenticate { host: Seq<char>, login: Seq<char>, password: Seq<char> },
    /// Open a channel, request a pseudo-terminal of this type and size on
    /// it, and then a shell.
    OpenShell { terminal: Seq<char>, columns: u32, rows: u32 },
    /// Write these bytes to the channel.
    Send(Seq<u8>),
    /// Wait for the next message of the channel and report it.
    Receive,
    /// Close the channel, then the connection with this description and
    /// language tag, and let go of both.
    Close { description: Seq<char>, language: Seq<char> },
    /// The operation is over; these are the lines it returns.
    Done(Seq<Seq<char>>),
    /// The operation has failed.
    Failed(SessionError),
}

/// What the channel delivered on one wait.
pub enum Read {
    /// A chunk of data that the driver could read.
    Chunk(Parsed),
    /// A chunk of data that the driver has refused, and the mode that it
    /// is in after that.
    Garbled { mode: Mode },
    /// A message that carries no data: it is passed over.
    Control,
    /// Nothing: the stream is over.
    End,
}

/// The type of the pseudo-terminal that a session asks for.
pub open spec fn terminal() -> Seq<char> {
    "vt100"@
}

/// The width of the pseudo-terminal, in characters.
pub const COLUMNS: u32 = 80;

/// The height of the pseudo-terminal, in characters.
pub const ROWS: u32 = 25;

/// The language tag that goes with the description of a disconnect.
pub open spec fn language() -> Seq<char> {
    "English"@
}

/// The request to open the shell.
pub open spec fn open_shell() -> Request {
    Request::OpenShell { terminal: terminal(), columns: COLUMNS, rows: ROWS }
}

/// The request to close channel and connection. The disconnect has no
/// description.
pub open spec fn close() -> Request {
    Request::Close { description: Seq::empty(), language: language() }
}

/// The bytes that submit one line of input: its text, then a line feed.
pub open spec fn payload(text: Seq<char>) -> Seq<u8> {
    encode_utf8(text.push('\n'))
}

/// The output of a command, given the lines read while it ran. The shell
/// echoes the command, so where more than one line was read the first is
/// dropped. A single line is taken for output.
pub open spec fn strip_echo(collected: Seq<Seq<char>>) -> Seq<Seq<char>> {
    if collected.len() > 1 {
        collected.drop_first()
    } else {
        collected
    }
}

/// How many of the lines are exactly `prompt`.
pub open spec fn occurrences(found: Seq<Seq<char>>, prompt: Seq<char>) -> nat
    decreases found.len(),
{
    if found.len() == 0 {
        0
    } else if found.last() == prompt {
        occurrences(found.drop_last(), prompt) + 1
    } else {
        occurrences(found.drop_last(), prompt)
    }
}

impl State {
    /// A new session: not connected, no prompt seen, nothing under way.
    pub open spec fn fresh(
        host: Seq<char>,
        login: Seq<char>,
        password: Seq<char>,
        secret: Option<Seq<char>>,
    ) -> State {
        State {
            host,
            login,
            password,
            secret,
            connected: false,
            mode: Mode::Undefined,
            task: Task::Idle,
        }
    }

    /// The same session with another task.
    pub open spec fn doing(self, task: Task) -> State {
        State { task, ..self }
    }

    /// The same session armed for a wait: the mode is `Undefined` again.
    pub open spec fn armed(self) -> State {
        State { mode: Mode::Undefined, ..self }
    }

    /// Whether the session awaits a message of the channel.
    pub open spec fn awaits_message(self) -> bool {
        match self.task {
            Task::Greeting => true,
            Task::Escalating { sending, .. } => !sending,
            Task::Running { sending, .. } => !sending,
            _ => false,
        }
    }

    /// Whether the session awaits the end of a send.
    pub open spec fn awaits_sent(self) -> bool {
        match self.task {
            Task::Escalating { sending, .. } => sending,
            Task::Running { sending, .. } => sending,
            _ => false,
        }
    }

    /// Whether two sessions are on the same host with the same credentials
    /// and the same secret.
    pub open spec fn same_identity(self, other: State) -> bool {
        &&& self.host == other.host
        &&& self.login == other.login
        &&& self.password == other.password
        &&& self.secret == other.secret
    }

    /// The operation under way fails.
    pub open spec fn fail(self, error: SessionError) -> (State, Request) {
        (self.doing(Task::Idle), Request::Failed(error))
    }

    /// Begins `connect`. An earlier connection is given up.
    pub open spec fn connect(self) -> (State, Request) {
        (
            State { connected: false, task: Task::Authenticating, ..self },
            Request::Authenticate { host: self.host, login: self.login, password: self.password },
        )
    }

    /// Begins `disconnect`. The session counts as disconnected from here
    /// on, whatever becomes of the closing.
    pub open spec fn disconnect(self) -> (State, Request) {
        if self.connected {
            (State { connected: false, task: Task::Closing, ..self }, close())
        } else {
            (self.doing(Task::Idle), Request::Done(Seq::empty()))
        }
    }

    /// Submits a command: arms the wait, then sends the text.
    pub open spec fn submit(self, text: Seq<char>) -> (State, Request) {
        if self.connected {
            (
                self.armed().doing(Task::Running { collected: Seq::empty(), sending: true }),
                Request::Send(payload(text)),
            )
        } else {
            self.armed().fail(SessionError::NotConnected)
        }
    }

    /// Begins the escalation handshake with the dialect's command and the
    /// prompt it is expected to draw; `next` is the command to run
    /// afterwards, if any.
    pub open spec fn escalate(
        self,
        command: Seq<char>,
        prompt: Seq<char>,
        next: Option<Seq<char>>,
    ) -> (State, Request) {
        match self.secret {
            None => self.fail(SessionError::NoEscalationSecret),
            Some(secret) => {
                if self.connected {
                    (
                        self.armed().doing(
                            Task::Escalating {
                                prompt,
                                answer: payload(secret),
                                owed: 0,
                                sending: true,
                                next,
                            },
                        ),
                        Request::Send(payload(command)),
                    )
                } else {
                    self.armed().fail(SessionError::NotConnected)
                }
            },
        }
    }

    /// Begins `command`: with `need_become`, privilege is raised first.
    pub open spec fn command(
        self,
        text: Seq<char>,
        need_become: bool,
        exchange: (Seq<char>, Seq<char>),
    ) -> (State, Request) {
        if need_become {
            self.escalate(exchange.0, exchange.1, Some(text))
        } else {
            self.submit(text)
        }
    }

    /// The decision that ends every wait. Answers that are owed go out
    /// first. Then, while the mode is `Undefined`, the next message is
    /// asked for. Once it is not, the operation ends: a connect marks the
    /// session connected, a command returns its output, and an escalation
    /// succeeds if the mode is `Superuser` and fails otherwise.
    pub open spec fn proceed(self) -> (State, Request) {
        match self.task {
            Task::Greeting => {
                if self.mode == Mode::Undefined {
                    (self, Request::Receive)
                } else {
                    (
                        State { connected: true, task: Task::Idle, ..self },
                        Request::Done(Seq::empty()),
                    )
                }
            },
            Task::Running { collected, .. } => {
                if self.mode == Mode::Undefined {
                    (self.doing(Task::Running { collected, sending: false }), Request::Receive)
                } else {
                    (self.doing(Task::Idle), Request::Done(strip_echo(collected)))
                }
            },
            Task::Escalating { prompt, answer, owed, next, .. } => {
                if owed > 0 {
                    (
                        self.doing(
                            Task::Escalating {
                                prompt,
                                answer,
                                owed: (owed - 1) as nat,
                                sending: true,
                                next,
                            },
                        ),
                        Request::Send(answer),
                    )
                } else if self.mode == Mode::Undefined {
                    (
                        self.doing(
                            Task::Escalating { prompt, answer, owed: 0, sending: false, next },
                        ),
                        Request::Receive,
                    )
                } else if self.mode != Mode::Superuser {
                    self.fail(SessionError::EscalationFailed)
                } else {
                    match next {
                        None => (self.doing(Task::Idle), Request::Done(Seq::empty())),
                        Some(text) => self.submit(text),
                    }
                }
            },
            _ => self.fail(SessionError::Unexpected),
        }
    }

    /// The caller reports whether the server accepted the credentials.
    pub open spec fn on_authenticated(self, accepted: bool) -> (State, Request) {
        if self.task is Authenticating {
            if accepted {
                (self.doing(Task::OpeningShell), open_shell())
            } else {
                self.fail(SessionError::NotAuthenticated)
            }
        } else {
            self.fail(SessionError::Unexpected)
        }
    }

    /// The caller reports that the shell channel is open.
    pub open spec fn on_shell_opened(self) -> (State, Request) {
        if self.task is OpeningShell {
            self.doing(Task::Greeting).proceed()
        } else {
            self.fail(SessionError::Unexpected)
        }
    }

    /// The caller reports that the bytes were written.
    pub open spec fn on_sent(self) -> (State, Request) {
        if self.awaits_sent() {
            self.proceed()
        } else {
            self.fail(SessionError::Unexpected)
        }
    }

    /// One read has returned these lines; the mode is already that after
    /// the read. A command collects them. An escalation owes one answer for
    /// each line that is the expected prompt.
    pub open spec fn absorb(self, found: Seq<Seq<char>>) -> (State, Request) {
        if self.awaits_message() {
            match self.task {
                Task::Running { collected, sending } => self.doing(
                    Task::Running { collected: collected + found, sending },
                ).proceed(),
                Task::Escalating { prompt, answer, sending, next, .. } => self.doing(
                    Task::Escalating {
                        prompt,
                        answer,
                        owed: occurrences(found, prompt),
                        sending,
                        next,
                    },
                ).proceed(),
                _ => self.proceed(),
            }
        } else {
            self.fail(SessionError::Unexpected)
        }
    }

    /// The caller reports what the channel delivered. A chunk of data is
    /// one read: its lines are absorbed in the mode that the chunk leaves,
    /// and a chunk that the driver refuses fails the operation. The end of
    /// the stream is a read without lines. Any other message is passed
    /// over, and the wait goes on.
    pub open spec fn on_message(self, read: Read) -> (State, Request) {
        if self.awaits_message() {
            match read {
                Read::Chunk(parsed) => (State { mode: parsed.mode, ..self }).absorb(parsed.lines),
                Read::Garbled { mode } => (State { mode, ..self }).fail(SessionError::Decode),
                Read::Control => (self, Request::Receive),
                Read::End => self.absorb(Seq::empty()),
            }
        } else {
            self.fail(SessionError::Unexpected)
        }
    }

    /// The caller reports that channel and connection are closed.
    pub open spec fn on_closed(self) -> (State, Request) {
        if self.task is Closing {
            (self.doing(Task::Idle), Request::Done(Seq::empty()))
        } else {
            self.fail(SessionError::Unexpected)
        }
    }

    /// The caller reports that it could not carry out the request.
    pub open spec fn on_failure(self) -> (State, Request) {
        match self.task {
            Task::Idle => self.fail(SessionError::Unexpected),
            Task::Closing => self.fail(SessionError::Disconnect),
            _ => self.fail(SessionError::Transport),
        }
    }

    /// What holds of a session between any two calls. It is connected
    /// while it runs a command or raises privilege, and not connected while
    /// it connects or disconnects. And while it awaits a message, the mode
    /// is `Undefined` and no answer is owed.
    pub open spec fn consistent(self) -> bool {
        match self.task {
            Task::Idle => true,
            Task::Authenticating | Task::OpeningShell | Task::Closing => !self.connected,
            Task::Greeting => !self.connected && self.mode == Mode::Undefined,
            Task::Escalating { owed, sending, .. } => {
                &&& self.connected
                &&& !sending ==> self.mode == Mode::Undefined && owed == 0
            },
            Task::Running { .. } => self.connected && self.mode == Mode::Undefined,
        }
    }
}

/// The lines of a series of reads, in the order of their arrival.
pub open spec fn gathered(reads: Seq<Parsed>) -> Seq<Seq<char>>
    decreases reads.len(),
{
    if reads.len() == 0 {
        Seq::empty()
    } else {
        gathered(reads.drop_last()) + reads.last().lines
    }
}

impl State {
    /// The session after a series of chunks was reported, one by one, and
    /// the request that the last report was answered with.
    pub open spec fn after_chunks(self, reads: Seq<Parsed>) -> (State, Request)
        decreases reads.len(),
    {
        if reads.len() == 0 {
            (self, Request::Receive)
        } else {
            self.after_chunks(reads.drop_last()).0.on_message(Read::Chunk(reads.last()))
        }
    }

    /// The session after one report of a finished send and `n` more, and
    /// the request that the last of them was answered with.
    pub open spec fn after_sends(self, n: nat) -> (State, Request)
        decreases n,
    {
        if n == 0 {
            self.on_sent()
        } else {
            self.on_sent().0.after_sends((n - 1) as nat)
        }
    }

    /// One exchange of an escalation: a chunk is reported, and then the end
    /// of each send that the session asks for in answer to it. The result
    /// is the session after that, and the request that follows the last
    /// answer.
    pub open spec fn exchange(self, chunk: Parsed) -> (State, Request) {
        let first = self.on_message(Read::Chunk(chunk));
        match self.task {
            Task::Escalating { prompt, .. } => {
                let owed = occurrences(chunk.lines, prompt);
                if owed == 0 {
                    first
                } else {
                    first.0.after_sends((owed - 1) as nat)
                }
            },
            _ => first,
        }
    }

    /// The session after a series of exchanges, and the request that
    /// follows the last of them.
    pub open spec fn after_exchanges(self, reads: Seq<Parsed>) -> (State, Request)
        decreases reads.len(),
    {
        if reads.len() == 0 {
            (self, Request::Receive)
        } else {
            self.after_exchanges(reads.drop_last()).0.exchange(reads.last())
        }
    }
}

/// A new session is consistent, and every step of the protocol keeps a
/// session consistent.
pub proof fn lemma_consistent(
    s: State,
    text: Seq<char>,
    prompt: Seq<char>,
    next: Option<Seq<char>>,
    accepted: bool,
    read: Read,
    found: Seq<Seq<char>>,
)
    requires
        s.consistent(),
    ensures
        State::fresh(s.host, s.login, s.password, s.secret).consistent(),
        s.connect().0.consistent(),
        s.disconnect().0.consistent(),
        s.submit(text).0.consistent(),
        s.escalate(text, prompt, next).0.consistent(),
        s.proceed().0.consistent(),
        s.on_authenticated(accepted).0.consistent(),
        s.on_shell_opened().0.consistent(),
        s.on_sent().0.consistent(),
        s.absorb(found).0.consistent(),
        s.on_message(read).0.consistent(),
        s.on_closed().0.consistent(),
        s.on_failure().0.consistent(),
{
}

/// Host, credentials and secret of a session never change.
pub proof fn lemma_identity_kept(
    s: State,
    text: Seq<char>,
    prompt: Seq<char>,
    next: Option<Seq<char>>,
    accepted: bool,
    read: Read,
)
    ensures
        s.connect().0.same_identity(s),
        s.disconnect().0.same_identity(s),
        s.submit(text).0.same_identity(s),
        s.escalate(text, prompt, next).0.same_identity(s),
        s.on_authenticated(accepted).0.same_identity(s),
        s.on_shell_opened().0.same_identity(s),
        s.on_sent().0.same_identity(s),
        s.on_message(read).0.same_identity(s),
        s.on_closed().0.same_identity(s),
        s.on_failure().0.same_identity(s),
{
}

/// Disconnecting is idempotent. After a disconnect the session is not
/// connected, whether the closing succeeds, fails or is never reported; and
/// a disconnect of a session that is not connected is done at once, asks
/// for nothing to be closed, and leaves the session disconnected.
pub proof fn lemma_disconnect_idempotent(s: State)
    ensures
        !s.disconnect().0.connected,
        !s.disconnect().0.on_closed().0.connected,
        !s.disconnect().0.on_failure().0.connected,
        !s.connected ==> s.disconnect() == (s.doing(Task::Idle), Request::Done(Seq::empty())),
        s.disconnect().0.disconnect().1 == Request::Done(Seq::empty()),
        s.disconnect().0.on_closed().0.disconnect().1 == Request::Done(Seq::empty()),
        s.disconnect().0.on_failure().0.disconnect().1 == Request::Done(Seq::empty()),
{
}

/// A connect that fails leaves the session disconnected: while a session
/// connects, no report that ends in `Failed` makes it connected.
pub proof fn lemma_failed_connect(s: State, accepted: bool, read: Read)
    requires
        s.consistent(),
        s.task is Authenticating || s.task is OpeningShell || s.task is Greeting,
    ensures
        s.on_authenticated(accepted).1 is Failed ==> !s.on_authenticated(accepted).0.connected,
        s.on_shell_opened().1 is Failed ==> !s.on_shell_opened().0.connected,
        s.on_message(read).1 is Failed ==> !s.on_message(read).0.connected,
        s.on_sent().1 is Failed && !s.on_sent().0.connected,
        s.on_closed().1 is Failed && !s.on_closed().0.connected,
        s.on_failure().1 is Failed && !s.on_failure().0.connected,
        !accepted && s.task is Authenticating ==> s.on_authenticated(accepted) == s.fail(
            SessionError::NotAuthenticated,
        ),
{
}

/// Nothing can be sent on a session that is not connected: a command fails
/// with `NotConnected`, and so does an escalation that has its secret.
pub proof fn lemma_disconnected_refuses(
    s: State,
    text: Seq<char>,
    prompt: Seq<char>,
    next: Option<Seq<char>>,
)
    requires
        !s.connected,
    ensures
        s.submit(text).1 == Request::Failed(SessionError::NotConnected),
        s.secret is Some ==> s.escalate(text, prompt, next).1 == Request::Failed(
            SessionError::NotConnected,
        ),
        s.secret is None ==> s.escalate(text, prompt, next).1 == Request::Failed(
            SessionError::NoEscalationSecret,
        ),
{
}

/// A session becomes connected in one way only: a connect has reached the
/// reading of the banner, and the mode is no longer `Undefined`.
pub proof fn lemma_connected_after_prompt(
    s: State,
    text: Seq<char>,
    prompt: Seq<char>,
    next: Option<Seq<char>>,
    accepted: bool,
    read: Read,
)
    requires
        !s.connected,
    ensures
        !s.connect().0.connected,
        !s.disconnect().0.connected,
        !s.submit(text).0.connected,
        !s.escalate(text, prompt, next).0.connected,
        !s.on_authenticated(accepted).0.connected,
        !s.on_sent().0.connected,
        !s.on_closed().0.connected,
        !s.on_failure().0.connected,
        s.on_shell_opened().0.connected ==> s.task is OpeningShell && s.mode != Mode::Undefined,
        s.on_message(read).0.connected ==> s.task is Greeting && s.on_message(read).0.mode
            != Mode::Undefined,
{
}

/// The session writes the mode in one way only: it arms a wait, setting the
/// mode to `Undefined`, when it is about to send a command. Apart from
/// that only what is read from the channel changes the mode.
pub proof fn lemma_mode_only_armed(
    s: State,
    text: Seq<char>,
    prompt: Seq<char>,
    next: Option<Seq<char>>,
    accepted: bool,
    found: Seq<Seq<char>>,
)
    ensures
        s.connect().0.mode == s.mode,
        s.disconnect().0.mode == s.mode,
        s.submit(text).0.mode == Mode::Undefined,
        s.secret is Some ==> s.escalate(text, prompt, next).0.mode == Mode::Undefined,
        s.secret is None ==> s.escalate(text, prompt, next).0.mode == s.mode,
        s.on_authenticated(accepted).0.mode == s.mode,
        s.on_shell_opened().0.mode == s.mode,
        s.on_closed().0.mode == s.mode,
        s.on_failure().0.mode == s.mode,
        s.on_message(Read::Garbled { mode: s.mode }).0.mode == s.mode,
        s.on_message(Read::Control).0.mode == s.mode,
        s.on_sent().0.mode == s.mode || s.on_sent().0.mode == Mode::Undefined,
        s.absorb(found).0.mode == s.mode || s.absorb(found).0.mode == Mode::Undefined,
{
}

/// While the mode is `Undefined` a wait goes on: a message without data,
/// the end of the stream, and data that holds neither a prompt nor (in an
/// escalation) a request for the secret all lead to the next `Receive`.
/// No operation returns before a prompt was read.
pub proof fn lemma_wait_goes_on(s: State, found: Seq<Seq<char>>)
    requires
        s.awaits_message(),
        s.mode == Mode::Undefined,
    ensures
        s.on_message(Read::Control) == (s, Request::Receive),
        s.on_message(Read::End).1 == Request::Receive,
        s.on_message(Read::End).0.awaits_message(),
        s.on_message(Read::End).0.mode == Mode::Undefined,
        !(s.task is Escalating) ==> s.on_message(
            Read::Chunk(Parsed { lines: found, mode: Mode::Undefined }),
        ).1 == Request::Receive,
        s.task matches Task::Escalating { prompt, .. } ==> (occurrences(found, prompt) == 0
            ==> s.on_message(Read::Chunk(Parsed { lines: found, mode: Mode::Undefined })).1
            == Request::Receive),
{
}

/// A wait on which no data arrives changes nothing. While a consistent
/// session awaits a message, the end of the stream, a message without data
/// and a chunk without a logical line all leave the session as it is and
/// lead to the next `Receive`.
pub proof fn lemma_quiet_read(s: State)
    requires
        s.consistent(),
        s.awaits_message(),
    ensures
        s.on_message(Read::End) == (s, Request::Receive),
        s.on_message(Read::Control) == (s, Request::Receive),
        s.on_message(Read::Chunk(Parsed { lines: Seq::empty(), mode: s.mode })) == (
            s,
            Request::Receive,
        ),
{
}

/// An operation ends only once the mode has left `Undefined`: whenever a
/// read ends a connect, a command or an escalation with `Done`, or starts
/// the command that follows an escalation, a prompt was read.
pub proof fn lemma_done_after_prompt(s: State, parsed: Parsed)
    requires
        s.awaits_message(),
    ensures
        s.on_message(Read::Chunk(parsed)).1 is Done ==> parsed.mode != Mode::Undefined,
        s.on_message(Read::Chunk(parsed)).1 == Request::Failed(SessionError::EscalationFailed)
            ==> parsed.mode != Mode::Undefined && parsed.mode != Mode::Superuser,
        s.on_message(Read::End).1 is Done ==> s.mode != Mode::Undefined,
{
}

/// The output of a command. When a read leaves a mode other than
/// `Undefined`, the command ends with the lines of all its reads, in order,
/// less the first of them if there are two or more.
pub proof fn lemma_command_output(
    s: State,
    collected: Seq<Seq<char>>,
    parsed: Parsed,
)
    requires
        s.task == (Task::Running { collected, sending: false }),
        parsed.mode != Mode::Undefined,
    ensures
        s.on_message(Read::Chunk(parsed)) == (
            State { mode: parsed.mode, task: Task::Idle, ..s },
            Request::Done(strip_echo(collected + parsed.lines)),
        ),
        (collected + parsed.lines).len() > 1 ==> strip_echo(collected + parsed.lines) == (
        collected + parsed.lines).drop_first(),
        (collected + parsed.lines).len() <= 1 ==> strip_echo(collected + parsed.lines)
            == collected + parsed.lines,
{
}

/// How an escalation ends. Once no answer is owed and the mode is not
/// `Undefined`, it succeeds exactly if the mode is `Superuser`: then it is
/// done, or goes on to submit the command that was waiting. In any other
/// mode it fails with `EscalationFailed`.
pub proof fn lemma_escalation_outcome(s: State)
    requires
        s.task is Escalating,
        s.task->owed == 0,
        s.mode != Mode::Undefined,
    ensures
        s.mode != Mode::Superuser ==> s.proceed() == s.fail(SessionError::EscalationFailed),
        s.mode == Mode::Superuser && s.task->next is None ==> s.proceed() == (
            s.doing(Task::Idle),
            Request::Done(Seq::empty()),
        ),
        s.mode == Mode::Superuser && s.task->next is Some ==> s.proceed() == s.submit(
            s.task->next->0,
        ),
        s.proceed().1 is Done ==> s.mode == Mode::Superuser,
{
}

/// The secret is sent once for each request. An escalation that has a send
/// under way and owes `owed` answers after it asks `owed` times for the
/// answer to be sent, once after each report of a finished send, and what it
/// asks for after those is the decision of the wait with nothing owed.
pub proof fn lemma_answers_owed(s: State, j: nat)
    requires
        s.task is Escalating,
        s.awaits_sent(),
        j <= s.task->owed,
    ensures
        j < s.task->owed ==> s.after_sends(j).1 == Request::Send(s.task->answer),
        j < s.task->owed ==> s.after_sends(j).0 == s.doing(
            Task::Escalating {
                prompt: s.task->prompt,
                answer: s.task->answer,
                owed: (s.task->owed - j - 1) as nat,
                sending: true,
                next: s.task->next,
            },
        ),
        j == s.task->owed ==> s.after_sends(j) == s.doing(
            Task::Escalating {
                prompt: s.task->prompt,
                answer: s.task->answer,
                owed: 0,
                sending: true,
                next: s.task->next,
            },
        ).proceed(),
    decreases j,
{
    if j > 0 {
        lemma_answers_owed(s.on_sent().0, (j - 1) as nat);
    }
}

/// One answer for each request: when a read during an escalation returns
/// lines of which `k` are the expected prompt, the session owes `k`
/// answers from there.
pub proof fn lemma_one_answer_per_prompt(s: State, found: Seq<Seq<char>>)
    requires
        s.task is Escalating,
        s.awaits_message(),
    ensures
        s.absorb(found) == s.doing(
            Task::Escalating {
                prompt: s.task->prompt,
                answer: s.task->answer,
                owed: occurrences(found, s.task->prompt),
                sending: false,
                next: s.task->next,
            },
        ).proceed(),
{
}

/// While no chunk shows a prompt, a command keeps waiting and keeps what
/// it has read.
pub proof fn lemma_command_waits(s: State, collected: Seq<Seq<char>>, reads: Seq<Parsed>)
    requires
        s.task == (Task::Running { collected, sending: false }),
        forall|i: int| 0 <= i < reads.len() ==> reads[i].mode == Mode::Undefined,
    ensures
        s.after_chunks(reads) == (
            State {
                mode: if reads.len() > 0 {
                    Mode::Undefined
                } else {
                    s.mode
                },
                task: Task::Running { collected: collected + gathered(reads), sending: false },
                ..s
            },
            Request::Receive,
        ),
    decreases reads.len(),
{
    if reads.len() > 0 {
        let head = reads.drop_last();
        lemma_command_waits(s, collected, head);
        assert(collected + gathered(head) + reads.last().lines == collected + gathered(reads));
    }
}

/// A whole command. However the output is cut into chunks, the command
/// waits through every chunk that shows no prompt and ends with the first
/// that shows one. It returns the lines of all its chunks, in order, less
/// the first if there are two or more, and leaves the mode that the prompt
/// announced.
pub proof fn lemma_command_run(s: State, reads: Seq<Parsed>)
    requires
        s.task == (Task::Running { collected: Seq::empty(), sending: false }),
        reads.len() > 0,
        forall|i: int| 0 <= i < reads.len() - 1 ==> reads[i].mode == Mode::Undefined,
        reads.last().mode != Mode::Undefined,
    ensures
        forall|n: int| 0 <= n < reads.len() ==> s.after_chunks(reads.take(n)).1 == Request::Receive,
        s.after_chunks(reads) == (
            State { mode: reads.last().mode, task: Task::Idle, ..s },
            Request::Done(strip_echo(gathered(reads))),
        ),
{
    let none = Seq::<Seq<char>>::empty();
    assert forall|n: int| 0 <= n < reads.len() implies s.after_chunks(reads.take(n)).1
        == Request::Receive by {
        lemma_command_waits(s, none, reads.take(n));
    }
    let head = reads.drop_last();
    lemma_command_waits(s, none, head);
}

/// A whole connect. Once the shell is open, the session waits through
/// every chunk of the banner that shows no prompt, and with the first that
/// shows one it is connected, in the mode that the prompt announced.
pub proof fn lemma_connect_run(s: State, reads: Seq<Parsed>)
    requires
        s.task is Greeting,
        reads.len() > 0,
        forall|i: int| 0 <= i < reads.len() - 1 ==> reads[i].mode == Mode::Undefined,
        reads.last().mode != Mode::Undefined,
    ensures
        forall|n: int| 0 <= n < reads.len() ==> s.after_chunks(reads.take(n)).1 == Request::Receive,
        s.after_chunks(reads) == (
            State { connected: true, mode: reads.last().mode, task: Task::Idle, ..s },
            Request::Done(Seq::empty()),
        ),
{
    assert forall|n: int| 0 <= n < reads.len() implies s.after_chunks(reads.take(n)).1
        == Request::Receive by {
        lemma_greeting_waits(s, reads.take(n));
    }
    lemma_greeting_waits(s, reads.drop_last());
}

/// While no chunk shows a prompt, a connect keeps waiting.
pub proof fn lemma_greeting_waits(s: State, reads: Seq<Parsed>)
    requires
        s.task is Greeting,
        forall|i: int| 0 <= i < reads.len() ==> reads[i].mode == Mode::Undefined,
    ensures
        s.after_chunks(reads) == (
            State {
                mode: if reads.len() > 0 {
                    Mode::Undefined
                } else {
                    s.mode
                },
                ..s
            },
            Request::Receive,
        ),
    decreases reads.len(),
{
    if reads.len() > 0 {
        lemma_greeting_waits(s, reads.drop_last());
    }
}

/// The prompts among the lines of two reads are those of the first and
/// those of the second.
pub proof fn lemma_occurrences_add(a: Seq<Seq<char>>, b: Seq<Seq<char>>, prompt: Seq<char>)
    ensures
        occurrences(a + b, prompt) == occurrences(a, prompt) + occurrences(b, prompt),
    decreases b.len(),
{
    if b.len() > 0 {
        lemma_occurrences_add(a, b.drop_last(), prompt);
        assert((a + b).drop_last() == a + b.drop_last());
    }
}

/// One exchange of an escalation. The session asks for the answer to be
/// sent once for each line of the chunk that is the expected prompt, and
/// for nothing else before it decides. The decision is that of a wait with
/// nothing owed, in the mode that the chunk has left.
pub proof fn lemma_exchange(s: State, chunk: Parsed, j: nat)
    requires
        s.task is Escalating,
        s.awaits_message(),
        j < occurrences(chunk.lines, s.task->prompt),
    ensures
        s.on_message(Read::Chunk(chunk)).1 == Request::Send(s.task->answer),
        j > 0 ==> s.on_message(Read::Chunk(chunk)).0.after_sends((j - 1) as nat).1
            == Request::Send(s.task->answer),
        s.exchange(chunk) == (State { mode: chunk.mode, ..s }).doing(
            Task::Escalating {
                prompt: s.task->prompt,
                answer: s.task->answer,
                owed: 0,
                sending: true,
                next: s.task->next,
            },
        ).proceed(),
{
    let owed = occurrences(chunk.lines, s.task->prompt);
    let first = s.on_message(Read::Chunk(chunk));
    if j > 0 {
        lemma_answers_owed(first.0, (j - 1) as nat);
    }
    lemma_answers_owed(first.0, (owed - 1) as nat);
}

/// While no chunk shows a prompt, an escalation keeps waiting, whatever it
/// had to answer on the way.
pub proof fn lemma_escalation_waits(s: State, reads: Seq<Parsed>)
    requires
        s.task is Escalating,
        s.awaits_message(),
        s.task->owed == 0,
        forall|i: int| 0 <= i < reads.len() ==> reads[i].mode == Mode::Undefined,
    ensures
        s.after_exchanges(reads) == (
            State {
                mode: if reads.len() > 0 {
                    Mode::Undefined
                } else {
                    s.mode
                },
                ..s
            },
            Request::Receive,
        ),
    decreases reads.len(),
{
    if reads.len() > 0 {
        let head = reads.drop_last();
        lemma_escalation_waits(s, head);
        let t = s.after_exchanges(head).0;
        let chunk = reads.last();
        if occurrences(chunk.lines, t.task->prompt) > 0 {
            lemma_exchange(t, chunk, 0);
        }
    }
}

/// A whole escalation. However the answer of the shell is cut into chunks,
/// the session waits through every chunk that shows no prompt, answering
/// each request for the secret in it, and ends with the first chunk that
/// shows a prompt, after it has answered the requests in that one too. It
/// succeeds if that prompt is the superuser's, and fails with
/// `EscalationFailed` if it is any other.
pub proof fn lemma_escalation_run(s: State, reads: Seq<Parsed>)
    requires
        s.task is Escalating,
        s.awaits_message(),
        s.task->owed == 0,
        s.task->next is None,
        reads.len() > 0,
        forall|i: int| 0 <= i < reads.len() - 1 ==> reads[i].mode == Mode::Undefined,
        reads.last().mode != Mode::Undefined,
    ensures
        forall|n: int| 0 <= n < reads.len() ==> s.after_exchanges(reads.take(n)).1
            == Request::Receive,
        s.after_exchanges(reads).0 == (State { mode: reads.last().mode, task: Task::Idle, ..s }),
        reads.last().mode == Mode::Superuser ==> s.after_exchanges(reads).1 == Request::Done(
            Seq::empty(),
        ),
        reads.last().mode != Mode::Superuser ==> s.after_exchanges(reads).1 == Request::Failed(
            SessionError::EscalationFailed,
        ),
{
    assert forall|n: int| 0 <= n < reads.len() implies s.after_exchanges(reads.take(n)).1
        == Request::Receive by {
        lemma_escalation_waits(s, reads.take(n));
    }
    let head = reads.drop_last();
    lemma_escalation_waits(s, head);
    let t = s.after_exchanges(head).0;
    let chunk = reads.last();
    if occurrences(chunk.lines, t.task->prompt) > 0 {
        lemma_exchange(t, chunk, 0);
    }
}

} // verus!
