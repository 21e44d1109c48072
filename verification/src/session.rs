//! The console session: one lazily established, authenticated
//! connection, and the retry discipline of a single command execution.
//!
//! The session logic is a small explicit state machine. The caller that
//! owns the transport drives one [`ExecFlow`] per command: it performs
//! the action that [`ExecFlow::action`] requests (send the command, or
//! connect and authenticate) and reports the outcome back. The machine
//! decides, per error class, whether to retry once over a fresh
//! connection (transport failures), or to give up at once (protocol
//! rejections), and tracks whether a live connection remains.

use vstd::prelude::*;

verus! {

/// Error classification of one `execute` call.
#[derive(Clone, Copy, PartialEq, Eq, Structural, Debug)]
pub enum SessionError {
    /// The credential was rejected; retrying with the same credential
    /// cannot help.
    Auth,
    /// The command exceeded the protocol's length limit; the
    /// connection itself remains usable.
    CommandTooLong,
    /// A connection-level failure; a single transparent reconnect and
    /// retry has already been attempted.
    Transport,
}

/// The operator-facing text of a session error.
pub open spec fn session_error_text(e: SessionError) -> Seq<char> {
    match e {
        SessionError::Auth => "Invalid authentication (check bot config)."@,
        SessionError::CommandTooLong => "Command too long."@,
        SessionError::Transport => "The server is closed."@,
    }
}

/// What the transport reported for one attempt to send a command.
#[derive(Clone, Copy, PartialEq, Eq, Structural, Debug)]
pub enum CmdOutcome {
    /// A response arrived; its text is kept by the driver.
    Success,
    /// The server rejected the credential.
    AuthFailed,
    /// The command was too long for the protocol.
    TooLong,
    /// The connection failed (reset, timeout, broken pipe).
    TransportFailed,
}

/// What the transport reported for one attempt to connect and
/// authenticate.
#[derive(Clone, Copy, PartialEq, Eq, Structural, Debug)]
pub enum ConnectOutcome {
    Connected,
    /// The server rejected the credential during the handshake.
    AuthFailed,
    /// The connection could not be established.
    TransportFailed,
}

/// The session: remote address, credential, and whether a live
/// (authenticated) connection handle currently exists.
pub struct Session {
    address: String,
    password: String,
    connected: bool,
}

impl Session {
    /// The remote address this session connects to.
    pub closed spec fn spec_address(&self) -> Seq<char> {
        self.address@
    }

    /// The credential used during the connection handshake.
    pub closed spec fn spec_password(&self) -> Seq<char> {
        self.password@
    }

    /// Whether a live connection handle exists.
    pub closed spec fn is_connected(&self) -> bool {
        self.connected
    }

    /// A session starts with no connection; one is established lazily
    /// on first use.
    pub fn new(address: &str, password: &str) -> (s: Session)
        ensures
            s.spec_address() == address@,
            s.spec_password() == password@,
            !s.is_connected(),
    {
        Session {
            address: address.to_owned(),
            password: password.to_owned(),
            connected: false,
        }
    }

    pub fn address(&self) -> (r: &str)
        ensures
            r@ == self.spec_address(),
    {
        self.address.as_str()
    }

    pub fn password(&self) -> (r: &str)
        ensures
            r@ == self.spec_password(),
    {
        self.password.as_str()
    }

    pub fn connected(&self) -> (r: bool)
        ensures
            r == self.is_connected(),
    {
        self.connected
    }
}

/// The next thing the transport driver must do for the in-flight
/// command.
#[derive(Clone, Copy, PartialEq, Eq, Structural, Debug)]
pub enum ExecAction {
    /// Send the command over the live connection and report a
    /// [`CmdOutcome`].
    SendCommand,
    /// Connect and authenticate, and report a [`ConnectOutcome`].
    Connect,
    /// The call is over; the result is available.
    Done,
}

/// Phases of one `execute` call.
///
/// `after_connect` records whether this call has already established a
/// fresh connection: at most one connect is attempted per call, so a
/// transport failure after it is final.
#[derive(Clone, Copy, PartialEq, Eq, Structural, Debug)]
pub enum ExecPhase {
    /// About to send the command. `after_connect` is false for the
    /// first attempt over a pre-existing connection.
    Sending { after_connect: bool },
    /// About to connect and authenticate.
    Connecting,
    /// Finished: the command's response text stands (held by the
    /// driver).
    Succeeded,
    /// Finished with a classified error.
    Failed { error: SessionError },
}

/// The state machine of one `execute` call.
pub struct ExecFlow {
    phase: ExecPhase,
}

impl ExecFlow {
    pub closed spec fn spec_phase(&self) -> ExecPhase {
        self.phase
    }

    /// The machine has reached a final phase.
    pub open spec fn spec_done(&self) -> bool {
        self.spec_phase() matches ExecPhase::Succeeded || self.spec_phase()
            matches ExecPhase::Failed { .. }
    }

    /// Begin one `execute` call: a live connection is used directly,
    /// otherwise one is established first.
    pub fn start(session: &Session) -> (flow: ExecFlow)
        ensures
            session.is_connected() ==> flow.spec_phase() == (ExecPhase::Sending {
                after_connect: false,
            }),
            !session.is_connected() ==> flow.spec_phase() == ExecPhase::Connecting,
    {
        if session.connected() {
            ExecFlow { phase: ExecPhase::Sending { after_connect: false } }
        } else {
            ExecFlow { phase: ExecPhase::Connecting }
        }
    }

    /// What the driver must do next.
    pub fn action(&self) -> (a: ExecAction)
        ensures
            a == ExecAction::SendCommand <==> self.spec_phase() matches ExecPhase::Sending { .. },
            a == ExecAction::Connect <==> self.spec_phase() == ExecPhase::Connecting,
            a == ExecAction::Done <==> self.spec_done(),
    {
        match self.phase {
            ExecPhase::Sending { .. } => ExecAction::SendCommand,
            ExecPhase::Connecting => ExecAction::Connect,
            ExecPhase::Succeeded => ExecAction::Done,
            ExecPhase::Failed { .. } => ExecAction::Done,
        }
    }

    /// The classified result once the machine is done: `Ok(())` means
    /// the response text that the driver received stands as the result.
    pub fn result(&self) -> (r: Option<Result<(), SessionError>>)
        ensures
            r matches Some(res) <==> self.spec_done(),
            self.spec_phase() == ExecPhase::Succeeded ==> r == Some(Result::<(),
            SessionError>::Ok(())),
            self.spec_phase() matches ExecPhase::Failed { error } ==> r == Some(Result::<(),
            SessionError>::Err(error)),
    {
        match self.phase {
            ExecPhase::Succeeded => Some(Ok(())),
            ExecPhase::Failed { error } => Some(Err(error)),
            _ => None,
        }
    }

    /// Decision table for the outcome of a send attempt.
    ///
    /// Protocol rejections (credential rejected, command too long) are
    /// final and keep the connection; a transport failure on the first
    /// attempt discards the stale connection and triggers exactly one
    /// reconnect, while one after a reconnect is final and leaves the
    /// session connectionless.
    pub fn on_cmd_outcome(&mut self, session: &mut Session, outcome: CmdOutcome)
        requires
            old(self).spec_phase() matches ExecPhase::Sending { .. },
        ensures
            final(session).spec_address() == old(session).spec_address(),
            final(session).spec_password() == old(session).spec_password(),
            outcome == CmdOutcome::Success ==> {
                &&& final(self).spec_phase() == ExecPhase::Succeeded
                &&& final(session).is_connected()
            },
            outcome == CmdOutcome::AuthFailed ==> {
                &&& final(self).spec_phase() == (ExecPhase::Failed { error: SessionError::Auth })
                &&& final(session).is_connected() == old(session).is_connected()
            },
            outcome == CmdOutcome::TooLong ==> {
                &&& final(self).spec_phase() == (ExecPhase::Failed {
                    error: SessionError::CommandTooLong,
                })
                &&& final(session).is_connected() == old(session).is_connected()
            },
            outcome == CmdOutcome::TransportFailed ==> {
                &&& !final(session).is_connected()
                &&& old(self).spec_phase() == (ExecPhase::Sending { after_connect: false })
                    ==> final(self).spec_phase() == ExecPhase::Connecting
                &&& old(self).spec_phase() == (ExecPhase::Sending { after_connect: true })
                    ==> final(self).spec_phase() == (ExecPhase::Failed {
                    error: SessionError::Transport,
                })
            },
    {
        let after_connect = match self.phase {
            ExecPhase::Sending { after_connect } => after_connect,
            _ => false,
        };
        match outcome {
            CmdOutcome::Success => {
                self.phase = ExecPhase::Succeeded;
                session.connected = true;
            },
            CmdOutcome::AuthFailed => {
                self.phase = ExecPhase::Failed { error: SessionError::Auth };
            },
            CmdOutcome::TooLong => {
                self.phase = ExecPhase::Failed { error: SessionError::CommandTooLong };
            },
            CmdOutcome::TransportFailed => {
                session.connected = false;
                if after_connect {
                    self.phase = ExecPhase::Failed { error: SessionError::Transport };
                } else {
                    self.phase = ExecPhase::Connecting;
                }
            },
        }
    }

    /// Decision table for the outcome of a connect attempt.
    ///
    /// A successful handshake yields a live connection and the command
    /// is (re)sent; a rejected credential is a final `Auth` error; a
    /// connection failure is a final `Transport` error. Either failure
    /// leaves the session connectionless.
    pub fn on_connect_outcome(&mut self, session: &mut Session, outcome: ConnectOutcome)
        requires
            old(self).spec_phase() == ExecPhase::Connecting,
        ensures
            final(session).spec_address() == old(session).spec_address(),
            final(session).spec_password() == old(session).spec_password(),
            outcome == ConnectOutcome::Connected ==> {
                &&& final(self).spec_phase() == (ExecPhase::Sending { after_connect: true })
                &&& final(session).is_connected()
            },
            outcome == ConnectOutcome::AuthFailed ==> {
                &&& final(self).spec_phase() == (ExecPhase::Failed { error: SessionError::Auth })
                &&& !final(session).is_connected()
            },
            outcome == ConnectOutcome::TransportFailed ==> {
                &&& final(self).spec_phase() == (ExecPhase::Failed {
                    error: SessionError::Transport,
                })
                &&& !final(session).is_connected()
            },
    {
        match outcome {
            ConnectOutcome::Connected => {
                session.connected = true;
                self.phase = ExecPhase::Sending { after_connect: true };
            },
            ConnectOutcome::AuthFailed => {
                session.connected = false;
                self.phase = ExecPhase::Failed { error: SessionError::Auth };
            },
            ConnectOutcome::TransportFailed => {
                session.connected = false;
                self.phase = ExecPhase::Failed { error: SessionError::Transport };
            },
        }
    }
}

} // verus!
