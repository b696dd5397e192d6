//! The server's side of the protocol, as decisions between the packets that
//! the caller receives and sends.
use vstd::prelude::*;

use crate::protocol::error::ProtocolError;
use crate::protocol::packets::{
    AuthRequest, AuthRequestView, AuthResponse, ClientGreet, CommandRequest, CommandRequestView,
    CommandResponse, ServerGreet,
};
use crate::protocol::types::{Auth, AuthMethod, AuthStatus, AuthView, ClientCommand, CommandStatus};
use crate::client::{host_port_chars, spec_auth_request, spec_command_request, ClientSessionView, TargetAddrView};
use crate::server::mode::ServerMode;
use crate::PROTOCOL_VERSION;

verus! {

/// Where a server stands with one client.
#[derive(Debug, Clone, Copy, PartialEq, Eq, Structural)]
pub enum ServerStage {
    /// Waiting for the client's greeting.
    Greeting,
    /// Waiting for the authorization request.
    Authorizing,
    /// Exchanging public keys.
    Encrypting,
    /// Waiting for the client's command.
    Commanding,
    /// Connecting to the client's target.
    Connecting,
    /// The command was carried out; the client is served (or relayed).
    Serving,
    /// A step failed; the connection is to be given up.
    Failed,
}

impl ServerStage {
    /// The stages a client reaches only once authorization let it through.
    pub open spec fn past_authorization(self) -> bool {
        self == ServerStage::Encrypting || self == ServerStage::Commanding || self == ServerStage::Connecting
            || self == ServerStage::Serving
    }
}

/// Whether a server with these credentials (none: anyone is welcome) lets a
/// request through: it must choose basic authorization and present exactly
/// the server's username and password.
pub open spec fn admits(server_auth: Option<AuthView>, req: AuthRequestView) -> bool {
    match server_auth {
        None => true,
        Some(a) => req.method == AuthMethod::Basic && req.auth == Some(a),
    }
}

/// What the server answers to an authorization request (where it answers at
/// all) and whether the client may go on.
pub open spec fn spec_authorization(server_auth: Option<AuthView>, req: AuthRequestView) -> (Option<AuthStatus>, Result<(), ProtocolError>) {
    if req.method == AuthMethod::Skip {
        if server_auth is None {
            (Some(AuthStatus::Success), Ok(()))
        } else {
            (Some(AuthStatus::UnexpectedMethod), Err(ProtocolError::UnexpectedAuthMethod))
        }
    } else {
        match server_auth {
            None => (None, Ok(())),
            Some(a) => match req.auth {
                None => (Some(AuthStatus::MissingData), Err(ProtocolError::MissingCredentials)),
                Some(c) => if c == a {
                    (Some(AuthStatus::Success), Ok(()))
                } else {
                    (Some(AuthStatus::Failed), Err(ProtocolError::WrongCredentials))
                },
            },
        }
    }
}

/// What the server does with a command: answer it, or first connect to the
/// named target.
pub enum CommandStep {
    /// Send this answer; the outcome says whether the session goes on.
    Reply { response: CommandResponse, outcome: Result<(), ProtocolError> },
    /// Connect to this `host:port`, then answer by `on_target_connect`.
    Connect { target_host: String },
}

/// A command step with its target host taken as text.
pub enum CommandStepView {
    Reply { response: CommandResponse, outcome: Result<(), ProtocolError> },
    Connect { target_host: Seq<char> },
}

impl View for CommandStep {
    type V = CommandStepView;

    open spec fn view(&self) -> CommandStepView {
        match self {
            CommandStep::Reply { response, outcome } => CommandStepView::Reply { response: *response, outcome: *outcome },
            CommandStep::Connect { target_host } => CommandStepView::Connect { target_host: target_host@ },
        }
    }
}

/// What the server does with a command in a mode.
pub open spec fn spec_command_step(mode: ServerMode, req: CommandRequestView) -> CommandStepView {
    if req.command == ClientCommand::Direct && mode.allows_direct() {
        CommandStepView::Reply { response: CommandResponse { status: CommandStatus::Success }, outcome: Ok(()) }
    } else if req.command == ClientCommand::Proxy && mode.allows_proxy() {
        match req.target_host {
            None => CommandStepView::Reply {
                response: CommandResponse { status: CommandStatus::Failed },
                outcome: Err(ProtocolError::TargetHostMissing),
            },
            Some(h) => CommandStepView::Connect { target_host: h },
        }
    } else {
        CommandStepView::Reply {
            response: CommandResponse { status: CommandStatus::Unsupported },
            outcome: Err(ProtocolError::UnsupportedCommand),
        }
    }
}

/// The state of the server's side of one connection.
pub struct ServerSession {
    stage: ServerStage,
    auth: Option<Auth>,
    mode: ServerMode,
    admitted: Ghost<Option<AuthRequestView>>,
}

/// The state of a server connection, with the credentials as text and the
/// authorization request it let through, if any.
pub struct ServerSessionView {
    pub stage: ServerStage,
    pub auth: Option<AuthView>,
    pub mode: ServerMode,
    pub admitted: Option<AuthRequestView>,
}

impl View for ServerSession {
    type V = ServerSessionView;

    closed spec fn view(&self) -> ServerSessionView {
        ServerSessionView {
            stage: self.stage,
            auth: match self.auth {
                Some(a) => Some(a@),
                None => None,
            },
            mode: self.mode,
            admitted: self.admitted@,
        }
    }
}

impl ServerSessionView {
    /// What every step keeps: a client past authorization was let through by
    /// a request that the server's credentials admit.
    pub open spec fn inv(self) -> bool {
        self.stage.past_authorization() ==> (self.admitted matches Some(req) && admits(self.auth, req))
    }
}

/// Answers a client's greeting: the server's version and whether it asks
/// for credentials, and, after that answer, the refusal of a client of
/// another version.
pub fn handshake_reply(greet: &ClientGreet, require_auth: bool) -> (r: (ServerGreet, Result<(), ProtocolError>))
    ensures
        r.0 == (ServerGreet { version: PROTOCOL_VERSION, require_auth }),
        r.1 == if greet.version == PROTOCOL_VERSION {
            Ok::<(), ProtocolError>(())
        } else {
            Err(ProtocolError::IncompatibleClientVersion)
        },
{
    let reply = ServerGreet { version: PROTOCOL_VERSION, require_auth };
    if greet.version != PROTOCOL_VERSION {
        return (reply, Err(ProtocolError::IncompatibleClientVersion));
    }
    (reply, Ok(()))
}

/// Answers an authorization request by the server's credentials: what to
/// send (nothing, for basic authorization on a server without credentials)
/// and whether the client goes on.
pub fn authorization_reply(server_auth: &Option<Auth>, req: &AuthRequest) -> (r: (Option<AuthResponse>, Result<(), ProtocolError>))
    ensures
        ({
            let expected = spec_authorization(auth_view(*server_auth), req@);
            &&& r.1 == expected.1
            &&& match expected.0 {
                Some(status) => r.0 == Some(AuthResponse { status }),
                None => r.0 is None,
            }
        }),
        r.1 is Ok ==> admits(auth_view(*server_auth), req@),
{
    match req.method {
        AuthMethod::Skip => {
            if server_auth.is_none() {
                (Some(AuthResponse { status: AuthStatus::Success }), Ok(()))
            } else {
                (Some(AuthResponse { status: AuthStatus::UnexpectedMethod }), Err(ProtocolError::UnexpectedAuthMethod))
            }
        },
        AuthMethod::Basic => match server_auth {
            None => (None, Ok(())),
            Some(server_auth) => match &req.auth {
                None => (Some(AuthResponse { status: AuthStatus::MissingData }), Err(ProtocolError::MissingCredentials)),
                Some(client_auth) => {
                    if client_auth.same_credentials(server_auth) {
                        (Some(AuthResponse { status: AuthStatus::Success }), Ok(()))
                    } else {
                        (Some(AuthResponse { status: AuthStatus::Failed }), Err(ProtocolError::WrongCredentials))
                    }
                },
            },
        },
    }
}

/// Decides what a server in a mode does with a command.
pub fn command_step(mode: ServerMode, req: &CommandRequest) -> (r: CommandStep)
    ensures
        r@ == spec_command_step(mode, req@),
{
    let direct = match req.command {
        ClientCommand::Direct => true,
        ClientCommand::Proxy => false,
    };
    let allows_direct = match mode {
        ServerMode::Basic | ServerMode::Multi => true,
        ServerMode::Proxy => false,
    };
    let allows_proxy = match mode {
        ServerMode::Proxy | ServerMode::Multi => true,
        ServerMode::Basic => false,
    };
    if direct && allows_direct {
        CommandStep::Reply { response: CommandResponse { status: CommandStatus::Success }, outcome: Ok(()) }
    } else if !direct && allows_proxy {
        match &req.target_host {
            None => CommandStep::Reply {
                response: CommandResponse { status: CommandStatus::Failed },
                outcome: Err(ProtocolError::TargetHostMissing),
            },
            Some(host) => CommandStep::Connect { target_host: host.clone() },
        }
    } else {
        CommandStep::Reply {
            response: CommandResponse { status: CommandStatus::Unsupported },
            outcome: Err(ProtocolError::UnsupportedCommand),
        }
    }
}

/// The answer to a proxy command once the connection to its target was tried.
pub fn connect_reply(connected: bool) -> (r: CommandResponse)
    ensures
        r.status == if connected { CommandStatus::Success } else { CommandStatus::Failed },
{
    if connected {
        CommandResponse { status: CommandStatus::Success }
    } else {
        CommandResponse { status: CommandStatus::Failed }
    }
}

/// The text of optional credentials.
pub open spec fn auth_view(auth: Option<Auth>) -> Option<AuthView> {
    match auth {
        Some(a) => Some(a@),
        None => None,
    }
}

impl ServerSession {
    pub fn new(auth: Option<Auth>, mode: ServerMode) -> (r: ServerSession)
        ensures
            r@.stage == ServerStage::Greeting,
            r@.auth == auth_view(auth),
            r@.mode == mode,
            r@.admitted is None,
            r@.inv(),
    {
        ServerSession { stage: ServerStage::Greeting, auth, mode, admitted: Ghost(None) }
    }

    pub fn stage(&self) -> (r: ServerStage)
        ensures
            r == self@.stage,
    {
        self.stage
    }

    /// Whether the server asks clients for credentials.
    pub fn require_auth(&self) -> (r: bool)
        ensures
            r == self@.auth is Some,
    {
        self.auth.is_some()
    }

    /// Takes the client's greeting. The server always answers with its own;
    /// a client of another version is refused after that answer.
    pub fn on_client_greet(&mut self, greet: &ClientGreet) -> (r: (ServerGreet, Result<(), ProtocolError>))
        requires
            old(self)@.stage == ServerStage::Greeting,
            old(self)@.inv(),
        ensures
            r.0 == (ServerGreet { version: PROTOCOL_VERSION, require_auth: old(self)@.auth is Some }),
            greet.version == PROTOCOL_VERSION ==> r.1 is Ok && final(self)@.stage == ServerStage::Authorizing,
            greet.version != PROTOCOL_VERSION ==> {
                &&& r.1 == Err::<(), ProtocolError>(ProtocolError::IncompatibleClientVersion)
                &&& final(self)@.stage == ServerStage::Failed
            },
            final(self)@.auth == old(self)@.auth,
            final(self)@.mode == old(self)@.mode,
            final(self)@.admitted == old(self)@.admitted,
            final(self)@.inv(),
    {
        let (reply, outcome) = handshake_reply(greet, self.auth.is_some());
        self.stage = if outcome.is_ok() { ServerStage::Authorizing } else { ServerStage::Failed };
        (reply, outcome)
    }

    /// Takes the authorization request: what to answer (a server without
    /// credentials answers nothing to basic authorization) and whether the
    /// client goes on to the key exchange.
    pub fn on_auth_request(&mut self, req: &AuthRequest) -> (r: (Option<AuthResponse>, Result<(), ProtocolError>))
        requires
            old(self)@.stage == ServerStage::Authorizing,
            old(self)@.inv(),
        ensures
            ({
                let expected = spec_authorization(old(self)@.auth, req@);
                &&& r.1 == expected.1
                &&& match expected.0 {
                    Some(status) => r.0 == Some(AuthResponse { status }),
                    None => r.0 is None,
                }
            }),
            r.1 is Ok ==> admits(old(self)@.auth, req@),
            final(self)@.stage == if r.1 is Ok { ServerStage::Encrypting } else { ServerStage::Failed },
            r.1 is Ok ==> final(self)@.admitted == Some(req@),
            r.1 is Err ==> final(self)@.admitted == old(self)@.admitted,
            final(self)@.auth == old(self)@.auth,
            final(self)@.mode == old(self)@.mode,
            final(self)@.inv(),
    {
        let (response, outcome) = authorization_reply(&self.auth, req);
        if outcome.is_ok() {
            self.stage = ServerStage::Encrypting;
            self.admitted = Ghost(Some(req@));
        } else {
            self.stage = ServerStage::Failed;
        }
        (response, outcome)
    }

    /// The keys were exchanged and the channel is encrypted.
    pub fn on_encryption_established(&mut self)
        requires
            old(self)@.stage == ServerStage::Encrypting,
            old(self)@.inv(),
        ensures
            final(self)@ == (ServerSessionView { stage: ServerStage::Commanding, ..old(self)@ }),
            final(self)@.inv(),
    {
        self.stage = ServerStage::Commanding;
    }

    /// Takes the client's command: a direct connection in a mode that allows
    /// it is served at once; a proxy command in a mode that allows it
    /// connects to its target (and fails without one); anything else is
    /// unsupported.
    pub fn on_command_request(&mut self, req: &CommandRequest) -> (r: CommandStep)
        requires
            old(self)@.stage == ServerStage::Commanding,
            old(self)@.inv(),
        ensures
            r@ == spec_command_step(old(self)@.mode, req@),
            final(self)@.stage == match r@ {
                CommandStepView::Connect { .. } => ServerStage::Connecting,
                CommandStepView::Reply { outcome, .. } => if outcome is Ok {
                    ServerStage::Serving
                } else {
                    ServerStage::Failed
                },
            },
            final(self)@.auth == old(self)@.auth,
            final(self)@.mode == old(self)@.mode,
            final(self)@.admitted == old(self)@.admitted,
            final(self)@.inv(),
    {
        let step = command_step(self.mode, req);
        self.stage = match &step {
            CommandStep::Connect { .. } => ServerStage::Connecting,
            CommandStep::Reply { outcome, .. } => if outcome.is_ok() {
                ServerStage::Serving
            } else {
                ServerStage::Failed
            },
        };
        step
    }

    /// Takes the outcome of connecting to the target: the answer to send the
    /// client. A failed connection ends the session (with the connection's
    /// own error).
    pub fn on_target_connect(&mut self, connected: bool) -> (r: CommandResponse)
        requires
            old(self)@.stage == ServerStage::Connecting,
            old(self)@.inv(),
        ensures
            r.status == if connected { CommandStatus::Success } else { CommandStatus::Failed },
            final(self)@.stage == if connected { ServerStage::Serving } else { ServerStage::Failed },
            final(self)@.auth == old(self)@.auth,
            final(self)@.mode == old(self)@.mode,
            final(self)@.admitted == old(self)@.admitted,
            final(self)@.inv(),
    {
        self.stage = if connected { ServerStage::Serving } else { ServerStage::Failed };
        connect_reply(connected)
    }
}

/// A client that holds the server's credentials, or a client of a server
/// without credentials, sends an authorization request that the server
/// answers with success and lets through.
pub proof fn lemma_client_request_admitted(client: ClientSessionView, server_auth: Option<AuthView>)
    requires
        client.require_auth == server_auth is Some,
        server_auth matches Some(a) ==> client.auth == Some(a),
    ensures
        spec_auth_request(client) matches Ok(req) && {
            &&& spec_authorization(server_auth, req) == (Some(AuthStatus::Success), Ok::<(), ProtocolError>(()))
            &&& admits(server_auth, req)
        },
{
}

/// The command a client sends is one the server reads back as sent, and a
/// server whose mode allows it serves a direct command at once and connects
/// a proxy command to the client's `host:port`.
pub proof fn lemma_client_command_served(target: Option<TargetAddrView>, mode: ServerMode)
    ensures
        spec_command_request(target) matches Ok(req) ==> {
            &&& req.well_formed()
            &&& CommandRequestView::spec_decode(req.spec_encode()) == Some(Ok::<CommandRequestView, ProtocolError>(req))
            &&& match target {
                None => mode.allows_direct() ==> spec_command_step(mode, req) == (CommandStepView::Reply {
                    response: CommandResponse { status: CommandStatus::Success },
                    outcome: Ok(()),
                }),
                Some(t) => mode.allows_proxy() ==> spec_command_step(mode, req) == (CommandStepView::Connect {
                    target_host: host_port_chars(t),
                }),
            }
        },
{
    if let Ok(req) = spec_command_request(target) {
        CommandRequest::lemma_encode_decode(req);
    }
}

/// A session that the server serves (or relays) came through an
/// authorization request that the server's credentials admit.
pub proof fn lemma_served_client_was_admitted(s: ServerSessionView)
    requires
        s.inv(),
        s.stage == ServerStage::Serving,
    ensures
        s.admitted matches Some(req) && admits(s.auth, req),
{
}

} // verus!
