//! The client's side of the protocol, as decisions between the packets that
//! the caller sends and receives.
use vstd::prelude::*;
use vstd::utf8::*;

use crate::client::target_addr::{
    colon, decimal_bytes, lemma_encode_utf8_concat, lemma_encode_without_colon, lemma_read_host_port,
    spec_host_bytes, spec_port, TargetAddr, TargetAddrView,
};
use crate::protocol::error::ProtocolError;
use crate::protocol::packets::{
    AuthRequest, AuthRequestView, AuthResponse, ClientGreet, CommandRequest, CommandRequestView,
    CommandResponse, ServerGreet,
};
use crate::protocol::types::{Auth, AuthMethod, AuthStatus, AuthView, ClientCommand, CommandStatus};
use crate::PROTOCOL_VERSION;

verus! {

/// The decimal digit character of a number below ten.
pub open spec fn digit_char(d: nat) -> char {
    (0x30 + d) as char
}

/// The decimal notation of a number, without leading zeros.
pub open spec fn decimal_chars(n: nat) -> Seq<char>
    decreases n,
{
    if n < 10 {
        seq![digit_char(n)]
    } else {
        decimal_chars(n / 10) + seq![digit_char(n % 10)]
    }
}

/// The `host:port` text that a proxy command names.
pub open spec fn host_port_chars(target: TargetAddrView) -> Seq<char> {
    target.host + seq![':'] + decimal_chars(target.port as nat)
}

/// A single ASCII character encodes to its own code.
proof fn lemma_encode_ascii_char(c: char)
    requires
        (c as u32) <= 0x7F,
    ensures
        encode_utf8(seq![c]) == seq![(c as u32) as u8],
{
    let v = c as u32;
    let s = seq![c];
    assert(s.drop_first() == Seq::<char>::empty());
    assert(encode_utf8(s.drop_first()) == Seq::<u8>::empty());
    assert(s[0] == c);
    assert(has_width_1_encoding(v));
    assert((v & 0x7F) as u8 == v) by (bit_vector)
        requires
            v <= 0x7F,
    ;
    assert(encode_scalar(v) == seq![v as u8]);
    assert(encode_utf8(s) == encode_scalar(s[0] as u32) + encode_utf8(s.drop_first()));
}

/// The decimal notation of a number encodes to its decimal digit bytes.
proof fn lemma_encode_decimal(n: nat)
    ensures
        encode_utf8(decimal_chars(n)) == decimal_bytes(n),
    decreases n,
{
    if n < 10 {
        lemma_encode_ascii_char(digit_char(n));
    } else {
        lemma_encode_decimal(n / 10);
        lemma_encode_utf8_concat(decimal_chars(n / 10), seq![digit_char(n % 10)]);
        lemma_encode_ascii_char(digit_char(n % 10));
    }
}

/// The `host:port` a client names for a target whose host holds no `:`
/// reads back, as a target address, as that very host and port.
pub proof fn lemma_host_port_reads_back(target: TargetAddrView)
    requires
        forall|i: int| 0 <= i < target.host.len() ==> target.host[i] != ':',
    ensures
        spec_host_bytes(encode_utf8(host_port_chars(target))) == encode_utf8(target.host),
        spec_port(encode_utf8(host_port_chars(target))) == target.port,
{
    let colon_char = seq![':'];
    lemma_encode_utf8_concat(target.host + colon_char, decimal_chars(target.port as nat));
    lemma_encode_utf8_concat(target.host, colon_char);
    lemma_encode_ascii_char(':');
    lemma_encode_decimal(target.port as nat);
    lemma_encode_without_colon(target.host);
    assert(encode_utf8(host_port_chars(target)) == encode_utf8(target.host) + seq![colon()] + decimal_bytes(
        target.port as nat,
    ));
    lemma_read_host_port(encode_utf8(target.host), target.port);
}

/// Calls `format!("{}:{}", host, port)`: the host, a colon and the port in
/// decimal notation, as std's `Display` for integers writes it.
#[verifier::external_body]
fn format_host_port(host: &String, port: u16) -> (r: String)
    ensures
        r@ == host@ + seq![':'] + decimal_chars(port as nat),
{
    format!("{}:{}", host, port)
}

/// The state of one client connection.
pub struct ClientSession {
    auth: Option<Auth>,
    require_auth: bool,
    target_addr: Option<TargetAddr>,
}

/// The state of a client connection, with credentials and target as text.
pub struct ClientSessionView {
    pub auth: Option<AuthView>,
    pub require_auth: bool,
    pub target_addr: Option<TargetAddrView>,
}

impl View for ClientSession {
    type V = ClientSessionView;

    closed spec fn view(&self) -> ClientSessionView {
        ClientSessionView {
            auth: match self.auth {
                Some(a) => Some(a@),
                None => None,
            },
            require_auth: self.require_auth,
            target_addr: match self.target_addr {
                Some(t) => Some(t@),
                None => None,
            },
        }
    }
}

/// The authorization request a client sends: its credentials where the
/// server asked for them (none to send is an error), else none.
pub open spec fn spec_auth_request(s: ClientSessionView) -> Result<AuthRequestView, ProtocolError> {
    if s.require_auth {
        match s.auth {
            Some(a) => Ok(AuthRequestView { method: AuthMethod::Basic, auth: Some(a) }),
            None => Err(ProtocolError::AuthorizationRequired),
        }
    } else {
        Ok(AuthRequestView { method: AuthMethod::Skip, auth: None })
    }
}

/// The command a client sends: to be proxied to the target where there is
/// one (a `host:port` longer than 255 bytes is an error), else direct.
pub open spec fn spec_command_request(target: Option<TargetAddrView>) -> Result<CommandRequestView, ProtocolError> {
    match target {
        Some(t) => if encode_utf8(host_port_chars(t)).len() > 255 {
            Err(ProtocolError::HostTooLong)
        } else {
            Ok(CommandRequestView { command: ClientCommand::Proxy, target_host: Some(host_port_chars(t)) })
        },
        None => Ok(CommandRequestView { command: ClientCommand::Direct, target_host: None }),
    }
}

/// What a client makes of the answer to its command.
pub open spec fn spec_command_outcome(status: CommandStatus) -> Result<(), ProtocolError> {
    match status {
        CommandStatus::Success => Ok(()),
        CommandStatus::Failed => Err(ProtocolError::CommandFailed),
        CommandStatus::Unsupported => Err(ProtocolError::CommandUnsupported),
    }
}

impl ClientSession {
    pub fn new() -> (r: ClientSession)
        ensures
            r@.auth is None,
            !r@.require_auth,
            r@.target_addr is None,
    {
        ClientSession { auth: None, require_auth: false, target_addr: None }
    }

    /// The session with credentials to offer.
    pub fn with_auth(self, auth: Auth) -> (r: ClientSession)
        ensures
            r@.auth == Some(auth@),
            r@.require_auth == self@.require_auth,
            r@.target_addr == self@.target_addr,
    {
        ClientSession { auth: Some(auth), ..self }
    }

    /// The session with a target for the server to connect to.
    pub fn with_target_addr(self, target_addr: TargetAddr) -> (r: ClientSession)
        ensures
            r@.target_addr == Some(target_addr@),
            r@.require_auth == self@.require_auth,
            r@.auth == self@.auth,
    {
        ClientSession { target_addr: Some(target_addr), ..self }
    }

    /// Whether the server asked for credentials.
    pub fn require_auth(&self) -> (r: bool)
        ensures
            r == self@.require_auth,
    {
        self.require_auth
    }

    /// A copy of the target address, where there is one.
    pub fn target_addr(&self) -> (r: Option<TargetAddr>)
        ensures
            match r {
                Some(t) => self@.target_addr == Some(t@),
                None => self@.target_addr is None,
            },
    {
        match &self.target_addr {
            Some(t) => Some(TargetAddr { host: t.host.clone(), port: t.port }),
            None => None,
        }
    }

    /// The greeting a client opens with.
    pub fn greeting(&self) -> (r: ClientGreet)
        ensures
            r.version == PROTOCOL_VERSION,
    {
        ClientGreet { version: PROTOCOL_VERSION }
    }

    /// Takes the server's greeting: a server of another version is refused;
    /// else the client learns whether it must authorize.
    pub fn on_server_greet(&mut self, greet: &ServerGreet) -> (r: Result<(), ProtocolError>)
        ensures
            final(self)@.auth == old(self)@.auth,
            final(self)@.target_addr == old(self)@.target_addr,
            greet.version == PROTOCOL_VERSION ==> {
                &&& r is Ok
                &&& final(self)@.require_auth == greet.require_auth
            },
            greet.version != PROTOCOL_VERSION ==> {
                &&& r == Err::<(), ProtocolError>(ProtocolError::IncompatibleServerVersion)
                &&& final(self)@.require_auth == old(self)@.require_auth
            },
    {
        if greet.version != PROTOCOL_VERSION {
            return Err(ProtocolError::IncompatibleServerVersion);
        }
        self.require_auth = greet.require_auth;
        Ok(())
    }

    /// The authorization request to send; a server that asks for credentials
    /// the client does not have ends the session before anything is sent.
    pub fn auth_request(&self) -> (r: Result<AuthRequest, ProtocolError>)
        ensures
            match r {
                Ok(req) => spec_auth_request(self@) == Ok::<AuthRequestView, ProtocolError>(req@),
                Err(e) => spec_auth_request(self@) == Err::<AuthRequestView, ProtocolError>(e),
            },
    {
        if self.require_auth {
            match &self.auth {
                Some(auth) => Ok(AuthRequest { method: AuthMethod::Basic, auth: Some(auth.duplicate()) }),
                None => Err(ProtocolError::AuthorizationRequired),
            }
        } else {
            Ok(AuthRequest { method: AuthMethod::Skip, auth: None })
        }
    }

    /// Takes the server's answer to the authorization request: anything but
    /// success ends the session.
    pub fn on_auth_response(&self, response: &AuthResponse) -> (r: Result<(), ProtocolError>)
        ensures
            response.status == AuthStatus::Success ==> r is Ok,
            response.status != AuthStatus::Success ==> r == Err::<(), ProtocolError>(ProtocolError::AuthorizationFailed),
    {
        match response.status {
            AuthStatus::Success => Ok(()),
            _ => Err(ProtocolError::AuthorizationFailed),
        }
    }

    /// The command to send for a target: proxying to `host:port` where there
    /// is a target, else a direct connection.
    pub fn command_request(&self, target_addr: &Option<TargetAddr>) -> (r: Result<CommandRequest, ProtocolError>)
        ensures
            ({
                let target = match target_addr {
                    Some(t) => Some(t@),
                    None => None,
                };
                match r {
                    Ok(req) => spec_command_request(target) == Ok::<CommandRequestView, ProtocolError>(req@),
                    Err(e) => spec_command_request(target) == Err::<CommandRequestView, ProtocolError>(e),
                }
            }),
    {
        match target_addr {
            Some(addr) => {
                let host = format_host_port(&addr.host, addr.port);
                if host.as_str().as_bytes().len() > 255 {
                    return Err(ProtocolError::HostTooLong);
                }
                Ok(CommandRequest { command: ClientCommand::Proxy, target_host: Some(host) })
            },
            None => Ok(CommandRequest { command: ClientCommand::Direct, target_host: None }),
        }
    }

    /// Takes the server's answer to the command: only success connects.
    pub fn on_command_response(&self, response: &CommandResponse) -> (r: Result<(), ProtocolError>)
        ensures
            r == spec_command_outcome(response.status),
    {
        match response.status {
            CommandStatus::Success => Ok(()),
            CommandStatus::Failed => Err(ProtocolError::CommandFailed),
            CommandStatus::Unsupported => Err(ProtocolError::CommandUnsupported),
        }
    }
}

} // verus!
