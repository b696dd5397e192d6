use etuf::protocol::packets::{AuthRequest, AuthResponse, ClientGreet, CommandRequest, CommandResponse, ServerGreet};
use etuf::protocol::types::{Auth, AuthMethod, AuthStatus, ClientCommand, CommandStatus};
use etuf::protocol::ProtocolError;
use etuf::server::{
  authorization_reply, command_step, connect_reply, handshake_reply, CommandStep, ServerMode, ServerSession, ServerStage,
};
use etuf::PROTOCOL_VERSION;

fn basic(user: &str, pass: &str) -> AuthRequest {
  AuthRequest { method: AuthMethod::Basic, auth: Some(Auth::new(user, pass)) }
}

fn skip() -> AuthRequest {
  AuthRequest { method: AuthMethod::Skip, auth: None }
}

fn status(s: AuthStatus) -> Option<AuthResponse> {
  Some(AuthResponse { status: s })
}

#[test]
fn server_mode_default_is_multi() {
  assert_eq!(ServerMode::default(), ServerMode::Multi);
}

#[test]
fn handshake_always_answers() {
  let (greet, outcome) = handshake_reply(&ClientGreet { version: PROTOCOL_VERSION }, true);
  assert_eq!(greet, ServerGreet { version: PROTOCOL_VERSION, require_auth: true });
  assert_eq!(outcome, Ok(()));
  let (greet, outcome) = handshake_reply(&ClientGreet { version: PROTOCOL_VERSION.wrapping_add(3) }, false);
  assert_eq!(greet, ServerGreet { version: PROTOCOL_VERSION, require_auth: false });
  assert_eq!(outcome, Err(ProtocolError::IncompatibleClientVersion));
}

#[test]
fn authorization_without_server_credentials() {
  assert_eq!(authorization_reply(&None, &skip()), (status(AuthStatus::Success), Ok(())));
  assert_eq!(authorization_reply(&None, &basic("u", "p")), (None, Ok(())));
}

#[test]
fn authorization_with_server_credentials() {
  let server = Some(Auth::new("user", "pass"));
  assert_eq!(authorization_reply(&server, &basic("user", "pass")), (status(AuthStatus::Success), Ok(())));
  assert_eq!(
    authorization_reply(&server, &basic("user", "wrong")),
    (status(AuthStatus::Failed), Err(ProtocolError::WrongCredentials))
  );
  assert_eq!(
    authorization_reply(&server, &basic("other", "pass")),
    (status(AuthStatus::Failed), Err(ProtocolError::WrongCredentials))
  );
  assert_eq!(
    authorization_reply(&server, &skip()),
    (status(AuthStatus::UnexpectedMethod), Err(ProtocolError::UnexpectedAuthMethod))
  );
  assert_eq!(
    authorization_reply(&server, &AuthRequest { method: AuthMethod::Basic, auth: None }),
    (status(AuthStatus::MissingData), Err(ProtocolError::MissingCredentials))
  );
}

fn proxy(host: Option<&str>) -> CommandRequest {
  CommandRequest { command: ClientCommand::Proxy, target_host: host.map(|h| h.to_string()) }
}

fn direct() -> CommandRequest {
  CommandRequest { command: ClientCommand::Direct, target_host: None }
}

fn reply(s: CommandStatus, outcome: Result<(), ProtocolError>) -> CommandStep {
  CommandStep::Reply { response: CommandResponse { status: s }, outcome }
}

fn same(a: CommandStep, b: CommandStep) -> bool {
  match (a, b) {
    (CommandStep::Reply { response: r1, outcome: o1 }, CommandStep::Reply { response: r2, outcome: o2 }) => r1 == r2 && o1 == o2,
    (CommandStep::Connect { target_host: h1 }, CommandStep::Connect { target_host: h2 }) => h1 == h2,
    _ => false,
  }
}

#[test]
fn commands_by_mode() {
  for mode in [ServerMode::Basic, ServerMode::Multi] {
    assert!(same(command_step(mode, &direct()), reply(CommandStatus::Success, Ok(()))));
  }
  assert!(same(
    command_step(ServerMode::Proxy, &direct()),
    reply(CommandStatus::Unsupported, Err(ProtocolError::UnsupportedCommand))
  ));
  for mode in [ServerMode::Proxy, ServerMode::Multi] {
    assert!(same(
      command_step(mode, &proxy(Some("t:1"))),
      CommandStep::Connect { target_host: "t:1".to_string() }
    ));
    assert!(same(
      command_step(mode, &proxy(None)),
      reply(CommandStatus::Failed, Err(ProtocolError::TargetHostMissing))
    ));
  }
  assert!(same(
    command_step(ServerMode::Basic, &proxy(Some("t:1"))),
    reply(CommandStatus::Unsupported, Err(ProtocolError::UnsupportedCommand))
  ));
}

#[test]
fn connect_replies() {
  assert_eq!(connect_reply(true), CommandResponse { status: CommandStatus::Success });
  assert_eq!(connect_reply(false), CommandResponse { status: CommandStatus::Failed });
}

#[test]
fn session_runs_through_the_stages() {
  let mut session = ServerSession::new(Some(Auth::new("admin", "qwe123")), ServerMode::Multi);
  assert_eq!(session.stage(), ServerStage::Greeting);
  assert!(session.require_auth());
  let (greet, outcome) = session.on_client_greet(&ClientGreet { version: PROTOCOL_VERSION });
  assert!(greet.require_auth);
  assert_eq!(outcome, Ok(()));
  assert_eq!(session.stage(), ServerStage::Authorizing);
  let (resp, outcome) = session.on_auth_request(&basic("admin", "qwe123"));
  assert_eq!(resp, status(AuthStatus::Success));
  assert_eq!(outcome, Ok(()));
  assert_eq!(session.stage(), ServerStage::Encrypting);
  session.on_encryption_established();
  assert_eq!(session.stage(), ServerStage::Commanding);
  let step = session.on_command_request(&proxy(Some("example.com:80")));
  assert!(same(step, CommandStep::Connect { target_host: "example.com:80".to_string() }));
  assert_eq!(session.stage(), ServerStage::Connecting);
  assert_eq!(session.on_target_connect(false), CommandResponse { status: CommandStatus::Failed });
  assert_eq!(session.stage(), ServerStage::Failed);
}

#[test]
fn session_stops_at_wrong_credentials() {
  let mut session = ServerSession::new(Some(Auth::new("admin", "qwe123")), ServerMode::Basic);
  session.on_client_greet(&ClientGreet { version: PROTOCOL_VERSION }).1.unwrap();
  let (resp, outcome) = session.on_auth_request(&basic("admin", "nope"));
  assert_eq!(resp, status(AuthStatus::Failed));
  assert_eq!(outcome, Err(ProtocolError::WrongCredentials));
  assert_eq!(session.stage(), ServerStage::Failed);
}

#[test]
fn session_refuses_other_versions() {
  let mut session = ServerSession::new(None, ServerMode::Basic);
  let (_, outcome) = session.on_client_greet(&ClientGreet { version: PROTOCOL_VERSION.wrapping_add(1) });
  assert_eq!(outcome, Err(ProtocolError::IncompatibleClientVersion));
  assert_eq!(session.stage(), ServerStage::Failed);
}

#[test]
fn session_serves_direct_clients() {
  let mut session = ServerSession::new(None, ServerMode::Basic);
  session.on_client_greet(&ClientGreet { version: PROTOCOL_VERSION }).1.unwrap();
  assert_eq!(session.on_auth_request(&skip()), (status(AuthStatus::Success), Ok(())));
  session.on_encryption_established();
  assert!(same(session.on_command_request(&direct()), reply(CommandStatus::Success, Ok(()))));
  assert_eq!(session.stage(), ServerStage::Serving);
}
