use etuf::client::{ClientSession, TargetAddr, DEFAULT_TARGET_PORT};
use etuf::protocol::packets::{AuthResponse, CommandResponse, ServerGreet};
use etuf::protocol::types::{Auth, AuthMethod, AuthStatus, ClientCommand, CommandStatus};
use etuf::protocol::ProtocolError;
use etuf::PROTOCOL_VERSION;

#[test]
fn target_addr_from_text() {
  assert_eq!(TargetAddr::from("example.com:8080"), TargetAddr { host: "example.com".to_string(), port: 8080 });
  assert_eq!(TargetAddr::from("example.com"), TargetAddr { host: "example.com".to_string(), port: DEFAULT_TARGET_PORT });
  assert_eq!(TargetAddr::from("h:notaport"), TargetAddr { host: "h".to_string(), port: 38392 });
  assert_eq!(TargetAddr::from("h:70000"), TargetAddr { host: "h".to_string(), port: 38392 });
  assert_eq!(TargetAddr::from("h:+80"), TargetAddr { host: "h".to_string(), port: 80 });
  assert_eq!(TargetAddr::from("h:+"), TargetAddr { host: "h".to_string(), port: 38392 });
  assert_eq!(TargetAddr::from("h:"), TargetAddr { host: "h".to_string(), port: 38392 });
  assert_eq!(TargetAddr::from("h:0081:9"), TargetAddr { host: "h".to_string(), port: 81 });
  assert_eq!(TargetAddr::from(":5"), TargetAddr { host: String::new(), port: 5 });
  assert_eq!(TargetAddr::from("h:65535"), TargetAddr { host: "h".to_string(), port: 65535 });
  assert_eq!(TargetAddr::from("h:-1"), TargetAddr { host: "h".to_string(), port: 38392 });
  assert_eq!(TargetAddr::from("привет:12".to_string()), TargetAddr { host: "привет".to_string(), port: 12 });
}

#[test]
fn handshake_checks_the_version() {
  let mut session = ClientSession::new();
  assert_eq!(session.greeting().version, PROTOCOL_VERSION);
  let wrong = ServerGreet { version: PROTOCOL_VERSION.wrapping_add(1), require_auth: true };
  assert_eq!(session.on_server_greet(&wrong), Err(ProtocolError::IncompatibleServerVersion));
  assert!(!session.require_auth());
  let right = ServerGreet { version: PROTOCOL_VERSION, require_auth: true };
  assert_eq!(session.on_server_greet(&right), Ok(()));
  assert!(session.require_auth());
}

#[test]
fn auth_request_follows_the_server() {
  let mut session = ClientSession::new();
  session.on_server_greet(&ServerGreet { version: PROTOCOL_VERSION, require_auth: true }).unwrap();
  assert_eq!(session.auth_request(), Err(ProtocolError::AuthorizationRequired));

  let mut with_auth = ClientSession::new().with_auth(Auth::new("user", "pass"));
  let skip = with_auth.auth_request().unwrap();
  assert_eq!(skip.method, AuthMethod::Skip);
  assert_eq!(skip.auth, None);
  with_auth.on_server_greet(&ServerGreet { version: PROTOCOL_VERSION, require_auth: true }).unwrap();
  let basic = with_auth.auth_request().unwrap();
  assert_eq!(basic.method, AuthMethod::Basic);
  assert_eq!(basic.auth, Some(Auth::new("user", "pass")));
}

#[test]
fn auth_response_outcome() {
  let session = ClientSession::new();
  assert_eq!(session.on_auth_response(&AuthResponse { status: AuthStatus::Success }), Ok(()));
  for status in [AuthStatus::Failed, AuthStatus::MissingData, AuthStatus::UnexpectedMethod] {
    assert_eq!(session.on_auth_response(&AuthResponse { status }), Err(ProtocolError::AuthorizationFailed));
  }
}

#[test]
fn command_request_names_the_target() {
  let session = ClientSession::new();
  let direct = session.command_request(&None).unwrap();
  assert_eq!(direct.command, ClientCommand::Direct);
  assert_eq!(direct.target_host, None);
  let target = Some(TargetAddr { host: "example.com".to_string(), port: 8080 });
  let proxy = session.command_request(&target).unwrap();
  assert_eq!(proxy.command, ClientCommand::Proxy);
  assert_eq!(proxy.target_host, Some("example.com:8080".to_string()));
  let zero = Some(TargetAddr { host: "h".to_string(), port: 0 });
  assert_eq!(session.command_request(&zero).unwrap().target_host, Some("h:0".to_string()));
}

#[test]
fn command_request_refuses_long_hosts() {
  let session = ClientSession::new();
  let fits = Some(TargetAddr { host: "a".repeat(250), port: 1234 });
  assert_eq!(session.command_request(&fits).unwrap().target_host.unwrap().len(), 255);
  let too_long = Some(TargetAddr { host: "a".repeat(250), port: 12345 });
  assert_eq!(session.command_request(&too_long), Err(ProtocolError::HostTooLong));
}

#[test]
fn command_response_outcome() {
  let session = ClientSession::new();
  assert_eq!(session.on_command_response(&CommandResponse { status: CommandStatus::Success }), Ok(()));
  assert_eq!(
    session.on_command_response(&CommandResponse { status: CommandStatus::Failed }),
    Err(ProtocolError::CommandFailed)
  );
  assert_eq!(
    session.on_command_response(&CommandResponse { status: CommandStatus::Unsupported }),
    Err(ProtocolError::CommandUnsupported)
  );
}

#[test]
fn builder_keeps_the_target() {
  let session = ClientSession::new().with_target_addr(TargetAddr::from("t:9"));
  assert_eq!(session.target_addr(), Some(TargetAddr { host: "t".to_string(), port: 9 }));
  assert_eq!(ClientSession::new().target_addr(), None);
}

#[test]
fn named_target_reads_back() {
  let session = ClientSession::new();
  for (host, port) in [("example.com", 8080u16), ("10.0.0.1", 0), ("хост", 65535)] {
    let target = TargetAddr { host: host.to_string(), port };
    let text = session.command_request(&Some(target.clone())).unwrap().target_host.unwrap();
    assert_eq!(TargetAddr::from(text.as_str()), target);
  }
}
