use etuf::protocol::packets::{
  AuthRequest, AuthResponse, ClientGreet, CommandRequest, CommandResponse, PublicKeyExchange, ServerGreet,
};
use etuf::protocol::types::{Auth, AuthMethod, AuthStatus, ClientCommand, CommandStatus};
use etuf::protocol::ProtocolError;

#[test]
fn client_greet_encode_decode() {
  let greet = ClientGreet { version: 0x0102 };
  assert_eq!(greet.encode(), vec![0x01, 0x02]);
  assert_eq!(ClientGreet::decode(&[0x01, 0x02, 0x09]), Ok(greet));
  assert_eq!(ClientGreet::decode(&[0x01]), Err(ProtocolError::UnexpectedEnd));
  assert_eq!(ClientGreet::decode(&[]), Err(ProtocolError::UnexpectedEnd));
}

#[test]
fn server_greet_encode_decode() {
  let greet = ServerGreet { version: 1, require_auth: true };
  assert_eq!(greet.encode(), vec![0x00, 0x01, 0x01]);
  assert_eq!(ServerGreet { version: 0xabcd, require_auth: false }.encode(), vec![0xab, 0xcd, 0x00]);
  assert_eq!(ServerGreet::decode(&[0x00, 0x01, 0x01]), Ok(greet));
  assert_eq!(ServerGreet::decode(&[0x00, 0x01, 0x02]), Ok(ServerGreet { version: 1, require_auth: false }));
  assert_eq!(ServerGreet::decode(&[0x00, 0x01]), Err(ProtocolError::UnexpectedEnd));
}

#[test]
fn auth_response_encode_decode() {
  assert_eq!(AuthResponse { status: AuthStatus::MissingData }.encode(), vec![0x02]);
  assert_eq!(AuthResponse::decode(&[0x03]), Ok(AuthResponse { status: AuthStatus::Failed }));
  assert_eq!(AuthResponse::decode(&[0x09]), Err(ProtocolError::InvalidAuthStatus));
  assert_eq!(AuthResponse::decode(&[]), Err(ProtocolError::UnexpectedEnd));
}

#[test]
fn command_response_encode_decode() {
  assert_eq!(CommandResponse { status: CommandStatus::Unsupported }.encode(), vec![0x02]);
  assert_eq!(CommandResponse::decode(&[0x00, 0x55]), Ok(CommandResponse { status: CommandStatus::Success }));
  assert_eq!(CommandResponse::decode(&[0x03]), Err(ProtocolError::InvalidCommandStatus));
  assert_eq!(CommandResponse::decode(&[]), Err(ProtocolError::UnexpectedEnd));
}

#[test]
fn public_key_exchange_encode_decode() {
  let mut key = [0u8; 32];
  for (i, b) in key.iter_mut().enumerate() {
    *b = i as u8 * 3;
  }
  let packet = PublicKeyExchange { public_key: key };
  assert_eq!(packet.encode(), key.to_vec());
  let mut longer = key.to_vec();
  longer.push(0xee);
  assert!(!PublicKeyExchange::is_truncated(&longer));
  assert_eq!(PublicKeyExchange::decode(&longer), Ok(packet));
  assert!(PublicKeyExchange::is_truncated(&key[..31]));
}

#[test]
fn auth_request_encode() {
  let req = AuthRequest { method: AuthMethod::Basic, auth: Some(Auth::new("user", "pass")) };
  assert_eq!(req.encode(), b"\x01\x04user\x04pass".to_vec());
  let skip = AuthRequest { method: AuthMethod::Skip, auth: None };
  assert_eq!(skip.encode(), vec![0x00]);
}

#[test]
fn auth_request_roundtrip() {
  let req = AuthRequest { method: AuthMethod::Basic, auth: Some(Auth::new("admin", "qwe123")) };
  let bytes = req.encode();
  assert!(!AuthRequest::is_truncated(&bytes));
  assert_eq!(AuthRequest::decode(&bytes), Ok(req));
  let skip = AuthRequest { method: AuthMethod::Skip, auth: None };
  assert_eq!(AuthRequest::decode(&skip.encode()), Ok(skip));
}

#[test]
fn auth_request_decode_errors() {
  assert_eq!(AuthRequest::decode(&[]), Err(ProtocolError::UnexpectedEnd));
  assert_eq!(AuthRequest::decode(&[0x05]), Err(ProtocolError::InvalidAuthMethod));
  assert_eq!(AuthRequest::decode(&[0x01]), Err(ProtocolError::UnexpectedEnd));
  assert_eq!(AuthRequest::decode(&[0x01, 0x00]), Err(ProtocolError::IncorrectUsernameLength));
  assert_eq!(AuthRequest::decode(&[0x01, 65]), Err(ProtocolError::IncorrectUsernameLength));
  assert_eq!(AuthRequest::decode(b"\x01\x02ab"), Err(ProtocolError::UnexpectedEnd));
  assert_eq!(AuthRequest::decode(b"\x01\x02ab\x00"), Err(ProtocolError::IncorrectPasswordLength));
  assert_eq!(AuthRequest::decode(b"\x01\x02ab\x41"), Err(ProtocolError::IncorrectPasswordLength));
}

#[test]
fn auth_request_decode_ignores_trailing_bytes_and_skip_data() {
  let req = AuthRequest::decode(b"\x01\x01a\x01bzzz").unwrap();
  assert_eq!(req, AuthRequest { method: AuthMethod::Basic, auth: Some(Auth::new("a", "b")) });
  let skip = AuthRequest::decode(b"\x00\x04user\x04pass").unwrap();
  assert_eq!(skip, AuthRequest { method: AuthMethod::Skip, auth: None });
}

#[test]
fn auth_request_unreadable_payloads() {
  assert!(AuthRequest::is_truncated(b"\x01\x05ab"));
  assert!(AuthRequest::is_truncated(b"\x01\x02ab\x03x"));
  assert!(!AuthRequest::is_truncated(b"\x01\x02ab\x01x"));
  assert!(!AuthRequest::is_truncated(b"\x00"));
  assert!(!AuthRequest::is_truncated(b"\x01\x00"));
}

#[test]
fn auth_request_decodes_invalid_utf8_lossily() {
  let req = AuthRequest::decode(b"\x01\x02\xffa\x01b").unwrap();
  assert_eq!(req.auth.unwrap().username(), "\u{fffd}a");
}

#[test]
fn command_request_encode_decode() {
  let req = CommandRequest { command: ClientCommand::Proxy, target_host: Some("example.com:80".to_string()) };
  let bytes = req.encode();
  assert_eq!(bytes, b"\x01\x0eexample.com:80".to_vec());
  assert!(!CommandRequest::is_truncated(&bytes));
  assert_eq!(CommandRequest::decode(&bytes), Ok(req));
  let direct = CommandRequest { command: ClientCommand::Direct, target_host: None };
  assert_eq!(direct.encode(), vec![0x00]);
  assert_eq!(CommandRequest::decode(&[0x00, 0x05, 0x01]), Ok(direct));
}

#[test]
fn command_request_decode_errors() {
  assert_eq!(CommandRequest::decode(&[]), Err(ProtocolError::UnexpectedEnd));
  assert_eq!(CommandRequest::decode(&[0x02]), Err(ProtocolError::InvalidClientCommand));
  assert_eq!(CommandRequest::decode(&[0x01]), Err(ProtocolError::UnexpectedEnd));
  assert!(CommandRequest::is_truncated(b"\x01\x05abc"));
  assert!(!CommandRequest::is_truncated(b"\x01\x03abc"));
  assert_eq!(
    CommandRequest::decode(b"\x01\x00"),
    Ok(CommandRequest { command: ClientCommand::Proxy, target_host: Some(String::new()) })
  );
}

#[test]
fn over_long_credentials_do_not_read_back() {
  let long = "a".repeat(65);
  let req = AuthRequest { method: AuthMethod::Basic, auth: Some(Auth::new(&long, "p")) };
  let bytes = req.encode();
  assert_eq!(bytes[1], 65);
  assert_eq!(AuthRequest::decode(&bytes), Err(ProtocolError::IncorrectUsernameLength));
}
