use etuf::protocol::types::{Auth, AuthMethod, AuthStatus, ClientCommand, CommandStatus};

#[test]
fn auth_method_bytes() {
  assert_eq!(AuthMethod::from_byte(0x00), Some(AuthMethod::Skip));
  assert_eq!(AuthMethod::from_byte(0x01), Some(AuthMethod::Basic));
  assert_eq!(AuthMethod::from_byte(0x02), None);
  assert_eq!(AuthMethod::from_byte(0xff), None);
  assert_eq!(AuthMethod::Skip.to_byte(), 0x00);
  assert_eq!(AuthMethod::Basic.to_byte(), 0x01);
}

#[test]
fn auth_status_bytes() {
  assert_eq!(AuthStatus::from_byte(0x00), Some(AuthStatus::Success));
  assert_eq!(AuthStatus::from_byte(0x01), Some(AuthStatus::UnexpectedMethod));
  assert_eq!(AuthStatus::from_byte(0x02), Some(AuthStatus::MissingData));
  assert_eq!(AuthStatus::from_byte(0x03), Some(AuthStatus::Failed));
  assert_eq!(AuthStatus::from_byte(0x04), None);
  assert_eq!(AuthStatus::Failed.to_byte(), 0x03);
  assert_eq!(AuthStatus::MissingData.to_byte(), 0x02);
}

#[test]
fn client_command_bytes() {
  assert_eq!(ClientCommand::from_byte(0x00), Some(ClientCommand::Direct));
  assert_eq!(ClientCommand::from_byte(0x01), Some(ClientCommand::Proxy));
  assert_eq!(ClientCommand::from_byte(0x07), None);
  assert_eq!(ClientCommand::Proxy.to_byte(), 0x01);
}

#[test]
fn command_status_bytes() {
  assert_eq!(CommandStatus::from_byte(0x00), Some(CommandStatus::Success));
  assert_eq!(CommandStatus::from_byte(0x01), Some(CommandStatus::Failed));
  assert_eq!(CommandStatus::from_byte(0x02), Some(CommandStatus::Unsupported));
  assert_eq!(CommandStatus::from_byte(0x03), None);
  assert_eq!(CommandStatus::Unsupported.to_byte(), 0x02);
}

#[test]
fn every_byte_roundtrips_through_the_enums() {
  for b in 0u8..=255 {
    if let Some(m) = AuthMethod::from_byte(b) {
      assert_eq!(m.to_byte(), b);
    }
    if let Some(s) = AuthStatus::from_byte(b) {
      assert_eq!(s.to_byte(), b);
    }
    if let Some(c) = ClientCommand::from_byte(b) {
      assert_eq!(c.to_byte(), b);
    }
    if let Some(s) = CommandStatus::from_byte(b) {
      assert_eq!(s.to_byte(), b);
    }
  }
}

#[test]
fn auth_accessors() {
  let auth = Auth::new("user", "pass");
  assert_eq!(auth.username(), "user");
  assert_eq!(auth.password(), "pass");
  assert_eq!(auth.username_bytes(), b"user");
  assert_eq!(auth.password_bytes(), b"pass");
}

#[test]
fn auth_to_bytes_layout() {
  let auth = Auth::new("admin", "qwe123");
  assert_eq!(auth.to_bytes(), b"\x05admin\x06qwe123".to_vec());
  let accented = Auth::new("é", "p");
  assert_eq!(accented.to_bytes(), vec![2, 0xc3, 0xa9, 1, b'p']);
}

#[test]
fn auth_to_bytes_cuts_long_lengths() {
  let long = "a".repeat(300);
  let auth = Auth::new(&long, "x");
  let bytes = auth.to_bytes();
  assert_eq!(bytes[0], (300 % 256) as u8);
  assert_eq!(bytes.len(), 1 + 300 + 1 + 1);
}

#[test]
fn auth_same_credentials_and_duplicate() {
  let a = Auth::new("user", "pass");
  assert!(a.same_credentials(&Auth::new("user", "pass")));
  assert!(!a.same_credentials(&Auth::new("user", "pasS")));
  assert!(!a.same_credentials(&Auth::new("usr", "pass")));
  assert_eq!(a.duplicate(), a);
}
