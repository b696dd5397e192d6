use vstd::prelude::*;
use vstd::utf8::*;

use crate::protocol::wire::append_bytes;

verus! {

/// Username and password of basic authorization.
#[derive(Debug, Clone, PartialEq, Eq)]
pub struct Auth {
    username: String,
    password: String,
}

/// The text of a username and a password.
pub struct AuthView {
    pub username: Seq<char>,
    pub password: Seq<char>,
}

impl View for Auth {
    type V = AuthView;

    closed spec fn view(&self) -> AuthView {
        AuthView { username: self.username@, password: self.password@ }
    }
}

impl AuthView {
    /// The UTF-8 bytes of the username.
    pub open spec fn username_bytes(self) -> Seq<u8> {
        encode_utf8(self.username)
    }

    /// The UTF-8 bytes of the password.
    pub open spec fn password_bytes(self) -> Seq<u8> {
        encode_utf8(self.password)
    }

    /// The credentials as `to_bytes` lays them out: a length byte before
    /// each of username and password (the length cut to its low byte).
    pub open spec fn spec_to_bytes(self) -> Seq<u8> {
        seq![self.username_bytes().len() as u8] + self.username_bytes()
            + seq![self.password_bytes().len() as u8] + self.password_bytes()
    }
}

impl Auth {
    pub fn new(username: &str, password: &str) -> (r: Auth)
        ensures
            r@.username == username@,
            r@.password == password@,
    {
        Auth { username: username.to_owned(), password: password.to_owned() }
    }

    /// Credentials made of two strings already at hand.
    pub fn from_strings(username: String, password: String) -> (r: Auth)
        ensures
            r@.username == username@,
            r@.password == password@,
    {
        Auth { username, password }
    }

    pub fn username(&self) -> (r: &str)
        ensures
            r@ == self@.username,
    {
        self.username.as_str()
    }

    pub fn username_bytes(&self) -> (r: &[u8])
        ensures
            r@ == self@.username_bytes(),
    {
        self.username.as_str().as_bytes()
    }

    pub fn password(&self) -> (r: &str)
        ensures
            r@ == self@.password,
    {
        self.password.as_str()
    }

    pub fn password_bytes(&self) -> (r: &[u8])
        ensures
            r@ == self@.password_bytes(),
    {
        self.password.as_str().as_bytes()
    }

    /// A copy with the same username and password.
    pub fn duplicate(&self) -> (r: Auth)
        ensures
            r@ == self@,
    {
        Auth { username: self.username.clone(), password: self.password.clone() }
    }

    /// Whether both username and password equal those of `other`.
    pub fn same_credentials(&self, other: &Auth) -> (r: bool)
        ensures
            r == (self@ == other@),
    {
        self.username == other.username && self.password == other.password
    }

    pub fn to_bytes(&self) -> (r: Vec<u8>)
        ensures
            r@ == self@.spec_to_bytes(),
    {
        let username = self.username_bytes();
        let password = self.password_bytes();
        let mut bytes: Vec<u8> = Vec::new();
        bytes.push(username.len() as u8);
        append_bytes(&mut bytes, username);
        bytes.push(password.len() as u8);
        append_bytes(&mut bytes, password);
        bytes
    }
}

} // verus!
