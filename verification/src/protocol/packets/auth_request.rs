use vstd::prelude::*;
use vstd::utf8::*;

use crate::protocol::error::{result_view, ProtocolError};
use crate::protocol::types::{Auth, AuthMethod, AuthView};
use crate::protocol::wire::{append_bytes, lossy_chars, string_from_utf8_lossy, sub_bytes, lemma_lossy_chars_of_encoding};

verus! {

/// A client's request to be authorized.
#[derive(Debug, Clone, PartialEq, Eq)]
pub struct AuthRequest {
    pub method: AuthMethod,
    pub auth: Option<Auth>,
}

/// An authorization request with the credentials taken as text.
pub struct AuthRequestView {
    pub method: AuthMethod,
    pub auth: Option<AuthView>,
}

impl View for AuthRequest {
    type V = AuthRequestView;

    open spec fn view(&self) -> AuthRequestView {
        AuthRequestView {
            method: self.method,
            auth: match self.auth {
                Some(a) => Some(a@),
                None => None,
            },
        }
    }
}

/// Whether a username or password length is one the format accepts.
pub open spec fn credential_length_ok(len: int) -> bool {
    1 <= len <= 64
}

impl AuthRequestView {
    /// The payload that `encode` writes: the method byte, then, where there
    /// are credentials, a length byte before each of username and password
    /// (the length cut to its low byte).
    pub open spec fn spec_encode(self) -> Seq<u8> {
        match self.auth {
            Some(a) => seq![self.method.spec_to_byte()] + a.spec_to_bytes(),
            None => seq![self.method.spec_to_byte()],
        }
    }

    /// What `decode` makes of a payload: `None` where it cannot read it
    /// at all (a username or password that a length byte promises and the
    /// payload does not hold), else the request or the error it reports.
    /// The credentials are read as lossy UTF-8; bytes after the password
    /// are ignored.
    pub open spec fn spec_decode(b: Seq<u8>) -> Option<Result<AuthRequestView, ProtocolError>> {
        if b.len() < 1 {
            Some(Err(ProtocolError::UnexpectedEnd))
        } else {
            match AuthMethod::spec_from_byte(b[0]) {
                None => Some(Err(ProtocolError::InvalidAuthMethod)),
                Some(AuthMethod::Skip) => Some(Ok(AuthRequestView { method: AuthMethod::Skip, auth: None })),
                Some(AuthMethod::Basic) => {
                    if b.len() < 2 {
                        Some(Err(ProtocolError::UnexpectedEnd))
                    } else if !credential_length_ok(b[1] as int) {
                        Some(Err(ProtocolError::IncorrectUsernameLength))
                    } else {
                        let ul = b[1] as int;
                        let rest = b.subrange(2, b.len() as int);
                        if ul > rest.len() {
                            None
                        } else {
                            let tail = rest.subrange(ul, rest.len() as int);
                            if tail.len() < 1 {
                                Some(Err(ProtocolError::UnexpectedEnd))
                            } else if !credential_length_ok(tail[0] as int) {
                                Some(Err(ProtocolError::IncorrectPasswordLength))
                            } else if tail[0] as int > tail.len() - 1 {
                                None
                            } else {
                                Some(Ok(AuthRequestView {
                                    method: AuthMethod::Basic,
                                    auth: Some(AuthView {
                                        username: lossy_chars(rest.subrange(0, ul)),
                                        password: lossy_chars(tail.subrange(1, 1 + tail[0] as int)),
                                    }),
                                }))
                            }
                        }
                    }
                },
            }
        }
    }

    /// A request that `decode` reads back as it was encoded: credentials
    /// exactly when the method is basic, each of 1 to 64 bytes.
    pub open spec fn well_formed(self) -> bool {
        &&& (self.method == AuthMethod::Basic) == self.auth is Some
        &&& self.auth matches Some(a) ==> {
            &&& credential_length_ok(a.username_bytes().len() as int)
            &&& credential_length_ok(a.password_bytes().len() as int)
        }
    }
}

impl AuthRequest {
    pub fn encode(&self) -> (r: Vec<u8>)
        ensures
            r@ == self@.spec_encode(),
    {
        let mut payload: Vec<u8> = Vec::new();
        payload.push(self.method.to_byte());
        match &self.auth {
            Some(auth) => {
                let bytes = auth.to_bytes();
                append_bytes(&mut payload, bytes.as_slice());
            },
            None => {},
        }
        payload
    }

    /// Whether a length byte of `payload` promises more bytes than it holds,
    /// so that `decode` cannot read it (slicing it out of range panics).
    pub fn is_truncated(payload: &[u8]) -> (r: bool)
        ensures
            r == AuthRequestView::spec_decode(payload@) is None,
    {
        if payload.len() < 2 || payload[0] != 0x01 || payload[1] < 1 || payload[1] > 64 {
            return false;
        }
        let ul = payload[1] as usize;
        let rest_len = payload.len() - 2;
        if ul > rest_len {
            return true;
        }
        let tail_len = rest_len - ul;
        if tail_len < 1 {
            return false;
        }
        let pl = payload[2 + ul];
        if pl < 1 || pl > 64 {
            return false;
        }
        pl as usize > tail_len - 1
    }

    pub fn decode(payload: &[u8]) -> (r: Result<AuthRequest, ProtocolError>)
        requires
            AuthRequestView::spec_decode(payload@) is Some,
        ensures
            AuthRequestView::spec_decode(payload@) == Some(result_view(r)),
    {
        if payload.len() < 1 {
            return Err(ProtocolError::UnexpectedEnd);
        }
        let method = match AuthMethod::from_byte(payload[0]) {
            Some(m) => m,
            None => return Err(ProtocolError::InvalidAuthMethod),
        };
        match method {
            AuthMethod::Skip => Ok(AuthRequest { method, auth: None }),
            AuthMethod::Basic => {
                if payload.len() < 2 {
                    return Err(ProtocolError::UnexpectedEnd);
                }
                let ul = payload[1] as usize;
                if ul > 64 || ul < 1 {
                    return Err(ProtocolError::IncorrectUsernameLength);
                }
                let rest = sub_bytes(payload, 2, payload.len());
                let username = string_from_utf8_lossy(sub_bytes(rest, 0, ul));
                let tail = sub_bytes(rest, ul, rest.len());
                if tail.len() < 1 {
                    return Err(ProtocolError::UnexpectedEnd);
                }
                let pl = tail[0] as usize;
                if pl > 64 || pl < 1 {
                    return Err(ProtocolError::IncorrectPasswordLength);
                }
                let password = string_from_utf8_lossy(sub_bytes(tail, 1, 1 + pl));
                Ok(AuthRequest { method, auth: Some(Auth::from_strings(username, password)) })
            },
        }
    }

    /// Decoding an encoded well-formed request gives the request back.
    pub proof fn lemma_encode_decode(v: AuthRequestView)
        requires
            v.well_formed(),
        ensures
            AuthRequestView::spec_decode(v.spec_encode()) == Some(Ok::<AuthRequestView, ProtocolError>(v)),
    {
        let b = v.spec_encode();
        if let Some(a) = v.auth {
            let u = a.username_bytes();
            let p = a.password_bytes();
            let ul = u.len() as int;
            let rest = b.subrange(2, b.len() as int);
            assert(rest == u + seq![p.len() as u8] + p);
            assert(rest.subrange(0, ul) == u);
            let tail = rest.subrange(ul, rest.len() as int);
            assert(tail == seq![p.len() as u8] + p);
            assert(tail.subrange(1, 1 + tail[0] as int) == p);
            lemma_lossy_chars_of_encoding(a.username);
            lemma_lossy_chars_of_encoding(a.password);
        }
    }

    /// On the wire, a basic request with a username and a password of 1 to
    /// 64 UTF-8 bytes each is the method byte 1, the username's length and
    /// bytes, then the password's length and bytes; and it decodes back to
    /// the same request.
    pub proof fn lemma_basic_request_wire(username: Seq<char>, password: Seq<char>)
        requires
            1 <= encode_utf8(username).len() <= 64,
            1 <= encode_utf8(password).len() <= 64,
        ensures
            ({
                let v = AuthRequestView {
                    method: AuthMethod::Basic,
                    auth: Some(AuthView { username, password }),
                };
                let bytes = seq![0x01u8, encode_utf8(username).len() as u8] + encode_utf8(username) + seq![
                    encode_utf8(password).len() as u8,
                ] + encode_utf8(password);
                &&& v.spec_encode() == bytes
                &&& AuthRequestView::spec_decode(bytes) == Some(Ok::<AuthRequestView, ProtocolError>(v))
            }),
    {
        let v = AuthRequestView { method: AuthMethod::Basic, auth: Some(AuthView { username, password }) };
        let bytes = seq![0x01u8, encode_utf8(username).len() as u8] + encode_utf8(username) + seq![
            encode_utf8(password).len() as u8,
        ] + encode_utf8(password);
        assert(v.spec_encode() == bytes);
        Self::lemma_encode_decode(v);
    }

    /// A request that skips authorization is the single byte 0, and any
    /// payload that starts with 0 decodes as such a request.
    pub proof fn lemma_skip_request_wire(b: Seq<u8>)
        requires
            b.len() >= 1,
            b[0] == 0,
        ensures
            (AuthRequestView { method: AuthMethod::Skip, auth: None }).spec_encode() == seq![0x00u8],
            AuthRequestView::spec_decode(b) == Some(
                Ok::<AuthRequestView, ProtocolError>(AuthRequestView { method: AuthMethod::Skip, auth: None }),
            ),
    {
    }

    /// A basic request whose username length byte is 0 or above 64 is
    /// refused, and so is one whose password length byte is.
    pub proof fn lemma_credential_lengths_refused(b: Seq<u8>)
        requires
            b.len() >= 2,
            b[0] == 1,
        ensures
            b[1] == 0 || b[1] > 64 ==> AuthRequestView::spec_decode(b) == Some(
                Err::<AuthRequestView, ProtocolError>(ProtocolError::IncorrectUsernameLength),
            ),
            1 <= b[1] <= 64 && b.len() >= 3 + b[1] && (b[2 + b[1]] == 0 || b[2 + b[1]] > 64)
                ==> AuthRequestView::spec_decode(b) == Some(
                Err::<AuthRequestView, ProtocolError>(ProtocolError::IncorrectPasswordLength),
            ),
    {
        if 1 <= b[1] <= 64 && b.len() >= 3 + b[1] {
            let rest = b.subrange(2, b.len() as int);
            let tail = rest.subrange(b[1] as int, rest.len() as int);
            assert(tail[0] == b[2 + b[1]]);
        }
    }
}

} // verus!
