use vstd::prelude::*;
use vstd::utf8::*;

use crate::protocol::error::{result_view, ProtocolError};
use crate::protocol::types::ClientCommand;
use crate::protocol::wire::{append_bytes, lossy_chars, string_from_utf8_lossy, sub_bytes, lemma_lossy_chars_of_encoding};

verus! {

/// A client's command, sent once the channel is encrypted.
#[derive(Debug, Clone, PartialEq, Eq)]
pub struct CommandRequest {
    pub command: ClientCommand,
    pub target_host: Option<String>,
}

/// A command request with its target host taken as text.
pub struct CommandRequestView {
    pub command: ClientCommand,
    pub target_host: Option<Seq<char>>,
}

impl View for CommandRequest {
    type V = CommandRequestView;

    open spec fn view(&self) -> CommandRequestView {
        CommandRequestView {
            command: self.command,
            target_host: match self.target_host {
                Some(h) => Some(h@),
                None => None,
            },
        }
    }
}

impl CommandRequestView {
    /// The payload that `encode` writes: the command byte, then, where there
    /// is a target host, its length byte (cut to the low byte) and its bytes.
    pub open spec fn spec_encode(self) -> Seq<u8> {
        match self.target_host {
            Some(h) => seq![self.command.spec_to_byte(), encode_utf8(h).len() as u8] + encode_utf8(h),
            None => seq![self.command.spec_to_byte()],
        }
    }

    /// What `decode` makes of a payload: `None` where it cannot read it at
    /// all (a host that the length byte promises and the payload does not
    /// hold), else the request or the error it reports. The host is read as
    /// lossy UTF-8; bytes after it are ignored.
    pub open spec fn spec_decode(b: Seq<u8>) -> Option<Result<CommandRequestView, ProtocolError>> {
        if b.len() < 1 {
            Some(Err(ProtocolError::UnexpectedEnd))
        } else {
            match ClientCommand::spec_from_byte(b[0]) {
                None => Some(Err(ProtocolError::InvalidClientCommand)),
                Some(ClientCommand::Direct) => Some(
                    Ok(CommandRequestView { command: ClientCommand::Direct, target_host: None }),
                ),
                Some(ClientCommand::Proxy) => {
                    if b.len() < 2 {
                        Some(Err(ProtocolError::UnexpectedEnd))
                    } else if b[1] as int > b.len() - 2 {
                        None
                    } else {
                        Some(Ok(CommandRequestView {
                            command: ClientCommand::Proxy,
                            target_host: Some(lossy_chars(b.subrange(2, 2 + b[1] as int))),
                        }))
                    }
                },
            }
        }
    }

    /// A request that `decode` reads back as it was encoded: a target host
    /// exactly for a proxy command, of at most 255 bytes.
    pub open spec fn well_formed(self) -> bool {
        &&& (self.command == ClientCommand::Proxy) == self.target_host is Some
        &&& self.target_host matches Some(h) ==> encode_utf8(h).len() <= 255
    }
}

impl CommandRequest {
    pub fn encode(&self) -> (r: Vec<u8>)
        ensures
            r@ == self@.spec_encode(),
    {
        let mut payload: Vec<u8> = Vec::new();
        payload.push(self.command.to_byte());
        match &self.target_host {
            Some(host) => {
                let bytes = host.as_str().as_bytes();
                payload.push(bytes.len() as u8);
                append_bytes(&mut payload, bytes);
            },
            None => {},
        }
        payload
    }

    /// Whether a length byte of `payload` promises more bytes than it holds,
    /// so that `decode` cannot read it (slicing it out of range panics).
    pub fn is_truncated(payload: &[u8]) -> (r: bool)
        ensures
            r == CommandRequestView::spec_decode(payload@) is None,
    {
        payload.len() >= 2 && payload[0] == 0x01 && payload[1] as usize > payload.len() - 2
    }

    pub fn decode(payload: &[u8]) -> (r: Result<CommandRequest, ProtocolError>)
        requires
            CommandRequestView::spec_decode(payload@) is Some,
        ensures
            CommandRequestView::spec_decode(payload@) == Some(result_view(r)),
    {
        if payload.len() < 1 {
            return Err(ProtocolError::UnexpectedEnd);
        }
        let command = match ClientCommand::from_byte(payload[0]) {
            Some(c) => c,
            None => return Err(ProtocolError::InvalidClientCommand),
        };
        match command {
            ClientCommand::Direct => Ok(CommandRequest { command, target_host: None }),
            ClientCommand::Proxy => {
                if payload.len() < 2 {
                    return Err(ProtocolError::UnexpectedEnd);
                }
                let host_len = payload[1] as usize;
                let host = string_from_utf8_lossy(sub_bytes(payload, 2, 2 + host_len));
                Ok(CommandRequest { command, target_host: Some(host) })
            },
        }
    }

    /// Decoding an encoded well-formed request gives the request back.
    pub proof fn lemma_encode_decode(v: CommandRequestView)
        requires
            v.well_formed(),
        ensures
            CommandRequestView::spec_decode(v.spec_encode()) == Some(Ok::<CommandRequestView, ProtocolError>(v)),
    {
        if let Some(h) = v.target_host {
            let b = v.spec_encode();
            assert(b.subrange(2, 2 + b[1] as int) == encode_utf8(h));
            lemma_lossy_chars_of_encoding(h);
        }
    }

    /// On the wire, a proxy request for a host of at most 255 UTF-8 bytes is
    /// the command byte 1, the host's byte length, then the host's bytes;
    /// and it decodes back to the same request.
    pub proof fn lemma_proxy_request_wire(host: Seq<char>)
        requires
            encode_utf8(host).len() <= 255,
        ensures
            ({
                let v = CommandRequestView { command: ClientCommand::Proxy, target_host: Some(host) };
                let bytes = seq![0x01u8, encode_utf8(host).len() as u8] + encode_utf8(host);
                &&& bytes[1] == encode_utf8(host).len()
                &&& v.spec_encode() == bytes
                &&& CommandRequestView::spec_decode(bytes) == Some(Ok::<CommandRequestView, ProtocolError>(v))
            }),
    {
        let v = CommandRequestView { command: ClientCommand::Proxy, target_host: Some(host) };
        Self::lemma_encode_decode(v);
    }

    /// A direct request is the single byte 0.
    pub proof fn lemma_direct_request_wire()
        ensures
            (CommandRequestView { command: ClientCommand::Direct, target_host: None }).spec_encode() == seq![0x00u8],
            CommandRequestView::spec_decode(seq![0x00u8]) == Some(
                Ok::<CommandRequestView, ProtocolError>(
                    CommandRequestView { command: ClientCommand::Direct, target_host: None },
                ),
            ),
    {
    }

    /// Decoding a proxy request reads exactly as many host bytes as its
    /// second byte says, right after it.
    pub proof fn lemma_proxy_decode_reads_length_byte(b: Seq<u8>)
        requires
            b.len() >= 2,
            b[0] == 1,
            b[1] <= b.len() - 2,
        ensures
            CommandRequestView::spec_decode(b) == Some(
                Ok::<CommandRequestView, ProtocolError>(
                    CommandRequestView {
                        command: ClientCommand::Proxy,
                        target_host: Some(lossy_chars(b.subrange(2, 2 + b[1]))),
                    },
                ),
            ),
    {
    }
}

} // verus!
