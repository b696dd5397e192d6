//! Framing of payloads on the stream: a four-byte length, most significant
//! byte first, then the payload.
use vstd::prelude::*;

use crate::protocol::crypto::{spec_encrypt, CryptoSession};
use crate::protocol::error::ProtocolError;
use crate::protocol::wire::{append_bytes, be_u32, u32_be_bytes, u32_to_be_bytes, lemma_u32_be_roundtrip};

verus! {

/// The largest payload a peer accepts to read (8 MiB).
pub const MAX_PAYLOAD_SIZE: u32 = 8_388_608;

/// The bytes written for a payload: its length (cut to 32 bits) and itself.
pub open spec fn spec_frame(payload: Seq<u8>) -> Seq<u8> {
    u32_be_bytes(payload.len() as u32) + payload
}

/// What a reader makes of the four length bytes that open a frame.
pub open spec fn spec_payload_length(header: Seq<u8>) -> Result<u32, ProtocolError> {
    if be_u32(header) > MAX_PAYLOAD_SIZE {
        Err(ProtocolError::PayloadTooLarge)
    } else {
        Ok(be_u32(header))
    }
}

/// The frame of a payload, as `write_payload` sends it.
pub fn frame_payload(payload: &[u8]) -> (r: Vec<u8>)
    ensures
        r@ == spec_frame(payload@),
{
    let mut frame: Vec<u8> = Vec::new();
    append_bytes(&mut frame, &u32_to_be_bytes(payload.len() as u32));
    append_bytes(&mut frame, payload);
    frame
}

/// The payload length that the header of a frame announces, refused where it
/// is larger than `MAX_PAYLOAD_SIZE`.
pub fn payload_length(header: [u8; 4]) -> (r: Result<u32, ProtocolError>)
    ensures
        r == spec_payload_length(header@),
{
    let length = ((header[0] as u32 * 256 + header[1] as u32) * 256 + header[2] as u32) * 256 + header[3] as u32;
    if length > MAX_PAYLOAD_SIZE {
        Err(ProtocolError::PayloadTooLarge)
    } else {
        Ok(length)
    }
}

/// The frame of the encryption of a payload, as `write_encrypted_payload`
/// sends it; the session uses up one nonce where it is keyed.
pub fn frame_encrypted_payload(payload: &[u8], session: &mut CryptoSession) -> (r: Result<Vec<u8>, ProtocolError>)
    requires
        old(session)@.key is Some ==> old(session)@.nonce_counter < u64::MAX,
    ensures
        match old(session)@.key {
            None => {
                &&& r == Err::<Vec<u8>, ProtocolError>(ProtocolError::SessionNotInitialized)
                &&& final(session)@ == old(session)@
            },
            Some(k) => {
                &&& final(session)@.key == old(session)@.key
                &&& final(session)@.nonce_counter == old(session)@.nonce_counter + 1
                &&& match spec_encrypt(k, old(session)@.nonce_counter, payload@) {
                    Ok(c) => r matches Ok(f) && f@ == spec_frame(c),
                    Err(e) => r == Err::<Vec<u8>, ProtocolError>(e),
                }
            },
        },
        r is Ok ==> r.unwrap()@.len() == payload@.len() + 32,
        r is Ok && payload@.len() + 28 <= MAX_PAYLOAD_SIZE ==> {
            let f = r.unwrap()@;
            &&& spec_payload_length(f.subrange(0, 4)) == Ok::<u32, ProtocolError>((payload@.len() + 28) as u32)
            &&& f.subrange(4, f.len() as int).len() == payload@.len() + 28
        },
{
    let encrypted = session.encrypt(payload)?;
    let frame = frame_payload(encrypted.as_slice());
    proof {
        if payload@.len() + 28 <= MAX_PAYLOAD_SIZE {
            lemma_frame_length_roundtrip(encrypted@);
        }
    }
    Ok(frame)
}

/// A reader that takes the header of a frame gets the length of the payload
/// that was framed, for every payload it accepts to read.
pub proof fn lemma_frame_length_roundtrip(payload: Seq<u8>)
    requires
        payload.len() <= MAX_PAYLOAD_SIZE,
    ensures
        spec_payload_length(spec_frame(payload).subrange(0, 4)) == Ok::<u32, ProtocolError>(payload.len() as u32),
        spec_frame(payload).subrange(4, spec_frame(payload).len() as int) == payload,
{
    lemma_u32_be_roundtrip(payload.len() as u32);
    assert(spec_frame(payload).subrange(0, 4) == u32_be_bytes(payload.len() as u32));
    assert(spec_frame(payload).subrange(4, spec_frame(payload).len() as int) == payload);
}

/// A frame is four header bytes, the payload's length (cut to 32 bits) in
/// base 256 with the most significant digit first, followed by the payload.
pub proof fn lemma_frame_layout(payload: Seq<u8>)
    ensures
        ({
            let f = spec_frame(payload);
            let n = payload.len() as u32;
            &&& f.len() == payload.len() + 4
            &&& f[0] == n / 0x100_0000
            &&& f[1] == (n / 0x1_0000) % 256
            &&& f[2] == (n / 0x100) % 256
            &&& f[3] == n % 256
            &&& f.subrange(4, f.len() as int) == payload
        }),
{
    let f = spec_frame(payload);
    assert(f.subrange(4, f.len() as int) == payload);
}

/// A reader takes the four header bytes as a number in base 256, most
/// significant digit first, and accepts it exactly up to 8 MiB.
pub proof fn lemma_payload_length_reads_big_endian(header: Seq<u8>)
    requires
        header.len() == 4,
    ensures
        ({
            let v = ((header[0] as int * 256 + header[1] as int) * 256 + header[2] as int) * 256 + header[3] as int;
            &&& v <= 8_388_608 ==> spec_payload_length(header) == Ok::<u32, ProtocolError>(v as u32)
            &&& v > 8_388_608 ==> spec_payload_length(header) == Err::<u32, ProtocolError>(ProtocolError::PayloadTooLarge)
        }),
{
    let v = ((header[0] as int * 256 + header[1] as int) * 256 + header[2] as int) * 256 + header[3] as int;
    assert(0 <= v < 0x1_0000_0000) by (nonlinear_arith)
        requires
            v == ((header[0] as int * 256 + header[1] as int) * 256 + header[2] as int) * 256 + header[3] as int,
            0 <= header[0] < 256,
            0 <= header[1] < 256,
            0 <= header[2] < 256,
            0 <= header[3] < 256,
    ;
}

} // verus!
