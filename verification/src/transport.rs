//! What a transport computes: the framing of messages on a byte stream and the
//! reading of a peer's answer.

use vstd::prelude::*;

use crate::error::{RaftError, RaftResult};
use crate::rpc::{AppendResponse, RaftResponse, VoteResponse};

verus! {

/// One more than the largest length a frame header can carry.
pub open spec fn frame_modulus() -> nat {
    0x1_0000_0000
}

/// The four big-endian bytes of `n`, for `n` below `frame_modulus()`.
pub open spec fn be_bytes(n: nat) -> Seq<u8> {
    seq![
        (n / 0x100_0000) as u8,
        ((n / 0x1_0000) % 0x100) as u8,
        ((n / 0x100) % 0x100) as u8,
        (n % 0x100) as u8,
    ]
}

/// The number that four big-endian bytes spell.
pub open spec fn be_value(b: Seq<u8>) -> nat {
    (b[0] * 0x100_0000 + b[1] * 0x1_0000 + b[2] * 0x100 + b[3]) as nat
}

/// The header of a frame whose payload is `len` bytes long: the length in four
/// big-endian bytes, taken modulo 2^32 as a `u32` holds it.
pub fn frame_header(len: usize) -> (h: [u8; 4])
    ensures
        h@ == be_bytes(len as nat % frame_modulus()),
{
    let n: u64 = (len as u64) % 0x1_0000_0000;
    let h: [u8; 4] = [
        (n / 0x100_0000) as u8,
        ((n / 0x1_0000) % 0x100) as u8,
        ((n / 0x100) % 0x100) as u8,
        (n % 0x100) as u8,
    ];
    assert(h@ =~= be_bytes(len as nat % frame_modulus()));
    h
}

/// The frame of a payload: its header followed by the payload.
pub fn frame_message(payload: &[u8]) -> (frame: Vec<u8>)
    ensures
        frame@ == be_bytes(payload@.len() % frame_modulus()) + payload@,
{
    let header = frame_header(payload.len());
    let mut frame: Vec<u8> = Vec::new();
    let mut i: usize = 0;
    while i < 4
        invariant
            i <= 4,
            header@ == be_bytes(payload@.len() % frame_modulus()),
            frame@ == header@.take(i as int),
        decreases 4 - i,
    {
        frame.push(header[i]);
        i = i + 1;
        assert(frame@ =~= header@.take(i as int));
    }
    let mut j: usize = 0;
    while j < payload.len()
        invariant
            j <= payload@.len(),
            header@ == be_bytes(payload@.len() % frame_modulus()),
            frame@ == header@ + payload@.take(j as int),
        decreases payload@.len() - j,
    {
        frame.push(payload[j]);
        j = j + 1;
        assert(frame@ =~= header@ + payload@.take(j as int));
    }
    assert(payload@.take(payload@.len() as int) =~= payload@);
    frame
}

/// The payload length that a frame header announces.
pub fn frame_length(header: &[u8; 4]) -> (n: u32)
    ensures
        n == be_value(header@),
{
    (header[0] as u32) * 0x100_0000 + (header[1] as u32) * 0x1_0000 + (header[2] as u32) * 0x100
        + (header[3] as u32)
}

/// Reading a header gives back the length it was written for, modulo 2^32.
pub proof fn lemma_frame_length_of_header(len: nat)
    ensures
        be_value(be_bytes(len % frame_modulus())) == len % frame_modulus(),
{
    let n = len % frame_modulus();
    assert(n < 0x1_0000_0000);
    let b = be_bytes(n);
    assert(b[0] == n / 0x100_0000);
    assert(b[1] == (n / 0x1_0000) % 0x100);
    assert(b[2] == (n / 0x100) % 0x100);
    assert(b[3] == n % 0x100);
}

/// Four bytes spell a number below 2^32 whose big-endian digits are those bytes.
proof fn lemma_be_digits(b0: u64, b1: u64, b2: u64, b3: u64)
    requires
        b0 < 0x100,
        b1 < 0x100,
        b2 < 0x100,
        b3 < 0x100,
    ensures
        ({
            let n = b0 * 0x100_0000 + b1 * 0x1_0000 + b2 * 0x100 + b3;
            &&& n < 0x1_0000_0000
            &&& n / 0x100_0000 == b0
            &&& (n / 0x1_0000) % 0x100 == b1
            &&& (n / 0x100) % 0x100 == b2
            &&& n % 0x100 == b3
        }),
{
    assert({
        let n = b0 * 0x100_0000 + b1 * 0x1_0000 + b2 * 0x100 + b3;
        &&& n < 0x1_0000_0000
        &&& n / 0x100_0000 == b0
        &&& (n / 0x1_0000) % 0x100 == b1
        &&& (n / 0x100) % 0x100 == b2
        &&& n % 0x100 == b3
    }) by (bit_vector)
        requires
            b0 < 0x100,
            b1 < 0x100,
            b2 < 0x100,
            b3 < 0x100,
    ;
}

/// Writing the length a header announces gives back the header.
pub proof fn lemma_header_of_frame_length(b: Seq<u8>)
    requires
        b.len() == 4,
    ensures
        be_value(b) < frame_modulus(),
        be_bytes(be_value(b)) == b,
{
    lemma_be_digits(b[0] as u64, b[1] as u64, b[2] as u64, b[3] as u64);
    assert(be_bytes(be_value(b)) =~= b);
}

/// The vote in a peer's answer to a vote request; any other answer is an RPC error.
pub fn vote_response_of(response: RaftResponse) -> (r: RaftResult<VoteResponse>)
    ensures
        match response {
            RaftResponse::Vote(v) => r matches Ok(x) && x == v,
            RaftResponse::AppendEntries(_) => r matches Err(RaftError::RpcError(m)) && m@
                == "unexpected response"@,
        },
{
    match response {
        RaftResponse::Vote(v) => Ok(v),
        RaftResponse::AppendEntries(_) => Err(RaftError::RpcError("unexpected response".to_owned())),
    }
}

/// The result in a peer's answer to an append request; any other answer is an RPC
/// error.
pub fn append_response_of(response: RaftResponse) -> (r: RaftResult<AppendResponse>)
    ensures
        match response {
            RaftResponse::AppendEntries(a) => r matches Ok(x) && x == a,
            RaftResponse::Vote(_) => r matches Err(RaftError::RpcError(m)) && m@
                == "unexpected response"@,
        },
{
    match response {
        RaftResponse::AppendEntries(a) => Ok(a),
        RaftResponse::Vote(_) => Err(RaftError::RpcError("unexpected response".to_owned())),
    }
}

} // verus!
