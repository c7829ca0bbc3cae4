//! Length-prefixed framing of signaling messages:
//! `[u32 length, big endian][payload bytes]`.

use vstd::prelude::*;

verus! {

/// Largest payload length a reader accepts (64 KiB).
pub const MAX_MSG_LEN: usize = 65536;

/// The four big-endian bytes of `n`.
pub open spec fn be32(n: u32) -> Seq<u8> {
    seq![
        (n / 0x100_0000) as u8,
        ((n / 0x1_0000) % 0x100) as u8,
        ((n / 0x100) % 0x100) as u8,
        (n % 0x100) as u8,
    ]
}

/// The number whose big-endian bytes are `b[0..4]`.
pub open spec fn from_be32(b: Seq<u8>) -> nat {
    (b[0] as nat) * 0x100_0000 + (b[1] as nat) * 0x1_0000 + (b[2] as nat) * 0x100 + (b[3] as nat)
}

/// The frame that carries `payload`: its length (reduced modulo 2^32, as a
/// `u32` cast does) in big endian, then the payload itself.
pub open spec fn frame(payload: Seq<u8>) -> Seq<u8> {
    be32((payload.len() % 0x1_0000_0000) as u32) + payload
}

/// Why a frame header is refused.
#[derive(Debug, Clone, Copy, PartialEq, Eq)]
pub enum FrameError {
    /// The announced length is above `MAX_MSG_LEN`.
    TooLarge { len: usize },
}

/// Frames an already encoded message: prepends its length as a big-endian
/// `u32`.
pub fn encode_msg(payload: &[u8]) -> (buf: Vec<u8>)
    ensures
        buf@ == frame(payload@),
{
    let plen: usize = payload.len();
    #[verifier::truncate]
    let len: u32 = plen as u32;
    assert(len == (plen as u64) % 0x1_0000_0000u64) by (bit_vector)
        requires
            len == plen as u32,
    ;
    let mut buf: Vec<u8> = Vec::new();
    buf.push((len / 0x100_0000) as u8);
    buf.push(((len / 0x1_0000) % 0x100) as u8);
    buf.push(((len / 0x100) % 0x100) as u8);
    buf.push((len % 0x100) as u8);
    let mut i: usize = 0;
    while i < payload.len()
        invariant
            i <= payload@.len(),
            buf@ == be32(len) + payload@.subrange(0, i as int),
        decreases payload@.len() - i,
    {
        buf.push(payload[i]);
        i = i + 1;
        assert(payload@.subrange(0, i as int) == payload@.subrange(0, i - 1).push(payload@[i - 1]));
    }
    assert(payload@.subrange(0, payload@.len() as int) == payload@);
    buf
}

/// Reads the payload length from a frame header and refuses lengths above
/// `MAX_MSG_LEN`.
pub fn check_frame_len(header: [u8; 4]) -> (r: Result<usize, FrameError>)
    ensures
        from_be32(header@) <= MAX_MSG_LEN ==> r == Ok::<usize, FrameError>(from_be32(header@) as usize),
        from_be32(header@) > MAX_MSG_LEN ==> r == Err::<usize, FrameError>(
            FrameError::TooLarge { len: from_be32(header@) as usize },
        ),
{
    let len: u32 = (header[0] as u32) * 0x100_0000 + (header[1] as u32) * 0x1_0000
        + (header[2] as u32) * 0x100 + (header[3] as u32);
    let len = len as usize;
    if len > MAX_MSG_LEN {
        Err(FrameError::TooLarge { len })
    } else {
        Ok(len)
    }
}

/// A frame announces exactly the length of its payload (for payloads that a
/// `u32` can measure), and the payload follows the four header bytes.
pub proof fn lemma_frame_header_gives_len(payload: Seq<u8>)
    requires
        payload.len() <= u32::MAX,
    ensures
        from_be32(frame(payload)) == payload.len(),
        frame(payload).len() == payload.len() + 4,
        frame(payload).subrange(4, frame(payload).len() as int) == payload,
{
    let n = payload.len() as u32;
    assert(payload.len() % 0x1_0000_0000 == payload.len());
    let f = frame(payload);
    assert(f.subrange(4, f.len() as int) =~= payload);
    assert(f[0] == (n / 0x100_0000) as u8);
    assert(from_be32(f) == n) by (nonlinear_arith)
        requires
            f[0] == (n / 0x100_0000) as u8,
            f[1] == ((n / 0x1_0000) % 0x100) as u8,
            f[2] == ((n / 0x100) % 0x100) as u8,
            f[3] == (n % 0x100) as u8,
            from_be32(f) == (f[0] as nat) * 0x100_0000 + (f[1] as nat) * 0x1_0000 + (f[2] as nat) * 0x100 + (f[3] as nat),
    ;
}

} // verus!
