//! Framing: a 4-byte little-endian length, then exactly that many payload bytes.

use vstd::prelude::*;
use vstd::slice::slice_subrange;

verus! {

/// The largest payload that a frame can carry.
pub const MAX_PAYLOAD: usize = 0xffff_ffff;

/// Why no frame could be read from a byte stream.
#[derive(Debug, Clone, Copy, PartialEq, Eq, Structural)]
pub enum FrameError {
    /// The stream ended inside the length prefix.
    ShortHeader,
    /// The stream ended inside the payload.
    ShortPayload,
}

/// The value of a 4-byte little-endian length prefix.
pub open spec fn header_value(h: Seq<u8>) -> nat {
    h[0] as nat + 256 * (h[1] as nat) + 65536 * (h[2] as nat) + 16777216 * (h[3] as nat)
}

/// The 4-byte little-endian prefix that announces `n` bytes.
pub open spec fn header_of(n: nat) -> Seq<u8> {
    seq![
        (n % 256) as u8,
        ((n / 256) % 256) as u8,
        ((n / 65536) % 256) as u8,
        ((n / 16777216) % 256) as u8,
    ]
}

/// The frame that carries payload `p`.
pub open spec fn frame(p: Seq<u8>) -> Seq<u8> {
    header_of(p.len()) + p
}

/// What reading one frame from the front of `b` gives: the payload and the
/// number of bytes taken, or why the stream ended too early.
pub open spec fn parse_frame(b: Seq<u8>) -> Result<(Seq<u8>, nat), FrameError> {
    if b.len() < 4 {
        Err(FrameError::ShortHeader)
    } else {
        let n = header_value(b.subrange(0, 4));
        if b.len() < 4 + n {
            Err(FrameError::ShortPayload)
        } else {
            Ok((b.subrange(4, 4 + n as int), 4 + n))
        }
    }
}

proof fn lemma_header_round_trip(n: nat)
    requires
        n <= MAX_PAYLOAD,
    ensures
        header_value(header_of(n)) == n,
        header_of(n).len() == 4,
{
    let h = header_of(n);
    assert(h[0] as nat == n % 256);
    assert(h[1] as nat == (n / 256) % 256);
    assert(h[2] as nat == (n / 65536) % 256);
    assert(h[3] as nat == (n / 16777216) % 256);
    assert(n % 256 + 256 * ((n / 256) % 256) + 65536 * ((n / 65536) % 256) + 16777216 * ((n
        / 16777216) % 256) == n) by (nonlinear_arith)
        requires
            n <= 0xffff_ffff,
    ;
}

/// Appends to `destination` one frame that carries `msg`.
pub fn send_msg(destination: &mut Vec<u8>, msg: &[u8])
    requires
        msg@.len() <= MAX_PAYLOAD,
    ensures
        final(destination)@ == old(destination)@ + frame(msg@),
{
    let len = msg.len();
    let header: Vec<u8> = vec![
        (len % 256) as u8,
        ((len / 256) % 256) as u8,
        ((len / 65536) % 256) as u8,
        ((len / 16777216) % 256) as u8,
    ];
    assert(header@ =~= header_of(msg@.len()));
    let mut i: usize = 0;
    while i < 4
        invariant
            header@ == header_of(msg@.len()),
            0 <= i <= 4,
            destination@ == old(destination)@ + header@.subrange(0, i as int),
        decreases 4 - i,
    {
        destination.push(header[i]);
        i = i + 1;
        assert(header@.subrange(0, i as int) == header@.subrange(0, i - 1) + seq![header@[i - 1]]);
    }
    let mut j: usize = 0;
    while j < msg.len()
        invariant
            header@ == header_of(msg@.len()),
            0 <= j <= msg@.len(),
            destination@ == old(destination)@ + header@ + msg@.subrange(0, j as int),
        decreases msg@.len() - j,
    {
        destination.push(msg[j]);
        j = j + 1;
        assert(msg@.subrange(0, j as int) == msg@.subrange(0, j - 1) + seq![msg@[j - 1]]);
    }
    assert(header@.subrange(0, 4) == header@);
    assert(msg@.subrange(0, msg@.len() as int) == msg@);
    assert(destination@ =~= old(destination)@ + frame(msg@));
}

/// The payload length that a 4-byte length prefix announces.
pub fn frame_len(header: &[u8]) -> (r: u32)
    requires
        header@.len() == 4,
    ensures
        r as nat == header_value(header@),
{
    header[0] as u32 + 256 * (header[1] as u32) + 65536 * (header[2] as u32) + 16777216 * (
    header[3] as u32)
}

/// Reads one frame from the front of `src`: its payload and the number of
/// bytes it took, or why `src` ends before the frame does.
pub fn recv_msg(src: &[u8]) -> (r: Result<(Vec<u8>, usize), FrameError>)
    ensures
        match (r, parse_frame(src@)) {
            (Ok((p, n)), Ok((q, m))) => p@ == q && n == m,
            (Err(e), Err(f)) => e == f,
            _ => false,
        },
{
    if src.len() < 4 {
        return Err(FrameError::ShortHeader);
    }
    let len = frame_len(slice_subrange(src, 0, 4));
    if src.len() - 4 < len as usize {
        return Err(FrameError::ShortPayload);
    }
    let n = 4 + len as usize;
    let payload = slice_subrange(src, 4, n);
    let mut data: Vec<u8> = Vec::new();
    let mut i: usize = 0;
    while i < payload.len()
        invariant
            0 <= i <= payload@.len(),
            data@ == payload@.subrange(0, i as int),
        decreases payload@.len() - i,
    {
        data.push(payload[i]);
        i = i + 1;
        assert(payload@.subrange(0, i as int) == payload@.subrange(0, i - 1) + seq![payload@[i - 1]]);
    }
    assert(payload@.subrange(0, payload@.len() as int) == payload@);
    Ok((data, n))
}

/// Reading a frame back from the bytes that carry it gives exactly its
/// payload, whatever follows it in the stream.
pub proof fn lemma_frame_round_trip(p: Seq<u8>, rest: Seq<u8>)
    requires
        p.len() <= MAX_PAYLOAD,
    ensures
        parse_frame(frame(p) + rest) == Ok::<(Seq<u8>, nat), FrameError>((p, 4 + p.len())),
{
    lemma_header_round_trip(p.len());
    let b = frame(p) + rest;
    assert(b.subrange(0, 4) =~= header_of(p.len()));
    assert(b.subrange(4, 4 + p.len() as int) =~= p);
}

} // verus!
