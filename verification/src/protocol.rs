//! Constants shared by all peers and the length-prefixed frame format used
//! on the stream port: a big-endian `u32` length followed by that many bytes.

use vstd::prelude::*;

verus! {

/// UDP port on which peers announce themselves.
pub const DISCOVERY_PORT: u16 = 42069;

/// TCP port on which a sharer serves its frames.
pub const STREAM_PORT: u16 = 42070;

/// Milliseconds between two announcements of a sharer.
pub const DISCOVERY_INTERVAL_MS: u64 = 2000;

/// Milliseconds after which a peer that was not heard from is dropped.
pub const STALE_TIMEOUT_MS: u64 = 6000;

/// Frames per second that a screen sharer captures and sends.
pub const TARGET_FPS: u32 = 15;

/// JPEG quality of captured screen frames.
pub const JPEG_QUALITY: u8 = 70;

/// Largest frame body, in bytes, that a reader accepts.
pub const MAX_FRAME_SIZE: u32 = 10_000_000;

/// Length of the frame header.
pub const FRAME_HEADER_LEN: usize = 4;

/// An announcement of a peer, as carried in a discovery datagram.
#[derive(Debug, Clone)]
pub struct DiscoveryMessage {
    pub hostname: String,
    pub ip: String,
    pub port: u16,
    /// What is shared, e.g. "Full Screen" or "Terminal - tmux".
    pub sharing: String,
    /// "screen" or "terminal" (empty for peers that do not say).
    pub mode: String,
    /// "lan" or "tailscale".
    pub source: String,
}

/// What an announcement says, as text.
pub struct MessageView {
    pub hostname: Seq<char>,
    pub ip: Seq<char>,
    pub port: u16,
    pub sharing: Seq<char>,
    pub mode: Seq<char>,
    pub source: Seq<char>,
}

impl View for DiscoveryMessage {
    type V = MessageView;

    open spec fn view(&self) -> MessageView {
        MessageView {
            hostname: self.hostname@,
            ip: self.ip@,
            port: self.port,
            sharing: self.sharing@,
            mode: self.mode@,
            source: self.source@,
        }
    }
}

/// Why a frame could not be read from a byte sequence.
#[derive(Debug, Clone, Copy, PartialEq, Eq)]
pub enum FrameError {
    /// Fewer than four bytes: the length is missing.
    TruncatedHeader,
    /// The announced length exceeds [`MAX_FRAME_SIZE`].
    TooLarge(u32),
    /// The body is shorter than the announced length.
    TruncatedBody,
}

/// The four big-endian bytes of `n`.
pub open spec fn be_bytes(n: u32) -> Seq<u8> {
    seq![
        (n / 0x100_0000) as u8,
        ((n / 0x1_0000) % 0x100) as u8,
        ((n / 0x100) % 0x100) as u8,
        (n % 0x100) as u8,
    ]
}

/// The number whose big-endian bytes are the first four of `b`.
pub open spec fn be_value(b: Seq<u8>) -> int {
    b[0] * 0x100_0000 + b[1] * 0x1_0000 + b[2] * 0x100 + b[3]
}

/// The frame that carries `data`: its length as a `u32` (truncated, as the
/// sender computes it), big-endian, then the data.
pub open spec fn frame_bytes(data: Seq<u8>) -> Seq<u8> {
    be_bytes(data.len() as u32) + data
}

/// What reading one frame from the start of `input` gives: the body and the
/// number of bytes consumed, or why no frame could be read.
pub open spec fn frame_parse(input: Seq<u8>) -> Result<(Seq<u8>, nat), FrameError> {
    if input.len() < 4 {
        Err(FrameError::TruncatedHeader)
    } else {
        let len = be_value(input);
        if len > MAX_FRAME_SIZE {
            Err(FrameError::TooLarge(len as u32))
        } else if input.len() < 4 + len {
            Err(FrameError::TruncatedBody)
        } else {
            Ok((input.subrange(4, 4 + len), (4 + len) as nat))
        }
    }
}

proof fn lemma_be_roundtrip(n: u32)
    ensures
        be_value(be_bytes(n)) == n,
{
    let b = be_bytes(n);
    assert(b[0] == n / 0x100_0000);
    assert(b[1] == (n / 0x1_0000) % 0x100);
    assert(b[2] == (n / 0x100) % 0x100);
    assert(b[3] == n % 0x100);
    assert((n / 0x100_0000) * 0x100_0000 + ((n / 0x1_0000) % 0x100) * 0x1_0000 + ((n / 0x100)
        % 0x100) * 0x100 + n % 0x100 == n) by (nonlinear_arith);
}

/// Appends to `out` the frame that carries `data`.
pub fn write_frame(out: &mut Vec<u8>, data: &[u8])
    ensures
        final(out)@ == old(out)@ + frame_bytes(data@),
{
    let len = data.len() as u32;
    out.push((len / 0x100_0000) as u8);
    out.push(((len / 0x1_0000) % 0x100) as u8);
    out.push(((len / 0x100) % 0x100) as u8);
    out.push((len % 0x100) as u8);
    let ghost prefix = out@;
    let mut i: usize = 0;
    while i < data.len()
        invariant
            i <= data@.len(),
            out@ == prefix + data@.subrange(0, i as int),
        decreases data@.len() - i,
    {
        out.push(data[i]);
        assert(data@.subrange(0, i + 1) == data@.subrange(0, i as int).push(data@[i as int]));
        i = i + 1;
    }
    assert(data@.subrange(0, data@.len() as int) == data@);
    assert(prefix == old(out)@ + be_bytes(data@.len() as u32));
}

/// The body length announced by a frame header, if a reader accepts it.
pub fn parse_frame_header(header: [u8; 4]) -> (res: Result<u32, FrameError>)
    ensures
        match res {
            Ok(len) => be_value(header@) <= MAX_FRAME_SIZE && len == be_value(header@),
            Err(e) => be_value(header@) > MAX_FRAME_SIZE && e == FrameError::TooLarge(
                be_value(header@) as u32,
            ),
        },
{
    let len: u32 = (header[0] as u32) * 0x100_0000 + (header[1] as u32) * 0x1_0000 + (header[2]
        as u32) * 0x100 + (header[3] as u32);
    if len > MAX_FRAME_SIZE {
        Err(FrameError::TooLarge(len))
    } else {
        Ok(len)
    }
}

/// Reads one frame from the start of `input`: its body and the number of
/// bytes it took.
pub fn read_frame(input: &[u8]) -> (res: Result<(Vec<u8>, usize), FrameError>)
    ensures
        match res {
            Ok((body, used)) => frame_parse(input@) == Ok::<(Seq<u8>, nat), FrameError>(
                (body@, used as nat),
            ),
            Err(e) => frame_parse(input@) == Err::<(Seq<u8>, nat), FrameError>(e),
        },
{
    if input.len() < FRAME_HEADER_LEN {
        return Err(FrameError::TruncatedHeader);
    }
    let header: [u8; 4] = [input[0], input[1], input[2], input[3]];
    assert(header@ =~= input@.subrange(0, 4));
    let len = match parse_frame_header(header) {
        Ok(len) => len,
        Err(e) => return Err(e),
    };
    let len = len as usize;
    if input.len() - FRAME_HEADER_LEN < len {
        return Err(FrameError::TruncatedBody);
    }
    let mut body: Vec<u8> = Vec::new();
    let mut i: usize = 0;
    while i < len
        invariant
            i <= len,
            FRAME_HEADER_LEN + len <= input.len(),
            body@ == input@.subrange(4, 4 + i),
        decreases len - i,
    {
        body.push(input[FRAME_HEADER_LEN + i]);
        assert(input@.subrange(4, 4 + i + 1) == input@.subrange(4, 4 + i).push(input@[4 + i]));
        i = i + 1;
    }
    Ok((body, FRAME_HEADER_LEN + len))
}

/// A frame written for a body of at most [`MAX_FRAME_SIZE`] bytes reads back
/// as that body, whatever bytes follow it, and the reader consumes exactly
/// the frame.
pub proof fn law_frame_roundtrip(data: Seq<u8>, rest: Seq<u8>)
    requires
        data.len() <= MAX_FRAME_SIZE,
    ensures
        frame_parse(frame_bytes(data) + rest) == Ok::<(Seq<u8>, nat), FrameError>(
            (data, data.len() + 4),
        ),
{
    let n = data.len() as u32;
    lemma_be_roundtrip(n);
    let input = frame_bytes(data) + rest;
    assert(input.subrange(0, 4) == be_bytes(n));
    assert(be_value(input) == be_value(be_bytes(n)));
    assert(input.subrange(4, 4 + data.len() as int) == data);
}

/// A frame whose body is longer than [`MAX_FRAME_SIZE`] (and fits a `u32`)
/// is refused by the reader with its announced length.
pub proof fn law_oversized_frame_refused(data: Seq<u8>, rest: Seq<u8>)
    requires
        MAX_FRAME_SIZE < data.len() <= u32::MAX,
    ensures
        frame_parse(frame_bytes(data) + rest) == Err::<(Seq<u8>, nat), FrameError>(
            FrameError::TooLarge(data.len() as u32),
        ),
{
    let n = data.len() as u32;
    lemma_be_roundtrip(n);
    let input = frame_bytes(data) + rest;
    assert(be_value(input) == be_value(be_bytes(n)));
}

} // verus!
