//! Framing of the byte stream: every message travels as a 4-byte
//! little-endian length followed by that many payload bytes.
use vstd::prelude::*;
use vstd::arithmetic::div_mod::lemma_fundamental_div_mod_converse;

verus! {

/// Number of bytes in the length header that precedes every payload.
pub const HEADER_LEN: usize = 4;

/// Largest payload length that the 4-byte header can carry.
pub const MAX_PAYLOAD_LEN: u64 = 0xffff_ffff;

/// The four little-endian bytes of a length `n < 2^32`.
pub open spec fn header_of(n: nat) -> Seq<u8> {
    seq![
        (n % 256) as u8,
        (n / 256 % 256) as u8,
        (n / 65536 % 256) as u8,
        (n / 16777216 % 256) as u8,
    ]
}

/// The length that a 4-byte little-endian header denotes.
pub open spec fn header_value(h: Seq<u8>) -> nat
    recommends
        h.len() >= 4,
{
    (h[0] as nat) + 256 * (h[1] as nat) + 65536 * (h[2] as nat) + 16777216 * (h[3] as nat)
}

/// A payload as it travels on the link: its length header, then its bytes.
pub open spec fn frame_of(payload: Seq<u8>) -> Seq<u8> {
    header_of(payload.len()) + payload
}

/// Reading back the header of a length gives that length.
pub proof fn lemma_header_round_trip(n: nat)
    requires
        n <= MAX_PAYLOAD_LEN,
    ensures
        header_of(n).len() == 4,
        header_value(header_of(n)) == n,
{
    let h = header_of(n);
    assert(h[0] as nat == n % 256);
    assert(h[1] as nat == n / 256 % 256);
    assert(h[2] as nat == n / 65536 % 256);
    assert(h[3] as nat == n / 16777216 % 256);
    assert(n / 16777216 < 256);
    assert(n == n % 256 + 256 * (n / 256 % 256) + 65536 * (n / 65536 % 256) + 16777216 * (n
        / 16777216)) by (nonlinear_arith)
        requires
            n <= MAX_PAYLOAD_LEN,
    ;
}

/// A 4-byte header is the header of the length it denotes.
pub proof fn lemma_header_inverse(h: Seq<u8>)
    requires
        h.len() == 4,
    ensures
        header_of(header_value(h)) == h,
{
    let n = header_value(h) as int;
    let (h0, h1, h2, h3) = (h[0] as int, h[1] as int, h[2] as int, h[3] as int);
    lemma_fundamental_div_mod_converse(n, 256, h1 + 256 * h2 + 65536 * h3, h0);
    lemma_fundamental_div_mod_converse(n / 256, 256, h2 + 256 * h3, h1);
    lemma_fundamental_div_mod_converse(n, 65536, h2 + 256 * h3, h0 + 256 * h1);
    lemma_fundamental_div_mod_converse(n / 65536, 256, h3, h2);
    lemma_fundamental_div_mod_converse(n, 16777216, h3, h0 + 256 * h1 + 65536 * h2);
    lemma_fundamental_div_mod_converse(n / 16777216, 256, 0, h3);
    assert(header_of(header_value(h)) =~= h);
}

/// Reads the payload length out of a 4-byte header.
pub fn decode_header(header: &[u8]) -> (n: u32)
    requires
        header@.len() == HEADER_LEN,
    ensures
        n as nat == header_value(header@),
{
    (header[0] as u32) + (header[1] as u32) * 256 + (header[2] as u32) * 65536 + (header[3] as u32)
        * 16777216
}

/// Prepends the length header to a payload. Fails when the payload is too
/// long for a 4-byte length.
pub fn encode_frame(payload: &[u8]) -> (r: Option<Vec<u8>>)
    ensures
        r is Some <==> payload@.len() <= MAX_PAYLOAD_LEN,
        r matches Some(f) ==> f@ == frame_of(payload@),
{
    if payload.len() as u64 > MAX_PAYLOAD_LEN {
        return None;
    }
    let n: u32 = payload.len() as u32;
    let mut out: Vec<u8> = Vec::new();
    out.push((n % 256) as u8);
    out.push((n / 256 % 256) as u8);
    out.push((n / 65536 % 256) as u8);
    out.push((n / 16777216 % 256) as u8);
    let ghost head = out@;
    assert(head =~= header_of(payload@.len()));
    let mut i: usize = 0;
    while i < payload.len()
        invariant
            i <= payload@.len(),
            out@ =~= head + payload@.subrange(0, i as int),
        decreases payload@.len() - i,
    {
        out.push(payload[i]);
        i = i + 1;
    }
    assert(payload@.subrange(0, payload@.len() as int) =~= payload@);
    Some(out)
}

/// Whether a buffer starts with a complete frame.
pub open spec fn has_frame(s: Seq<u8>) -> bool {
    s.len() >= HEADER_LEN && HEADER_LEN + header_value(s) <= s.len()
}

/// A framed payload followed by any further bytes starts with a complete
/// frame, and that frame can only be this payload: whatever a payload holds,
/// the frames after it are split off as they were sent.
pub proof fn lemma_frame_split(p: Seq<u8>, rest: Seq<u8>, q: Seq<u8>, rest2: Seq<u8>)
    requires
        p.len() <= MAX_PAYLOAD_LEN,
        q.len() <= MAX_PAYLOAD_LEN,
        frame_of(q) + rest2 == frame_of(p) + rest,
    ensures
        has_frame(frame_of(p) + rest),
        q == p,
        rest2 == rest,
{
    let s = frame_of(p) + rest;
    lemma_header_round_trip(p.len());
    assert(s.subrange(0, 4) =~= header_of(p.len()));
    assert(header_value(s) == header_value(s.subrange(0, 4)));
    lemma_header_round_trip(q.len());
    assert(header_value(s) == header_value((frame_of(q) + rest2).subrange(0, 4)));
    assert((frame_of(q) + rest2).subrange(0, 4) =~= header_of(q.len()));
    assert(q =~= s.subrange(4, 4 + p.len() as int));
    assert(p =~= s.subrange(4, 4 + p.len() as int));
    assert(rest2 =~= s.subrange(4 + p.len() as int, s.len() as int));
    assert(rest =~= s.subrange(4 + p.len() as int, s.len() as int));
}

/// Accumulates bytes read from the link and hands out whole payloads.
pub struct FrameReader {
    buf: Vec<u8>,
}

impl View for FrameReader {
    type V = Seq<u8>;

    /// The bytes received and not yet handed out.
    closed spec fn view(&self) -> Seq<u8> {
        self.buf@
    }
}

impl FrameReader {
    pub fn new() -> (r: FrameReader)
        ensures
            r@ == Seq::<u8>::empty(),
    {
        FrameReader { buf: Vec::new() }
    }

    /// Appends bytes read from the link.
    pub fn push(&mut self, bytes: &[u8])
        ensures
            final(self)@ == old(self)@ + bytes@,
    {
        let ghost start = self.buf@;
        let mut i: usize = 0;
        while i < bytes.len()
            invariant
                i <= bytes@.len(),
                self.buf@ =~= start + bytes@.subrange(0, i as int),
            decreases bytes@.len() - i,
        {
            self.buf.push(bytes[i]);
            i = i + 1;
        }
        assert(bytes@.subrange(0, bytes@.len() as int) =~= bytes@);
    }

    /// Takes the first complete frame off the buffer and returns its
    /// payload; leaves the buffer as it is while no frame is complete.
    pub fn next_frame(&mut self) -> (r: Option<Vec<u8>>)
        ensures
            r is Some <==> has_frame(old(self)@),
            r matches Some(p) ==> old(self)@ == frame_of(p@) + final(self)@,
            r is None ==> final(self)@ == old(self)@,
    {
        if self.buf.len() < HEADER_LEN {
            return None;
        }
        let n: u32 = decode_header(&self.buf.as_slice()[0..HEADER_LEN]);
        let ghost s = self.buf@;
        if (self.buf.len() - HEADER_LEN) < n as usize {
            return None;
        }
        let end: usize = HEADER_LEN + n as usize;
        let mut payload: Vec<u8> = Vec::new();
        let mut i: usize = HEADER_LEN;
        while i < end
            invariant
                HEADER_LEN <= i <= end,
                end <= s.len(),
                self.buf@ == s,
                payload@ =~= s.subrange(HEADER_LEN as int, i as int),
            decreases end - i,
        {
            payload.push(self.buf[i]);
            i = i + 1;
        }
        let rest = self.buf.split_off(end);
        self.buf = rest;
        proof {
            lemma_header_inverse(s.subrange(0, 4));
            assert(s =~= frame_of(payload@) + self.buf@);
        }
        Some(payload)
    }
}

} // verus!
