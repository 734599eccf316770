//! Length-prefixed framing: each frame is an 8-byte big-endian length
//! followed by exactly that many payload bytes.
use vstd::prelude::*;

verus! {

/// The eight big-endian bytes of `n`.
pub open spec fn be_bytes(n: u64) -> Seq<u8> {
    seq![
        (n >> 56u64) as u8,
        (n >> 48u64) as u8,
        (n >> 40u64) as u8,
        (n >> 32u64) as u8,
        (n >> 24u64) as u8,
        (n >> 16u64) as u8,
        (n >> 8u64) as u8,
        n as u8,
    ]
}

/// The number whose big-endian bytes open `s` (`s` holds at least eight bytes).
pub open spec fn be_value(s: Seq<u8>) -> u64 {
    ((s[0] as u64) << 56u64) | ((s[1] as u64) << 48u64) | ((s[2] as u64) << 40u64) | ((
    s[3] as u64) << 32u64) | ((s[4] as u64) << 24u64) | ((s[5] as u64) << 16u64) | ((s[6] as u64)
        << 8u64) | (s[7] as u64)
}

/// The frame that carries `payload`.
pub open spec fn frame_of(payload: Seq<u8>) -> Seq<u8> {
    be_bytes(payload.len() as u64) + payload
}

/// Splits a byte stream into the payloads of its complete frames, in order,
/// and the bytes that follow the last complete frame.
pub open spec fn frames_of(s: Seq<u8>) -> (Seq<Seq<u8>>, Seq<u8>)
    decreases s.len(),
{
    if s.len() < 8 {
        (Seq::empty(), s)
    } else {
        let n = be_value(s) as int;
        if s.len() - 8 < n {
            (Seq::empty(), s)
        } else {
            let rest = frames_of(s.subrange(8 + n, s.len() as int));
            (seq![s.subrange(8, 8 + n)] + rest.0, rest.1)
        }
    }
}

/// The concatenation of the frames of all payloads in `ps`.
pub open spec fn stream_of(ps: Seq<Seq<u8>>) -> Seq<u8>
    decreases ps.len(),
{
    if ps.len() == 0 {
        Seq::empty()
    } else {
        frame_of(ps[0]) + stream_of(ps.subrange(1, ps.len() as int))
    }
}

/// Reading back the big-endian bytes of a number gives the number.
pub proof fn lemma_be_round_trip(n: u64)
    ensures
        be_value(be_bytes(n)) == n,
        be_bytes(n).len() == 8,
{
    let b = be_bytes(n);
    assert(b[0] == (n >> 56u64) as u8);
    assert(b[7] == n as u8);
    assert(((((n >> 56u64) as u8) as u64) << 56u64) | ((((n >> 48u64) as u8) as u64) << 48u64)
        | ((((n >> 40u64) as u8) as u64) << 40u64) | ((((n >> 32u64) as u8) as u64) << 32u64) | ((((
    n >> 24u64) as u8) as u64) << 24u64) | ((((n >> 16u64) as u8) as u64) << 16u64) | ((((n
        >> 8u64) as u8) as u64) << 8u64) | ((n as u8) as u64) == n) by (bit_vector);
}

/// A stream that opens with a whole frame yields that frame's payload first,
/// then whatever the rest of the stream yields.
pub proof fn lemma_frames_of_frame(p: Seq<u8>, t: Seq<u8>)
    requires
        p.len() <= u64::MAX,
    ensures
        frames_of(frame_of(p) + t) == (seq![p] + frames_of(t).0, frames_of(t).1),
{
    let s = frame_of(p) + t;
    lemma_be_round_trip(p.len() as u64);
    assert(s.subrange(0, 8) == be_bytes(p.len() as u64));
    assert(be_value(s) == be_value(be_bytes(p.len() as u64)));
    assert(s.subrange(8, 8 + p.len() as int) == p);
    assert(s.subrange(8 + p.len() as int, s.len() as int) == t);
}

/// Frames that are read back from a stream of frames are the payloads that
/// were framed, in the same order, with nothing left over.
pub proof fn lemma_frame_round_trip(ps: Seq<Seq<u8>>)
    requires
        forall|i: int| 0 <= i < ps.len() ==> (#[trigger] ps[i]).len() <= u64::MAX,
    ensures
        frames_of(stream_of(ps)) == (ps, Seq::<u8>::empty()),
    decreases ps.len(),
{
    if ps.len() == 0 {
        assert(stream_of(ps).len() == 0);
    } else {
        let tail = ps.subrange(1, ps.len() as int);
        assert forall|i: int| 0 <= i < tail.len() implies (#[trigger] tail[i]).len() <= u64::MAX by {
            assert(tail[i] == ps[i + 1]);
        }
        lemma_frame_round_trip(tail);
        lemma_frames_of_frame(ps[0], stream_of(tail));
        assert(seq![ps[0]] + tail == ps);
    }
}

/// Appending bytes after a prefix never takes back a frame that the prefix
/// already completed: the frames of `s + t` are those of `s`, then those of
/// the bytes that `s` left over followed by `t`.
pub proof fn lemma_frames_of_append(s: Seq<u8>, t: Seq<u8>)
    ensures
        frames_of(s + t).0 == frames_of(s).0 + frames_of(frames_of(s).1 + t).0,
        frames_of(s + t).1 == frames_of(frames_of(s).1 + t).1,
    decreases s.len(),
{
    let st = s + t;
    if s.len() < 8 {
        assert(frames_of(s).0 == Seq::<Seq<u8>>::empty());
        assert(frames_of(s).0 + frames_of(s + t).0 == frames_of(s + t).0);
    } else {
        let n = be_value(s) as int;
        assert(be_value(st) == be_value(s));
        if s.len() - 8 < n {
            assert(frames_of(s).0 + frames_of(s + t).0 == frames_of(s + t).0);
        } else {
            let r = s.subrange(8 + n, s.len() as int);
            lemma_frames_of_append(r, t);
            assert(st.subrange(8 + n, st.len() as int) == r + t);
            assert(st.subrange(8, 8 + n) == s.subrange(8, 8 + n));
            assert(frames_of(st).0 == seq![s.subrange(8, 8 + n)] + frames_of(r + t).0);
            assert(seq![s.subrange(8, 8 + n)] + (frames_of(r).0 + frames_of(frames_of(r).1 + t).0)
                == (seq![s.subrange(8, 8 + n)] + frames_of(r).0) + frames_of(frames_of(r).1 + t).0);
        }
    }
}

/// Writes the big-endian bytes of `n`.
pub fn be_bytes_of(n: u64) -> (r: [u8; 8])
    ensures
        r@ == be_bytes(n),
{
    let r: [u8; 8] = [
        (n >> 56u64) as u8,
        (n >> 48u64) as u8,
        (n >> 40u64) as u8,
        (n >> 32u64) as u8,
        (n >> 24u64) as u8,
        (n >> 16u64) as u8,
        (n >> 8u64) as u8,
        n as u8,
    ];
    assert(r@ == be_bytes(n));
    r
}

/// Reads the number whose big-endian bytes stand at `pos` in `s`.
pub fn be_value_at(s: &[u8], pos: usize) -> (r: u64)
    requires
        pos + 8 <= s@.len(),
    ensures
        r == be_value(s@.subrange(pos as int, s@.len() as int)),
{
    ((s[pos] as u64) << 56u64) | ((s[pos + 1] as u64) << 48u64) | ((s[pos + 2] as u64) << 40u64)
        | ((s[pos + 3] as u64) << 32u64) | ((s[pos + 4] as u64) << 24u64) | ((s[pos + 5] as u64)
        << 16u64) | ((s[pos + 6] as u64) << 8u64) | (s[pos + 7] as u64)
}

/// Frames a payload: its length as eight big-endian bytes, then the payload.
pub fn encode_frame(payload: &[u8]) -> (r: Vec<u8>)
    requires
        payload@.len() <= u64::MAX,
    ensures
        r@ == frame_of(payload@),
        r@.len() == 8 + payload@.len(),
        be_value(r@) == payload@.len(),
        r@.subrange(8, r@.len() as int) == payload@,
{
    let header = be_bytes_of(payload.len() as u64);
    let mut r: Vec<u8> = Vec::new();
    let mut i: usize = 0;
    while i < 8
        invariant
            i <= 8,
            header@ == be_bytes(payload@.len() as u64),
            r@ == header@.subrange(0, i as int),
        decreases 8 - i,
    {
        r.push(header[i]);
        i = i + 1;
        assert(r@ == header@.subrange(0, i as int));
    }
    let mut j: usize = 0;
    while j < payload.len()
        invariant
            j <= payload@.len(),
            r@ == header@ + payload@.subrange(0, j as int),
        decreases payload@.len() - j,
    {
        r.push(payload[j]);
        j = j + 1;
        assert(r@ == header@ + payload@.subrange(0, j as int));
    }
    assert(payload@.subrange(0, j as int) == payload@);
    proof {
        lemma_be_round_trip(payload@.len() as u64);
        assert(r@.subrange(0, 8) == header@);
        assert(r@.subrange(8, r@.len() as int) == payload@);
    }
    r
}

} // verus!
