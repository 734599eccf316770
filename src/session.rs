//! The decisions of one connection: which inbound payloads are complete and
//! handed on, when the peer is sent a drop notice, and when the connection
//! closes. The socket and the channels are driven by the caller, which
//! reports each thing that happened and carries out what comes back.
use vstd::prelude::*;
use vstd::slice::{slice_subrange, slice_to_vec};
use vstd::string::StringExecFns;
use crate::event::DropEvent;
use crate::frame::{be_bytes, be_value, be_value_at, encode_frame, frame_of, frames_of, stream_of, lemma_frame_round_trip, lemma_frames_of_append};

verus! {

/// Why a connection is dropped when it ends inside a frame header.
pub open spec fn header_reason() -> Seq<char> {
    "Couldn't see length of packet in your message"@
}

/// Why a connection is dropped when it ends inside a frame payload.
pub open spec fn payload_reason() -> Seq<char> {
    "Packet ended before its whole payload arrived"@
}

/// Why a connection is dropped when a payload is not a known event.
pub open spec fn malformed_reason() -> Seq<char> {
    "Couldn't read the event in your message"@
}

/// What a session is, seen from outside: whether it is still open, and the
/// received bytes that do not yet make up a whole frame.
pub struct SessionState {
    pub open: bool,
    pub pending: Seq<u8>,
}

/// The state of a session that has just been accepted.
pub open spec fn fresh() -> SessionState {
    SessionState { open: true, pending: Seq::empty() }
}

/// `s` holds no complete frame.
pub open spec fn holds_no_frame(s: Seq<u8>) -> bool {
    frames_of(s).0.len() == 0
}

/// Receiving `bytes`: an open session hands on the payloads of the frames
/// they complete, in order, and keeps the rest; a closed one ignores them.
pub open spec fn after_bytes(st: SessionState, bytes: Seq<u8>) -> (SessionState, Seq<Seq<u8>>) {
    if !st.open {
        (st, Seq::empty())
    } else {
        let f = frames_of(st.pending + bytes);
        (SessionState { open: true, pending: f.1 }, f.0)
    }
}

/// The peer closing its side: the session closes, and an open session that
/// was inside a frame sends a drop notice with the reason given here.
pub open spec fn after_peer_closed(st: SessionState) -> (SessionState, Option<Seq<char>>) {
    let notice = if st.open && st.pending.len() > 0 {
        if st.pending.len() < 8 {
            Some(header_reason())
        } else {
            Some(payload_reason())
        }
    } else {
        None
    };
    (SessionState { open: false, pending: st.pending }, notice)
}

/// A payload that was handed on not being a known event: an open session
/// sends a drop notice and closes.
pub open spec fn after_rejected(st: SessionState) -> (SessionState, Option<Seq<char>>) {
    (
        SessionState { open: false, pending: st.pending },
        if st.open {
            Some(malformed_reason())
        } else {
            None
        },
    )
}

/// The reason carried by a drop notice, if there is one.
pub open spec fn reason_of(n: Option<DropEvent>) -> Option<Seq<char>> {
    match n {
        Some(d) => Some(d.reason@),
        None => None,
    }
}

/// The byte contents of a list of buffers.
pub open spec fn payloads(v: Seq<Vec<u8>>) -> Seq<Seq<u8>> {
    v.map_values(|b: Vec<u8>| b@)
}

/// The state of one connection.
pub struct Session {
    pending: Vec<u8>,
    open: bool,
}

impl View for Session {
    type V = SessionState;

    closed spec fn view(&self) -> SessionState {
        SessionState { open: self.open, pending: self.pending@ }
    }
}

fn drop_notice(reason: &str) -> (r: DropEvent)
    ensures
        r.reason@ == reason@,
{
    DropEvent { reason: String::from_str(reason) }
}

impl Session {
    /// The session keeps no complete frame back.
    pub open spec fn wf(&self) -> bool {
        holds_no_frame(self@.pending)
    }

    /// A session for a connection that was just accepted.
    pub fn new() -> (r: Session)
        ensures
            r@ == fresh(),
            r.wf(),
    {
        let r = Session { pending: Vec::new(), open: true };
        assert(r@.pending == Seq::<u8>::empty());
        r
    }

    /// Whether the session still serves its connection.
    pub fn is_open(&self) -> (r: bool)
        ensures
            r == self@.open,
    {
        self.open
    }

    /// Takes bytes read from the socket, and returns the payloads of the
    /// frames they complete, in the order they arrived.
    pub fn on_bytes(&mut self, bytes: &[u8]) -> (forwarded: Vec<Vec<u8>>)
        requires
            old(self).wf(),
        ensures
            final(self).wf(),
            (final(self)@, payloads(forwarded@)) == after_bytes(old(self)@, bytes@),
    {
        if !self.open {
            let none: Vec<Vec<u8>> = Vec::new();
            assert(payloads(none@) == Seq::<Seq<u8>>::empty());
            return none;
        }
        let ghost start = self.pending@;
        let mut k: usize = 0;
        while k < bytes.len()
            invariant
                k <= bytes@.len(),
                self.open,
                self.pending@ == start + bytes@.subrange(0, k as int),
            decreases bytes@.len() - k,
        {
            self.pending.push(bytes[k]);
            k = k + 1;
            assert(self.pending@ == start + bytes@.subrange(0, k as int));
        }
        assert(bytes@.subrange(0, k as int) == bytes@);
        let ghost all = self.pending@;
        let len = self.pending.len();
        let mut out: Vec<Vec<u8>> = Vec::new();
        let mut pos: usize = 0;
        let mut done = false;
        proof {
            assert(all.subrange(0, len as int) == all);
            assert(payloads(out@) == Seq::<Seq<u8>>::empty());
            assert(payloads(out@) + frames_of(all).0 == frames_of(all).0);
        }
        while !done
            invariant
                pos <= len,
                len == self.pending@.len(),
                all == self.pending@,
                frames_of(all).0 == payloads(out@) + frames_of(all.subrange(pos as int, len as int)).0,
                frames_of(all).1 == frames_of(all.subrange(pos as int, len as int)).1,
                done ==> holds_no_frame(all.subrange(pos as int, len as int)),
            decreases len - pos + if done { 0int } else { 1int },
        {
            let ghost sub = all.subrange(pos as int, len as int);
            if len - pos < 8 {
                done = true;
            } else {
                let n = be_value_at(self.pending.as_slice(), pos);
                assert(be_value(sub) == n) by {
                    assert(sub.subrange(0, 8) == all.subrange(pos as int, len as int).subrange(0, 8));
                }
                if ((len - pos - 8) as u64) < n {
                    done = true;
                } else {
                    let n = n as usize;
                    let p = slice_to_vec(slice_subrange(self.pending.as_slice(), pos + 8, pos + 8 + n));
                    proof {
                        assert(p@ == sub.subrange(8, 8 + n as int));
                        assert(sub.subrange(8 + n as int, sub.len() as int) == all.subrange(
                            pos + 8 + n as int,
                            len as int,
                        ));
                    }
                    let ghost before = out@;
                    out.push(p);
                    proof {
                        assert(payloads(out@) == payloads(before) + seq![p@]);
                        assert(payloads(before) + seq![p@] + frames_of(
                            all.subrange(pos + 8 + n as int, len as int),
                        ).0 == payloads(before) + (seq![p@] + frames_of(
                            all.subrange(pos + 8 + n as int, len as int),
                        ).0));
                    }
                    pos = pos + 8 + n;
                }
            }
        }
        let rest = slice_to_vec(slice_subrange(self.pending.as_slice(), pos, len));
        proof {
            let sub = all.subrange(pos as int, len as int);
            assert(frames_of(sub).0.len() == 0);
            assert(frames_of(sub).1 == sub);
            assert(payloads(out@) + frames_of(sub).0 == payloads(out@));
        }
        self.pending = rest;
        out
    }

    /// The peer closed its side. Returns the drop notice to send, if any;
    /// the session is closed afterwards.
    pub fn on_peer_closed(&mut self) -> (notice: Option<DropEvent>)
        requires
            old(self).wf(),
        ensures
            final(self).wf(),
            (final(self)@, reason_of(notice)) == after_peer_closed(old(self)@),
    {
        let was_open = self.open;
        self.open = false;
        if was_open && self.pending.len() > 0 {
            if self.pending.len() < 8 {
                Some(drop_notice("Couldn't see length of packet in your message"))
            } else {
                Some(drop_notice("Packet ended before its whole payload arrived"))
            }
        } else {
            None
        }
    }

    /// A payload that was handed on is not a known event. Returns the drop
    /// notice to send, if any; the session is closed afterwards.
    pub fn on_payload_rejected(&mut self) -> (notice: Option<DropEvent>)
        requires
            old(self).wf(),
        ensures
            final(self).wf(),
            (final(self)@, reason_of(notice)) == after_rejected(old(self)@),
    {
        let was_open = self.open;
        self.open = false;
        if was_open {
            Some(drop_notice("Couldn't read the event in your message"))
        } else {
            None
        }
    }

    /// The session ends without notice: the inbound stream is gone, or a
    /// write to the socket failed.
    pub fn close(&mut self)
        requires
            old(self).wf(),
        ensures
            final(self).wf(),
            final(self)@ == (SessionState { open: false, pending: old(self)@.pending }),
    {
        self.open = false;
    }

    /// The frame to write for an outbound payload, while the session is open.
    pub fn frame_outbound(&self, payload: &[u8]) -> (r: Option<Vec<u8>>)
        requires
            payload@.len() <= u64::MAX,
        ensures
            r.is_some() == self@.open,
            r.is_some() ==> r.unwrap()@ == frame_of(payload@),
    {
        if self.open {
            Some(encode_frame(payload))
        } else {
            None
        }
    }
}

/// A connection that ends after fewer than eight bytes, on a fresh session,
/// hands nothing on, sends a drop notice about the missing length, and
/// closes.
pub proof fn lemma_truncated_header(b: Seq<u8>)
    requires
        0 < b.len() < 8,
    ensures
        after_bytes(fresh(), b).1.len() == 0,
        after_peer_closed(after_bytes(fresh(), b).0) == (SessionState { open: false, pending: b }, Some(header_reason())),
{
    assert(Seq::<u8>::empty() + b == b);
}

/// A connection that sends a whole length header and then fewer payload
/// bytes than it announced before it ends hands no partial payload on; the
/// session sends a drop notice about the missing payload and closes.
pub proof fn lemma_truncated_payload(n: u64, b: Seq<u8>)
    requires
        b.len() < n,
    ensures
        after_bytes(fresh(), be_bytes(n) + b).1.len() == 0,
        !after_peer_closed(after_bytes(fresh(), be_bytes(n) + b).0).0.open,
        after_peer_closed(after_bytes(fresh(), be_bytes(n) + b).0).1 == Some(payload_reason()),
{
    let s = be_bytes(n) + b;
    assert(Seq::<u8>::empty() + s == s);
    crate::frame::lemma_be_round_trip(n);
    assert(s.subrange(0, 8) == be_bytes(n));
    assert(be_value(s) == be_value(be_bytes(n)));
}

/// Payloads framed and sent one after another on a connection are handed on
/// in the order they were sent, each whole, however the byte stream is split
/// between two reads; nothing is left over.
pub proof fn lemma_forwarded_in_order(ps: Seq<Seq<u8>>, a: Seq<u8>, b: Seq<u8>)
    requires
        forall|i: int| 0 <= i < ps.len() ==> (#[trigger] ps[i]).len() <= u64::MAX,
        a + b == stream_of(ps),
    ensures
        after_bytes(fresh(), a).1 + after_bytes(after_bytes(fresh(), a).0, b).1 == ps,
        after_bytes(after_bytes(fresh(), a).0, b).0 == fresh(),
{
    assert(Seq::<u8>::empty() + a == a);
    lemma_frame_round_trip(ps);
    lemma_frames_of_append(a, b);
}

} // verus!
