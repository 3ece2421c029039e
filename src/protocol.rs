//! The framing of messages on a byte stream: one length byte, then that
//! many payload bytes.
use vstd::prelude::*;

verus! {

/// The largest payload a frame can carry.
pub const MAX_PAYLOAD: usize = 255;

/// The frame that carries `m`.
pub open spec fn frame(m: Seq<u8>) -> Seq<u8> {
    seq![m.len() as u8] + m
}

/// The frames of `ms`, one after another.
pub open spec fn frames(ms: Seq<Seq<u8>>) -> Seq<u8>
    decreases ms.len(),
{
    if ms.len() == 0 {
        Seq::empty()
    } else {
        frame(ms[0]) + frames(ms.subrange(1, ms.len() as int))
    }
}

/// Every message fits in one frame.
pub open spec fn all_fit(ms: Seq<Seq<u8>>) -> bool {
    forall|i: int| 0 <= i < ms.len() ==> #[trigger] ms[i].len() <= 255
}

/// Bytes that do not yet hold a whole frame.
pub open spec fn is_partial(p: Seq<u8>) -> bool {
    p.len() == 0 || p.len() <= p[0] as int
}

/// The messages whose frames are complete at the start of `s`, in order,
/// and the bytes after them.
pub open spec fn parse(s: Seq<u8>) -> (Seq<Seq<u8>>, Seq<u8>)
    decreases s.len(),
{
    if is_partial(s) {
        (Seq::empty(), s)
    } else {
        let n = s[0] as int;
        let rest = parse(s.subrange(1 + n, s.len() as int));
        (seq![s.subrange(1, 1 + n)] + rest.0, rest.1)
    }
}

/// Frames of messages that fit, followed by any bytes, decode to those
/// messages followed by what the bytes decode to.
pub proof fn lemma_parse_frames(ms: Seq<Seq<u8>>, t: Seq<u8>)
    requires
        all_fit(ms),
    ensures
        parse(frames(ms) + t) == (ms + parse(t).0, parse(t).1),
    decreases ms.len(),
{
    if ms.len() == 0 {
        assert(frames(ms) + t =~= t);
        assert(ms + parse(t).0 =~= parse(t).0);
    } else {
        let m = ms[0];
        let tail = ms.subrange(1, ms.len() as int);
        assert(m.len() <= 255);
        assert(all_fit(tail)) by {
            assert forall|i: int| 0 <= i < tail.len() implies #[trigger] tail[i].len() <= 255 by {
                assert(tail[i] == ms[i + 1]);
            }
        }
        lemma_parse_frames(tail, t);
        let s = frames(ms) + t;
        assert(s =~= seq![m.len() as u8] + m + (frames(tail) + t));
        assert(s[0] == m.len() as u8);
        assert(s[0] as int == m.len());
        assert(!is_partial(s));
        assert(s.subrange(1, 1 + m.len() as int) =~= m);
        assert(s.subrange(1 + m.len() as int, s.len() as int) =~= frames(tail) + t);
        assert(seq![m] + (tail + parse(t).0) =~= ms + parse(t).0);
    }
}

/// Frames of messages that fit decode to exactly those messages, in order,
/// with nothing left over.
pub proof fn lemma_frames_round_trip(ms: Seq<Seq<u8>>)
    requires
        all_fit(ms),
    ensures
        parse(frames(ms)) == (ms, Seq::<u8>::empty()),
{
    lemma_parse_frames(ms, Seq::empty());
    assert(frames(ms) + Seq::<u8>::empty() =~= frames(ms));
    assert(is_partial(Seq::<u8>::empty()));
    assert(ms + Seq::<Seq<u8>>::empty() =~= ms);
}

/// The frame of one message that fits decodes to that message alone; the
/// frame of the empty message is the single byte zero.
pub proof fn lemma_single_frame_round_trip(m: Seq<u8>)
    requires
        m.len() <= 255,
    ensures
        parse(frame(m)) == (seq![m], Seq::<u8>::empty()),
        m.len() == 0 ==> frame(m) == seq![0u8],
{
    let ms = seq![m];
    assert(ms.subrange(1, 1) =~= Seq::<Seq<u8>>::empty());
    assert(ms[0] == m);
    assert(frames(Seq::<Seq<u8>>::empty()) == Seq::<u8>::empty());
    assert(frames(ms) == frame(m) + frames(ms.subrange(1, 1)));
    assert(frames(ms) =~= frame(m));
    lemma_frames_round_trip(ms);
    if m.len() == 0 {
        assert(frame(m) =~= seq![0u8]);
    }
}

/// Any stream is the frames of the messages decoded from it, then an
/// unfinished frame; no byte is lost or repeated.
pub proof fn lemma_parse_shape(s: Seq<u8>)
    ensures
        frames(parse(s).0) + parse(s).1 == s,
        is_partial(parse(s).1),
        all_fit(parse(s).0),
    decreases s.len(),
{
    if is_partial(s) {
        assert(frames(Seq::<Seq<u8>>::empty()) + s =~= s);
    } else {
        let n = s[0] as int;
        let after = s.subrange(1 + n, s.len() as int);
        lemma_parse_shape(after);
        let m = s.subrange(1, 1 + n);
        let ms = parse(s).0;
        assert(ms == seq![m] + parse(after).0);
        assert(ms[0] == m);
        assert(ms.subrange(1, ms.len() as int) =~= parse(after).0);
        assert(m.len() == n);
        assert(frame(m) =~= s.subrange(0, 1 + n));
        assert(frames(ms) == frame(m) + frames(parse(after).0));
        assert(s =~= s.subrange(0, 1 + n) + after);
        assert(frames(ms) + parse(s).1 =~= s);
        assert forall|i: int| 0 <= i < ms.len() implies #[trigger] ms[i].len() <= 255 by {
            if i > 0 {
                assert(ms[i] == parse(after).0[i - 1]);
            }
        }
    }
}

/// Where a read boundary falls makes no difference: decoding `a`, then the
/// bytes it left over followed by `b`, gives what decoding `a + b` gives.
pub proof fn lemma_split_reads(a: Seq<u8>, b: Seq<u8>)
    ensures
        parse(a + b) == (parse(a).0 + parse(parse(a).1 + b).0, parse(parse(a).1 + b).1),
{
    lemma_parse_shape(a);
    let ms = parse(a).0;
    let p = parse(a).1;
    assert(a + b =~= frames(ms) + (p + b));
    lemma_parse_frames(ms, p + b);
}

/// The messages as byte sequences.
pub open spec fn messages_view(v: Seq<Vec<u8>>) -> Seq<Seq<u8>> {
    v.map_values(|m: Vec<u8>| m@)
}

/// The frame of a payload of at most 255 bytes; `None` for a longer one,
/// which no frame can carry.
pub fn encode_frame(data: &[u8]) -> (r: Option<Vec<u8>>)
    ensures
        r is Some <==> data@.len() <= MAX_PAYLOAD,
        r matches Some(f) ==> f@ == frame(data@),
{
    if data.len() > MAX_PAYLOAD {
        return None;
    }
    let mut out: Vec<u8> = Vec::new();
    out.push(data.len() as u8);
    let mut i: usize = 0;
    while i < data.len()
        invariant
            i <= data@.len(),
            data@.len() <= 255,
            out@ == seq![data@.len() as u8] + data@.subrange(0, i as int),
        decreases data@.len() - i,
    {
        out.push(data[i]);
        i = i + 1;
        assert(out@ =~= seq![data@.len() as u8] + data@.subrange(0, i as int));
    }
    assert(data@.subrange(0, i as int) =~= data@);
    Some(out)
}

/// A resumable decoder: it keeps the bytes of an unfinished frame between
/// calls, so that a frame split over several reads comes out whole.
pub struct MessageReader {
    pending: Vec<u8>,
}

impl MessageReader {
    /// The bytes received that do not yet make a frame.
    pub closed spec fn pending(&self) -> Seq<u8> {
        self.pending@
    }

    /// The kept bytes never hold a whole frame: each one is handed out as
    /// soon as it is complete.
    #[verifier::type_invariant]
    spec fn inv(&self) -> bool {
        is_partial(self.pending@)
    }

    /// A decoder at the start of a stream.
    pub fn new() -> (r: MessageReader)
        ensures
            r.pending() == Seq::<u8>::empty(),
    {
        MessageReader { pending: Vec::new() }
    }

    /// Takes the next bytes of the stream and returns the messages whose
    /// frames they complete, in order; the rest is kept for the next call.
    pub fn feed(&mut self, chunk: &[u8]) -> (r: Vec<Vec<u8>>)
        ensures
            is_partial(final(self).pending()),
            (messages_view(r@), final(self).pending()) == parse(old(self).pending() + chunk@),
    {
        proof {
            use_type_invariant(&*self);
        }
        let mut data: Vec<u8> = self.pending.clone();
        let mut k: usize = 0;
        while k < chunk.len()
            invariant
                k <= chunk@.len(),
                data@ == self.pending@ + chunk@.subrange(0, k as int),
            decreases chunk@.len() - k,
        {
            data.push(chunk[k]);
            k = k + 1;
            assert(data@ =~= self.pending@ + chunk@.subrange(0, k as int));
        }
        assert(chunk@.subrange(0, k as int) =~= chunk@);
        let ghost all = data@;
        let len = data.len();
        let mut out: Vec<Vec<u8>> = Vec::new();
        let mut pos: usize = 0;
        assert(all.subrange(0, len as int) =~= all);
        while pos < len && (data[pos] as usize) < len - pos
            invariant
                data@ == all,
                len == all.len(),
                pos <= len,
                parse(all) == (
                    messages_view(out@) + parse(all.subrange(pos as int, len as int)).0,
                    parse(all.subrange(pos as int, len as int)).1,
                ),
            decreases len - pos,
        {
            let n = data[pos] as usize;
            let mut msg: Vec<u8> = Vec::new();
            let mut j: usize = pos + 1;
            while j < pos + 1 + n
                invariant
                    data@ == all,
                    len == all.len(),
                    pos + 1 <= j <= pos + 1 + n <= len,
                    msg@ == all.subrange(pos + 1, j as int),
                decreases pos + 1 + n - j,
            {
                msg.push(data[j]);
                j = j + 1;
                assert(msg@ =~= all.subrange(pos + 1, j as int));
            }
            proof {
                let sub = all.subrange(pos as int, len as int);
                assert(!is_partial(sub));
                assert(sub.subrange(1, 1 + n) =~= msg@);
                assert(sub.subrange(1 + n, sub.len() as int) =~= all.subrange(pos + 1 + n, len as int));
                let ghost before = messages_view(out@);
                let tail = parse(all.subrange(pos + 1 + n, len as int));
                assert(messages_view(out@.push(msg)) =~= before.push(msg@));
                assert(before + (seq![msg@] + tail.0) =~= before.push(msg@) + tail.0);
            }
            out.push(msg);
            pos = pos + 1 + n;
        }
        let ghost sub = all.subrange(pos as int, len as int);
        assert(is_partial(sub));
        assert(messages_view(out@) + Seq::<Seq<u8>>::empty() =~= messages_view(out@));
        let mut rest: Vec<u8> = Vec::new();
        let mut i: usize = pos;
        while i < len
            invariant
                data@ == all,
                len == all.len(),
                pos <= i <= len,
                rest@ == all.subrange(pos as int, i as int),
            decreases len - i,
        {
            rest.push(data[i]);
            i = i + 1;
            assert(rest@ =~= all.subrange(pos as int, i as int));
        }
        *self = MessageReader { pending: rest };
        out
    }
}

} // verus!
