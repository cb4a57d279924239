//! The packet a translation step works on: the payload it reads, the payload
//! it writes in its place, and the packets it sends alongside.

use vstd::prelude::*;
use vstd::slice::slice_subrange;
use crate::api::types::WireType;
use crate::api::TranslateError;
use crate::codec::append_bytes;
use crate::packet::mappings::PacketId;

verus! {

/// A finished translation: the packet to send and what goes with it.
pub struct Translated {
    pub packet: PacketId,
    pub payload: Vec<u8>,
    /// Packets sent to the client after this one.
    pub extra: Vec<(PacketId, Vec<u8>)>,
    /// Packets answered straight back to the client of a serverbound one.
    pub replies: Vec<(PacketId, Vec<u8>)>,
}

/// What a wrapper holds, as plain values.
pub struct WrapperView {
    pub packet: PacketId,
    pub input: Seq<u8>,
    pub pos: int,
    pub output: Seq<u8>,
    pub cancelled: bool,
    pub extra: Seq<(PacketId, Seq<u8>)>,
    pub replies: Seq<(PacketId, Seq<u8>)>,
}

/// What finishing a wrapper gives, as plain values.
pub enum FinishedView {
    Cancelled,
    Trailing(nat),
    Done {
        packet: PacketId,
        payload: Seq<u8>,
        extra: Seq<(PacketId, Seq<u8>)>,
        replies: Seq<(PacketId, Seq<u8>)>,
    },
}

impl WrapperView {
    /// The input not read yet.
    pub open spec fn remaining(self) -> Seq<u8> {
        self.input.subrange(self.pos, self.input.len() as int)
    }

    /// The read position lies within the input.
    pub open spec fn wf(self) -> bool {
        0 <= self.pos <= self.input.len()
    }

    /// The same wrapper retargeted onto `packet`.
    pub open spec fn with_packet(self, packet: PacketId) -> WrapperView {
        WrapperView { packet, ..self }
    }

    /// The same wrapper with `n` more input bytes read.
    pub open spec fn consumed(self, n: nat) -> WrapperView {
        WrapperView { pos: self.pos + n, ..self }
    }

    /// The same wrapper with `bytes` appended to the output.
    pub open spec fn written(self, bytes: Seq<u8>) -> WrapperView {
        WrapperView { output: self.output + bytes, ..self }
    }

    /// The same wrapper with the rest of the input read and copied across.
    pub open spec fn passed_through(self) -> WrapperView {
        WrapperView { pos: self.input.len() as int, output: self.output + self.remaining(), ..self }
    }

    /// What the next step reads: the output so far, unless nothing was read or written.
    pub open spec fn after_reset(self) -> WrapperView {
        if self.pos == 0 && self.output.len() == 0 {
            self
        } else {
            WrapperView { input: self.output, pos: 0, output: Seq::empty(), ..self }
        }
    }

    /// What finishing the wrapper gives.
    pub open spec fn finished(self) -> FinishedView {
        if self.cancelled {
            FinishedView::Cancelled
        } else if self.remaining().len() != 0 {
            FinishedView::Trailing(self.remaining().len())
        } else {
            FinishedView::Done {
                packet: self.packet,
                payload: self.output,
                extra: self.extra,
                replies: self.replies,
            }
        }
    }
}

/// A packet under translation.
pub struct PacketWrapper {
    packet: PacketId,
    input: Vec<u8>,
    pos: usize,
    output: Vec<u8>,
    cancelled: bool,
    extra: Vec<(PacketId, Vec<u8>)>,
    replies: Vec<(PacketId, Vec<u8>)>,
}

impl View for PacketWrapper {
    type V = WrapperView;

    closed spec fn view(&self) -> WrapperView {
        WrapperView {
            packet: self.packet,
            input: self.input@,
            pos: self.pos as int,
            output: self.output@,
            cancelled: self.cancelled,
            extra: self.extra.deep_view(),
            replies: self.replies.deep_view(),
        }
    }
}

impl PacketWrapper {
    #[verifier::type_invariant]
    spec fn inv(self) -> bool {
        self.pos <= self.input@.len()
    }

    /// A wrapper over `payload`, nothing read or written yet.
    pub fn new(packet: PacketId, payload: &[u8]) -> (r: PacketWrapper)
        ensures
            r@ == (WrapperView {
                packet,
                input: payload@,
                pos: 0,
                output: Seq::empty(),
                cancelled: false,
                extra: Seq::empty(),
                replies: Seq::empty(),
            }),
            r@.wf(),
    {
        let mut input: Vec<u8> = Vec::new();
        append_bytes(&mut input, payload);
        let extra: Vec<(PacketId, Vec<u8>)> = Vec::new();
        let replies: Vec<(PacketId, Vec<u8>)> = Vec::new();
        assert(extra.deep_view() =~= Seq::<(PacketId, Seq<u8>)>::empty());
        assert(replies.deep_view() =~= Seq::<(PacketId, Seq<u8>)>::empty());
        assert(input@ =~= payload@);
        PacketWrapper { packet, input, pos: 0, output: Vec::new(), cancelled: false, extra, replies }
    }

    /// The packet this wrapper is.
    pub fn packet(&self) -> (r: PacketId)
        ensures
            r == self@.packet,
            self@.wf(),
    {
        proof { use_type_invariant(self); }
        self.packet
    }

    /// Retargets the wrapper onto another packet.
    pub fn set_packet(&mut self, packet: PacketId)
        ensures
            final(self)@ == old(self)@.with_packet(packet),
            final(self)@.wf(),
    {
        proof { use_type_invariant(&*self); }
        self.packet = packet;
    }

    /// Reads a `t` from the input.
    pub fn read<T: WireType>(&mut self, t: &T) -> (r: Result<T::Value, TranslateError>)
        ensures
            final(self)@.wf(),
            match t.parse(old(self)@.remaining()) {
                Some((v, n)) => r matches Ok(x) && x.deep_view() == v
                    && final(self)@ == old(self)@.consumed(n),
                None => r == Err::<T::Value, TranslateError>(TranslateError::Read)
                    && final(self)@ == old(self)@,
            },
    {
        proof { use_type_invariant(&*self); }
        match t.read(self.input.as_slice(), self.pos) {
            Some((value, next)) => {
                self.pos = next;
                Ok(value)
            },
            None => Err(TranslateError::Read),
        }
    }

    /// Writes `v` as a `t` to the output.
    pub fn write<T: WireType>(&mut self, t: &T, v: &T::Value) -> (r: Result<(), TranslateError>)
        ensures
            final(self)@.wf(),
            if t.writable(v.deep_view()) {
                r is Ok && final(self)@ == old(self)@.written(t.encode(v.deep_view()))
            } else {
                r == Err::<(), TranslateError>(TranslateError::Write) && final(self)@ == old(self)@
            },
    {
        proof { use_type_invariant(&*self); }
        let mut out: Vec<u8> = Vec::new();
        std::mem::swap(&mut out, &mut self.output);
        let ok = t.write(&mut out, v);
        self.output = out;
        if ok {
            Ok(())
        } else {
            Err(TranslateError::Write)
        }
    }

    /// Reads a `t` and writes it back.
    pub fn passthrough<T: WireType>(&mut self, t: &T) -> (r: Result<T::Value, TranslateError>)
        ensures
            final(self)@.wf(),
            match t.parse(old(self)@.remaining()) {
                Some((v, n)) => if t.writable(v) {
                    r matches Ok(x) && x.deep_view() == v
                        && final(self)@ == old(self)@.consumed(n).written(t.encode(v))
                } else {
                    r == Err::<T::Value, TranslateError>(TranslateError::Write)
                        && final(self)@ == old(self)@.consumed(n)
                },
                None => r == Err::<T::Value, TranslateError>(TranslateError::Read)
                    && final(self)@ == old(self)@,
            },
    {
        let value = match self.read(t) {
            Ok(value) => value,
            Err(e) => return Err(e),
        };
        match self.write(t, &value) {
            Ok(()) => Ok(value),
            Err(e) => Err(e),
        }
    }

    /// Copies the rest of the input across.
    pub fn passthrough_all(&mut self)
        ensures
            final(self)@ == old(self)@.passed_through(),
            final(self)@.wf(),
    {
        proof { use_type_invariant(&*self); }
        let mut out: Vec<u8> = Vec::new();
        std::mem::swap(&mut out, &mut self.output);
        let rest = slice_subrange(self.input.as_slice(), self.pos, self.input.len());
        append_bytes(&mut out, rest);
        self.output = out;
        self.pos = self.input.len();
    }

    /// The input not read yet.
    pub fn remaining(&self) -> (r: &[u8])
        ensures
            r@ == self@.remaining(),
            self@.wf(),
    {
        proof { use_type_invariant(self); }
        slice_subrange(self.input.as_slice(), self.pos, self.input.len())
    }

    /// Reads past the rest of the input without writing it.
    pub fn consume_remaining(&mut self)
        ensures
            final(self)@ == old(self)@.consumed(old(self)@.remaining().len()),
            final(self)@.wf(),
    {
        proof { use_type_invariant(&*self); }
        self.pos = self.input.len();
    }

    /// Appends `bytes` to the output.
    pub fn write_bytes(&mut self, bytes: &[u8])
        ensures
            final(self)@ == old(self)@.written(bytes@),
            final(self)@.wf(),
    {
        proof { use_type_invariant(&*self); }
        let mut out: Vec<u8> = Vec::new();
        std::mem::swap(&mut out, &mut self.output);
        append_bytes(&mut out, bytes);
        self.output = out;
    }

    /// Consumes the rest of the input and writes `payload` in its place,
    /// taking the buffer over when nothing has been written yet.
    pub fn replace_remaining(&mut self, payload: Vec<u8>)
        ensures
            final(self)@ == old(self)@.consumed(old(self)@.remaining().len()).written(payload@),
            final(self)@.wf(),
    {
        proof { use_type_invariant(&*self); }
        self.pos = self.input.len();
        if self.output.len() == 0 {
            self.output = payload;
            assert(self.output@ =~= old(self)@.output + payload@);
        } else {
            let mut out: Vec<u8> = Vec::new();
            std::mem::swap(&mut out, &mut self.output);
            append_bytes(&mut out, payload.as_slice());
            self.output = out;
        }
    }

    /// Drops the packet: finishing gives nothing to send.
    pub fn cancel(&mut self)
        ensures
            final(self)@ == (WrapperView { cancelled: true, ..old(self)@ }),
            final(self)@.wf(),
    {
        proof { use_type_invariant(&*self); }
        self.cancelled = true;
    }

    /// Whether the packet has been dropped.
    pub fn is_cancelled(&self) -> (r: bool)
        ensures
            r == self@.cancelled,
            self@.wf(),
    {
        proof { use_type_invariant(self); }
        self.cancelled
    }

    /// Sends `packet` to the client after this one.
    pub fn send_extra(&mut self, packet: PacketId, payload: Vec<u8>)
        ensures
            final(self)@ == (WrapperView { extra: old(self)@.extra.push((packet, payload@)), ..old(self)@ }),
            final(self)@.wf(),
    {
        proof { use_type_invariant(&*self); }
        let ghost before = self.extra.deep_view();
        let ghost bytes = payload@;
        proof { assert(payload.deep_view() =~= bytes); }
        let mut list: Vec<(PacketId, Vec<u8>)> = Vec::new();
        std::mem::swap(&mut list, &mut self.extra);
        list.push((packet, payload));
        proof {
            assert(list.deep_view() =~= before.push((packet, bytes)));
        }
        self.extra = list;
    }

    /// Answers a serverbound packet with one the client gets straight back.
    pub fn send_reply(&mut self, packet: PacketId, payload: Vec<u8>)
        ensures
            final(self)@ == (WrapperView { replies: old(self)@.replies.push((packet, payload@)), ..old(self)@ }),
            final(self)@.wf(),
    {
        proof { use_type_invariant(&*self); }
        let ghost before = self.replies.deep_view();
        let ghost bytes = payload@;
        proof { assert(payload.deep_view() =~= bytes); }
        let mut list: Vec<(PacketId, Vec<u8>)> = Vec::new();
        std::mem::swap(&mut list, &mut self.replies);
        list.push((packet, payload));
        proof {
            assert(list.deep_view() =~= before.push((packet, bytes)));
        }
        self.replies = list;
    }

    /// Makes what has been written so far the input of the next step. A step
    /// that has not read or written anything leaves the input as it is.
    pub fn reset(&mut self)
        ensures
            final(self)@ == old(self)@.after_reset(),
            final(self)@.wf(),
    {
        proof { use_type_invariant(&*self); }
        if self.pos == 0 && self.output.len() == 0 {
            return;
        }
        self.pos = 0;
        let mut fresh: Vec<u8> = Vec::new();
        std::mem::swap(&mut fresh, &mut self.output);
        self.input = fresh;
        assert(self@ =~= old(self)@.after_reset());
    }

    /// `Ok(None)` when cancelled, `Err(TrailingBytes)` when input is left.
    pub fn finish(self) -> (r: Result<Option<Translated>, TranslateError>)
        ensures
            match self@.finished() {
                FinishedView::Cancelled => r matches Ok(None),
                FinishedView::Trailing(left) => r == Err::<Option<Translated>, TranslateError>(TranslateError::TrailingBytes(left as usize)),
                FinishedView::Done { packet, payload, extra, replies } => r matches Ok(Some(t))
                    && t.packet == packet && t.payload@ == payload
                    && t.extra.deep_view() == extra && t.replies.deep_view() == replies,
            },
    {
        proof { use_type_invariant(&self); }
        if self.cancelled {
            return Ok(None);
        }
        let left = self.input.len() - self.pos;
        if left != 0 {
            return Err(TranslateError::TrailingBytes(left));
        }
        Ok(Some(Translated {
            packet: self.packet,
            payload: self.output,
            extra: self.extra,
            replies: self.replies,
        }))
    }
}

/// Copying the rest of the input across and finishing hands back everything
/// written so far followed by everything not yet read.
pub proof fn law_passthrough_then_finish(w: WrapperView)
    requires
        w.wf(),
        !w.cancelled,
    ensures
        w.passed_through().finished() matches FinishedView::Done { payload, .. }
            && payload == w.output + w.remaining(),
{
    assert(w.passed_through().remaining() =~= Seq::<u8>::empty());
}

/// After a step that read or wrote, the next step reads exactly what the
/// last one wrote, and has written nothing yet.
pub proof fn law_reset_feeds_output(w: WrapperView)
    requires
        w.wf(),
        w.pos != 0 || w.output.len() != 0,
    ensures
        w.after_reset().remaining() == w.output,
        w.after_reset().output.len() == 0,
        w.after_reset().packet == w.packet,
{
    assert(w.output.subrange(0, w.output.len() as int) =~= w.output);
}

/// A cancelled packet finishes as nothing to send, whatever is left unread.
pub proof fn law_cancelled_finishes_empty(w: WrapperView)
    requires
        w.cancelled,
    ensures
        w.finished() == FinishedView::Cancelled,
{
}

/// A packet whose input was not read to the end is refused with the count of
/// bytes left, never sent half translated.
pub proof fn law_unread_input_is_refused(w: WrapperView)
    requires
        w.wf(),
        !w.cancelled,
        w.pos < w.input.len(),
    ensures
        w.finished() == FinishedView::Trailing((w.input.len() - w.pos) as nat),
{
}

/// Reading a well formed value that was written as `t` gives that value back
/// and moves past exactly its bytes, whatever follows it where anything can.
pub proof fn law_read_of_written<T: WireType>(t: T, v: <T::Value as DeepView>::V, rest: Seq<u8>)
    requires
        t.writable(v),
        t.well_formed(v),
        t.reads_to_end() ==> rest.len() == 0,
    ensures
        t.parse(t.encode(v) + rest) == Some((v, t.encode(v).len())),
{
    t.lemma_round_trip(v, rest);
}


/// What one method call does to a wrapper, as its contract states it.
pub enum WrapperStep {
    /// `set_packet`.
    Retarget(PacketId),
    /// `read` of a field of `n` bytes.
    Read(nat),
    /// `write` or `write_bytes`.
    Write(Seq<u8>),
    /// `passthrough` of a field of `n` bytes.
    PassThrough(nat),
    /// `passthrough_all`.
    PassAll,
    /// `consume_remaining`.
    ConsumeAll,
    /// `replace_remaining`.
    Replace(Seq<u8>),
    /// `cancel`.
    Cancel,
    /// `send_extra`.
    Extra(PacketId, Seq<u8>),
    /// `send_reply`.
    Reply(PacketId, Seq<u8>),
    /// `reset`.
    Reset,
}

/// The wrapper after step `s`.
pub open spec fn after_step(w: WrapperView, s: WrapperStep) -> WrapperView {
    match s {
        WrapperStep::Retarget(p) => w.with_packet(p),
        WrapperStep::Read(n) => w.consumed(n),
        WrapperStep::Write(b) => w.written(b),
        WrapperStep::PassThrough(n) => w.consumed(n).written(w.remaining().subrange(0, n as int)),
        WrapperStep::PassAll => w.passed_through(),
        WrapperStep::ConsumeAll => w.consumed(w.remaining().len()),
        WrapperStep::Replace(b) => w.consumed(w.remaining().len()).written(b),
        WrapperStep::Cancel => WrapperView { cancelled: true, ..w },
        WrapperStep::Extra(p, b) => WrapperView { extra: w.extra.push((p, b)), ..w },
        WrapperStep::Reply(p, b) => WrapperView { replies: w.replies.push((p, b)), ..w },
        WrapperStep::Reset => w.after_reset(),
    }
}

/// The wrapper after `steps`, in order.
pub open spec fn after_steps(w: WrapperView, steps: Seq<WrapperStep>) -> WrapperView
    decreases steps.len(),
{
    if steps.len() == 0 {
        w
    } else {
        after_step(after_steps(w, steps.drop_last()), steps.last())
    }
}

/// Once a packet is cancelled it stays cancelled: after any run of method
/// calls it is cancelled exactly when it was before or one of them cancelled
/// it, and asking whether it is changes nothing.
pub proof fn law_cancel_sticks(w: WrapperView, steps: Seq<WrapperStep>)
    ensures
        after_steps(w, steps).cancelled
            == (w.cancelled || exists|i: int| 0 <= i < steps.len() && #[trigger] steps[i] is Cancel),
    decreases steps.len(),
{
    if steps.len() > 0 {
        let front = steps.drop_last();
        law_cancel_sticks(w, front);
        if exists|i: int| 0 <= i < front.len() && #[trigger] front[i] is Cancel {
            let i = choose|i: int| 0 <= i < front.len() && #[trigger] front[i] is Cancel;
            assert(steps[i] == front[i]);
        }
        if exists|i: int| 0 <= i < steps.len() && #[trigger] steps[i] is Cancel {
            let i = choose|i: int| 0 <= i < steps.len() && #[trigger] steps[i] is Cancel;
            if i < front.len() {
                assert(front[i] == steps[i]);
            }
        }
    }
}

} // verus!
