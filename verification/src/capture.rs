//! The output-capture model: what the engine's buffered output does between
//! requests, and why one request's capture can never leak into another's.
//!
//! The engine writes into one process-global buffer. A request's execution
//! is bracketed: capture begins, the engine emits, capture ends and takes
//! the buffered bytes, leaving the buffer empty. The model here says what
//! that brackets: ending a capture on every exit path is exactly what makes
//! the next request's capture start from nothing.

use vstd::prelude::*;

verus! {

/// One event at the engine's output buffer: the engine emits bytes into it,
/// or the executor ends a capture, taking everything buffered and leaving
/// the buffer empty.
pub enum CaptureEvent {
    Emit { bytes: Seq<u8> },
    Take,
}

/// The buffer after a sequence of events, starting from `buf`.
pub open spec fn buffer_after(buf: Seq<u8>, es: Seq<CaptureEvent>) -> Seq<u8>
    decreases es.len(),
{
    if es.len() == 0 {
        buf
    } else {
        match es[0] {
            CaptureEvent::Emit { bytes } => buffer_after(buf + bytes, es.drop_first()),
            CaptureEvent::Take => buffer_after(Seq::empty(), es.drop_first()),
        }
    }
}

/// Every byte emitted over a sequence of events, in order.
pub open spec fn emitted(es: Seq<CaptureEvent>) -> Seq<u8>
    decreases es.len(),
{
    if es.len() == 0 {
        Seq::empty()
    } else {
        match es[0] {
            CaptureEvent::Emit { bytes } => bytes + emitted(es.drop_first()),
            CaptureEvent::Take => emitted(es.drop_first()),
        }
    }
}

/// No capture ends within the events.
pub open spec fn no_take(es: Seq<CaptureEvent>) -> bool {
    forall|i: int| 0 <= i < es.len() ==> !(es[i] is Take)
}

/// Running the buffer over concatenated events is running it in two steps.
proof fn lemma_buffer_split(buf: Seq<u8>, e1: Seq<CaptureEvent>, e2: Seq<CaptureEvent>)
    ensures
        buffer_after(buf, e1 + e2) == buffer_after(buffer_after(buf, e1), e2),
    decreases e1.len(),
{
    if e1.len() == 0 {
        assert(e1 + e2 =~= e2);
    } else {
        assert((e1 + e2).drop_first() =~= e1.drop_first() + e2);
        match e1[0] {
            CaptureEvent::Emit { bytes } => {
                lemma_buffer_split(buf + bytes, e1.drop_first(), e2);
            },
            CaptureEvent::Take => {
                lemma_buffer_split(Seq::empty(), e1.drop_first(), e2);
            },
        }
    }
}

/// While no capture ends, the buffer grows by exactly what is emitted.
proof fn lemma_buffer_accumulates(buf: Seq<u8>, es: Seq<CaptureEvent>)
    requires
        no_take(es),
    ensures
        buffer_after(buf, es) == buf + emitted(es),
    decreases es.len(),
{
    if es.len() == 0 {
        assert(buf + emitted(es) =~= buf);
    } else {
        match es[0] {
            CaptureEvent::Emit { bytes } => {
                lemma_buffer_accumulates(buf + bytes, es.drop_first());
                assert((buf + bytes) + emitted(es.drop_first()) =~= buf + (bytes + emitted(
                    es.drop_first(),
                )));
            },
            CaptureEvent::Take => {
                assert(false);
            },
        }
    }
}

/// Output isolation. However the buffer was used before — whole earlier
/// requests, partial output of a failed run, anything — once one capture
/// has been taken, what the next capture takes is exactly the bytes emitted
/// after that point: no byte produced for an earlier request can appear in
/// a later request's output.
pub proof fn lemma_output_isolation(
    start: Seq<u8>,
    before: Seq<CaptureEvent>,
    during: Seq<CaptureEvent>,
)
    requires
        no_take(during),
    ensures
        buffer_after(start, before + seq![CaptureEvent::Take] + during) == emitted(during),
{
    lemma_buffer_split(start, before + seq![CaptureEvent::Take], during);
    lemma_buffer_split(start, before, seq![CaptureEvent::Take]);
    let after_take = buffer_after(buffer_after(start, before), seq![CaptureEvent::Take]);
    assert((seq![CaptureEvent::Take])[0] == CaptureEvent::Take);
    assert((seq![CaptureEvent::Take]).drop_first() =~= Seq::<CaptureEvent>::empty());
    assert(after_take == buffer_after(
        Seq::<u8>::empty(),
        (seq![CaptureEvent::Take]).drop_first(),
    ));
    assert(buffer_after(Seq::<u8>::empty(), Seq::<CaptureEvent>::empty()) == Seq::<u8>::empty());
    lemma_buffer_accumulates(after_take, during);
    assert(after_take + emitted(during) =~= emitted(during));
}

} // verus!
