//! Helpers shared by the chip applications: what sending a TLV or raw bytes
//! through a guarded writer does to the writer's output.
use vstd::prelude::*;

use crate::port::CtlPort;
use crate::tlv::{
    after_event, next_event, scan_step, sync_prefix, tlv_bytes, LabeledReader, LabeledWriter, ScanModel, ScanOutcome,
    TlvType,
};

verus! {

/// `after` is `before` with one TLV of type `code` and value `v` written.
pub open spec fn sent_tlv<W: CtlPort>(before: LabeledWriter<W>, after: LabeledWriter<W>, code: u16, v: Seq<u8>) -> bool {
    &&& after.inner().outgoing() == before.inner().outgoing() + sync_prefix(before.pending_sync()) + tlv_bytes(code, v)
    &&& after.inner().incoming() == before.inner().incoming()
}

/// `after` is `before` with raw bytes `v` written as one sequence, then flushed.
pub open spec fn sent_raw<W: CtlPort>(before: LabeledWriter<W>, after: LabeledWriter<W>, v: Seq<u8>) -> bool {
    &&& after.inner().outgoing() == before.inner().outgoing() + sync_prefix(before.pending_sync()) + v
    &&& after.inner().incoming() == before.inner().incoming()
    &&& after.pending_sync()
}

/// One poll of a guarded reader on a working port: the next byte, or nothing, goes
/// to the reader; what state it reaches and what it produces.
pub open spec fn poll_step<T: TlvType, R: CtlPort>(before: LabeledReader<R>) -> (ScanModel, ScanOutcome<R::Error>) {
    scan_step::<T, R::Error>(before.model(), next_event(before.inner().incoming()))
}

/// `after` is `before` polled once on a working port.
pub open spec fn polled<T: TlvType, R: CtlPort>(before: LabeledReader<R>, after: LabeledReader<R>) -> bool {
    &&& after.inner().healthy()
    &&& after.model() == poll_step::<T, R>(before).0
    &&& after.inner().incoming() == after_event(before.inner().incoming())
    &&& after.inner().outgoing() == before.inner().outgoing()
}

/// The TLV (type code and value) that a reader outcome completes, if any.
pub open spec fn completed<E>(o: ScanOutcome<E>) -> Option<(u16, Seq<u8>)> {
    match o {
        Some(Ok(Some(x))) => Some(x),
        _ => None,
    }
}

/// Write raw bytes as one sequence and flush.
pub fn forward_raw<W: CtlPort>(w: &mut LabeledWriter<W>, v: &[u8]) -> (r: Result<(), W::Error>)
    ensures
        r is Ok ==> sent_raw(*old(w), *final(w), v@) && final(w).inner().flushed(),
        old(w).inner().healthy() ==> r is Ok && final(w).inner().healthy(),
{
    w.write(v)?;
    w.flush()
}

} // verus!
