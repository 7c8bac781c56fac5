//! What holds of a serial port over any number of operations, whatever the transfers come out as.

use vstd::prelude::*;

use crate::cdc_acm::{CdcAcmClass, LineState};
use crate::error::{NbError, UsbError};
use crate::reader::ReaderView;
use crate::serial_port::PortView;
use crate::writer::{WriterView, SHORT_PACKET_INTERVAL};
use crate::{serial_port, writer};

verus! {

/// The bytes of `packets`, one packet after the other.
pub open spec fn concatenation(packets: Seq<Seq<u8>>) -> Seq<u8>
    decreases packets.len(),
{
    if packets.len() == 0 {
        Seq::<u8>::empty()
    } else {
        concatenation(packets.drop_last()) + packets.last()
    }
}

/// An operation on a writer, with what its attempt to send comes out as.
pub enum WriterStep {
    /// A write of `data`.
    Write { data: Seq<u8>, sent: Result<usize, UsbError> },
    /// A flush, by the application or because a packet has gone out.
    Flush { sent: Result<usize, UsbError> },
}

/// The packet that the hardware takes over when `writer` flushes, as a sequence of one packet or
/// none.
pub open spec fn packets_of_flush(
    writer: WriterView,
    sent: Result<usize, UsbError>,
) -> Seq<Seq<u8>> {
    match (writer.next_packet(), sent) {
        (Some(packet), Ok(_)) => seq![packet],
        _ => Seq::<Seq<u8>>::empty(),
    }
}

impl WriterStep {
    /// The writer after the operation.
    pub open spec fn after(self, writer: WriterView) -> WriterView {
        match self {
            WriterStep::Write { data, sent } => writer.written(data, sent),
            WriterStep::Flush { sent } => writer.flushed(sent),
        }
    }

    /// The bytes that the operation accepts from the application.
    pub open spec fn accepted(self, writer: WriterView) -> Seq<u8> {
        match self {
            WriterStep::Write { data, .. } => data.take(writer.accepted_len(data.len())),
            WriterStep::Flush { .. } => Seq::<u8>::empty(),
        }
    }

    /// The packets that the hardware takes over in the course of the operation.
    pub open spec fn packets(self, writer: WriterView) -> Seq<Seq<u8>> {
        match self {
            WriterStep::Write { data, sent } => packets_of_flush(writer.pushed(data), sent),
            WriterStep::Flush { sent } => packets_of_flush(writer, sent),
        }
    }
}

/// The writer after `steps`.
pub open spec fn writer_after(writer: WriterView, steps: Seq<WriterStep>) -> WriterView
    decreases steps.len(),
{
    if steps.len() == 0 {
        writer
    } else {
        steps.last().after(writer_after(writer, steps.drop_last()))
    }
}

/// The bytes accepted from the application in the course of `steps`.
pub open spec fn bytes_accepted(writer: WriterView, steps: Seq<WriterStep>) -> Seq<u8>
    decreases steps.len(),
{
    if steps.len() == 0 {
        Seq::<u8>::empty()
    } else {
        bytes_accepted(writer, steps.drop_last()) + steps.last().accepted(
            writer_after(writer, steps.drop_last()),
        )
    }
}

/// The packets that the hardware has taken over in the course of `steps`.
pub open spec fn packets_sent(writer: WriterView, steps: Seq<WriterStep>) -> Seq<Seq<u8>>
    decreases steps.len(),
{
    if steps.len() == 0 {
        Seq::<Seq<u8>>::empty()
    } else {
        packets_sent(writer, steps.drop_last()) + steps.last().packets(
            writer_after(writer, steps.drop_last()),
        )
    }
}

/// Writing does not change the endpoints of a writer, its capacity or the port that it belongs to.
proof fn lemma_writer_keeps_endpoints(writer: WriterView, steps: Seq<WriterStep>)
    ensures
        writer_after(writer, steps).port == writer.port,
        writer_after(writer, steps).endpoints == writer.endpoints,
        writer_after(writer, steps).capacity == writer.capacity,
    decreases steps.len(),
{
    if steps.len() > 0 {
        lemma_writer_keeps_endpoints(writer, steps.drop_last());
    }
}

/// Every operation keeps the invariant of a writer, its endpoints and its capacity.
pub proof fn law_writer_invariant(writer: WriterView, steps: Seq<WriterStep>)
    requires
        writer.wf(),
    ensures
        writer_after(writer, steps).wf(),
        writer_after(writer, steps).endpoints == writer.endpoints,
        writer_after(writer, steps).capacity == writer.capacity,
    decreases steps.len(),
{
    lemma_writer_keeps_endpoints(writer, steps);
    if steps.len() > 0 {
        law_writer_invariant(writer, steps.drop_last());
    }
}

/// A flush takes from the front of the queue what the hardware takes over, and nothing else.
proof fn lemma_flush_takes_from_front(writer: WriterView, sent: Result<usize, UsbError>)
    requires
        writer.wf(),
    ensures
        concatenation(packets_of_flush(writer, sent)) + writer.flushed(sent).queue == writer.queue,
{
    reveal_with_fuel(concatenation, 2);
    match (writer.next_packet(), sent) {
        (Some(packet), Ok(_)) => {
            let packets = seq![packet];
            assert(packets.drop_last() =~= Seq::<Seq<u8>>::empty());
            assert(packet + writer.queue.skip(packet.len() as int) =~= writer.queue);
            assert(concatenation(packets) =~= packet);
        },
        _ => {
            assert(Seq::<u8>::empty() + writer.queue =~= writer.queue);
        },
    }
}

/// Concatenation distributes over the appending of packets.
proof fn lemma_concatenation_append(first: Seq<Seq<u8>>, second: Seq<Seq<u8>>)
    ensures
        concatenation(first + second) == concatenation(first) + concatenation(second),
    decreases second.len(),
{
    if second.len() == 0 {
        assert(first + second =~= first);
        assert(concatenation(first) + concatenation(second) =~= concatenation(first));
    } else {
        lemma_concatenation_append(first, second.drop_last());
        assert((first + second).drop_last() =~= first + second.drop_last());
        assert((first + second).last() == second.last());
        assert(concatenation(first + second) =~= concatenation(first) + concatenation(second));
    }
}

/// Where what left a queue and what entered it balance over some operations and over one more,
/// they balance over all of them.
proof fn lemma_streams_join(
    left: Seq<u8>,
    queue: Seq<u8>,
    first_queue: Seq<u8>,
    entered: Seq<u8>,
    left_more: Seq<u8>,
    last_queue: Seq<u8>,
    entered_more: Seq<u8>,
)
    requires
        left + queue == first_queue + entered,
        left_more + last_queue == queue + entered_more,
    ensures
        (left + left_more) + last_queue == first_queue + (entered + entered_more),
{
    assert((left + left_more) + last_queue =~= left + (left_more + last_queue));
    assert(left + (queue + entered_more) =~= (left + queue) + entered_more);
    assert((first_queue + entered) + entered_more =~= first_queue + (entered + entered_more));
}

/// One operation takes from the front of the queue what the hardware takes over, and adds at the
/// end what it accepts.
proof fn lemma_step_sends_in_order(writer: WriterView, step: WriterStep)
    requires
        writer.wf(),
    ensures
        concatenation(step.packets(writer)) + step.after(writer).queue == writer.queue
            + step.accepted(writer),
{
    match step {
        WriterStep::Write { data, sent } => {
            lemma_flush_takes_from_front(writer.pushed(data), sent);
        },
        WriterStep::Flush { sent } => {
            lemma_flush_takes_from_front(writer, sent);
            assert(writer.queue + Seq::<u8>::empty() =~= writer.queue);
        },
    }
}

/// Nothing written is lost, repeated or reordered: the packets that the hardware has taken over,
/// followed by what is still buffered, are what was buffered at first, followed by what has been
/// accepted since. This holds whether the attempts to send succeed, block or fail.
pub proof fn law_written_bytes_are_sent_in_order(writer: WriterView, steps: Seq<WriterStep>)
    requires
        writer.wf(),
    ensures
        concatenation(packets_sent(writer, steps)) + writer_after(writer, steps).queue
            == writer.queue + bytes_accepted(writer, steps),
    decreases steps.len(),
{
    if steps.len() == 0 {
        assert(concatenation(packets_sent(writer, steps)) + writer.queue =~= writer.queue
            + bytes_accepted(writer, steps));
    } else {
        let before = steps.drop_last();
        let step = steps.last();
        let mid = writer_after(writer, before);
        law_written_bytes_are_sent_in_order(writer, before);
        law_writer_invariant(writer, before);
        lemma_concatenation_append(packets_sent(writer, before), step.packets(mid));
        lemma_step_sends_in_order(mid, step);
        lemma_streams_join(
            concatenation(packets_sent(writer, before)),
            mid.queue,
            writer.queue,
            bytes_accepted(writer, before),
            concatenation(step.packets(mid)),
            step.after(mid).queue,
            step.accepted(mid),
        );
    }
}

/// No packet is longer than the maximum packet size.
pub proof fn law_packets_fit_the_endpoint(writer: WriterView, steps: Seq<WriterStep>, i: int)
    requires
        writer.wf(),
        0 <= i < packets_sent(writer, steps).len(),
    ensures
        packets_sent(writer, steps)[i].len() <= writer.endpoints.max_packet_size,
    decreases steps.len(),
{
    if steps.len() > 0 {
        let before = steps.drop_last();
        law_writer_invariant(writer, before);
        if i < packets_sent(writer, before).len() {
            law_packets_fit_the_endpoint(writer, before, i);
        }
    }
}

/// Whether the last `count` of `packets` are all full.
pub open spec fn ends_in_full(packets: Seq<Seq<u8>>, count: int, max_packet_size: u16) -> bool {
    &&& 0 <= count <= packets.len()
    &&& forall|j: int|
        packets.len() - count <= j < packets.len() ==> (#[trigger] packets[j]).len()
            == max_packet_size
}

/// The writer counts the full packets at the end of what it has sent.
proof fn lemma_full_count_covers(writer: WriterView, steps: Seq<WriterStep>, count: int)
    requires
        writer.wf(),
        ends_in_full(packets_sent(writer, steps), count, writer.endpoints.max_packet_size),
    ensures
        count <= writer_after(writer, steps).full_count(),
    decreases steps.len(),
{
    if steps.len() > 0 {
        let before = steps.drop_last();
        let mid = writer_after(writer, before);
        let size = writer.endpoints.max_packet_size;
        law_writer_invariant(writer, before);
        let earlier = packets_sent(writer, before);
        let new = steps.last().packets(mid);
        let all = packets_sent(writer, steps);
        assert(all == earlier + new);
        if new.len() == 0 {
            assert(all =~= earlier);
            lemma_full_count_covers(writer, before, count);
        } else if count > 0 {
            assert(all.last() == new[0]);
            assert(new[0].len() == size);
            assert(ends_in_full(earlier, count - 1, size)) by {
                assert forall|j: int|
                    earlier.len() - (count - 1) <= j < earlier.len() implies (
                    #[trigger] earlier[j]).len() == size by {
                    assert(all[j] == earlier[j]);
                }
            }
            lemma_full_count_covers(writer, before, count - 1);
        }
    }
}

/// A writer counts the full packets sent in a row: the last `full_count` packets that it sent are
/// full, and no more of them.
pub proof fn law_full_packets_are_counted(writer: WriterView, steps: Seq<WriterStep>)
    requires
        writer.wf(),
        writer.full_count() == 0,
    ensures
        ends_in_full(
            packets_sent(writer, steps),
            writer_after(writer, steps).full_count() as int,
            writer.endpoints.max_packet_size,
        ),
        forall|count: int| #[trigger]
            ends_in_full(packets_sent(writer, steps), count, writer.endpoints.max_packet_size)
                ==> count <= writer_after(writer, steps).full_count(),
    decreases steps.len(),
{
    let size = writer.endpoints.max_packet_size;
    let all = packets_sent(writer, steps);
    if steps.len() > 0 {
        let before = steps.drop_last();
        let mid = writer_after(writer, before);
        law_full_packets_are_counted(writer, before);
        law_writer_invariant(writer, before);
        let earlier = packets_sent(writer, before);
        assert(all == earlier + steps.last().packets(mid));
        if steps.last().packets(mid).len() == 0 {
            assert(all =~= earlier);
        } else {
            let count = writer_after(writer, steps).full_count() as int;
            assert forall|j: int| all.len() - count <= j < all.len() implies (
            #[trigger] all[j]).len() == size by {
                if j < earlier.len() {
                    assert(all[j] == earlier[j]);
                }
            }
        }
    }
    assert forall|count: int| #[trigger] ends_in_full(all, count, size) implies count
        <= writer_after(writer, steps).full_count() by {
        lemma_full_count_covers(writer, steps, count);
    }
}

/// Among any [`SHORT_PACKET_INTERVAL`] + 1 packets sent in a row there is one that is not full,
/// so that the host sees the data in a timely manner.
pub proof fn law_short_packet_is_forced(writer: WriterView, steps: Seq<WriterStep>, i: int)
    requires
        writer.wf(),
        0 <= i,
        i + SHORT_PACKET_INTERVAL < packets_sent(writer, steps).len(),
    ensures
        exists|j: int|
            i <= j <= i + SHORT_PACKET_INTERVAL && (#[trigger] packets_sent(writer, steps)[j]).len()
                < writer.endpoints.max_packet_size,
    decreases steps.len(),
{
    let before = steps.drop_last();
    let mid = writer_after(writer, before);
    let size = writer.endpoints.max_packet_size;
    law_writer_invariant(writer, before);
    law_writer_invariant(writer, steps);
    let earlier = packets_sent(writer, before);
    let all = packets_sent(writer, steps);
    assert(all == earlier + steps.last().packets(mid));
    if i + SHORT_PACKET_INTERVAL < earlier.len() {
        law_short_packet_is_forced(writer, before, i);
        let j = choose|j: int|
            i <= j <= i + SHORT_PACKET_INTERVAL && (#[trigger] earlier[j]).len() < size;
        assert(all[j] == earlier[j]);
    } else if forall|j: int|
        i <= j <= i + SHORT_PACKET_INTERVAL ==> (#[trigger] all[j]).len() >= size {
        assert forall|j: int| i <= j < all.len() implies (#[trigger] all[j]).len() == size by {
            law_packets_fit_the_endpoint(writer, steps, j);
        }
        lemma_full_count_covers(writer, steps, SHORT_PACKET_INTERVAL + 1);
    }
}

/// A writer with nothing left to send has closed the transaction: the last packet that it sent,
/// if any, was not full, so the host sees all of the data.
pub proof fn law_transaction_is_closed(writer: WriterView, steps: Seq<WriterStep>)
    requires
        writer.wf(),
        writer_after(writer, steps).next_packet() is None,
        packets_sent(writer, steps).len() > 0,
    ensures
        packets_sent(writer, steps).last().len() < writer.endpoints.max_packet_size,
{
    let packets = packets_sent(writer, steps);
    law_packets_fit_the_endpoint(writer, steps, packets.len() - 1);
    if packets.last().len() == writer.endpoints.max_packet_size {
        lemma_full_count_covers(writer, steps, 1);
    }
}

/// The writer after `count` flushes whose packets the hardware takes over.
pub open spec fn after_flushes(writer: WriterView, count: nat) -> WriterView
    decreases count,
{
    if count == 0 {
        writer
    } else {
        after_flushes(writer.flushed(Ok(0)), (count - 1) as nat)
    }
}

/// A number of flushes that is enough to send everything. Every packet but the last has at least
/// one byte less than a full one. One flush more may be owed to the empty packet that closes the
/// transaction. Single byte packets are a case of their own: there the short packet that a run of
/// full ones forces is empty.
pub open spec fn enough_flushes(writer: WriterView) -> nat {
    if writer.endpoints.max_packet_size >= 2 {
        (writer.queue.len() as int / (writer.endpoints.max_packet_size - 1) + 2) as nat
    } else {
        2 * writer.queue.len() + 2
    }
}

/// Flushes can be counted from the last as well as from the first.
proof fn lemma_last_flush(writer: WriterView, count: nat)
    requires
        count >= 1,
    ensures
        after_flushes(writer, count) == after_flushes(writer, (count - 1) as nat).flushed(Ok(0)),
    decreases count,
{
    reveal_with_fuel(after_flushes, 2);
    if count > 1 {
        lemma_last_flush(writer.flushed(Ok(0)), (count - 1) as nat);
    }
}

/// With nothing left to send, flushes change nothing but that the writer is idle.
proof fn lemma_stays_flushed(writer: WriterView, count: nat)
    requires
        writer.next_packet() is None,
    ensures
        after_flushes(writer, count).next_packet() is None,
    decreases count,
{
    if count > 0 {
        lemma_stays_flushed(writer.flushed(Ok(0)), (count - 1) as nat);
    }
}

/// Where packets may have two bytes or more, every flush but one sends `max_packet_size - 1`
/// bytes or all that are left.
proof fn lemma_flushes_of_long_packets(writer: WriterView, count: nat)
    requires
        writer.wf(),
        writer.endpoints.max_packet_size >= 2,
        count >= 1,
        (count - 1) * (writer.endpoints.max_packet_size - 1) >= writer.queue.len(),
    ensures
        after_flushes(writer, count).next_packet() is None,
    decreases count,
{
    let next = writer.flushed(Ok(0));
    if writer.next_packet() is None {
        lemma_stays_flushed(writer, count);
    } else if writer.queue.len() == 0 {
        lemma_stays_flushed(next, (count - 1) as nat);
    } else {
        let step = writer.endpoints.max_packet_size - 1;
        assert(count >= 2) by (nonlinear_arith)
            requires
                count >= 1,
                (count - 1) * step >= writer.queue.len(),
                writer.queue.len() > 0,
        ;
        assert((count - 2) * step == (count - 1) * step - step) by (nonlinear_arith);
        assert((count - 2) * step >= 0) by (nonlinear_arith)
            requires
                count >= 2,
                step >= 1,
        ;
        lemma_flushes_of_long_packets(next, (count - 1) as nat);
    }
}

/// A bound on the number of flushes that it takes to send everything, whatever the packet size.
spec fn flushes_left(writer: WriterView) -> nat {
    if writer.queue.len() > 0 {
        2 * writer.queue.len() + 1 + if writer.full_count() >= SHORT_PACKET_INTERVAL {
            1nat
        } else {
            0nat
        }
    } else if writer.full_count() != 0 {
        1
    } else {
        0
    }
}

/// As many flushes as the bound says send everything.
proof fn lemma_flushes_left(writer: WriterView, count: nat)
    requires
        writer.wf(),
        count >= flushes_left(writer),
    ensures
        after_flushes(writer, count).next_packet() is None,
    decreases count,
{
    if writer.next_packet() is None {
        lemma_stays_flushed(writer, count);
    } else {
        lemma_flushes_left(writer.flushed(Ok(0)), (count - 1) as nat);
    }
}

/// As long as the hardware takes over the packets, repeated flushing sends everything that is
/// buffered and closes the transaction, and the last flush reports `Ok`.
pub proof fn law_flushing_sends_everything(writer: WriterView, count: nat)
    requires
        writer.wf(),
        count >= enough_flushes(writer),
    ensures
        after_flushes(writer, count).queue == Seq::<u8>::empty(),
        after_flushes(writer, count).next_packet() is None,
        after_flushes(writer, (count - 1) as nat).flush_result(Ok(0)) == Ok::<(), UsbError>(()),
{
    let size = writer.endpoints.max_packet_size;
    if size >= 2 {
        let len = writer.queue.len() as int;
        let step = size - 1;
        vstd::arithmetic::div_mod::lemma_fundamental_div_mod(len, step);
        vstd::arithmetic::div_mod::lemma_mod_bound(len, step);
        vstd::arithmetic::div_mod::lemma_div_pos_is_pos(len, step);
        assert((count - 1) * step >= len) by (nonlinear_arith)
            requires
                count - 1 >= len / step + 1,
                len == step * (len / step) + len % step,
                len % step < step,
                step >= 1,
        ;
        lemma_flushes_of_long_packets(writer, count);
    } else {
        lemma_flushes_left(writer, count);
    }
    lemma_last_flush(writer, count);
    assert(after_flushes(writer, count).queue =~= Seq::<u8>::empty());
}

/// A flush reports `Ok` if and only if it leaves nothing to be sent: everything written has been
/// handed to the hardware, and the last packet was not full.
pub proof fn law_flush_is_ok_when_all_is_sent(writer: WriterView, sent: Result<usize, UsbError>)
    ensures
        writer.flush_result(sent) is Ok <==> {
            &&& writer.flushed(sent).queue.len() == 0
            &&& writer.flushed(sent).full_count() == 0
        },
        writer.next_packet() is None ==> {
            &&& writer.flush_result(sent) is Ok
            &&& writer.flushed(sent).state == writer::WriteState::Idle
        },
{
}

/// An attempt to send that blocks or fails leaves the writer as it was, and its error is the one
/// reported.
pub proof fn law_failed_send_changes_nothing(writer: WriterView, err: UsbError)
    requires
        writer.next_packet() is Some,
    ensures
        writer.flushed(Err(err)) == writer,
        writer.flush_result(Err(err)) == Err::<(), UsbError>(err),
{
}

/// A write reports an error of the transfer other than blocking, and the bytes are buffered all
/// the same. Otherwise it reports blocking if and only if the buffer is full, and the number of
/// bytes accepted if not. Of data that is not empty, none is accepted only where it is full.
pub proof fn law_write_blocks_when_full(
    writer: WriterView,
    data: Seq<u8>,
    sent: Result<usize, UsbError>,
)
    requires
        writer.wf(),
        data.len() <= usize::MAX,
    ensures
        sent matches Err(err) ==> (err != UsbError::WouldBlock && writer.packet_of_write(
            data,
        ) is Some ==> {
            &&& writer.write_result(data, sent) == Err::<usize, UsbError>(err)
            &&& writer.written(data, sent).queue == writer.queue + data.take(
                writer.accepted_len(data.len()),
            )
        }),
        sent is Ok || sent == Err::<usize, UsbError>(UsbError::WouldBlock)
            || writer.packet_of_write(data) is None ==> {
            &&& writer.write_result(data, sent) is Err <==> writer.queue.len() == writer.capacity
            &&& writer.write_result(data, sent) matches Err(err) ==> err == UsbError::WouldBlock
            &&& writer.write_result(data, sent) matches Ok(count) ==> count
                == writer.accepted_len(data.len())
        },
        data.len() > 0 ==> (writer.accepted_len(data.len()) == 0 <==> writer.queue.len()
            == writer.capacity),
{
}

/// A word is written if and only if there is room for it, except that an error of the transfer
/// is reported instead.
pub proof fn law_word_is_written_where_it_fits(
    writer: WriterView,
    word: u8,
    sent: Result<usize, UsbError>,
)
    requires
        writer.wf(),
        sent matches Err(err) ==> err == UsbError::WouldBlock,
    ensures
        writer.queue.len() < writer.capacity ==> writer::word_written(
            writer.write_result(seq![word], sent),
        ) == Ok::<(), NbError>(()),
        writer.queue.len() == writer.capacity ==> writer::word_written(
            writer.write_result(seq![word], sent),
        ) == Err::<(), NbError>(NbError::WouldBlock),
{
}

/// An operation on a reader, with what its attempt to receive comes out as.
pub enum ReaderStep {
    /// A poll.
    Poll { received: Result<Seq<u8>, UsbError> },
    /// A read into `len` bytes.
    Read { len: nat, received: Result<Seq<u8>, UsbError> },
}

impl ReaderStep {
    /// What the attempt to receive comes out as.
    pub open spec fn received(self) -> Result<Seq<u8>, UsbError> {
        match self {
            ReaderStep::Poll { received } => received,
            ReaderStep::Read { received, .. } => received,
        }
    }

    /// The reader after the operation.
    pub open spec fn after(self, reader: ReaderView) -> ReaderView {
        match self {
            ReaderStep::Poll { received } => reader.polled(received),
            ReaderStep::Read { len, received } => reader.after_read(len, received),
        }
    }

    /// The bytes that the operation takes from the hardware. Without room for a packet there are
    /// none.
    pub open spec fn taken(self, reader: ReaderView) -> Seq<u8> {
        match self.received() {
            Ok(packet) if reader.has_room() => packet,
            _ => Seq::<u8>::empty(),
        }
    }

    /// The bytes that the operation hands out to the application.
    pub open spec fn delivered(self, reader: ReaderView) -> Seq<u8> {
        match self {
            ReaderStep::Poll { .. } => Seq::<u8>::empty(),
            ReaderStep::Read { len, received } => reader.bytes_of_read(len, received),
        }
    }
}

/// The reader after `steps`.
pub open spec fn reader_after(reader: ReaderView, steps: Seq<ReaderStep>) -> ReaderView
    decreases steps.len(),
{
    if steps.len() == 0 {
        reader
    } else {
        steps.last().after(reader_after(reader, steps.drop_last()))
    }
}

/// The bytes taken from the hardware in the course of `steps`.
pub open spec fn bytes_taken(reader: ReaderView, steps: Seq<ReaderStep>) -> Seq<u8>
    decreases steps.len(),
{
    if steps.len() == 0 {
        Seq::<u8>::empty()
    } else {
        bytes_taken(reader, steps.drop_last()) + steps.last().taken(
            reader_after(reader, steps.drop_last()),
        )
    }
}

/// The bytes handed out to the application in the course of `steps`.
pub open spec fn bytes_delivered(reader: ReaderView, steps: Seq<ReaderStep>) -> Seq<u8>
    decreases steps.len(),
{
    if steps.len() == 0 {
        Seq::<u8>::empty()
    } else {
        bytes_delivered(reader, steps.drop_last()) + steps.last().delivered(
            reader_after(reader, steps.drop_last()),
        )
    }
}

/// Whether no packet received is longer than `max_packet_size`.
pub open spec fn packets_within(steps: Seq<ReaderStep>, max_packet_size: u16) -> bool {
    forall|i: int|
        0 <= i < steps.len() ==> ((#[trigger] steps[i]).received() matches Ok(packet)
            ==> packet.len() <= max_packet_size)
}

/// Reading does not change the class of a reader, its capacity or the port that it belongs to.
proof fn lemma_reader_keeps_class(reader: ReaderView, steps: Seq<ReaderStep>)
    ensures
        reader_after(reader, steps).port == reader.port,
        reader_after(reader, steps).class == reader.class,
        reader_after(reader, steps).capacity == reader.capacity,
    decreases steps.len(),
{
    if steps.len() > 0 {
        lemma_reader_keeps_class(reader, steps.drop_last());
    }
}

/// Every operation keeps the invariant of a reader, as long as the hardware delivers no packet
/// that is too long. So nothing received ever overruns the buffer.
pub proof fn law_reader_invariant(reader: ReaderView, steps: Seq<ReaderStep>)
    requires
        reader.wf(),
        packets_within(steps, reader.class.endpoints.max_packet_size),
    ensures
        reader_after(reader, steps).wf(),
    decreases steps.len(),
{
    if steps.len() > 0 {
        let before = steps.drop_last();
        assert(packets_within(before, reader.class.endpoints.max_packet_size)) by {
            assert forall|i: int| 0 <= i < before.len() implies ((
            #[trigger] before[i]).received() matches Ok(packet) ==> packet.len()
                <= reader.class.endpoints.max_packet_size) by {
                assert(before[i] == steps[i]);
            }
        }
        law_reader_invariant(reader, before);
        lemma_reader_keeps_class(reader, before);
        assert(steps.last() == steps[steps.len() - 1]);
    }
}

/// Nothing received is lost, repeated or reordered: what the application has read, followed by
/// what is still buffered, is what was buffered at first, followed by what has been taken from
/// the hardware since.
pub proof fn law_received_bytes_are_read_in_order(reader: ReaderView, steps: Seq<ReaderStep>)
    ensures
        bytes_delivered(reader, steps) + reader_after(reader, steps).queue == reader.queue
            + bytes_taken(reader, steps),
    decreases steps.len(),
{
    if steps.len() == 0 {
        assert(bytes_delivered(reader, steps) + reader.queue =~= reader.queue + bytes_taken(
            reader,
            steps,
        ));
    } else {
        let before = steps.drop_last();
        let step = steps.last();
        let mid = reader_after(reader, before);
        law_received_bytes_are_read_in_order(reader, before);
        assert(step.delivered(mid) + step.after(mid).queue =~= mid.queue + step.taken(mid));
        lemma_streams_join(
            bytes_delivered(reader, before),
            mid.queue,
            reader.queue,
            bytes_taken(reader, before),
            step.delivered(mid),
            step.after(mid).queue,
            step.taken(mid),
        );
    }
}

/// A read reports an error of the transfer other than blocking, and hands out nothing. Otherwise
/// it reports blocking if and only if nothing is buffered once the packet at hand, if it fits, has
/// been received.
pub proof fn law_read_blocks_when_empty(
    reader: ReaderView,
    len: nat,
    received: Result<Seq<u8>, UsbError>,
)
    requires
        len <= usize::MAX,
    ensures
        received matches Err(err) ==> (reader.has_room() && err != UsbError::WouldBlock ==> {
            &&& reader.read_result(len, received) == Err::<usize, UsbError>(err)
            &&& reader.after_read(len, received) == reader
            &&& reader.bytes_of_read(len, received) == Seq::<u8>::empty()
        }),
        !reader.has_room() || received is Ok || received == Err::<Seq<u8>, UsbError>(
            UsbError::WouldBlock,
        ) ==> {
            &&& reader.read_result(len, received) is Err <==> reader.polled(received).queue.len()
                == 0
            &&& reader.read_result(len, received) matches Err(err) ==> err == UsbError::WouldBlock
            &&& reader.read_result(len, received) matches Ok(count) ==> count
                == reader.bytes_of_read(len, received).len()
        },
{
}

/// A read of one word hands out the oldest byte.
pub proof fn law_word_is_the_oldest_byte(reader: ReaderView, received: Result<Seq<u8>, UsbError>)
    ensures
        reader.read_word_result(received) matches Ok(word) ==> reader.bytes_of_read(1, received)
            == seq![word],
        reader.read_word_result(received) is Err ==> reader.bytes_of_read(1, received)
            == Seq::<u8>::empty(),
{
    if reader.read_word_result(received) is Ok {
        assert(reader.bytes_of_read(1, received) =~= seq![reader.polled(received).queue[0]]);
    } else {
        assert(reader.bytes_of_read(1, received) =~= Seq::<u8>::empty());
    }
}

/// An operation on either half of a port.
pub enum PortStep {
    /// One that reads.
    Reader(ReaderStep),
    /// One that writes.
    Writer(WriterStep),
}

impl PortStep {
    /// The port after the operation.
    pub open spec fn after(self, port: PortView) -> PortView {
        match self {
            PortStep::Reader(step) => PortView { reader: step.after(port.reader), ..port },
            PortStep::Writer(step) => PortView { writer: step.after(port.writer), ..port },
        }
    }
}

/// The port after `steps`.
pub open spec fn port_after(port: PortView, steps: Seq<PortStep>) -> PortView
    decreases steps.len(),
{
    if steps.len() == 0 {
        port
    } else {
        steps.last().after(port_after(port, steps.drop_last()))
    }
}

/// Those of `steps` that read, in order.
pub open spec fn reader_steps(steps: Seq<PortStep>) -> Seq<ReaderStep>
    decreases steps.len(),
{
    if steps.len() == 0 {
        Seq::<ReaderStep>::empty()
    } else {
        match steps.last() {
            PortStep::Reader(step) => reader_steps(steps.drop_last()).push(step),
            PortStep::Writer(_) => reader_steps(steps.drop_last()),
        }
    }
}

/// Those of `steps` that write, in order.
pub open spec fn writer_steps(steps: Seq<PortStep>) -> Seq<WriterStep>
    decreases steps.len(),
{
    if steps.len() == 0 {
        Seq::<WriterStep>::empty()
    } else {
        match steps.last() {
            PortStep::Reader(_) => writer_steps(steps.drop_last()),
            PortStep::Writer(step) => writer_steps(steps.drop_last()).push(step),
        }
    }
}

/// Reading and writing do not interfere. A port that is split, used through its handles in
/// whatever order, and put together again is what it would be had it been used whole.
pub proof fn law_handles_are_independent(port: PortView, steps: Seq<PortStep>)
    ensures
        port_after(port, steps) == PortView::of_handles(
            reader_after(port.handles().0, reader_steps(steps)),
            writer_after(port.handles().1, writer_steps(steps)),
        ),
    decreases steps.len(),
{
    if steps.len() > 0 {
        law_handles_are_independent(port, steps.drop_last());
        match steps.last() {
            PortStep::Reader(step) => {
                let before = reader_steps(steps.drop_last());
                assert(before.push(step).drop_last() =~= before);
            },
            PortStep::Writer(step) => {
                let before = writer_steps(steps.drop_last());
                assert(before.push(step).drop_last() =~= before);
            },
        }
    }
}

/// Reading and writing do not change the class of a port: neither its endpoints nor what the host
/// has set.
pub proof fn law_class_is_unchanged(port: PortView, steps: Seq<PortStep>)
    ensures
        port_after(port, steps).reader.class == port.reader.class,
        port_after(port, steps).writer.endpoints == port.writer.endpoints,
{
    law_handles_are_independent(port, steps);
    lemma_reader_keeps_class(port.reader, reader_steps(steps));
    lemma_writer_keeps_endpoints(port.writer, writer_steps(steps));
}

/// Through any number of operations the two handles of a port stay handles of the same port, so
/// that they can be put together again.
pub proof fn law_handles_stay_together(
    reader: ReaderView,
    writer: WriterView,
    reads: Seq<ReaderStep>,
    writes: Seq<WriterStep>,
)
    ensures
        serial_port::same_port(reader_after(reader, reads), writer_after(writer, writes))
            == serial_port::same_port(reader, writer),
{
    lemma_reader_keeps_class(reader, reads);
    lemma_writer_keeps_endpoints(writer, writes);
}

/// Putting together the handles that a split gives, with nothing in between, gives the port back.
/// Splitting a port that was put together gives the handles back.
pub proof fn law_unsplit_undoes_split(port: PortView, reader: ReaderView, writer: WriterView)
    ensures
        port.wf() ==> serial_port::same_port(port.handles().0, port.handles().1),
        PortView::of_handles(port.handles().0, port.handles().1) == port,
        PortView::of_handles(reader, writer).handles() == (reader, writer),
{
}

/// A reset leaves a port as if it had not been used, whatever its state was. It comes to the same
/// whether the port is reset whole or by its handles.
pub proof fn law_reset_is_a_fresh_start(port: PortView, lines: LineState)
    requires
        port.wf(),
    ensures
        port.cleared(lines) == PortView::fresh(
            port.reader.port,
            CdcAcmClass { lines, ..port.reader.class },
            port.reader.capacity,
            port.writer.capacity,
        ),
        port.cleared(lines).wf(),
        port.cleared(lines).cleared(lines) == port.cleared(lines),
        PortView::of_handles(port.handles().0.cleared(lines), port.handles().1.cleared())
            == port.cleared(lines),
{
}

} // verus!
