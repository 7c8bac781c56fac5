//! What each operation of a serial port does, in terms of what is in the queues before and after.

use vstd::prelude::*;

use crate::cdc_acm::{CdcAcmClass, LineState};
use crate::error::{NbError, UsbError};
use crate::reader::ReaderView;
use crate::serial_port::PortView;
use crate::writer::{WriteState, WriterView, SHORT_PACKET_INTERVAL};
use crate::{error, reader, serial_port, writer};

verus! {

/// What it takes for a writer to be in order: packets can carry something, no more is queued than
/// fits, and the run of full packets is counted from one to ten.
pub proof fn law_writer_in_order(writer: WriterView)
    ensures
        writer.wf() <==> {
            &&& writer.endpoints.max_packet_size >= 1
            &&& writer.queue.len() <= writer.capacity
            &&& (writer.state matches WriteState::Full(count) ==> 1 <= count <= 10)
        },
        SHORT_PACKET_INTERVAL == 10,
{
}

/// What it takes for a reader to be in order: packets can carry something, and no more is queued
/// than fits.
pub proof fn law_reader_in_order(reader: ReaderView)
    ensures
        reader.wf() <==> {
            &&& reader.class.endpoints.max_packet_size >= 1
            &&& reader.queue.len() <= reader.capacity
        },
{
}

/// What it takes for a port to be in order: both halves are, they have the same identity, and
/// they use the same endpoints.
pub proof fn law_port_in_order(port: PortView)
    ensures
        port.wf() <==> {
            &&& port.reader.wf()
            &&& port.writer.wf()
            &&& port.reader.port == port.writer.port
            &&& port.reader.class.endpoints == port.writer.endpoints
        },
{
}

/// There is nothing to send if and only if the queue is empty and the last packet was not full.
/// A flush reports `Ok` then and leaves the writer idle, with everything else as it was.
pub proof fn law_nothing_to_send(writer: WriterView, sent: Result<usize, UsbError>)
    requires
        writer.state matches WriteState::Full(count) ==> count >= 1,
    ensures
        writer.next_packet() is None <==> writer.queue.len() == 0 && !(writer.state is Full),
        writer.next_packet() is None ==> {
            &&& writer.flush_result(sent) == Ok::<(), UsbError>(())
            &&& writer.flushed(sent).state == WriteState::Idle
            &&& writer.flushed(sent).queue == writer.queue
            &&& writer.flushed(sent).capacity == writer.capacity
            &&& writer.flushed(sent).endpoints == writer.endpoints
            &&& writer.flushed(sent).port == writer.port
        },
{
}

/// The next packet is the front of the queue. It is as long as it can be: all of the queue, or a
/// full packet, or one byte less where ten or more full packets have gone out in a row. Then it
/// is never full.
pub proof fn law_packet_is_the_front_of_the_queue(writer: WriterView)
    requires
        writer.endpoints.max_packet_size >= 1,
    ensures
        writer.next_packet() matches Some(packet) ==> {
            let size = writer.endpoints.max_packet_size;
            let forced = writer.state matches WriteState::Full(count) && count >= 10;
            &&& packet.len() <= writer.queue.len()
            &&& forall|i: int| 0 <= i < packet.len() ==> packet[i] == writer.queue[i]
            &&& packet.len() <= size
            &&& forced ==> packet.len() < size
            &&& packet.len() == writer.queue.len() || packet.len() == size || (forced
                && packet.len() == size - 1)
        },
        writer.queue.len() > 0 ==> writer.next_packet() is Some,
{
}

/// A packet that the hardware has taken over leaves the queue from the front, whatever number of
/// bytes the hardware reports. The writer then knows whether it was full, and if so, how many
/// full ones have gone out in a row. The flush reports `Ok` if and only if the queue is empty now
/// and the packet was not full, and that it would block otherwise.
pub proof fn law_sent_packet_leaves_the_queue(writer: WriterView, packet: Seq<u8>, reported: usize)
    requires
        writer.endpoints.max_packet_size >= 1,
        writer.state matches WriteState::Full(count) ==> 1 <= count <= 10,
        writer.next_packet() == Some(packet),
    ensures
        ({
            let after = writer.flushed(Ok(reported));
            let full = packet.len() == writer.endpoints.max_packet_size;
            let in_a_row = match writer.state {
                WriteState::Full(count) => count as int,
                _ => 0,
            };
            &&& packet + after.queue == writer.queue
            &&& full ==> (after.state matches WriteState::Full(count) && count == in_a_row + 1)
            &&& !full ==> after.state == WriteState::Short
            &&& after.capacity == writer.capacity
            &&& after.endpoints == writer.endpoints
            &&& after.port == writer.port
            &&& writer.flush_result(Ok(reported)) == if after.queue.len() == 0 && !full {
                Ok::<(), UsbError>(())
            } else {
                Err::<(), UsbError>(UsbError::WouldBlock)
            }
        }),
{
    assert(packet + writer.queue.skip(packet.len() as int) =~= writer.queue);
}

/// A packet that the hardware has not taken over stays where it is, and the flush reports why.
pub proof fn law_unsent_packet_stays_queued(writer: WriterView, err: UsbError)
    requires
        writer.next_packet() is Some,
    ensures
        writer.flushed(Err(err)).queue == writer.queue,
        writer.flushed(Err(err)).state == writer.state,
        writer.flushed(Err(err)).capacity == writer.capacity,
        writer.flushed(Err(err)).endpoints == writer.endpoints,
        writer.flushed(Err(err)).port == writer.port,
        writer.flush_result(Err(err)) == Err::<(), UsbError>(err),
{
}

/// A write is to append the first `count` bytes of the data to the queue and to flush. The count
/// is the one that takes all of the data or fills the buffer, whatever is queued already.
pub proof fn law_write_appends_and_flushes(
    writer: WriterView,
    data: Seq<u8>,
    count: int,
    sent: Result<usize, UsbError>,
)
    requires
        0 <= count <= data.len() <= usize::MAX,
        writer.queue.len() + count <= writer.capacity,
        count == data.len() || writer.queue.len() + count == writer.capacity,
    ensures
        ({
            let appended = WriterView { queue: writer.queue + data.take(count), ..writer };
            &&& writer.packet_of_write(data) == appended.next_packet()
            &&& writer.written(data, sent) == appended.flushed(sent)
            // An error of the transfer is reported as it is.
            &&& appended.next_packet() is Some ==> (sent matches Err(err) ==> (err
                != UsbError::WouldBlock ==> writer.write_result(data, sent) == Err::<
                usize,
                UsbError,
            >(err)))
            // Otherwise a write blocks where the buffer was full, and reports the count if not.
            &&& (appended.next_packet() is None || sent is Ok || sent == Err::<usize, UsbError>(
                UsbError::WouldBlock,
            )) ==> writer.write_result(data, sent) == if writer.queue.len() == writer.capacity {
                Err::<usize, UsbError>(UsbError::WouldBlock)
            } else {
                Ok::<usize, UsbError>(count as usize)
            }
        }),
{
}

/// While nothing can be sent, a write leaves in the queue what was there and behind it as much of
/// the data as fits: all of it, unless the queue is full afterwards.
pub proof fn law_write_accepts_all_that_fits(writer: WriterView, data: Seq<u8>, err: UsbError)
    requires
        writer.queue.len() <= writer.capacity,
    ensures
        ({
            let after = writer.written(data, Err(err));
            let count = after.queue.len() - writer.queue.len();
            &&& 0 <= count <= data.len()
            &&& after.queue == writer.queue + data.take(count)
            &&& after.queue.len() <= writer.capacity
            &&& writer.queue.len() + data.len() <= writer.capacity ==> count == data.len()
            &&& writer.queue.len() + data.len() > writer.capacity ==> after.queue.len()
                == writer.capacity
        }),
{
    let after = writer.written(data, Err(err));
    assert(after.queue =~= writer.queue + data.take(after.queue.len() - writer.queue.len()));
}

/// Whatever a write comes to, the packet that leaves and the queue that stays hold what was
/// queued, and behind it all of the data, unless they fill the buffer.
pub proof fn law_write_loses_nothing_that_fits(
    writer: WriterView,
    data: Seq<u8>,
    packet: Seq<u8>,
    reported: usize,
)
    requires
        writer.wf(),
        writer.packet_of_write(data) == Some(packet),
    ensures
        ({
            let all = packet + writer.written(data, Ok(reported)).queue;
            &&& writer.queue.len() + data.len() <= writer.capacity ==> all == writer.queue + data
            &&& writer.queue.len() + data.len() > writer.capacity ==> {
                &&& all.len() == writer.capacity
                &&& all == (writer.queue + data).take(writer.capacity as int)
            }
        }),
{
    let pushed = writer.pushed(data);
    law_sent_packet_leaves_the_queue(pushed, packet, reported);
    if writer.queue.len() + data.len() <= writer.capacity {
        assert(pushed.queue =~= writer.queue + data);
    } else {
        assert(pushed.queue =~= (writer.queue + data).take(writer.capacity as int));
    }
}

/// While nothing can be sent, it makes no difference to the queue whether data is written in one
/// piece or in two.
pub proof fn law_writes_can_be_cut(
    writer: WriterView,
    first: Seq<u8>,
    second: Seq<u8>,
    err: UsbError,
)
    requires
        writer.queue.len() <= writer.capacity,
    ensures
        writer.written(first, Err(err)).written(second, Err(err)).queue == writer.written(
            first + second,
            Err(err),
        ).queue,
{
    assert(writer.written(first, Err(err)).written(second, Err(err)).queue =~= writer.written(
        first + second,
        Err(err),
    ).queue);
}

/// In non-blocking form, blocking is told apart from every other error, which is handed on.
pub proof fn law_blocking_is_told_apart(err: UsbError)
    ensures
        err == UsbError::WouldBlock ==> error::nb_error_of(err) == NbError::WouldBlock,
        err != UsbError::WouldBlock ==> error::nb_error_of(err) == NbError::Other(err),
        writer::words_flushed(Ok(())) == Ok::<(), NbError>(()),
        writer::words_flushed(Err(UsbError::WouldBlock)) == Err::<(), NbError>(NbError::WouldBlock),
        err != UsbError::WouldBlock ==> writer::words_flushed(Err(err)) == Err::<(), NbError>(
            NbError::Other(err),
        ),
        writer::word_written(Err(UsbError::WouldBlock)) == Err::<(), NbError>(NbError::WouldBlock),
        err != UsbError::WouldBlock ==> writer::word_written(Err(err)) == Err::<(), NbError>(
            NbError::Other(err),
        ),
        writer::word_written(Ok(0)) == Err::<(), NbError>(NbError::WouldBlock),
        forall|count: usize|
            count > 0 ==> #[trigger] writer::word_written(Ok(count)) == Ok::<(), NbError>(()),
{
}

/// A word that there is room for is queued behind what is queued already and reported as written,
/// and one that there is no room for leaves the queue as it was and blocks.
pub proof fn law_word_is_queued_where_it_fits(writer: WriterView, word: u8)
    requires
        writer.queue.len() <= writer.capacity,
    ensures
        ({
            let busy = Err::<usize, UsbError>(UsbError::WouldBlock);
            let after = writer.written(seq![word], busy);
            let result = writer::word_written(writer.write_result(seq![word], busy));
            &&& writer.queue.len() < writer.capacity ==> {
                &&& after.queue == writer.queue.push(word)
                &&& result == Ok::<(), NbError>(())
            }
            &&& writer.queue.len() == writer.capacity ==> {
                &&& after.queue == writer.queue
                &&& result == Err::<(), NbError>(NbError::WouldBlock)
            }
        }),
{
    let after = writer.written(seq![word], Err(UsbError::WouldBlock));
    if writer.queue.len() < writer.capacity {
        assert(after.queue =~= writer.queue.push(word));
    } else {
        assert(after.queue =~= writer.queue);
    }
}

/// A packet is received exactly where the longest packet would fit, and nothing but the free
/// space decides. It goes to the end of the queue, and all else stays as it was. Where there is
/// no room, or no packet, everything stays as it was.
pub proof fn law_packet_is_received_where_it_fits(
    reader: ReaderView,
    received: Result<Seq<u8>, UsbError>,
)
    ensures
        reader.has_room() <==> reader.queue.len() + reader.class.endpoints.max_packet_size
            <= reader.capacity,
        reader.queue.len() + reader.class.endpoints.max_packet_size <= reader.capacity ==> (
        received matches Ok(packet) ==> reader.polled(received).queue == reader.queue + packet),
        reader.queue.len() + reader.class.endpoints.max_packet_size > reader.capacity
            ==> reader.polled(received).queue == reader.queue,
        received is Err ==> reader.polled(received).queue == reader.queue,
        reader.polled(received).class == reader.class,
        reader.polled(received).capacity == reader.capacity,
        reader.polled(received).port == reader.port,
{
}

/// A poll reports an error of the transfer, except that there is no packet, and nothing where it
/// has made no attempt for want of room.
pub proof fn law_poll_reports_errors_of_the_transfer(
    reader: ReaderView,
    received: Result<Seq<u8>, UsbError>,
)
    ensures
        ({
            let room = reader.queue.len() + reader.class.endpoints.max_packet_size
                <= reader.capacity;
            &&& !room || received is Ok || received == Err::<Seq<u8>, UsbError>(
                UsbError::WouldBlock,
            ) ==> reader.poll_result(received) == Ok::<(), UsbError>(())
            &&& received matches Err(err) ==> (room && err != UsbError::WouldBlock
                ==> reader.poll_result(received) == Err::<(), UsbError>(err))
        }),
{
}

/// A read that does not fail hands out the front of what is queued once the packet at hand, if it
/// fits, has been received: all of it, or as much as there is space for. The rest stays queued.
/// It blocks where there is nothing, and reports the number of bytes handed out otherwise. A read
/// into some space never reports that it has read nothing.
pub proof fn law_read_hands_out_all_there_is_space_for(
    reader: ReaderView,
    len: nat,
    received: Result<Seq<u8>, UsbError>,
)
    requires
        len <= usize::MAX,
        reader.queue.len() + reader.class.endpoints.max_packet_size > reader.capacity
            || received is Ok || received == Err::<Seq<u8>, UsbError>(UsbError::WouldBlock),
    ensures
        ({
            let room = reader.queue.len() + reader.class.endpoints.max_packet_size
                <= reader.capacity;
            let bytes = reader.bytes_of_read(len, received);
            let after = reader.after_read(len, received);
            let result = reader.read_result(len, received);
            let all = bytes + after.queue;
            &&& room ==> (received matches Ok(packet) ==> all == reader.queue + packet)
            &&& (!room || received is Err) ==> all == reader.queue
            &&& bytes.len() <= len
            &&& bytes.len() == len || after.queue.len() == 0
            &&& after.class == reader.class
            &&& after.capacity == reader.capacity
            &&& after.port == reader.port
            &&& result == if all.len() == 0 {
                Err::<usize, UsbError>(UsbError::WouldBlock)
            } else {
                Ok::<usize, UsbError>(bytes.len() as usize)
            }
            &&& len > 0 ==> result != Ok::<usize, UsbError>(0)
        }),
{
    let mid = reader.polled(received);
    let bytes = reader.bytes_of_read(len, received);
    assert(bytes + reader.after_read(len, received).queue =~= mid.queue);
}

/// A read that fails reports the error of the transfer, hands out nothing and changes nothing.
pub proof fn law_failed_read_changes_nothing(reader: ReaderView, len: nat, err: UsbError)
    requires
        reader.queue.len() + reader.class.endpoints.max_packet_size <= reader.capacity,
        err != UsbError::WouldBlock,
    ensures
        reader.read_result(len, Err(err)) == Err::<usize, UsbError>(err),
        reader.bytes_of_read(len, Err(err)).len() == 0,
        reader.after_read(len, Err(err)).queue == reader.queue,
        reader.after_read(len, Err(err)).class == reader.class,
        reader.after_read(len, Err(err)).capacity == reader.capacity,
        reader.after_read(len, Err(err)).port == reader.port,
        reader.read_word_result(Err(err)) == Err::<u8, NbError>(NbError::Other(err)),
{
    assert(reader.queue.skip(0) =~= reader.queue);
}

/// The bytes handed out go to the front of the space given, and the space behind them stays as it
/// was.
pub proof fn law_read_fills_from_the_front(
    reader: ReaderView,
    data: Seq<u8>,
    received: Result<Seq<u8>, UsbError>,
)
    ensures
        ({
            let bytes = reader.bytes_of_read(data.len(), received);
            let filled = reader.data_after_read(data, received);
            &&& filled.len() == data.len()
            &&& forall|i: int| 0 <= i < bytes.len() ==> filled[i] == bytes[i]
            &&& forall|i: int| bytes.len() <= i < data.len() ==> filled[i] == data[i]
        }),
{
}

/// A read of one word takes the front of the queue, or blocks where there is none.
pub proof fn law_word_is_taken_from_the_front(
    reader: ReaderView,
    received: Result<Seq<u8>, UsbError>,
)
    requires
        reader.queue.len() + reader.class.endpoints.max_packet_size > reader.capacity
            || received is Ok || received == Err::<Seq<u8>, UsbError>(UsbError::WouldBlock),
    ensures
        reader.queue.len() > 0 ==> {
            &&& reader.read_word_result(received) == Ok::<u8, NbError>(reader.queue[0])
            &&& reader.queue.len() + reader.class.endpoints.max_packet_size > reader.capacity
                || received is Err ==> reader.after_read(1, received).queue == reader.queue.skip(1)
        },
        reader.queue.len() == 0 && received is Err ==> reader.read_word_result(received) == Err::<
            u8,
            NbError,
        >(NbError::WouldBlock),
        reader.queue.len() == 0 && reader.class.endpoints.max_packet_size <= reader.capacity ==> (
        received matches Ok(packet) ==> {
            &&& packet.len() > 0 ==> {
                &&& reader.read_word_result(received) == Ok::<u8, NbError>(packet[0])
                &&& reader.after_read(1, received).queue == packet.skip(1)
            }
            &&& packet.len() == 0 ==> reader.read_word_result(received) == Err::<u8, NbError>(
                NbError::WouldBlock,
            )
        }),
        reader.queue.len() == 0 && reader.class.endpoints.max_packet_size > reader.capacity
            ==> reader.read_word_result(received) == Err::<u8, NbError>(NbError::WouldBlock),
{
    if let Ok(packet) = received {
        if reader.queue.len() == 0 && reader.class.endpoints.max_packet_size <= reader.capacity {
            assert(reader.queue + packet =~= packet);
        }
    }
}

/// While nothing is received, two reads hand out what one read into the space of both would.
pub proof fn law_reads_can_be_cut(reader: ReaderView, first: nat, second: nat)
    ensures
        ({
            let none = Err::<Seq<u8>, UsbError>(UsbError::WouldBlock);
            let mid = reader.after_read(first, none);
            &&& reader.bytes_of_read(first, none) + mid.bytes_of_read(second, none)
                == reader.bytes_of_read(first + second, none)
            &&& mid.after_read(second, none).queue == reader.after_read(
                first + second,
                none,
            ).queue
        }),
{
    let none = Err::<Seq<u8>, UsbError>(UsbError::WouldBlock);
    let mid = reader.after_read(first, none);
    assert(reader.bytes_of_read(first, none) + mid.bytes_of_read(second, none)
        =~= reader.bytes_of_read(first + second, none));
    assert(mid.after_read(second, none).queue =~= reader.after_read(first + second, none).queue);
}

/// What the host has set plays no part in reading: two readers that differ in nothing else
/// receive, hand out and report the same.
pub proof fn law_line_state_plays_no_part(
    reader: ReaderView,
    lines: LineState,
    len: nat,
    received: Result<Seq<u8>, UsbError>,
)
    ensures
        ({
            let other = ReaderView { class: CdcAcmClass { lines, ..reader.class }, ..reader };
            &&& other.has_room() == reader.has_room()
            &&& other.polled(received).queue == reader.polled(received).queue
            &&& other.poll_result(received) == reader.poll_result(received)
            &&& other.bytes_of_read(len, received) == reader.bytes_of_read(len, received)
            &&& other.after_read(len, received).queue == reader.after_read(len, received).queue
            &&& other.read_result(len, received) == reader.read_result(len, received)
            &&& other.read_word_result(received) == reader.read_word_result(received)
        }),
{
}

/// A port that has not been used holds nothing and is idle, and has the class and the capacities
/// that it was given.
pub proof fn law_fresh_port_is_empty(
    port: int,
    class: CdcAcmClass,
    read_capacity: nat,
    write_capacity: nat,
)
    ensures
        ({
            let fresh = PortView::fresh(port, class, read_capacity, write_capacity);
            &&& fresh.reader.queue.len() == 0
            &&& fresh.writer.queue.len() == 0
            &&& fresh.writer.state == WriteState::Idle
            &&& fresh.reader.class == class
            &&& fresh.writer.endpoints == class.endpoints
            &&& fresh.reader.capacity == read_capacity
            &&& fresh.writer.capacity == write_capacity
            &&& fresh.reader.port == port
            &&& fresh.writer.port == port
        }),
{
}

/// The handles of a port are its two halves as they are, and handles make up the port that has
/// them as its halves.
pub proof fn law_handles_are_the_halves(port: PortView, reader: ReaderView, writer: WriterView)
    ensures
        port.handles().0 == port.reader,
        port.handles().1 == port.writer,
        PortView::of_handles(reader, writer).reader == reader,
        PortView::of_handles(reader, writer).writer == writer,
        serial_port::same_port(reader, writer) <==> reader.port == writer.port
            && reader.class.endpoints == writer.endpoints,
{
}

/// A reset empties the queues and makes the writer idle. The line state is then the one given,
/// and endpoints, capacities and identity stay as they were.
pub proof fn law_reset_empties_the_queues(port: PortView, lines: LineState)
    ensures
        ({
            let reader = port.reader.cleared(lines);
            &&& reader.queue.len() == 0
            &&& reader.class.lines == lines
            &&& reader.class.endpoints == port.reader.class.endpoints
            &&& reader.capacity == port.reader.capacity
            &&& reader.port == port.reader.port
            &&& port.cleared(lines).reader == reader
        }),
        ({
            let writer = port.writer.cleared();
            &&& writer.queue.len() == 0
            &&& writer.state == WriteState::Idle
            &&& writer.endpoints == port.writer.endpoints
            &&& writer.capacity == port.writer.capacity
            &&& writer.port == port.writer.port
            &&& port.cleared(lines).writer == writer
        }),
{
}

/// A transfer towards the host is made on the packet and on nothing else, and what it returns is
/// what is taken for its outcome. All that is asked of it is that it can be made on that packet.
pub proof fn law_transfer_sends_the_packet<F: FnOnce(&[u8]) -> Result<usize, UsbError>>(
    write_packet: F,
    packet: Seq<u8>,
    sent: Result<usize, UsbError>,
)
    ensures
        writer::sends(write_packet, Some(packet), sent) <==> exists|data: &[u8]|
            data@ == packet && #[trigger] call_ensures(write_packet, (data,), sent),
        writer::can_send(write_packet, Some(packet)) <==> forall|data: &[u8]|
            data@ == packet ==> #[trigger] call_requires(write_packet, (data,)),
        writer::can_send(write_packet, None),
{
}

/// A transfer from the host is made on the maximum packet size and on nothing else, and what it
/// returns is what is taken for its outcome. All that is asked of it is that it can be made, and
/// that it returns no packet that is longer. Where the longest packet does not fit, nothing is.
pub proof fn law_transfer_receives_a_packet<F: FnOnce(usize) -> Result<Vec<u8>, UsbError>>(
    read_packet: F,
    reader: ReaderView,
    received: Result<Seq<u8>, UsbError>,
)
    ensures
        ({
            let size = reader.class.endpoints.max_packet_size as usize;
            let room = reader.queue.len() + size <= reader.capacity;
            &&& room && reader::receives(read_packet, reader, received) ==> exists|
                packet: Result<Vec<u8>, UsbError>,
            |
                {
                    &&& #[trigger] call_ensures(read_packet, (size,), packet)
                    &&& packet matches Ok(bytes) ==> received == Ok::<Seq<u8>, UsbError>(bytes@)
                    &&& packet matches Err(err) ==> received == Err::<Seq<u8>, UsbError>(err)
                }
            &&& !room ==> reader::can_receive(read_packet, reader)
            &&& room ==> (reader::can_receive(read_packet, reader) <==> {
                &&& call_requires(read_packet, (size,))
                &&& forall|packet: Vec<u8>| #[trigger]
                    call_ensures(read_packet, (size,), Ok::<Vec<u8>, UsbError>(packet))
                        ==> packet@.len() <= size
            })
        }),
{
}

/// What a packet received is taken for is its bytes, or the error instead of it.
pub proof fn law_packet_is_its_bytes(packet: Vec<u8>, err: UsbError)
    ensures
        reader::packet_view(Ok(packet)) == Ok::<Seq<u8>, UsbError>(packet@),
        reader::packet_view(Err(err)) == Err::<Seq<u8>, UsbError>(err),
{
}

/// A class is asked for with 64 byte packets and the names given. All that is asked of its making
/// is that it can be done on these, and that the packets can carry something.
pub proof fn law_class_is_asked_for_64_byte_packets<
    F: FnOnce(u16, Option<&'static str>, Option<&'static str>) -> CdcAcmClass,
>(make_class: F, comm_if_name: Option<&'static str>, data_if_name: Option<&'static str>)
    ensures
        serial_port::can_make_class(make_class, comm_if_name, data_if_name) <==> {
            &&& call_requires(make_class, (64u16, comm_if_name, data_if_name))
            &&& forall|class: CdcAcmClass| #[trigger]
                call_ensures(make_class, (64u16, comm_if_name, data_if_name), class)
                    ==> class.endpoints.max_packet_size >= 1
        },
{
}

} // verus!
