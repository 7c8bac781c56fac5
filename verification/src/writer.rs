//! The half of a serial port that sends to the host.

use vstd::prelude::*;

use crate::buffer::{Buffer, BufferStore, DefaultBufferStore};
use crate::cdc_acm::Endpoints;
use crate::error::{nb_error, NbError, UsbError};

verus! {

/// If this many full size packets have been sent in a row, a short packet will be sent so that
/// the host sees the data in a timely manner.
pub const SHORT_PACKET_INTERVAL: usize = 10;

/// Keeps track of the type of the last written packet.
#[derive(Debug, Clone, Copy, PartialEq, Eq, Structural)]
pub enum WriteState {
    /// No packets in-flight.
    Idle,
    /// Short packet currently in-flight.
    Short,
    /// Full packet currently in-flight. A full packet must be followed by a short packet for the
    /// host OS to see the transaction. The data is the number of subsequent full packets sent so
    /// far. A short packet is forced every [`SHORT_PACKET_INTERVAL`] packets so that the OS sees
    /// data in a timely manner.
    Full(usize),
}

/// What a [`SerialWriter`] holds.
#[verifier::ext_equal]
pub struct WriterView {
    /// The identity of the port.
    pub port: int,
    /// The endpoints of the port.
    pub endpoints: Endpoints,
    /// The bytes accepted from the application and not yet handed to the hardware, oldest first.
    pub queue: Seq<u8>,
    /// The most bytes that `queue` can hold.
    pub capacity: nat,
    /// The type of the last packet sent.
    pub state: WriteState,
}

impl WriterView {
    /// The queue is within its capacity, and the run of full packets within its bound.
    pub open spec fn wf(self) -> bool {
        &&& self.endpoints.max_packet_size >= 1
        &&& self.queue.len() <= self.capacity
        &&& (self.state matches WriteState::Full(count) ==> 1 <= count <= SHORT_PACKET_INTERVAL)
    }

    /// The number of full packets sent since the last packet that was not full.
    pub open spec fn full_count(self) -> nat {
        match self.state {
            WriteState::Full(count) => count as nat,
            _ => 0,
        }
    }

    /// The most bytes that the next packet may hold. A full packet is out of the question once
    /// [`SHORT_PACKET_INTERVAL`] of them have been sent in a row.
    pub open spec fn packet_limit(self) -> int {
        if self.full_count() >= SHORT_PACKET_INTERVAL {
            self.endpoints.max_packet_size - 1
        } else {
            self.endpoints.max_packet_size as int
        }
    }

    /// The packet that is to be sent next, if any: the oldest bytes of the queue, or an empty
    /// packet where the queue is empty and the last packet was full.
    pub open spec fn next_packet(self) -> Option<Seq<u8>> {
        if self.queue.len() > 0 {
            Some(self.queue.take(vstd::math::min(self.packet_limit(), self.queue.len() as int)))
        } else if self.full_count() != 0 {
            Some(Seq::<u8>::empty())
        } else {
            None
        }
    }

    /// The writer after an attempt to send the next packet that came out as `sent`. A packet that
    /// the hardware has taken leaves the queue; one that it has not stays as it was. With nothing
    /// to send the writer is idle.
    pub open spec fn flushed(self, sent: Result<usize, UsbError>) -> WriterView {
        match (self.next_packet(), sent) {
            (None, _) => WriterView { state: WriteState::Idle, ..self },
            (Some(packet), Ok(_)) => WriterView {
                queue: self.queue.skip(packet.len() as int),
                state: if packet.len() == self.endpoints.max_packet_size {
                    WriteState::Full((self.full_count() + 1) as usize)
                } else {
                    WriteState::Short
                },
                ..self
            },
            (Some(_), Err(_)) => self,
        }
    }

    /// What a flush reports where the attempt to send the next packet came out as `sent`: an error
    /// of the attempt, or else whether anything remains to be sent.
    pub open spec fn flush_result(self, sent: Result<usize, UsbError>) -> Result<(), UsbError> {
        match (self.next_packet(), sent) {
            (Some(_), Err(err)) => Err(err),
            _ => if self.flushed(sent).next_packet() is None {
                Ok(())
            } else {
                Err(UsbError::WouldBlock)
            },
        }
    }

    /// The writer with nothing buffered and no packet in flight.
    pub open spec fn cleared(self) -> WriterView {
        WriterView { queue: Seq::<u8>::empty(), state: WriteState::Idle, ..self }
    }

    /// The number of bytes accepted out of `len`.
    pub open spec fn accepted_len(self, len: nat) -> int {
        vstd::math::min(len as int, self.capacity - self.queue.len())
    }

    /// The writer once it has accepted what it can of `data`.
    pub open spec fn pushed(self, data: Seq<u8>) -> WriterView {
        WriterView { queue: self.queue + data.take(self.accepted_len(data.len())), ..self }
    }

    /// The packet that a write of `data` sends, if any.
    pub open spec fn packet_of_write(self, data: Seq<u8>) -> Option<Seq<u8>> {
        self.pushed(data).next_packet()
    }

    /// The writer after a write of `data` whose attempt to send came out as `sent`.
    pub open spec fn written(self, data: Seq<u8>, sent: Result<usize, UsbError>) -> WriterView {
        self.pushed(data).flushed(sent)
    }

    /// What a write of `data` reports where its attempt to send came out as `sent`: an error of
    /// the transfer, that the buffer was full, or the number of bytes accepted.
    pub open spec fn write_result(
        self,
        data: Seq<u8>,
        sent: Result<usize, UsbError>,
    ) -> Result<usize, UsbError> {
        match self.pushed(data).flush_result(sent) {
            Err(err) if err != UsbError::WouldBlock => Err(err),
            _ => if self.queue.len() == self.capacity {
                Err(UsbError::WouldBlock)
            } else {
                Ok(self.accepted_len(data.len()) as usize)
            },
        }
    }
}

/// What a write of one word reports where the write of it as a byte reports `result`.
pub open spec fn word_written(result: Result<usize, UsbError>) -> Result<(), NbError> {
    match result {
        Ok(count) => if count == 0 {
            Err(NbError::WouldBlock)
        } else {
            Ok(())
        },
        Err(err) => Err(crate::error::nb_error_of(err)),
    }
}

/// What a flush reports in non-blocking form.
pub open spec fn words_flushed(result: Result<(), UsbError>) -> Result<(), NbError> {
    match result {
        Ok(_) => Ok(()),
        Err(err) => Err(crate::error::nb_error_of(err)),
    }
}

/// Whether `write_packet`, where there is a packet to send, was called on that packet and
/// returned `sent`.
pub open spec fn sends<F: FnOnce(&[u8]) -> Result<usize, UsbError>>(
    write_packet: F,
    packet: Option<Seq<u8>>,
    sent: Result<usize, UsbError>,
) -> bool {
    packet matches Some(bytes) ==> exists|data: &[u8]|
        data@ == bytes && #[trigger] call_ensures(write_packet, (data,), sent)
}

/// Whether `write_packet` can be called on `packet`, where there is one. This is all that a caller
/// vouches for, so `write_packet` is called on nothing else, and not at all without a packet.
pub open spec fn can_send<F: FnOnce(&[u8]) -> Result<usize, UsbError>>(
    write_packet: F,
    packet: Option<Seq<u8>>,
) -> bool {
    packet matches Some(bytes) ==> forall|data: &[u8]|
        data@ == bytes ==> #[trigger] call_requires(write_packet, (data,))
}

/// Writer handle for split serial port access.
pub struct SerialWriter<WS = DefaultBufferStore> {
    port: Ghost<int>,
    endpoints: Endpoints,
    write_buf: Buffer<WS>,
    write_state: WriteState,
}

impl<WS: BufferStore> View for SerialWriter<WS> {
    type V = WriterView;

    closed spec fn view(&self) -> WriterView {
        WriterView {
            port: self.port@,
            endpoints: self.endpoints,
            queue: self.write_buf@,
            capacity: self.write_buf.capacity(),
            state: self.write_state,
        }
    }
}

impl<WS: BufferStore> SerialWriter<WS> {
    /// The invariant of a writer.
    pub closed spec fn wf(&self) -> bool {
        self.write_buf.wf() && self@.wf()
    }

    /// What the invariant says of the contents.
    pub proof fn lemma_view_wf(&self)
        requires
            self.wf(),
        ensures
            self@.wf(),
    {
    }

    /// Creates an idle writer with an empty buffer over `write_store`.
    pub(crate) fn new(
        port: Ghost<int>,
        endpoints: Endpoints,
        write_store: WS,
    ) -> (writer: Self)
        requires
            endpoints.max_packet_size >= 1,
        ensures
            writer.wf(),
            writer@ == (WriterView {
                port: port@,
                endpoints,
                queue: Seq::<u8>::empty(),
                capacity: write_store.bytes().len(),
                state: WriteState::Idle,
            }),
    {
        SerialWriter {
            port,
            endpoints,
            write_buf: Buffer::new(write_store),
            write_state: WriteState::Idle,
        }
    }

    /// Called after a USB reset. Drops what is buffered and forgets the packets sent so far.
    pub fn reset(&mut self)
        requires
            old(self).wf(),
        ensures
            final(self).wf(),
            final(self)@ == old(self)@.cleared(),
            final(self)@.queue.len() == 0,
            final(self)@.next_packet() is None,
    {
        self.write_buf.clear();
        self.write_state = WriteState::Idle;
    }

    /// The packet that is to be sent next, if any.
    pub fn next_packet(&self) -> (packet: Option<&[u8]>)
        requires
            self.wf(),
        ensures
            packet matches Some(bytes) ==> self@.next_packet() == Some(bytes@),
            packet is None ==> self@.next_packet() is None,
    {
        let full_count: usize = match self.write_state {
            WriteState::Full(count) => count,
            _ => 0,
        };
        if self.write_buf.available_read() > 0 {
            // There's data in the write_buf, so try to write that first.
            let max_write_size: u16 = if full_count >= SHORT_PACKET_INTERVAL {
                self.endpoints.max_packet_size - 1
            } else {
                self.endpoints.max_packet_size
            };
            Some(self.write_buf.peek(max_write_size as usize))
        } else if full_count != 0 {
            // Write a ZLP to complete the transaction if there's nothing else to write and the
            // last packet was a full one.
            Some(self.write_buf.peek(0))
        } else {
            // No data left in write_buf.
            None
        }
    }

    /// Records that the attempt to send the next packet came out as `sent`, and returns what the
    /// flush that made the attempt reports. With nothing to send, `sent` is not looked at.
    pub fn complete_flush(&mut self, sent: Result<usize, UsbError>) -> (result: Result<
        (),
        UsbError,
    >)
        requires
            old(self).wf(),
        ensures
            final(self).wf(),
            final(self)@ == old(self)@.flushed(sent),
            result == old(self)@.flush_result(sent),
    {
        let full_count: usize = match self.write_state {
            WriteState::Full(count) => count,
            _ => 0,
        };
        let packet_len: usize = match self.next_packet() {
            Some(packet) => packet.len(),
            None => {
                self.write_state = WriteState::Idle;
                return Ok(());
            },
        };
        match sent {
            Ok(_) => {
                self.write_buf.consume(packet_len);
                self.write_state = if packet_len == self.endpoints.max_packet_size as usize {
                    WriteState::Full(full_count + 1)
                } else {
                    WriteState::Short
                };
                match self.next_packet() {
                    Some(_) => Err(UsbError::WouldBlock),
                    None => Ok(()),
                }
            },
            Err(err) => Err(err),
        }
    }

    /// Sends as much as possible of the current write buffer. Returns `Ok` if all data that has
    /// been written has been completely written to hardware buffers, `Err(WouldBlock)` if there
    /// is still data remaining, and other errors if there's an error sending data to the host.
    /// Note that even if this method returns `Ok`, data may still be in hardware buffers on
    /// either side.
    ///
    /// The empty packet that closes a transaction counts as data remaining.
    ///
    /// `write_packet` hands one packet to the hardware. It is called at most once.
    pub fn flush<F: FnOnce(&[u8]) -> Result<usize, UsbError>>(
        &mut self,
        write_packet: F,
    ) -> (result: Result<(), UsbError>)
        requires
            old(self).wf(),
            can_send(write_packet, old(self)@.next_packet()),
        ensures
            final(self).wf(),
            exists|sent: Result<usize, UsbError>|
                {
                    &&& #[trigger] sends(write_packet, old(self)@.next_packet(), sent)
                    &&& final(self)@ == old(self)@.flushed(sent)
                    &&& result == old(self)@.flush_result(sent)
                },
            result is Ok <==> final(self)@.next_packet() is None,
    {
        let sent = match self.next_packet() {
            Some(packet) => write_packet(packet),
            None => Ok(0),
        };
        assert(sends(write_packet, old(self)@.next_packet(), sent));
        self.complete_flush(sent)
    }

    /// Writes bytes from `data` into the port and returns the number of bytes written.
    ///
    /// # Errors
    ///
    /// * `WouldBlock` - No bytes could be written because the buffers are full.
    ///
    /// Other errors of `write_packet` may also be propagated. The bytes are in the write buffer
    /// all the same.
    pub fn write<F: FnOnce(&[u8]) -> Result<usize, UsbError>>(
        &mut self,
        data: &[u8],
        write_packet: F,
    ) -> (result: Result<usize, UsbError>)
        requires
            old(self).wf(),
            can_send(write_packet, old(self)@.packet_of_write(data@)),
        ensures
            final(self).wf(),
            exists|sent: Result<usize, UsbError>|
                {
                    &&& #[trigger] sends(write_packet, old(self)@.packet_of_write(data@), sent)
                    &&& final(self)@ == old(self)@.written(data@, sent)
                    &&& result == old(self)@.write_result(data@, sent)
                },
            result matches Ok(count) ==> {
                &&& count <= data@.len()
                &&& old(self)@.queue.len() + count <= old(self)@.capacity
                &&& count == data@.len() || old(self)@.queue.len() + count == old(self)@.capacity
            },
    {
        let full: bool = self.write_buf.available_write() == 0;
        let count: usize = self.write_buf.write(data);
        assert(self@ == old(self)@.pushed(data@));
        match self.flush(write_packet) {
            Ok(_) | Err(UsbError::WouldBlock) => {},
            Err(err) => {
                return Err(err);
            },
        }
        if full {
            Err(UsbError::WouldBlock)
        } else {
            Ok(count)
        }
    }

    /// Writes a single word.
    ///
    /// # Errors
    ///
    /// * `WouldBlock` - The word could not be written because the buffers are full.
    /// * `Other` - An error of `write_packet`.
    pub fn write_word<F: FnOnce(&[u8]) -> Result<usize, UsbError>>(
        &mut self,
        word: u8,
        write_packet: F,
    ) -> (result: Result<(), NbError>)
        requires
            old(self).wf(),
            can_send(write_packet, old(self)@.packet_of_write(seq![word])),
        ensures
            final(self).wf(),
            exists|sent: Result<usize, UsbError>|
                {
                    &&& #[trigger] sends(write_packet, old(self)@.packet_of_write(seq![word]), sent)
                    &&& final(self)@ == old(self)@.written(seq![word], sent)
                    &&& result == word_written(old(self)@.write_result(seq![word], sent))
                },
    {
        let words: [u8; 1] = [word];
        assert(words@ =~= seq![word]);
        match self.write(words.as_slice(), write_packet) {
            Ok(0) => Err(NbError::WouldBlock),
            Ok(_) => Ok(()),
            Err(err) => Err(nb_error(err)),
        }
    }

    /// Ensures that none of the previously written words are still buffered.
    ///
    /// # Errors
    ///
    /// * `WouldBlock` - There is still data remaining.
    /// * `Other` - An error of `write_packet`.
    pub fn flush_words<F: FnOnce(&[u8]) -> Result<usize, UsbError>>(
        &mut self,
        write_packet: F,
    ) -> (result: Result<(), NbError>)
        requires
            old(self).wf(),
            can_send(write_packet, old(self)@.next_packet()),
        ensures
            final(self).wf(),
            exists|sent: Result<usize, UsbError>|
                {
                    &&& #[trigger] sends(write_packet, old(self)@.next_packet(), sent)
                    &&& final(self)@ == old(self)@.flushed(sent)
                    &&& result == words_flushed(old(self)@.flush_result(sent))
                },
    {
        match self.flush(write_packet) {
            Ok(_) => Ok(()),
            Err(err) => Err(nb_error(err)),
        }
    }

    /// Called when the endpoint with address `addr` has completed transmitting data. Sends on
    /// where that is the endpoint of this port, whatever comes of it, and does nothing otherwise.
    pub fn endpoint_in_complete<F: FnOnce(&[u8]) -> Result<usize, UsbError>>(
        &mut self,
        addr: u8,
        write_packet: F,
    )
        requires
            old(self).wf(),
            addr == old(self)@.endpoints.write_ep ==> can_send(
                write_packet,
                old(self)@.next_packet(),
            ),
        ensures
            final(self).wf(),
            addr == old(self)@.endpoints.write_ep ==> exists|sent: Result<usize, UsbError>|
                {
                    &&& #[trigger] sends(write_packet, old(self)@.next_packet(), sent)
                    &&& final(self)@ == old(self)@.flushed(sent)
                },
            addr != old(self)@.endpoints.write_ep ==> final(self)@ == old(self)@,
    {
        if addr == self.endpoints.write_ep {
            let _ = self.flush(write_packet);
        }
    }
}

} // verus!
