//! The half of a serial port that receives from the host.

use vstd::prelude::*;

use crate::buffer::{Buffer, BufferStore, DefaultBufferStore};
use crate::cdc_acm::{CdcAcmClass, LineState};
use crate::error::{nb_error, NbError, UsbError};

verus! {

/// What a [`SerialReader`] holds.
#[verifier::ext_equal]
pub struct ReaderView {
    /// The identity of the port.
    pub port: int,
    /// The class that carries the packets of the port.
    pub class: CdcAcmClass,
    /// The bytes received from the host and not yet read by the application, oldest first.
    pub queue: Seq<u8>,
    /// The most bytes that `queue` can hold.
    pub capacity: nat,
}

impl ReaderView {
    /// The queue is within its capacity.
    pub open spec fn wf(self) -> bool {
        &&& self.class.endpoints.max_packet_size >= 1
        &&& self.queue.len() <= self.capacity
    }

    /// Whether a packet fits in the queue, however long it is.
    pub open spec fn has_room(self) -> bool {
        self.capacity - self.queue.len() >= self.class.endpoints.max_packet_size
    }

    /// The reader after an attempt to receive a packet that came out as `received`. Without room
    /// for a packet there is no attempt.
    pub open spec fn polled(self, received: Result<Seq<u8>, UsbError>) -> ReaderView {
        match received {
            Ok(packet) if self.has_room() => ReaderView { queue: self.queue + packet, ..self },
            _ => self,
        }
    }

    /// What a poll reports where the attempt to receive a packet came out as `received`. That
    /// there is no packet, or no room for one, is no error.
    pub open spec fn poll_result(self, received: Result<Seq<u8>, UsbError>) -> Result<
        (),
        UsbError,
    > {
        match received {
            Err(err) if self.has_room() && err != UsbError::WouldBlock => Err(err),
            _ => Ok(()),
        }
    }

    /// The number of bytes handed out to an application that has room for `len`.
    pub open spec fn taken_len(self, len: nat) -> int {
        vstd::math::min(len as int, self.queue.len() as int)
    }

    /// The bytes that a read into `len` bytes hands out, where the attempt to receive a packet
    /// came out as `received`.
    pub open spec fn bytes_of_read(self, len: nat, received: Result<Seq<u8>, UsbError>) -> Seq<u8> {
        if self.poll_result(received) is Err {
            Seq::<u8>::empty()
        } else {
            self.polled(received).queue.take(self.polled(received).taken_len(len))
        }
    }

    /// What `data` holds after a read into it, where the attempt to receive a packet came out as
    /// `received`: the bytes handed out, and behind them what it held before.
    pub open spec fn data_after_read(
        self,
        data: Seq<u8>,
        received: Result<Seq<u8>, UsbError>,
    ) -> Seq<u8> {
        let bytes = self.bytes_of_read(data.len(), received);
        bytes + data.skip(bytes.len() as int)
    }

    /// The reader after a read into `len` bytes, where the attempt to receive a packet came out
    /// as `received`.
    pub open spec fn after_read(self, len: nat, received: Result<Seq<u8>, UsbError>) -> ReaderView {
        ReaderView {
            queue: self.polled(received).queue.skip(
                self.bytes_of_read(len, received).len() as int,
            ),
            ..self
        }
    }

    /// What a read into `len` bytes reports, where the attempt to receive a packet came out as
    /// `received`: an error of the transfer, that there is nothing to read, or the number of
    /// bytes read.
    pub open spec fn read_result(self, len: nat, received: Result<Seq<u8>, UsbError>) -> Result<
        usize,
        UsbError,
    > {
        match self.poll_result(received) {
            Err(err) => Err(err),
            Ok(_) => if self.polled(received).queue.len() == 0 {
                Err(UsbError::WouldBlock)
            } else {
                Ok(self.polled(received).taken_len(len) as usize)
            },
        }
    }

    /// What a read of one word reports, where the attempt to receive a packet came out as
    /// `received`.
    pub open spec fn read_word_result(self, received: Result<Seq<u8>, UsbError>) -> Result<
        u8,
        NbError,
    > {
        match self.read_result(1, received) {
            Err(err) => Err(crate::error::nb_error_of(err)),
            Ok(_) => Ok(self.polled(received).queue[0]),
        }
    }

    /// The reader with nothing buffered, and with `lines` as what the host has set.
    pub open spec fn cleared(self, lines: LineState) -> ReaderView {
        ReaderView {
            class: CdcAcmClass { lines, ..self.class },
            queue: Seq::<u8>::empty(),
            ..self
        }
    }
}

/// The bytes of a packet received, or the error instead of it.
pub open spec fn packet_view(received: Result<Vec<u8>, UsbError>) -> Result<Seq<u8>, UsbError> {
    match received {
        Ok(packet) => Ok(packet@),
        Err(err) => Err(err),
    }
}

/// Whether `read_packet`, where there is room for a packet, was called on the maximum packet size
/// and returned `received`.
pub open spec fn receives<F: FnOnce(usize) -> Result<Vec<u8>, UsbError>>(
    read_packet: F,
    reader: ReaderView,
    received: Result<Seq<u8>, UsbError>,
) -> bool {
    reader.has_room() ==> exists|packet: Result<Vec<u8>, UsbError>|
        {
            &&& #[trigger] call_ensures(
                read_packet,
                (reader.class.endpoints.max_packet_size as usize,),
                packet,
            )
            &&& received == packet_view(packet)
        }
}

/// Whether `read_packet`, where there is room for a packet, can be called on the maximum packet
/// size, and returns no packet that is longer. This is all that a caller vouches for, so
/// `read_packet` is called on nothing else, and not at all without room.
pub open spec fn can_receive<F: FnOnce(usize) -> Result<Vec<u8>, UsbError>>(
    read_packet: F,
    reader: ReaderView,
) -> bool {
    let size = reader.class.endpoints.max_packet_size as usize;
    reader.has_room() ==> {
        &&& call_requires(read_packet, (size,))
        &&& forall|packet: Vec<u8>|
            call_ensures(read_packet, (size,), Ok::<Vec<u8>, UsbError>(packet)) ==> packet@.len()
                <= size
    }
}

/// Reader handle for split serial port access.
pub struct SerialReader<RS = DefaultBufferStore> {
    port: Ghost<int>,
    class: CdcAcmClass,
    read_buf: Buffer<RS>,
}

impl<RS: BufferStore> View for SerialReader<RS> {
    type V = ReaderView;

    closed spec fn view(&self) -> ReaderView {
        ReaderView {
            port: self.port@,
            class: self.class,
            queue: self.read_buf@,
            capacity: self.read_buf.capacity(),
        }
    }
}

impl<RS: BufferStore> SerialReader<RS> {
    /// The invariant of a reader.
    pub closed spec fn wf(&self) -> bool {
        self.read_buf.wf() && self@.wf()
    }

    /// What the invariant says of the contents.
    pub proof fn lemma_view_wf(&self)
        requires
            self.wf(),
        ensures
            self@.wf(),
    {
    }

    /// Creates a reader with an empty buffer over `read_store`.
    pub(crate) fn new(port: Ghost<int>, class: CdcAcmClass, read_store: RS) -> (reader: Self)
        requires
            class.endpoints.max_packet_size >= 1,
        ensures
            reader.wf(),
            reader@ == (ReaderView {
                port: port@,
                class,
                queue: Seq::<u8>::empty(),
                capacity: read_store.bytes().len(),
            }),
    {
        SerialReader { port, class, read_buf: Buffer::new(read_store) }
    }

    /// What the host has set.
    pub fn line_state(&self) -> (lines: &LineState)
        ensures
            *lines == self@.class.lines,
    {
        &self.class.lines
    }

    /// Takes over what the host has set by a control request.
    pub fn set_line_state(&mut self, lines: LineState)
        requires
            old(self).wf(),
        ensures
            final(self).wf(),
            final(self)@ == (ReaderView {
                class: CdcAcmClass { lines, ..old(self)@.class },
                ..old(self)@
            }),
    {
        self.class.lines = lines;
    }

    /// Called after a USB reset, which left `lines` as what the host has set. Drops what is
    /// buffered.
    pub fn reset(&mut self, lines: LineState)
        requires
            old(self).wf(),
        ensures
            final(self).wf(),
            final(self)@ == old(self)@.cleared(lines),
            final(self)@.queue.len() == 0,
            final(self)@.class.lines == lines,
            final(self)@.class.endpoints == old(self)@.class.endpoints,
    {
        self.class.lines = lines;
        self.read_buf.clear();
    }

    /// Whether a packet fits in the read buffer, however long it is.
    pub fn has_room(&self) -> (room: bool)
        requires
            self.wf(),
        ensures
            room == self@.has_room(),
            room == (self@.queue.len() + self@.class.endpoints.max_packet_size <= self@.capacity),
    {
        self.read_buf.available_write() >= self.class.endpoints.max_packet_size as usize
    }

    /// Records that the attempt to receive a packet came out as `received`, and returns what the
    /// poll that made the attempt reports. Without room for a packet, `received` is not looked at.
    pub fn complete_poll(&mut self, received: Result<Vec<u8>, UsbError>) -> (result: Result<
        (),
        UsbError,
    >)
        requires
            old(self).wf(),
            received matches Ok(packet) ==> packet@.len()
                <= old(self)@.class.endpoints.max_packet_size,
        ensures
            final(self).wf(),
            final(self)@ == old(self)@.polled(packet_view(received)),
            result == old(self)@.poll_result(packet_view(received)),
    {
        if !self.has_room() {
            return Ok(());
        }
        match received {
            Ok(packet) => {
                let count: usize = self.read_buf.write(packet.as_slice());
                assert(packet@.take(count as int) =~= packet@);
                Ok(())
            },
            Err(UsbError::WouldBlock) => Ok(()),
            Err(err) => Err(err),
        }
    }

    /// Polls the endpoint and tries to put what it has into the read buffer.
    ///
    /// `read_packet` takes one packet, of at most as many bytes as it is given, from the
    /// hardware. It is called at most once, and only where the packet fits.
    pub fn poll<F: FnOnce(usize) -> Result<Vec<u8>, UsbError>>(
        &mut self,
        read_packet: F,
    ) -> (result: Result<(), UsbError>)
        requires
            old(self).wf(),
            can_receive(read_packet, old(self)@),
        ensures
            final(self).wf(),
            exists|received: Result<Seq<u8>, UsbError>|
                {
                    &&& #[trigger] receives(read_packet, old(self)@, received)
                    &&& final(self)@ == old(self)@.polled(received)
                    &&& result == old(self)@.poll_result(received)
                },
    {
        if !self.has_room() {
            assert(receives(read_packet, old(self)@, Err(UsbError::WouldBlock)));
            return Ok(());
        }
        let received = read_packet(self.class.endpoints.max_packet_size as usize);
        assert(receives(read_packet, old(self)@, packet_view(received)));
        self.complete_poll(received)
    }

    /// Reads bytes from the port into `data` and returns the number of bytes read.
    ///
    /// # Errors
    ///
    /// * `WouldBlock` - No bytes available for reading.
    ///
    /// Other errors of `read_packet` may also be propagated.
    pub fn read<F: FnOnce(usize) -> Result<Vec<u8>, UsbError>>(
        &mut self,
        data: &mut [u8],
        read_packet: F,
    ) -> (result: Result<usize, UsbError>)
        requires
            old(self).wf(),
            can_receive(read_packet, old(self)@),
        ensures
            final(self).wf(),
            exists|received: Result<Seq<u8>, UsbError>|
                {
                    &&& #[trigger] receives(read_packet, old(self)@, received)
                    &&& final(data)@ == old(self)@.data_after_read(old(data)@, received)
                    &&& final(self)@ == old(self)@.after_read(old(data)@.len(), received)
                    &&& result == old(self)@.read_result(old(data)@.len(), received)
                },
            final(data)@.len() == old(data)@.len(),
            result matches Ok(count) ==> {
                &&& count <= old(data)@.len()
                &&& count == old(data)@.len() || final(self)@.queue.len() == 0
                &&& final(data)@.skip(count as int) == old(data)@.skip(count as int)
            },
            result is Err ==> final(data)@ == old(data)@,
    {
        // Try to read a packet from the endpoint and write it into the buffer if it fits.
        // Propagate errors except `WouldBlock`.
        match self.poll(read_packet) {
            Ok(_) => {},
            Err(err) => {
                return Err(err);
            },
        }
        if self.read_buf.available_read() == 0 {
            // No data available for reading.
            return Err(UsbError::WouldBlock);
        }
        Ok(self.read_buf.read(data))
    }

    /// Reads a single word.
    ///
    /// # Errors
    ///
    /// * `WouldBlock` - No word available for reading.
    /// * `Other` - An error of `read_packet`.
    pub fn read_word<F: FnOnce(usize) -> Result<Vec<u8>, UsbError>>(
        &mut self,
        read_packet: F,
    ) -> (result: Result<u8, NbError>)
        requires
            old(self).wf(),
            can_receive(read_packet, old(self)@),
        ensures
            final(self).wf(),
            exists|received: Result<Seq<u8>, UsbError>|
                {
                    &&& #[trigger] receives(read_packet, old(self)@, received)
                    &&& final(self)@ == old(self)@.after_read(1, received)
                    &&& result == old(self)@.read_word_result(received)
                },
    {
        let mut buf: [u8; 1] = [0];
        match self.read(&mut buf, read_packet) {
            Ok(0) => Err(NbError::WouldBlock),
            Ok(_) => Ok(buf[0]),
            Err(err) => Err(nb_error(err)),
        }
    }
}

} // verus!
