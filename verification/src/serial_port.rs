//! The serial port: a reader and a writer over the same endpoints.

use vstd::prelude::*;

use crate::buffer::{BufferStore, DefaultBufferStore};
use crate::cdc_acm::{CdcAcmClass, LineCoding, LineState, MAX_PACKET_SIZE};
use crate::error::{NbError, UsbError};
use crate::reader::{ReaderView, SerialReader};
use crate::writer::{SerialWriter, WriterView};
use crate::{reader, writer};

verus! {

/// What a [`SerialPort`] holds.
#[verifier::ext_equal]
pub struct PortView {
    /// The receiving half.
    pub reader: ReaderView,
    /// The sending half.
    pub writer: WriterView,
}

impl PortView {
    /// Both halves are in order and belong to the same port.
    pub open spec fn wf(self) -> bool {
        &&& self.reader.wf()
        &&& self.writer.wf()
        &&& same_port(self.reader, self.writer)
    }

    /// A port that has not been used.
    pub open spec fn fresh(
        port: int,
        class: CdcAcmClass,
        read_capacity: nat,
        write_capacity: nat,
    ) -> PortView {
        PortView {
            reader: ReaderView { port, class, queue: Seq::<u8>::empty(), capacity: read_capacity },
            writer: WriterView {
                port,
                endpoints: class.endpoints,
                queue: Seq::<u8>::empty(),
                capacity: write_capacity,
                state: writer::WriteState::Idle,
            },
        }
    }

    /// The port that two handles make up.
    pub open spec fn of_handles(reader: ReaderView, writer: WriterView) -> PortView {
        PortView { reader, writer }
    }

    /// The two handles of the port.
    pub open spec fn handles(self) -> (ReaderView, WriterView) {
        (self.reader, self.writer)
    }

    /// The port after a reset of the bus that left `lines` as what the host has set.
    pub open spec fn cleared(self, lines: LineState) -> PortView {
        PortView { reader: self.reader.cleared(lines), writer: self.writer.cleared() }
    }
}

/// Whether `make_class`, on these arguments, can be called and returns a class that can carry
/// data.
pub open spec fn can_make_class<
    F: FnOnce(u16, Option<&'static str>, Option<&'static str>) -> CdcAcmClass,
>(
    make_class: F,
    comm_if_name: Option<&'static str>,
    data_if_name: Option<&'static str>,
) -> bool {
    &&& call_requires(make_class, (MAX_PACKET_SIZE, comm_if_name, data_if_name))
    &&& forall|class: CdcAcmClass| #[trigger]
        call_ensures(make_class, (MAX_PACKET_SIZE, comm_if_name, data_if_name), class)
            ==> class.endpoints.max_packet_size >= 1
}

/// USB (CDC-ACM) serial port with built-in buffering to implement stream-like behavior.
///
/// The RS and WS type arguments specify the storage for the read/write buffers, respectively. By
/// default an internal 128 byte buffer is used for both directions.
pub struct SerialPort<RS = DefaultBufferStore, WS = DefaultBufferStore> {
    reader: SerialReader<RS>,
    writer: SerialWriter<WS>,
}

impl<RS: BufferStore, WS: BufferStore> View for SerialPort<RS, WS> {
    type V = PortView;

    closed spec fn view(&self) -> PortView {
        PortView { reader: self.reader@, writer: self.writer@ }
    }
}

impl SerialPort<DefaultBufferStore, DefaultBufferStore> {
    /// Creates a new USB serial port with 128 byte read/write buffers.
    ///
    /// `make_class` creates the class that carries the packets, given its maximum packet size and
    /// the names of the communication and the data interface.
    pub fn new<F: FnOnce(u16, Option<&'static str>, Option<&'static str>) -> CdcAcmClass>(
        make_class: F,
    ) -> (port: SerialPort<DefaultBufferStore, DefaultBufferStore>)
        requires
            can_make_class(make_class, None, None),
        ensures
            port.wf(),
            call_ensures(make_class, (64u16, None, None), port@.reader.class),
            port@ == PortView::fresh(port@.reader.port, port@.reader.class, 128, 128),
    {
        Self::new_with_interface_names(make_class, None, None)
    }

    /// Same as SerialPort::new, but allows specifying the names of the interfaces.
    pub fn new_with_interface_names<
        F: FnOnce(u16, Option<&'static str>, Option<&'static str>) -> CdcAcmClass,
    >(
        make_class: F,
        comm_if_name: Option<&'static str>,
        data_if_name: Option<&'static str>,
    ) -> (port: SerialPort<DefaultBufferStore, DefaultBufferStore>)
        requires
            can_make_class(make_class, comm_if_name, data_if_name),
        ensures
            port.wf(),
            call_ensures(make_class, (64u16, comm_if_name, data_if_name), port@.reader.class),
            port@ == PortView::fresh(port@.reader.port, port@.reader.class, 128, 128),
    {
        SerialPort::new_with_store_and_interface_names(
            make_class,
            DefaultBufferStore::default(),
            DefaultBufferStore::default(),
            comm_if_name,
            data_if_name,
        )
    }
}

impl<RS: BufferStore, WS: BufferStore> SerialPort<RS, WS> {
    /// The invariant of a port.
    pub closed spec fn wf(&self) -> bool {
        &&& self.reader.wf()
        &&& self.writer.wf()
        &&& self@.wf()
    }

    /// What the invariant says of the contents.
    pub proof fn lemma_view_wf(&self)
        requires
            self.wf(),
        ensures
            self@.wf(),
    {
    }

    /// Creates a new USB serial port with the provided buffer backing stores.
    pub fn new_with_store<
        F: FnOnce(u16, Option<&'static str>, Option<&'static str>) -> CdcAcmClass,
    >(make_class: F, read_store: RS, write_store: WS) -> (port: SerialPort<RS, WS>)
        requires
            can_make_class(make_class, None, None),
        ensures
            port.wf(),
            call_ensures(make_class, (64u16, None, None), port@.reader.class),
            port@ == PortView::fresh(
                port@.reader.port,
                port@.reader.class,
                read_store.bytes().len(),
                write_store.bytes().len(),
            ),
    {
        Self::new_with_store_and_interface_names(make_class, read_store, write_store, None, None)
    }

    /// Creates a new USB serial port with the provided buffer backing stores and names of the
    /// interfaces.
    pub fn new_with_store_and_interface_names<
        F: FnOnce(u16, Option<&'static str>, Option<&'static str>) -> CdcAcmClass,
    >(
        make_class: F,
        read_store: RS,
        write_store: WS,
        comm_if_name: Option<&'static str>,
        data_if_name: Option<&'static str>,
    ) -> (port: SerialPort<RS, WS>)
        requires
            can_make_class(make_class, comm_if_name, data_if_name),
        ensures
            port.wf(),
            call_ensures(make_class, (64u16, comm_if_name, data_if_name), port@.reader.class),
            port@ == PortView::fresh(
                port@.reader.port,
                port@.reader.class,
                read_store.bytes().len(),
                write_store.bytes().len(),
            ),
    {
        let class = make_class(MAX_PACKET_SIZE, comm_if_name, data_if_name);
        let port: Ghost<int> = Ghost(arbitrary());
        SerialPort {
            reader: SerialReader::new(port, class, read_store),
            writer: SerialWriter::new(port, class.endpoints, write_store),
        }
    }

    /// Gets the current line coding.
    pub fn line_coding(&self) -> (line_coding: &LineCoding)
        ensures
            *line_coding == self@.reader.class.lines.line_coding,
    {
        &self.reader.line_state().line_coding
    }

    /// Gets the DTR (data terminal ready) state.
    pub fn dtr(&self) -> (dtr: bool)
        ensures
            dtr == self@.reader.class.lines.dtr,
    {
        self.reader.line_state().dtr
    }

    /// Gets the RTS (request to send) state.
    pub fn rts(&self) -> (rts: bool)
        ensures
            rts == self@.reader.class.lines.rts,
    {
        self.reader.line_state().rts
    }

    /// Takes over what the host has set by a control request.
    pub fn set_line_state(&mut self, lines: LineState)
        requires
            old(self).wf(),
        ensures
            final(self).wf(),
            final(self)@ == (PortView {
                reader: ReaderView {
                    class: CdcAcmClass { lines, ..old(self)@.reader.class },
                    ..old(self)@.reader
                },
                ..old(self)@
            }),
    {
        self.reader.set_line_state(lines);
    }

    /// Writes bytes from `data` into the port and returns the number of bytes written.
    ///
    /// # Errors
    ///
    /// * `WouldBlock` - No bytes could be written because the buffers are full.
    ///
    /// Other errors of `write_packet` may also be propagated. The bytes are in the write buffer
    /// all the same.
    pub fn write<F: FnOnce(&[u8]) -> Result<usize, UsbError>>(
        &mut self,
        data: &[u8],
        write_packet: F,
    ) -> (result: Result<usize, UsbError>)
        requires
            old(self).wf(),
            writer::can_send(write_packet, old(self)@.writer.packet_of_write(data@)),
        ensures
            final(self).wf(),
            final(self)@.reader == old(self)@.reader,
            exists|sent: Result<usize, UsbError>|
                {
                    &&& #[trigger] writer::sends(
                        write_packet,
                        old(self)@.writer.packet_of_write(data@),
                        sent,
                    )
                    &&& final(self)@.writer == old(self)@.writer.written(data@, sent)
                    &&& result == old(self)@.writer.write_result(data@, sent)
                },
            result matches Ok(count) ==> {
                &&& count <= data@.len()
                &&& old(self)@.writer.queue.len() + count <= old(self)@.writer.capacity
                &&& count == data@.len() || old(self)@.writer.queue.len() + count
                    == old(self)@.writer.capacity
            },
    {
        self.writer.write(data, write_packet)
    }

    /// Polls the endpoint and tries to put what it has into the read buffer.
    ///
    /// `read_packet` takes one packet, of at most as many bytes as it is given, from the
    /// hardware. It is called at most once, and only where the packet fits.
    pub fn poll<F: FnOnce(usize) -> Result<Vec<u8>, UsbError>>(
        &mut self,
        read_packet: F,
    ) -> (result: Result<(), UsbError>)
        requires
            old(self).wf(),
            reader::can_receive(read_packet, old(self)@.reader),
        ensures
            final(self).wf(),
            final(self)@.writer == old(self)@.writer,
            exists|received: Result<Seq<u8>, UsbError>|
                {
                    &&& #[trigger] reader::receives(read_packet, old(self)@.reader, received)
                    &&& final(self)@.reader == old(self)@.reader.polled(received)
                    &&& result == old(self)@.reader.poll_result(received)
                },
    {
        self.reader.poll(read_packet)
    }

    /// Reads bytes from the port into `data` and returns the number of bytes read.
    ///
    /// # Errors
    ///
    /// * `WouldBlock` - No bytes available for reading.
    ///
    /// Other errors of `read_packet` may also be propagated.
    pub fn read<F: FnOnce(usize) -> Result<Vec<u8>, UsbError>>(
        &mut self,
        data: &mut [u8],
        read_packet: F,
    ) -> (result: Result<usize, UsbError>)
        requires
            old(self).wf(),
            reader::can_receive(read_packet, old(self)@.reader),
        ensures
            final(self).wf(),
            final(self)@.writer == old(self)@.writer,
            exists|received: Result<Seq<u8>, UsbError>|
                {
                    &&& #[trigger] reader::receives(read_packet, old(self)@.reader, received)
                    &&& final(data)@ == old(self)@.reader.data_after_read(old(data)@, received)
                    &&& final(self)@.reader == old(self)@.reader.after_read(
                        old(data)@.len(),
                        received,
                    )
                    &&& result == old(self)@.reader.read_result(old(data)@.len(), received)
                },
            final(data)@.len() == old(data)@.len(),
            result matches Ok(count) ==> {
                &&& count <= old(data)@.len()
                &&& count == old(data)@.len() || final(self)@.reader.queue.len() == 0
                &&& final(data)@.skip(count as int) == old(data)@.skip(count as int)
            },
            result is Err ==> final(data)@ == old(data)@,
    {
        self.reader.read(data, read_packet)
    }

    /// Sends as much as possible of the current write buffer. Returns `Ok` if all data that has
    /// been written has been completely written to hardware buffers, `Err(WouldBlock)` if there
    /// is still data remaining, and other errors if there's an error sending data to the host.
    /// Note that even if this method returns `Ok`, data may still be in hardware buffers on
    /// either side.
    ///
    /// The empty packet that closes a transaction counts as data remaining.
    ///
    /// `write_packet` hands one packet to the hardware. It is called at most once.
    pub fn flush<F: FnOnce(&[u8]) -> Result<usize, UsbError>>(
        &mut self,
        write_packet: F,
    ) -> (result: Result<(), UsbError>)
        requires
            old(self).wf(),
            writer::can_send(write_packet, old(self)@.writer.next_packet()),
        ensures
            final(self).wf(),
            final(self)@.reader == old(self)@.reader,
            exists|sent: Result<usize, UsbError>|
                {
                    &&& #[trigger] writer::sends(
                        write_packet,
                        old(self)@.writer.next_packet(),
                        sent,
                    )
                    &&& final(self)@.writer == old(self)@.writer.flushed(sent)
                    &&& result == old(self)@.writer.flush_result(sent)
                },
            result is Ok <==> final(self)@.writer.next_packet() is None,
    {
        self.writer.flush(write_packet)
    }

    /// Writes a single word.
    ///
    /// # Errors
    ///
    /// * `WouldBlock` - The word could not be written because the buffers are full.
    /// * `Other` - An error of `write_packet`.
    pub fn write_word<F: FnOnce(&[u8]) -> Result<usize, UsbError>>(
        &mut self,
        word: u8,
        write_packet: F,
    ) -> (result: Result<(), NbError>)
        requires
            old(self).wf(),
            writer::can_send(write_packet, old(self)@.writer.packet_of_write(seq![word])),
        ensures
            final(self).wf(),
            final(self)@.reader == old(self)@.reader,
            exists|sent: Result<usize, UsbError>|
                {
                    &&& #[trigger] writer::sends(
                        write_packet,
                        old(self)@.writer.packet_of_write(seq![word]),
                        sent,
                    )
                    &&& final(self)@.writer == old(self)@.writer.written(seq![word], sent)
                    &&& result == writer::word_written(
                        old(self)@.writer.write_result(seq![word], sent),
                    )
                },
    {
        self.writer.write_word(word, write_packet)
    }

    /// Ensures that none of the previously written words are still buffered.
    ///
    /// # Errors
    ///
    /// * `WouldBlock` - There is still data remaining.
    /// * `Other` - An error of `write_packet`.
    pub fn flush_words<F: FnOnce(&[u8]) -> Result<usize, UsbError>>(
        &mut self,
        write_packet: F,
    ) -> (result: Result<(), NbError>)
        requires
            old(self).wf(),
            writer::can_send(write_packet, old(self)@.writer.next_packet()),
        ensures
            final(self).wf(),
            final(self)@.reader == old(self)@.reader,
            exists|sent: Result<usize, UsbError>|
                {
                    &&& #[trigger] writer::sends(
                        write_packet,
                        old(self)@.writer.next_packet(),
                        sent,
                    )
                    &&& final(self)@.writer == old(self)@.writer.flushed(sent)
                    &&& result == writer::words_flushed(old(self)@.writer.flush_result(sent))
                },
    {
        self.writer.flush_words(write_packet)
    }

    /// Reads a single word.
    ///
    /// # Errors
    ///
    /// * `WouldBlock` - No word available for reading.
    /// * `Other` - An error of `read_packet`.
    pub fn read_word<F: FnOnce(usize) -> Result<Vec<u8>, UsbError>>(
        &mut self,
        read_packet: F,
    ) -> (result: Result<u8, NbError>)
        requires
            old(self).wf(),
            reader::can_receive(read_packet, old(self)@.reader),
        ensures
            final(self).wf(),
            final(self)@.writer == old(self)@.writer,
            exists|received: Result<Seq<u8>, UsbError>|
                {
                    &&& #[trigger] reader::receives(read_packet, old(self)@.reader, received)
                    &&& final(self)@.reader == old(self)@.reader.after_read(1, received)
                    &&& result == old(self)@.reader.read_word_result(received)
                },
    {
        self.reader.read_word(read_packet)
    }

    /// Called after a USB reset, which left `lines` as what the host has set. Drops what is
    /// buffered in either direction and forgets the packets sent so far.
    pub fn reset(&mut self, lines: LineState)
        requires
            old(self).wf(),
        ensures
            final(self).wf(),
            final(self)@ == old(self)@.cleared(lines),
            final(self)@.reader.queue.len() == 0,
            final(self)@.writer.queue.len() == 0,
            final(self)@.reader.class.lines == lines,
            final(self)@.reader.class.endpoints == old(self)@.reader.class.endpoints,
    {
        self.reader.reset(lines);
        self.writer.reset();
    }

    /// Called when the endpoint with address `addr` has completed transmitting data. Sends on
    /// where that is the endpoint of this port, whatever comes of it, and does nothing otherwise.
    pub fn endpoint_in_complete<F: FnOnce(&[u8]) -> Result<usize, UsbError>>(
        &mut self,
        addr: u8,
        write_packet: F,
    )
        requires
            old(self).wf(),
            addr == old(self)@.writer.endpoints.write_ep ==> writer::can_send(
                write_packet,
                old(self)@.writer.next_packet(),
            ),
        ensures
            final(self).wf(),
            final(self)@.reader == old(self)@.reader,
            addr == old(self)@.writer.endpoints.write_ep ==> exists|sent: Result<usize, UsbError>|
                {
                    &&& #[trigger] writer::sends(
                        write_packet,
                        old(self)@.writer.next_packet(),
                        sent,
                    )
                    &&& final(self)@.writer == old(self)@.writer.flushed(sent)
                },
            addr != old(self)@.writer.endpoints.write_ep ==> final(self)@ == old(self)@,
    {
        self.writer.endpoint_in_complete(addr, write_packet)
    }

    /// Split the serial port into separate reader and writer handles.
    ///
    /// This allows concurrent reading and writing operations. The split is safe because the
    /// reader only accesses the read buffer and read-related USB operations, while the writer
    /// only accesses the write buffer and write-related USB operations.
    ///
    /// Note: This consumes the SerialPort. To get it back, both handles must be passed to
    /// `unsplit()`.
    pub fn split(self) -> (handles: (SerialReader<RS>, SerialWriter<WS>))
        requires
            self.wf(),
        ensures
            handles.0.wf(),
            handles.1.wf(),
            same_port(handles.0@, handles.1@),
            (handles.0@, handles.1@) == self@.handles(),
            handles.0@ == self@.reader,
            handles.1@ == self@.writer,
    {
        (self.reader, self.writer)
    }

    /// Combine reader and writer handles back into a SerialPort. Both must be handles of the same
    /// port: handles of different ports are never merged, not even where the ports are alike.
    pub fn unsplit(reader: SerialReader<RS>, writer: SerialWriter<WS>) -> (port: Self)
        requires
            reader.wf(),
            writer.wf(),
            same_port(reader@, writer@),
        ensures
            port.wf(),
            port@ == PortView::of_handles(reader@, writer@),
            port@.reader == reader@,
            port@.writer == writer@,
    {
        proof {
            reader.lemma_view_wf();
            writer.lemma_view_wf();
        }
        SerialPort { reader, writer }
    }
}

/// Whether two handles are those of one port.
///
/// Nothing says what the identity of a new port is. So two handles can be shown to have the same
/// one only where a split of one port has given both.
pub open spec fn same_port(reader: ReaderView, writer: WriterView) -> bool {
    &&& reader.port == writer.port
    &&& reader.class.endpoints == writer.endpoints
}

} // verus!
