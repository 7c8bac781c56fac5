use usbd_serial::{
    BufferStore, CdcAcmClass, Endpoints, LineCoding, LineState, NbError, ParityType, SerialPort,
    SerialReader, SerialWriter, StopBits, UsbError,
};

fn lines() -> LineState {
    LineState {
        line_coding: LineCoding {
            stop_bits: StopBits::Two,
            data_bits: 7,
            parity_type: ParityType::Even,
            data_rate: 115200,
        },
        dtr: true,
        rts: true,
    }
}

fn port_at(write_ep: u8) -> SerialPort {
    SerialPort::new(|max_packet_size, _, _| CdcAcmClass {
        endpoints: Endpoints { write_ep, max_packet_size },
        lines: lines(),
    })
}

fn busy(_packet: &[u8]) -> Result<usize, UsbError> {
    Err(UsbError::WouldBlock)
}

fn silent(_size: usize) -> Result<Vec<u8>, UsbError> {
    Err(UsbError::WouldBlock)
}

fn split_and_unsplit(serial: SerialPort) -> SerialPort {
    let (reader, writer) = serial.split();
    SerialPort::unsplit(reader, writer)
}

#[test]
fn test_split_compiles() {
    let mut serial_back = split_and_unsplit(port_at(0x81));
    assert_eq!(serial_back.flush(busy), Ok(()));
}

fn check_send<T: Send>(_: &T) {}

fn send_when_stores_are_send<RS: BufferStore + Send, WS: BufferStore + Send>(
    reader: &SerialReader<RS>,
    writer: &SerialWriter<WS>,
) where
    SerialPort<RS, WS>: Send,
{
    check_send(reader);
    check_send(writer);
}

#[test]
fn test_split_types_are_send() {
    let (reader, writer) = port_at(0x81).split();
    send_when_stores_are_send(&reader, &writer);
}

#[test]
fn unsplit_gives_back_what_is_buffered() {
    let mut port = port_at(0x81);
    assert_eq!(port.write(&[1, 2, 3], busy), Ok(3));
    assert_eq!(port.poll(|_| Ok(vec![4, 5])), Ok(()));
    let mut port = split_and_unsplit(port);
    assert!(port.dtr());
    assert_eq!(port.line_coding(), &lines().line_coding);
    assert_eq!(port.read_word(silent), Ok(4));
    let mut sent = Vec::new();
    assert_eq!(
        port.flush(|p| {
            sent.extend_from_slice(p);
            Ok(p.len())
        }),
        Ok(())
    );
    assert_eq!(sent, vec![1, 2, 3]);
}

#[test]
fn handles_work_as_the_port_does() {
    let (mut reader, mut writer) = port_at(0x81).split();
    let mut sent = Vec::new();
    assert_eq!(writer.write(&[1, 2], busy), Ok(2));
    assert_eq!(writer.write_word(3, busy), Ok(()));
    let mut data = [0u8; 2];
    assert_eq!(reader.read(&mut data, |_| Ok(vec![7, 8, 9])), Ok(2));
    assert_eq!(data, [7, 8]);
    assert_eq!(
        writer.flush(|p| {
            sent.extend_from_slice(p);
            Ok(p.len())
        }),
        Ok(())
    );
    assert_eq!(sent, vec![1, 2, 3]);
    assert_eq!(writer.flush_words(busy), Ok(()));
    let mut port = SerialPort::unsplit(reader, writer);
    assert_eq!(port.read_word(silent), Ok(9));
    assert_eq!(port.read_word(silent), Err(NbError::WouldBlock));
}

#[test]
fn a_reset_of_the_reader_leaves_the_writer_alone() {
    let (mut reader, mut writer) = port_at(0x81).split();
    assert_eq!(writer.write(&[1; 128], |p| Ok(p.len())), Ok(128));
    assert_eq!(reader.poll(|_| Ok(vec![1])), Ok(()));
    reader.reset(LineState { dtr: false, rts: false, ..lines() });
    assert_eq!(reader.read_word(silent), Err(NbError::WouldBlock));
    assert_eq!(writer.next_packet(), Some(&[1u8; 64][..]));
    let port = SerialPort::unsplit(reader, writer);
    assert!(!port.dtr());
}

#[test]
fn a_reset_of_the_writer_leaves_the_reader_alone() {
    let (mut reader, mut writer) = port_at(0x81).split();
    assert_eq!(writer.write(&[1; 128], |p| Ok(p.len())), Ok(128));
    assert_eq!(reader.poll(|_| Ok(vec![7, 8])), Ok(()));
    writer.reset();
    assert!(writer.next_packet().is_none());
    assert_eq!(writer.flush(|_| panic!("there is no packet to send")), Ok(()));
    assert_eq!(reader.read_word(silent), Ok(7));
    assert_eq!(reader.read_word(silent), Ok(8));
}

#[test]
fn a_flush_can_be_made_in_two_steps() {
    let (_, mut writer) = port_at(0x81).split();
    assert_eq!(writer.complete_flush(Ok(0)), Ok(()));
    assert_eq!(writer.write(&[1; 70], busy), Ok(70));
    assert_eq!(writer.next_packet(), Some(&[1u8; 64][..]));
    assert_eq!(writer.complete_flush(Err(UsbError::Unsupported)), Err(UsbError::Unsupported));
    assert_eq!(writer.next_packet(), Some(&[1u8; 64][..]));
    assert_eq!(writer.complete_flush(Ok(64)), Err(UsbError::WouldBlock));
    assert_eq!(writer.next_packet(), Some(&[1u8; 6][..]));
    assert_eq!(writer.complete_flush(Ok(6)), Ok(()));
    assert_eq!(writer.next_packet(), None);
    assert_eq!(writer.complete_flush(Err(UsbError::Unsupported)), Ok(()));
}

#[test]
fn a_poll_can_be_made_in_two_steps() {
    let (mut reader, _) = port_at(0x81).split();
    assert!(reader.has_room());
    assert_eq!(reader.complete_poll(Ok(vec![1; 64])), Ok(()));
    assert_eq!(reader.complete_poll(Err(UsbError::WouldBlock)), Ok(()));
    assert_eq!(reader.complete_poll(Err(UsbError::Unsupported)), Err(UsbError::Unsupported));
    assert_eq!(reader.complete_poll(Ok(vec![2])), Ok(()));
    assert!(!reader.has_room());
    assert_eq!(reader.complete_poll(Err(UsbError::Unsupported)), Ok(()));
    assert_eq!(reader.read_word(silent), Ok(1));
}
