use usbd_serial::{
    CdcAcmClass, Endpoints, LineCoding, LineState, NbError, ParityType, SerialPort, StopBits,
    UsbError,
};

const WRITE_EP: u8 = 0x82;

fn lines(dtr: bool, rts: bool, data_rate: u32) -> LineState {
    LineState {
        line_coding: LineCoding {
            stop_bits: StopBits::One,
            data_bits: 8,
            parity_type: ParityType::NoParity,
            data_rate,
        },
        dtr,
        rts,
    }
}

fn class(
    max_packet_size: u16,
    _comm_if_name: Option<&'static str>,
    _data_if_name: Option<&'static str>,
) -> CdcAcmClass {
    CdcAcmClass {
        endpoints: Endpoints { write_ep: WRITE_EP, max_packet_size },
        lines: lines(false, false, 8000),
    }
}

/// What the hardware sends to the host.
struct Wire {
    packets: Vec<Vec<u8>>,
}

impl Wire {
    fn new() -> Wire {
        Wire { packets: Vec::new() }
    }

    fn take(&mut self, packet: &[u8]) -> Result<usize, UsbError> {
        self.packets.push(packet.to_vec());
        Ok(packet.len())
    }
}

fn busy(_packet: &[u8]) -> Result<usize, UsbError> {
    Err(UsbError::WouldBlock)
}

fn broken(_packet: &[u8]) -> Result<usize, UsbError> {
    Err(UsbError::InvalidEndpoint)
}

fn untouched(_packet: &[u8]) -> Result<usize, UsbError> {
    panic!("there is no packet to send")
}

fn silent(_size: usize) -> Result<Vec<u8>, UsbError> {
    Err(UsbError::WouldBlock)
}

fn broken_read(_size: usize) -> Result<Vec<u8>, UsbError> {
    Err(UsbError::InvalidState)
}

fn unread(_size: usize) -> Result<Vec<u8>, UsbError> {
    panic!("there is no room for a packet")
}

fn bytes(count: usize) -> Vec<u8> {
    let mut data = Vec::new();
    for i in 0..count {
        data.push((i % 251) as u8);
    }
    data
}

#[test]
fn a_class_is_asked_for_64_byte_packets_and_given_the_names() {
    let mut asked = None;
    let port = SerialPort::new_with_interface_names(
        |size, comm, data| {
            asked = Some((size, comm, data));
            class(size, comm, data)
        },
        Some("comm"),
        Some("data"),
    );
    assert!(!port.dtr());
    assert_eq!(asked, Some((64, Some("comm"), Some("data"))));

    let mut asked = None;
    let _port = SerialPort::new(|size, comm, data| {
        asked = Some((size, comm, data));
        class(size, comm, data)
    });
    assert_eq!(asked, Some((64, None, None)));

    let mut asked = None;
    let _port = SerialPort::new_with_store(
        |size, comm, data| {
            asked = Some((size, comm, data));
            class(size, comm, data)
        },
        [0u8; 4],
        [0u8; 4],
    );
    assert_eq!(asked, Some((64, None, None)));
}

#[test]
fn lines_are_those_that_the_host_has_set() {
    let mut port = SerialPort::new(class);
    assert_eq!(port.line_coding().data_rate, 8000);
    assert!(!port.dtr());
    assert!(!port.rts());
    port.set_line_state(lines(true, false, 9600));
    assert_eq!(port.line_coding(), &lines(true, false, 9600).line_coding);
    assert!(port.dtr());
    assert!(!port.rts());
    port.set_line_state(lines(false, true, 9600));
    assert!(!port.dtr());
    assert!(port.rts());
}

#[test]
fn a_short_write_goes_out_at_once_and_then_the_port_is_idle() {
    let mut port = SerialPort::new(class);
    let mut wire = Wire::new();
    assert_eq!(port.write(b"hello", |p| wire.take(p)), Ok(5));
    assert_eq!(wire.packets, vec![b"hello".to_vec()]);
    assert_eq!(port.flush(untouched), Ok(()));
    assert_eq!(port.flush(untouched), Ok(()));
}

#[test]
fn a_full_packet_is_followed_by_an_empty_one() {
    let mut port = SerialPort::new(class);
    let mut wire = Wire::new();
    assert_eq!(port.write(&bytes(64), |p| wire.take(p)), Ok(64));
    assert_eq!(port.flush(busy), Err(UsbError::WouldBlock));
    assert_eq!(port.flush(|p| wire.take(p)), Ok(()));
    assert_eq!(wire.packets, vec![bytes(64), vec![]]);
    assert_eq!(port.flush(untouched), Ok(()));
}

#[test]
fn a_long_write_is_cut_into_packets() {
    let mut port = SerialPort::new(class);
    let mut wire = Wire::new();
    assert_eq!(port.write(&bytes(100), |p| wire.take(p)), Ok(100));
    assert_eq!(port.flush(|p| wire.take(p)), Ok(()));
    assert_eq!(port.flush(untouched), Ok(()));
    assert_eq!(wire.packets, vec![bytes(100)[..64].to_vec(), bytes(100)[64..].to_vec()]);
}

#[test]
fn bytes_wait_while_the_endpoint_is_busy() {
    let mut port = SerialPort::new(class);
    let mut wire = Wire::new();
    assert_eq!(port.write(&[1, 2], busy), Ok(2));
    assert_eq!(port.flush(busy), Err(UsbError::WouldBlock));
    assert_eq!(port.write(&[3], |p| wire.take(p)), Ok(1));
    assert_eq!(wire.packets, vec![vec![1, 2, 3]]);
}

#[test]
fn a_full_buffer_takes_part_of_a_write_and_then_blocks() {
    let mut port = SerialPort::new(class);
    assert_eq!(port.write(&bytes(200), busy), Ok(128));
    assert_eq!(port.write(&[1], busy), Err(UsbError::WouldBlock));
    assert_eq!(port.write(&[1], |p| Ok(p.len())), Err(UsbError::WouldBlock));
    assert_eq!(port.write(&[1], busy), Ok(1));
}

#[test]
fn a_write_of_nothing_writes_nothing() {
    let mut port = SerialPort::new(class);
    assert_eq!(port.write(&[], untouched), Ok(0));
    assert_eq!(port.write(&[1], busy), Ok(1));
    assert_eq!(port.write(&[], busy), Ok(0));
    assert_eq!(port.write(&[], broken), Err(UsbError::InvalidEndpoint));
}

#[test]
fn a_flush_that_sends_all_there_is_reports_so() {
    let mut port = SerialPort::new(class);
    let mut wire = Wire::new();
    assert_eq!(port.write(&[1, 2, 3], busy), Ok(3));
    assert_eq!(port.flush(|p| wire.take(p)), Ok(()));
    assert_eq!(wire.packets, vec![vec![1, 2, 3]]);
}

#[test]
fn a_flush_that_leaves_an_empty_packet_owed_blocks() {
    let mut port = SerialPort::new(class);
    let mut wire = Wire::new();
    assert_eq!(port.write(&bytes(64), busy), Ok(64));
    assert_eq!(port.flush(|p| wire.take(p)), Err(UsbError::WouldBlock));
    assert_eq!(port.flush(|p| wire.take(p)), Ok(()));
    assert_eq!(wire.packets, vec![bytes(64), vec![]]);
}

#[test]
fn an_error_of_the_transfer_is_reported_and_the_bytes_are_kept() {
    let mut port = SerialPort::new(class);
    let mut wire = Wire::new();
    assert_eq!(port.write(&[1, 2], broken), Err(UsbError::InvalidEndpoint));
    assert_eq!(port.flush(broken), Err(UsbError::InvalidEndpoint));
    assert_eq!(port.flush(|p| wire.take(p)), Ok(()));
    assert_eq!(wire.packets, vec![vec![1, 2]]);
}

#[test]
fn every_error_of_the_transfer_passes_through() {
    let all = [
        UsbError::ParseError,
        UsbError::BufferOverflow,
        UsbError::EndpointOverflow,
        UsbError::EndpointMemoryOverflow,
        UsbError::InvalidEndpoint,
        UsbError::Unsupported,
        UsbError::InvalidState,
    ];
    for err in all {
        let mut port = SerialPort::new(class);
        assert_eq!(port.write(&[1], |_| Err(err)), Err(err));
        assert_eq!(port.flush(|_| Err(err)), Err(err));
        assert_eq!(port.write_word(1, |_| Err(err)), Err(NbError::Other(err)));
        assert_eq!(port.flush_words(|_| Err(err)), Err(NbError::Other(err)));
        let mut data = [0u8; 1];
        assert_eq!(port.read(&mut data, |_| Err(err)), Err(err));
        assert_eq!(port.poll(|_| Err(err)), Err(err));
        assert_eq!(port.read_word(|_| Err(err)), Err(NbError::Other(err)));
    }
}

#[test]
fn after_ten_full_packets_a_short_one_is_forced() {
    let mut port = SerialPort::new_with_store(class, [0u8; 64], [0u8; 1024]);
    let mut wire = Wire::new();
    let data = bytes(1000);
    assert_eq!(port.write(&data, busy), Ok(1000));
    let mut flushes = 1;
    while port.flush(|p| wire.take(p)).is_err() {
        flushes += 1;
    }
    assert!(flushes <= 1000 / 63 + 2);
    let lengths: Vec<usize> = wire.packets.iter().map(|p| p.len()).collect();
    assert_eq!(
        lengths,
        vec![64, 64, 64, 64, 64, 64, 64, 64, 64, 64, 63, 64, 64, 64, 64, 41]
    );
    assert_eq!(wire.packets.concat(), data);
}

#[test]
fn single_byte_packets_are_broken_up_by_an_empty_one() {
    let mut port = SerialPort::new_with_store(|_, comm, data| class(1, comm, data), [0u8; 4], [0u8; 16]);
    let mut wire = Wire::new();
    assert_eq!(port.write(&bytes(12), |p| wire.take(p)), Ok(12));
    while port.flush(|p| wire.take(p)).is_err() {}
    let lengths: Vec<usize> = wire.packets.iter().map(|p| p.len()).collect();
    assert_eq!(lengths, vec![1, 1, 1, 1, 1, 1, 1, 1, 1, 1, 0, 1, 1, 0]);
    assert_eq!(wire.packets.concat(), bytes(12));
}

#[test]
fn what_is_written_comes_out_in_order_whatever_the_transfers_do() {
    let mut port = SerialPort::new_with_store(class, [0u8; 64], [0u8; 96]);
    let mut wire = Wire::new();
    let data = bytes(700);
    let mut written = 0;
    let mut turn = 0;
    while written < data.len() {
        turn += 1;
        let end = data.len().min(written + 1 + turn % 70);
        let result = match turn % 3 {
            0 => port.write(&data[written..end], busy),
            _ => port.write(&data[written..end], |p| wire.take(p)),
        };
        match result {
            Ok(count) => written += count,
            Err(err) => assert_eq!(err, UsbError::WouldBlock),
        }
    }
    while port.flush(|p| wire.take(p)).is_err() {}
    assert_eq!(wire.packets.concat(), data);
    for packet in &wire.packets {
        assert!(packet.len() <= 64);
    }
    assert!(wire.packets.last().unwrap().len() < 64);
}

#[test]
fn a_transmitted_packet_sends_the_next() {
    let mut port = SerialPort::new(class);
    let mut wire = Wire::new();
    assert_eq!(port.write(&bytes(70), |p| wire.take(p)), Ok(70));
    port.endpoint_in_complete(WRITE_EP + 1, untouched);
    assert_eq!(wire.packets.len(), 1);
    port.endpoint_in_complete(WRITE_EP, broken);
    port.endpoint_in_complete(WRITE_EP, |p| wire.take(p));
    assert_eq!(wire.packets.concat(), bytes(70));
    port.endpoint_in_complete(WRITE_EP, untouched);
    assert_eq!(port.flush(untouched), Ok(()));
}

#[test]
fn a_read_takes_a_packet_and_hands_it_out_in_pieces() {
    let mut port = SerialPort::new(class);
    let mut data = [9u8; 4];
    assert_eq!(port.read(&mut data, |size| {
        assert_eq!(size, 64);
        Ok(vec![1, 2, 3, 4, 5, 6])
    }), Ok(4));
    assert_eq!(data, [1, 2, 3, 4]);
    assert_eq!(port.read(&mut data, silent), Ok(2));
    assert_eq!(data, [5, 6, 3, 4]);
    assert_eq!(port.read(&mut data, silent), Err(UsbError::WouldBlock));
    assert_eq!(data, [5, 6, 3, 4]);
}

#[test]
fn packets_are_taken_only_where_they_fit() {
    let mut port = SerialPort::new(class);
    assert_eq!(port.poll(|size| Ok(vec![1; size])), Ok(()));
    assert_eq!(port.poll(|size| Ok(vec![2; size])), Ok(()));
    assert_eq!(port.poll(unread), Ok(()));
    let mut data = [0u8; 63];
    assert_eq!(port.read(&mut data, unread), Ok(63));
    assert_eq!(data, [1; 63]);
    assert_eq!(port.poll(unread), Ok(()));
    let mut word = [0u8; 1];
    assert_eq!(port.read(&mut word, unread), Ok(1));
    assert_eq!(word, [1]);
    let mut rest = [0u8; 128];
    assert_eq!(port.read(&mut rest, |_| Ok(vec![3; 10])), Ok(74));
    assert_eq!(rest[..64], [2; 64]);
    assert_eq!(rest[64..74], [3; 10]);
}

#[test]
fn an_empty_packet_is_nothing_to_read() {
    let mut port = SerialPort::new(class);
    let mut data = [9u8; 4];
    assert_eq!(port.read(&mut data, |_| Ok(vec![])), Err(UsbError::WouldBlock));
    assert_eq!(data, [9; 4]);
}

#[test]
fn a_failed_receive_hands_out_nothing_and_loses_nothing() {
    let mut port = SerialPort::new(class);
    assert_eq!(port.poll(|_| Ok(vec![1, 2])), Ok(()));
    let mut data = [9u8; 4];
    assert_eq!(port.read(&mut data, broken_read), Err(UsbError::InvalidState));
    assert_eq!(data, [9; 4]);
    assert_eq!(port.read(&mut data, silent), Ok(2));
    assert_eq!(data, [1, 2, 9, 9]);
}

#[test]
fn a_read_into_nothing_reads_nothing() {
    let mut port = SerialPort::new(class);
    assert_eq!(port.read(&mut [], |_| Ok(vec![1])), Ok(0));
    assert_eq!(port.read_word(silent), Ok(1));
}

#[test]
fn a_buffer_smaller_than_a_packet_never_receives() {
    let mut port = SerialPort::new_with_store(class, [0u8; 63], [0u8; 63]);
    assert_eq!(port.poll(unread), Ok(()));
    assert_eq!(port.read_word(unread), Err(NbError::WouldBlock));
}

#[test]
fn words_are_written_and_read_one_at_a_time() {
    let mut port = SerialPort::new_with_store(class, [0u8; 64], [0u8; 2]);
    let mut wire = Wire::new();
    assert_eq!(port.write_word(10, busy), Ok(()));
    assert_eq!(port.write_word(11, busy), Ok(()));
    assert_eq!(port.write_word(12, busy), Err(NbError::WouldBlock));
    assert_eq!(port.flush_words(busy), Err(NbError::WouldBlock));
    assert_eq!(port.flush_words(|p| wire.take(p)), Ok(()));
    assert_eq!(port.flush_words(untouched), Ok(()));
    assert_eq!(wire.packets, vec![vec![10, 11]]);

    assert_eq!(port.read_word(silent), Err(NbError::WouldBlock));
    assert_eq!(port.read_word(|_| Ok(vec![20, 21])), Ok(20));
    assert_eq!(port.read_word(unread), Ok(21));
    assert_eq!(port.read_word(silent), Err(NbError::WouldBlock));
}

#[test]
fn a_reset_is_a_fresh_start() {
    let mut port = SerialPort::new(class);
    assert_eq!(port.write(&bytes(100), |p| Ok(p.len())), Ok(100));
    assert_eq!(port.poll(|_| Ok(vec![1, 2])), Ok(()));
    port.set_line_state(lines(true, true, 9600));
    port.reset(lines(false, false, 8000));
    assert!(!port.dtr());
    assert!(!port.rts());
    assert_eq!(port.line_coding().data_rate, 8000);
    assert_eq!(port.flush(untouched), Ok(()));
    assert_eq!(port.read_word(silent), Err(NbError::WouldBlock));
    assert_eq!(port.write(&bytes(200), busy), Ok(128));
}
