use usbd_serial::buffer::Buffer;
use usbd_serial::DefaultBufferStore;

#[test]
fn default_store_holds_128_bytes() {
    let buf = Buffer::new(DefaultBufferStore::default());
    assert_eq!(buf.available_read(), 0);
    assert_eq!(buf.available_write(), 128);
}

#[test]
fn bytes_come_out_in_the_order_they_went_in() {
    let mut buf = Buffer::new([0u8; 8]);
    assert_eq!(buf.write(&[1, 2, 3]), 3);
    assert_eq!(buf.write(&[4, 5]), 2);
    let mut data = [9u8; 4];
    assert_eq!(buf.read(&mut data), 4);
    assert_eq!(data, [1, 2, 3, 4]);
    assert_eq!(buf.available_read(), 1);
    assert_eq!(buf.peek(10), &[5]);
}

#[test]
fn a_short_read_leaves_the_rest_of_the_data_alone() {
    let mut buf = Buffer::new(vec![0u8; 8]);
    assert_eq!(buf.write(&[1, 2]), 2);
    let mut data = [9u8; 4];
    assert_eq!(buf.read(&mut data), 2);
    assert_eq!(data, [1, 2, 9, 9]);
}

#[test]
fn a_write_takes_what_fits() {
    let mut buf = Buffer::new([0u8; 4]);
    assert_eq!(buf.write(&[1, 2, 3, 4, 5, 6]), 4);
    assert_eq!(buf.write(&[7]), 0);
    assert_eq!(buf.peek(4), &[1, 2, 3, 4]);
}

#[test]
fn space_that_was_read_is_used_again() {
    let mut buf = Buffer::new([0u8; 4]);
    assert_eq!(buf.write(&[1, 2, 3, 4]), 4);
    buf.consume(3);
    assert_eq!(buf.available_write(), 3);
    assert_eq!(buf.write(&[5, 6, 7, 8]), 3);
    assert_eq!(buf.peek(4), &[4, 5, 6, 7]);
}

#[test]
fn a_borrowed_slice_can_be_the_store() {
    let mut bytes = [0u8; 4];
    let mut buf = Buffer::new(&mut bytes[..3]);
    assert_eq!(buf.available_write(), 3);
    assert_eq!(buf.write(&[1, 2, 3, 4]), 3);
    assert_eq!(buf.peek(2), &[1, 2]);
    assert_eq!(bytes, [1, 2, 3, 0]);
}

#[test]
fn clear_drops_everything() {
    let mut buf = Buffer::new([0u8; 4]);
    assert_eq!(buf.write(&[1, 2, 3, 4]), 4);
    buf.clear();
    assert_eq!(buf.available_read(), 0);
    assert_eq!(buf.available_write(), 4);
}

#[test]
fn an_empty_store_takes_nothing() {
    let mut buf = Buffer::new([0u8; 0]);
    assert_eq!(buf.write(&[1]), 0);
    let mut data = [9u8; 1];
    assert_eq!(buf.read(&mut data), 0);
    assert_eq!(data, [9]);
}
