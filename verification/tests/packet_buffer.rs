use std::mem::size_of;
use vt_muxer::integers::NetworkOrderU16;
use vt_muxer::packet_buffer::{PacketBuffer, LEN_FIELD_CUTOFF};
use vt_muxer::protocol::{HEADER_SIZE, PACKET_SIZE};
use vt_muxer::thin_addr::{SocketAddr, StdIpAddr, StdSocketAddr};

fn dummy_addr() -> SocketAddr {
    SocketAddr::from_std(StdSocketAddr { ip: StdIpAddr::V4([127, 0, 0, 1]), port: 8080 })
}

#[test]
fn test_packet_buffer_initialization() {
    let buffer = PacketBuffer::box_new(dummy_addr());

    assert_eq!(buffer.addr(), dummy_addr());
    assert_eq!(buffer.packet_size(), 0);
}

#[test]
fn test_boxed_construction() {
    let boxed_buffer = PacketBuffer::box_new(dummy_addr());

    assert_eq!(boxed_buffer.addr(), dummy_addr());
    assert_eq!(NetworkOrderU16::new(boxed_buffer.packet_size()), 0);
}

#[test]
fn test_push_data() {
    let mut buffer = PacketBuffer::box_new(dummy_addr());

    let data = [1, 2, 3, 4, 5];
    let written = 0; // Nothing written yet

    let pushed = buffer.push(&data, written);
    assert_eq!(pushed, 5);
    assert_eq!(buffer.packet_size(), 5);

    // Get the full bytes including socket, length and data
    let bytes = buffer.bytes();

    // so our data should start after that
    let socket_size = size_of::<SocketAddr>();
    let len_size = size_of::<NetworkOrderU16>();
    let data_offset = socket_size + len_size;

    // Verify the data was copied correctly
    assert_eq!(&bytes[data_offset..data_offset + 5], &[1, 2, 3, 4, 5]);
}

#[test]
fn test_push_multiple_times() {
    let mut buffer = PacketBuffer::box_new(dummy_addr());

    // First push
    let data1 = [1, 2, 3];
    let pushed1 = buffer.push(&data1, 0);
    assert_eq!(pushed1, 3);
    assert_eq!(buffer.packet_size(), 3);

    // Second push
    let data2 = [4, 5];
    let pushed2 = buffer.push(&data2, 0);
    assert_eq!(pushed2, 2);
    assert_eq!(buffer.packet_size(), 5);

    // Get the full bytes
    let bytes = buffer.bytes();
    let socket_size = size_of::<SocketAddr>();
    let len_size = size_of::<NetworkOrderU16>();
    let data_offset = socket_size + len_size;

    // Verify all data was copied correctly
    assert_eq!(&bytes[data_offset..data_offset + 5], &[1, 2, 3, 4, 5]);
}

#[test]
fn test_current_bytes() {
    let mut buffer = PacketBuffer::box_new(dummy_addr());

    let data = [1, 2, 3, 4, 5];
    buffer.push(&data, 0);

    // Simulate having written 3 bytes already
    let remaining = buffer.bytes_from(3);

    // Should only have the bytes we haven't "written" yet
    assert_eq!(remaining.len(), buffer.bytes().len() - 3);
}

#[test]
fn test_push_limit_with_written() {
    let addr = dummy_addr();
    let mut buffer = PacketBuffer::box_new(addr);

    // Push some initial data
    let data1 = [1, 2, 3, 4, 5];
    buffer.push(&data1, 0);

    // Simulate that socket + 1 bytes have been written
    let socket_size = size_of::<SocketAddr>();
    let written = (socket_size + 1) as u32;

    // Try to push more data
    let data2 = [6, 7, 8, 9, 10];
    let pushed = buffer.push(&data2, written);

    // We can still buffer a limited amount
    assert!(pushed > 0);

    // But if we've written more than that, we can't push more data
    let pushed_after = buffer.push(&data2, written + pushed as u32);
    assert_eq!(pushed_after, 0);
}

#[test]
fn a_frame_stands_on_the_wire_with_its_header() {
    let mut buffer = PacketBuffer::new(dummy_addr());
    buffer.push(&[9, 8, 7], 0);
    let mut expected = vec![0, 0, 0, 0, 0, 0, 0, 0, 0, 0, 0xff, 0xff, 127, 0, 0, 1];
    expected.extend_from_slice(&[0x1f, 0x90, 0, 3, 9, 8, 7]);
    assert_eq!(buffer.bytes(), expected.as_slice());
    assert_eq!(buffer.bytes_from(0), expected.as_slice());
    assert_eq!(buffer.bytes_from(20), &[9, 8, 7]);
    assert_eq!(buffer.bytes_from(23), &[] as &[u8]);
}

#[test]
fn a_frame_takes_no_more_than_it_can_carry() {
    let mut buffer = PacketBuffer::new(dummy_addr());
    assert!(buffer.is_empty());
    let data = vec![5u8; 70_000];
    assert_eq!(buffer.push(&data, 0), PACKET_SIZE);
    assert!(buffer.is_full());
    assert!(buffer.must_flush_for(0));
    assert_eq!(buffer.push(&data, 0), 0);
    assert_eq!(buffer.bytes().len(), HEADER_SIZE + 65_535);
    assert_eq!(&buffer.bytes()[18..20], &[0xff, 0xff]);
    buffer.clear();
    assert!(buffer.is_empty());
    assert_eq!(buffer.bytes().len(), HEADER_SIZE);
    assert_eq!(&buffer.bytes()[18..20], &[0, 0]);
}

#[test]
fn the_low_byte_of_the_length_limits_a_late_push() {
    let mut buffer = PacketBuffer::new(dummy_addr());
    buffer.push(&vec![1u8; 0x0180], 0);
    let sent = buffer.bytes()[..19].to_vec();
    assert!(!buffer.must_flush_for(LEN_FIELD_CUTOFF));
    assert_eq!(buffer.push(&vec![2u8; 1000], LEN_FIELD_CUTOFF), 0x7f);
    assert_eq!(buffer.packet_size(), 0x01ff);
    assert_eq!(&buffer.bytes()[..19], sent.as_slice());
    assert!(buffer.must_flush_for(LEN_FIELD_CUTOFF));
    assert!(!buffer.must_flush_for(LEN_FIELD_CUTOFF - 1));
    assert!(buffer.must_flush_for(LEN_FIELD_CUTOFF + 1));
    assert_eq!(buffer.push(&[3], LEN_FIELD_CUTOFF), 0);
    assert_eq!(buffer.push(&[3], LEN_FIELD_CUTOFF + 1), 0);
    assert_eq!(buffer.push(&[3], LEN_FIELD_CUTOFF - 1), 1);
}

#[test]
fn pushing_in_steps_is_pushing_at_once() {
    let mut one = PacketBuffer::new(dummy_addr());
    let mut two = PacketBuffer::new(dummy_addr());
    one.push(&[1, 2, 3, 4], 0);
    two.push(&[1, 2], 0);
    two.push(&[3, 4], 0);
    assert_eq!(one.bytes(), two.bytes());
}
