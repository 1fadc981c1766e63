use osdd::constants::{MAX_BIP_BUFFER_MESSAGE_SIZE, MAX_BUFFER_SIZE_BYTES};
use osdd::ring::{get_element_length, read_from_bip_buffer, try_write_to_bip_buffer, write_to_bip_buffer};

fn create_test_buffers() -> Vec<Vec<u8>> {
    let mut buffer1 = vec![0; MAX_BUFFER_SIZE_BYTES];
    for i in 0..buffer1.len() {
        buffer1[i] = i as u8;
    }
    let mut buffer2 = vec![0; 2];
    for i in 0..buffer2.len() {
        buffer2[i] = i as u8;
    }
    let mut buffer3 = vec![0; 1000];
    for i in 0..buffer3.len() {
        buffer3[i] = i as u8;
    }
    let mut buffer4 = vec![0; 65500];
    for i in 0..buffer4.len() {
        buffer4[i] = i as u8;
    }
    let mut buffer5 = vec![0; 2];
    for i in 0..buffer5.len() {
        buffer5[i] = i as u8;
    }
    vec![buffer1, buffer2, buffer3, buffer4, buffer5]
}

///Is used to test reading and writing of multiple buffers to a bip_buffer.
#[test]
fn write_read_bip_buffer() {
    let test_buffers = create_test_buffers();
    let (mut writer, mut reader) = spsc_bip_buffer::bip_buffer_with_len(MAX_BIP_BUFFER_MESSAGE_SIZE * 10);
    for i in 0..test_buffers.len() {
        write_to_bip_buffer(&mut writer, &test_buffers[i]);
        let mut received: Vec<u8> = Vec::new();
        let element_length = read_from_bip_buffer(&mut reader, &mut received);
        //compare the sent buffer to the buffer that was received.
        assert_eq!(&test_buffers[i][..], &received[..]);
        assert_eq!(test_buffers[i].len(), element_length);
    }
}

#[test]
fn element_length_prefix_test() {
    // the length prefix read back is exactly the written record's length
    let (mut writer, mut reader) = spsc_bip_buffer::bip_buffer_with_len(4096);
    let record: Vec<u8> = vec![7; 321];
    write_to_bip_buffer(&mut writer, &record);
    let n = get_element_length(&mut reader);
    assert_eq!(n, 321);
}

#[test]
fn try_write_full_ring_test() {
    // a try-write on a full ring refuses the record and publishes nothing
    let (mut writer, mut reader) = spsc_bip_buffer::bip_buffer_with_len(64);
    let first: Vec<u8> = vec![1; 40];
    assert!(try_write_to_bip_buffer(&mut writer, &first));
    let second: Vec<u8> = vec![2; 40];
    assert!(!try_write_to_bip_buffer(&mut writer, &second));
    let mut received: Vec<u8> = Vec::new();
    let n = read_from_bip_buffer(&mut reader, &mut received);
    assert_eq!(n, 40);
    assert_eq!(received, first);
}
