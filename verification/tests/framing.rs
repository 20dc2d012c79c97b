use secret_order_book::framing::{pad_message, BLOCK_SIZE, PAD_BYTE};

#[test]
fn block_size_and_pad_byte() {
    assert_eq!(BLOCK_SIZE, 256);
    assert_eq!(PAD_BYTE, b' ');
}

#[test]
fn short_message_is_padded_to_one_block() {
    let padded = pad_message(b"{\"x\":1}".to_vec()).unwrap();
    assert_eq!(padded.len(), 256);
    assert_eq!(&padded[..7], b"{\"x\":1}");
    assert!(padded[7..].iter().all(|b| *b == b' '));
}

#[test]
fn whole_blocks_are_left_alone() {
    assert_eq!(pad_message(Vec::new()), Some(Vec::new()));
    let block = vec![7u8; 256];
    assert_eq!(pad_message(block.clone()), Some(block));
    let two = vec![9u8; 512];
    assert_eq!(pad_message(two.clone()), Some(two));
}

#[test]
fn one_byte_over_a_block_fills_the_next() {
    let padded = pad_message(vec![1u8; 257]).unwrap();
    assert_eq!(padded.len(), 512);
    assert!(padded[..257].iter().all(|b| *b == 1));
    assert!(padded[257..].iter().all(|b| *b == 32));
    let padded = pad_message(vec![1u8; 255]).unwrap();
    assert_eq!(padded.len(), 256);
    assert_eq!(padded[255], 32);
}
