use incremental_file::block::Block;
use incremental_file::digest::Digest;
use incremental_file::error::Error;

const EMPTY_ADDRESS: &str = "af1349b9f5f9a1a6a0404dea36dcc9499bcb25c9adc112b7cc9a93cae41f3262";

#[test]
fn block_new_keeps_its_fields() {
    let block = Block::new(7, String::from("abc"));
    assert_eq!(block.length, 7);
    assert_eq!(block.hash, "abc");
}

#[test]
fn block_of_empty_data_has_the_known_address() {
    let block = Block::from_data(&[]);
    assert_eq!(block.length, 0);
    assert_eq!(block.hash, EMPTY_ADDRESS);
}

#[test]
fn block_from_data_records_length_and_lowercase_address() {
    let data = (0..100).collect::<Vec<u8>>();
    let block = Block::from_data(&data);
    assert_eq!(block.length, 100);
    assert_eq!(block.hash, blake3::hash(&data).to_hex().as_str());
    assert_eq!(block.hash.len(), 64);
    assert_eq!(block.hash, block.hash.to_lowercase());
    assert_ne!(block.hash.as_bytes(), &data[..]);
}

#[test]
fn equal_data_gives_equal_blocks() {
    let a = Block::from_data(b"same bytes");
    let b = Block::from_data(b"same bytes");
    let c = Block::from_data(b"other bytes");
    assert_eq!(a.length, b.length);
    assert_eq!(a.hash, b.hash);
    assert_ne!(a.hash, c.hash);
}

#[test]
fn block_hash_parses_to_the_digest_bytes() {
    let data = b"hello".to_vec();
    let block = Block::from_data(&data);
    let digest = block.hash().unwrap();
    assert_eq!(&digest.bytes, blake3::hash(&data).as_bytes());
    assert_eq!(digest.as_bytes(), &blake3::hash(&data).as_bytes()[..]);
    assert_eq!(digest.to_hex(), block.hash);
}

#[test]
fn block_hash_accepts_uppercase() {
    let block = Block::new(0, EMPTY_ADDRESS.to_uppercase());
    let digest = block.hash().unwrap();
    assert_eq!(digest.to_hex(), EMPTY_ADDRESS);
    assert!(block.validate(&[]).is_ok());
    assert!(!block.describes(&[]));
}

#[test]
fn block_hash_refuses_malformed_text() {
    for text in ["", "abc", "zz", &EMPTY_ADDRESS[..63], &format!("{}0", EMPTY_ADDRESS)] {
        let block = Block::new(0, String::from(text));
        assert!(matches!(block.hash(), Err(Error::Parse)));
        assert!(matches!(block.validate(&[]), Err(Error::Parse)));
    }
    let not_hex = format!("{}g", &EMPTY_ADDRESS[..63]);
    assert!(matches!(Block::new(0, not_hex).hash(), Err(Error::Parse)));
    let wide = "é".repeat(32);
    assert_eq!(wide.len(), 64);
    assert!(matches!(Block::new(0, wide).hash(), Err(Error::Parse)));
}

#[test]
fn block_validate_accepts_its_own_data_only() {
    let data = (0..50).collect::<Vec<u8>>();
    let block = Block::from_data(&data);
    assert!(block.validate(&data).is_ok());
    let mut changed = data.clone();
    changed[17] ^= 1;
    assert!(matches!(block.validate(&changed), Err(Error::Integrity)));
    assert!(matches!(block.validate(&data[..49]), Err(Error::Integrity)));
}

#[test]
fn block_validate_does_not_look_at_the_length() {
    let data = b"payload".to_vec();
    let honest = Block::from_data(&data);
    let block = Block::new(3, honest.hash.clone());
    assert!(block.validate(&data).is_ok());
    assert!(!block.describes(&data));
    assert!(honest.describes(&data));
}

#[test]
fn block_update_describes_the_new_data() {
    let mut block = Block::from_data(b"first");
    block.update(b"second!");
    assert_eq!(block.length, 7);
    assert_eq!(block.hash, blake3::hash(b"second!").to_hex().as_str());
    assert!(block.describes(b"second!"));
    assert!(!block.describes(b"first"));
}

#[test]
fn block_duplicate_is_the_same_block() {
    let block = Block::from_data(b"copy me");
    let copy = block.duplicate();
    assert_eq!(copy.length, block.length);
    assert_eq!(copy.hash, block.hash);
}

#[test]
fn digest_of_compares_by_bytes() {
    let a = Digest::of(b"a");
    let b = Digest::of(b"a");
    let c = Digest::of(b"b");
    assert!(a.same_as(&b));
    assert!(!a.same_as(&c));
    assert_eq!(a.bytes.len(), 32);
}

#[test]
fn digest_from_hex_round_trips() {
    let digest = Digest::of(b"round trip");
    let text = digest.to_hex();
    assert_eq!(text.len(), 64);
    let back = Digest::from_hex(&text).unwrap();
    assert_eq!(back.bytes, digest.bytes);
    let back = Digest::from_hex(&text.to_uppercase()).unwrap();
    assert_eq!(back.bytes, digest.bytes);
    assert!(matches!(Digest::from_hex("00"), Err(Error::Parse)));
}

#[test]
fn digest_from_hex_reads_digit_values() {
    let text = "000102030405060708090a0b0c0d0e0f101112131415161718191A1B1C1D1E1F";
    let digest = Digest::from_hex(text).unwrap();
    let expected = (0..32).collect::<Vec<u8>>();
    assert_eq!(&digest.bytes[..], &expected[..]);
    assert_eq!(digest.to_hex(), text.to_lowercase());
}
