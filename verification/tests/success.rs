use incremental_file::crypto::{generate_keypair, get_public_key, parse_public_key};
use incremental_file::file::File;
use incremental_file::storage::{MemoryStorage, Storage};

#[test]
fn success() {
    assert!(true);
}

#[test]
fn can_create_file() {
    let mut storage = MemoryStorage::new();
    let data = (0..100).collect::<Vec<u8>>();
    let file = File::from_data(&data, 10, &mut storage).unwrap();

    assert_eq!(file.blocks.len(), 10);
    for block in &file.blocks {
        assert_eq!(
            storage
                .get_block_data(block)
                .unwrap()
                .expect("Block doesn't exist")
                .len(),
            10
        );
    }
}

#[test]
fn can_create_file_with_one_leftover_block() {
    let mut storage = MemoryStorage::new();
    let data = (0..101).collect::<Vec<u8>>();
    let file = File::from_data(&data, 10, &mut storage).unwrap();

    assert_eq!(file.blocks.len(), 11);
    for block_index in 0..10 {
        let block = &file.blocks[block_index];
        assert_eq!(
            storage
                .get_block_data(block)
                .unwrap()
                .expect("Block doesn't exist")
                .len(),
            10
        );
    }
    let last_block = storage
        .get_block_data(&file.blocks[10])
        .unwrap()
        .expect("Block doesn't exist");
    assert_eq!(last_block.len(), 1);
}

#[test]
fn can_create_and_reassemble_file() {
    let mut storage = MemoryStorage::new();
    let data = (0..100).collect::<Vec<u8>>();
    let file = File::from_data(&data, 10, &mut storage).unwrap();

    let reassembled = file.data(&storage).unwrap();
    assert_eq!(reassembled.len(), data.len());
    for (index, byte) in data.iter().enumerate() {
        assert_eq!(reassembled[index], *byte);
    }
}

#[test]
fn file_hash_is_correct() {
    let mut storage = MemoryStorage::new();
    let data = (0..100).collect::<Vec<u8>>();
    let file = File::from_data(&data, 10, &mut storage).unwrap();
    let hash = file.hash().unwrap();
    let actual_hash = blake3::hash(&data);
    assert!(hash.to_hex().len() > 0);
    assert!(format!("{}", actual_hash).len() > 0);
    assert_eq!(hash.to_hex(), format!("{}", actual_hash));
}

#[test]
fn file_validation_succeeds() {
    let mut storage = MemoryStorage::new();
    let data = (0..100).collect::<Vec<u8>>();
    let file = File::from_data(&data, 10, &mut storage).unwrap();
    assert!(file.validate(&storage).is_ok());
}

#[test]
fn crypto_signature_works() {
    let data = (0..100).collect::<Vec<u8>>();
    let keypair = generate_keypair().unwrap();
    let public_key = get_public_key(&keypair).unwrap();
    let public_key = parse_public_key(&public_key);
    let signature = keypair.sign(&data);
    public_key.verify(&data, signature.as_ref()).unwrap();
}

#[test]
fn crypto_signature_fails() {
    let data = (0..100).collect::<Vec<u8>>();
    let keypair = generate_keypair().unwrap();
    let public_key = get_public_key(&keypair).unwrap();
    let public_key = parse_public_key(&public_key);
    assert_eq!(
        public_key.verify(&data, vec![0, 0, 0].as_slice()).is_err(),
        true
    );
}

#[test]
fn crypto_hex_encoding_works() {
    let data = (0..100).collect::<Vec<u8>>();
    let keypair = generate_keypair().unwrap();
    let public_key = get_public_key(&keypair).unwrap();
    let public_key = parse_public_key(&public_key);
    let signature = hex::decode(hex::encode(keypair.sign(&data))).unwrap();
    public_key.verify(&data, signature.as_ref()).unwrap();
}

#[test]
fn file_can_sign_and_verify() {
    let mut storage = MemoryStorage::new();
    let data = (0..100).collect::<Vec<u8>>();
    let mut file = File::from_data(&data, 10, &mut storage).unwrap();
    let keypair = generate_keypair().unwrap();
    let public_key = get_public_key(&keypair).unwrap();
    let public_key = parse_public_key(&public_key);
    file.sign(&keypair).unwrap();
    file.validate_and_verify(&storage, &public_key).unwrap();
}
