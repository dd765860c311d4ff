use incremental_file::block::{Block, BlockView};
use incremental_file::converter::{Converter, Encoded};
use incremental_file::error::Error;
use incremental_file::file::{File, FileView};
use incremental_file::local::FileSystemStorage;

/// A format for the tests: one line for each field, the blocks last.
struct Lines;

fn block_line(block: &Block) -> String {
    format!("{} {}", block.length, block.hash)
}

fn parse_block(line: &str) -> Option<Block> {
    let (length, hash) = line.split_once(' ')?;
    Some(Block::new(length.parse().ok()?, String::from(hash)))
}

impl Converter for Lines {
    fn encoded_block(&self, _block: BlockView) -> Option<Encoded> {
        unreachable!()
    }

    fn encoded_file(&self, _file: FileView) -> Option<Encoded> {
        unreachable!()
    }

    fn decoded_block(&self, _data: Encoded) -> Option<BlockView> {
        unreachable!()
    }

    fn decoded_file(&self, _data: Encoded) -> Option<FileView> {
        unreachable!()
    }

    fn serialize_block(&self, block: &Block) -> Result<Vec<u8>, Error> {
        Ok(block_line(block).into_bytes())
    }

    fn deserialize_block(&self, data: &[u8]) -> Result<Block, Error> {
        let text = std::str::from_utf8(data).map_err(|_| Error::Parse)?;
        parse_block(text).ok_or(Error::Parse)
    }

    fn serialize_file(&self, file: &File) -> Result<Vec<u8>, Error> {
        let mut text = format!("{}\n{}", file.hash, file.signature.as_deref().unwrap_or("-"));
        for block in &file.blocks {
            text.push('\n');
            text.push_str(&block_line(block));
        }
        Ok(text.into_bytes())
    }

    fn deserialize_file(&self, data: &[u8]) -> Result<File, Error> {
        let text = std::str::from_utf8(data).map_err(|_| Error::Parse)?;
        let mut lines = text.split('\n');
        let hash = lines.next().ok_or(Error::Parse)?;
        let signature = lines.next().ok_or(Error::Parse)?;
        let mut blocks = Vec::new();
        for line in lines {
            blocks.push(parse_block(line).ok_or(Error::Parse)?);
        }
        let mut file = File::new(blocks, String::from(hash));
        if signature != "-" {
            file.signature = Some(String::from(signature));
        }
        Ok(file)
    }
}

#[test]
fn layout_names_its_directories() {
    let storage = FileSystemStorage::new(String::from("/var/store"), Lines);
    assert_eq!(storage.root_dir, "/var/store");
    assert_eq!(storage.file_dir, "files");
    assert_eq!(storage.block_dir, "blocks");
}

#[test]
fn layout_reads_back_the_manifest_it_wrote() {
    let storage = FileSystemStorage::new(String::from("root"), Lines);
    let blocks = vec![Block::from_data(b"one"), Block::from_data(b"two")];
    let mut file = File::new(blocks, String::from("the hash"));
    file.signature = Some(String::from("abcd"));
    let written = storage.encode_file(&file).unwrap();
    let found = storage.decode_file(Some(written)).unwrap().unwrap();
    assert_eq!(found.hash, file.hash);
    assert_eq!(found.signature, file.signature);
    assert_eq!(found.blocks.len(), 2);
    assert_eq!(found.blocks[0].hash, file.blocks[0].hash);
    assert_eq!(found.blocks[1].hash, file.blocks[1].hash);
    assert_eq!(found.blocks[1].length, 3);
}

#[test]
fn layout_finds_nothing_where_nothing_was_read() {
    let storage = FileSystemStorage::new(String::from("root"), Lines);
    assert!(storage.decode_file(None).unwrap().is_none());
    let block = Block::from_data(b"absent");
    assert!(storage.decode_block(&block, None).unwrap().is_none());
}

#[test]
fn layout_passes_on_the_converter_error() {
    let storage = FileSystemStorage::new(String::from("root"), Lines);
    assert!(matches!(storage.decode_file(Some(vec![0xff, 0xfe])), Err(Error::Parse)));
    assert!(matches!(storage.decode_file(Some(b"only one line".to_vec())), Err(Error::Parse)));
}

#[test]
fn layout_checks_block_bytes_that_were_read() {
    let storage = FileSystemStorage::new(String::from("root"), Lines);
    let data = b"block bytes on disk".to_vec();
    let block = Block::from_data(&data);
    assert_eq!(storage.decode_block(&block, Some(data.clone())).unwrap(), Some(data.clone()));
    let mut rotten = data.clone();
    rotten[3] ^= 4;
    assert!(matches!(storage.decode_block(&block, Some(rotten)), Err(Error::Integrity)));
    let mut longer = data.clone();
    longer.push(0);
    assert!(matches!(storage.decode_block(&block, Some(longer)), Err(Error::Integrity)));
}
