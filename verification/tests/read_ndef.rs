use rustic_reader::card::read_ndef::default_range;
use rustic_reader::{connect, read_ndef, PhysicalRead, ReadStep, ReaderError};

const ATR_A: [u8; 8] = [0x3B, 0x8F, 0x80, 0x01, 0x80, 0x4F, 0x0C, 0xA0];

fn run(atr: &[u8], log: &mut Vec<Vec<u8>>) -> Result<Vec<u8>, ReaderError> {
    let mut step = read_ndef(atr);
    loop {
        match step {
            ReadStep::Transmit { reader, command } => {
                let response = if command.len() == 5 {
                    let mut out = vec![command[3]; command[4] as usize];
                    out.extend_from_slice(&[0x90, 0x00]);
                    out
                } else {
                    vec![0x90, 0x00]
                };
                log.push(command);
                step = reader.advance(Ok(response));
            }
            ReadStep::Done(data) => return Ok(data),
            ReadStep::Failed(e) => return Err(e),
        }
    }
}

#[test]
fn test_read_ndef() {
    let readers = vec!["ACS ACR122U PICC Interface".to_string()];
    let _reader = connect(&readers).unwrap();
    let mut log = Vec::new();
    let result = run(&ATR_A, &mut log);
    println!("{:?}", result);
    assert!(result.is_ok());
}

#[test]
fn default_range_is_every_data_block_of_sixteen_sectors() {
    let expected: Vec<PhysicalRead> = (1u16..64)
        .filter(|b| b % 4 != 3)
        .map(|block| PhysicalRead { block, length: 16 })
        .collect();
    assert_eq!(expected.len(), 47);
    assert_eq!(default_range(), expected);
    assert_eq!(default_range()[0], PhysicalRead { block: 1, length: 16 });
    assert_eq!(default_range()[46], PhysicalRead { block: 62, length: 16 });
}

#[test]
fn default_range_is_read_block_by_block_with_key_b() {
    let mut log = Vec::new();
    let data = run(&ATR_A, &mut log).unwrap();
    assert_eq!(data.len(), 47 * 16);
    assert_eq!(log.len(), 94);
    let blocks: Vec<u8> = (1u8..64).filter(|b| b % 4 != 3).collect();
    for (i, block) in blocks.iter().enumerate() {
        assert_eq!(
            log[2 * i],
            vec![0xff, 0x86, 0x00, 0x00, 0x05, 0x01, 0x00, *block, 0x61, 0x00]
        );
        assert_eq!(log[2 * i + 1], vec![0xff, 0x0b, 0x00, *block, 0x10]);
        assert_eq!(data[16 * i..16 * i + 16].to_vec(), vec![*block; 16]);
    }
}

#[test]
fn default_range_of_an_unsupported_card_is_not_read() {
    let mut log = Vec::new();
    assert_eq!(
        run(&[0xF0, 0x01, 0x02, 0x03, 0x04, 0x05, 0x06], &mut log),
        Err(ReaderError::UnsupportedCardType)
    );
    assert!(log.is_empty());
    assert_eq!(run(&[0x00], &mut log), Err(ReaderError::UnsupportedCardType));
    assert!(log.is_empty());
}
