//! Tests for the codec pipeline's compute core and the streaming copy pump.

use termpad::codec::{chunk_bytes, decode_paste, encode_paste};
use termpad::error::Error;
use termpad::pump::{pump, write_all, SinkModel};

#[test]
fn encode_decode_round_trip() {
    let data = b"the quick brown fox jumps over the lazy dog".to_vec();
    let packed = encode_paste(&data);
    assert_ne!(packed, data, "the encoder must actually transform its input");
    assert_eq!(decode_paste(&packed).unwrap(), data);
}

#[test]
fn encode_decode_empty_and_binary() {
    let empty: Vec<u8> = Vec::new();
    let packed = encode_paste(&empty);
    assert_eq!(decode_paste(&packed).unwrap(), empty);

    let binary: Vec<u8> = (0..=255u8).cycle().take(4096).collect();
    let packed = encode_paste(&binary);
    assert_eq!(decode_paste(&packed).unwrap(), binary);
}

#[test]
fn decode_rejects_garbage() {
    let garbage = vec![0xdeu8, 0xad, 0xbe, 0xef, 0x00, 0x11, 0x22];
    assert_eq!(decode_paste(&garbage).unwrap_err(), Error::IoFault);
}

#[test]
fn chunking_preserves_bytes() {
    let data: Vec<u8> = (0..1000u32).map(|i| (i % 256) as u8).collect();
    let chunks = chunk_bytes(&data, 255);
    assert_eq!(chunks.len(), 4);
    assert!(chunks.iter().all(|c| !c.is_empty() && c.len() <= 255));
    let joined: Vec<u8> = chunks.concat();
    assert_eq!(joined, data);

    let none = chunk_bytes(&Vec::new(), 255);
    assert!(none.is_empty());

    let ones = chunk_bytes(&vec![9u8, 8, 7], 1);
    assert_eq!(ones, vec![vec![9u8], vec![8u8], vec![7u8]]);
}

#[test]
fn pump_copies_everything_through_an_agreeable_sink() {
    let data: Vec<u8> = (0..600u32).map(|i| (i % 256) as u8).collect();
    let mut sink = SinkModel::new();
    pump(&data, 255, &mut sink).unwrap();
    assert_eq!(sink.written, data);
}

#[test]
fn pump_retries_short_writes_to_completion() {
    let data = b"short writes are retried until done".to_vec();
    // The sink takes 1, then 2, then 3 bytes ... before accepting freely.
    let script: Vec<usize> = (1..6).collect();
    let mut sink = SinkModel::with_script(script);
    pump(&data, 4, &mut sink).unwrap();
    assert_eq!(sink.written, data);
}

#[test]
fn pump_empty_source_writes_nothing() {
    let mut sink = SinkModel::with_script(vec![0]);
    pump(&Vec::new(), 255, &mut sink).unwrap();
    assert!(sink.written.is_empty());
}

#[test]
fn zero_write_aborts_the_pump() {
    let data = b"0123456789".to_vec();
    let mut sink = SinkModel::with_script(vec![3, 0, 100]);
    assert_eq!(pump(&data, 4, &mut sink).unwrap_err(), Error::IoFault);
    // Exactly the bytes accepted before the dead write are in the sink.
    assert_eq!(sink.written, b"012".to_vec());
}

#[test]
fn write_all_handles_partial_then_zero() {
    let buf = b"abcdef".to_vec();
    let mut sink = SinkModel::with_script(vec![2, 2, 0]);
    assert_eq!(write_all(&mut sink, &buf).unwrap_err(), Error::IoFault);
    assert_eq!(sink.written, b"abcd".to_vec());

    let mut ok_sink = SinkModel::with_script(vec![2, 2, 2]);
    write_all(&mut ok_sink, &buf).unwrap();
    assert_eq!(ok_sink.written, buf);
}
