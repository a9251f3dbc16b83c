//! End-to-end scenarios for the paste store engine.

use termpad::error::Error;
use termpad::ident::{default_adjectives, default_nouns, IdGen};
use termpad::store::{IngestStream, Store};

fn gen() -> IdGen {
    IdGen::new(default_adjectives(), default_nouns(), true).unwrap()
}

fn stream_of(parts: &[&[u8]]) -> IngestStream {
    let chunks: Vec<Vec<u8>> = parts.iter().map(|p| p.to_vec()).collect();
    IngestStream::complete(chunks)
}

#[test]
fn round_trip_simple() {
    let g = gen();
    let mut st = Store::new();
    let id = st.create(&g, &stream_of(&[b"hello world"]), 1000).unwrap();
    let got = st.read(&id).unwrap();
    assert_eq!(got, b"hello world".to_vec());
}

#[test]
fn round_trip_empty() {
    let g = gen();
    let mut st = Store::new();
    let id = st.create(&g, &stream_of(&[]), 1000).unwrap();
    let got = st.read(&id).unwrap();
    assert_eq!(got, Vec::<u8>::new());
}

#[test]
fn round_trip_binary_multichunk() {
    let g = gen();
    let mut st = Store::new();
    let a: Vec<u8> = (0..=255u8).collect();
    let b = vec![0xffu8, 0xfe, 0x00, 0x80, 0xc3];
    let id = st
        .create(&g, &stream_of(&[a.as_slice(), b.as_slice(), &[]]), 7)
        .unwrap();
    let mut want = a.clone();
    want.extend_from_slice(&b);
    assert_eq!(st.read(&id).unwrap(), want);
}

#[test]
fn round_trip_large_payload() {
    let g = gen();
    let mut st = Store::new();
    let data: Vec<u8> = (0..100_000u32).map(|i| (i % 251) as u8).collect();
    let id = st.create(&g, &stream_of(&[&data]), 7).unwrap();
    assert_eq!(st.read(&id).unwrap(), data);
}

#[test]
fn identifiers_are_word_combinations() {
    let g = gen();
    let mut st = Store::new();
    let id = st.create(&g, &stream_of(&[b"x"]), 0).unwrap();
    assert!(!id.is_empty());
    assert!(id.chars().all(|c| c.is_ascii_lowercase() && c.is_ascii_alphabetic()));
}

#[test]
fn uniqueness_small_keyspace() {
    // One adjective and two nouns leave exactly two possible names: both can
    // be handed out, each exactly once, and a third create must fail rather
    // than reuse a live identifier.
    let adjectives = vec!["tiny".to_string()];
    let nouns = vec!["river".to_string(), "stone".to_string()];
    let g = IdGen::new(adjectives, nouns, false).unwrap();
    let mut st = Store::new();
    let id1 = st.create(&g, &stream_of(&[b"first"]), 0).unwrap();
    let id2 = st.create(&g, &stream_of(&[b"second"]), 0).unwrap();
    assert_ne!(id1, id2);
    assert_eq!(st.read(&id1).unwrap(), b"first".to_vec());
    assert_eq!(st.read(&id2).unwrap(), b"second".to_vec());
    let r3 = st.create(&g, &stream_of(&[b"third"]), 0);
    assert_eq!(r3.unwrap_err(), Error::IoFault);
    assert_eq!(st.count(), 2);
}

#[test]
fn many_creates_distinct_ids() {
    let g = gen();
    let mut st = Store::new();
    let mut ids = Vec::new();
    for i in 0..50u32 {
        let body = format!("paste number {}", i).into_bytes();
        let id = st.create(&g, &stream_of(&[&body]), 0).unwrap();
        ids.push((id, body));
    }
    assert_eq!(st.count(), 50);
    for (i, (id, body)) in ids.iter().enumerate() {
        for (id2, _) in ids.iter().skip(i + 1) {
            assert_ne!(id, id2);
        }
        assert_eq!(&st.read(id).unwrap(), body);
    }
}

#[test]
fn case_insensitive_lookup() {
    let g = gen();
    let mut st = Store::new();
    let id = st.create(&g, &stream_of(&[b"case test"]), 0).unwrap();
    let upper = id.to_uppercase();
    assert_ne!(upper, id);
    assert_eq!(st.read(&upper).unwrap(), b"case test".to_vec());
    let mixed: String = id
        .chars()
        .enumerate()
        .map(|(i, c)| if i % 2 == 0 { c.to_ascii_uppercase() } else { c })
        .collect();
    assert_eq!(st.read(&mixed).unwrap(), b"case test".to_vec());
}

#[test]
fn read_not_found() {
    let st = Store::new();
    assert_eq!(st.read("doesnotexist").unwrap_err(), Error::NotFound);
    let g = gen();
    let mut st = Store::new();
    st.create(&g, &stream_of(&[b"something"]), 0).unwrap();
    assert_eq!(st.read("doesnotexist").unwrap_err(), Error::NotFound);
    assert_eq!(st.read("snowy-peak!").unwrap_err(), Error::NotFound);
    assert_eq!(st.read("\u{00e9}clair").unwrap_err(), Error::NotFound);
}

#[test]
fn read_non_regular_file_is_not_found() {
    let mut st = Store::new();
    assert!(st.place_entry("sub.zst".to_string(), Vec::new(), 0, false));
    assert_eq!(st.read("sub").unwrap_err(), Error::NotFound);
}

#[test]
fn read_corrupt_stream_is_io_fault() {
    let mut st = Store::new();
    let garbage = vec![0x01u8, 0x02, 0x03, 0x04, 0x05, 0x06, 0x07, 0x08];
    assert!(st.place_entry("bad.zst".to_string(), garbage, 0, true));
    assert_eq!(st.read("bad").unwrap_err(), Error::IoFault);
}

#[test]
fn partial_write_leaves_no_paste() {
    let g = gen();
    let mut st = Store::new();
    let broken = IngestStream::broken(vec![b"truncated prefix".to_vec()]);
    let r = st.create(&g, &broken, 0);
    assert_eq!(r.unwrap_err(), Error::IoFault);
    assert_eq!(st.count(), 0);
}

#[test]
fn retention_expired_paste_is_swept() {
    let g = gen();
    let mut st = Store::new();
    let t0: u64 = 1_000_000;
    let ttl_days: u32 = 3;
    let ttl_secs = ttl_days as u64 * 86400;
    let id_old = st.create(&g, &stream_of(&[b"old"]), t0).unwrap();
    let id_young = st
        .create(&g, &stream_of(&[b"young"]), t0 + ttl_secs - 1)
        .unwrap();
    let removed = st.sweep(t0 + ttl_secs, ttl_days);
    assert_eq!(removed, 1);
    assert_eq!(st.read(&id_old).unwrap_err(), Error::NotFound);
    assert_eq!(st.read(&id_young).unwrap(), b"young".to_vec());
}

#[test]
fn retention_boundary_is_at_least() {
    // A paste exactly ttl old is already due.
    let g = gen();
    let mut st = Store::new();
    let id = st.create(&g, &stream_of(&[b"edge"]), 100).unwrap();
    let removed = st.sweep(100 + 86400, 1);
    assert_eq!(removed, 1);
    assert_eq!(st.read(&id).unwrap_err(), Error::NotFound);
}

#[test]
fn retention_skips_non_regular_entries() {
    let mut st = Store::new();
    assert!(st.place_entry("subdir".to_string(), Vec::new(), 0, false));
    let removed = st.sweep(u64::MAX, 1);
    assert_eq!(removed, 0);
    assert_eq!(st.count(), 1);
}

#[test]
fn ttl_zero_disables_sweeping() {
    let g = gen();
    let mut st = Store::new();
    let id = st.create(&g, &stream_of(&[b"immortal"]), 0).unwrap();
    let removed = st.sweep(u64::MAX, 0);
    assert_eq!(removed, 0);
    assert_eq!(st.read(&id).unwrap(), b"immortal".to_vec());
}

#[test]
fn read_text_renders_utf8() {
    let g = gen();
    let mut st = Store::new();
    let id = st
        .create(&g, &stream_of(&["grüße & <code>".as_bytes()]), 0)
        .unwrap();
    assert_eq!(st.read_text(&id).unwrap(), "grüße & <code>");
}

#[test]
fn read_text_replaces_invalid_utf8() {
    let g = gen();
    let mut st = Store::new();
    let id = st.create(&g, &stream_of(&[&[b'a', 0xff, b'b']]), 0).unwrap();
    assert_eq!(st.read_text(&id).unwrap(), "a\u{fffd}b");
}
