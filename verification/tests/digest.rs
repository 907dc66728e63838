use linuxqq_clipsync::digest::{calc_hash, data_to_write, plain_text_key, EMPTY_HASH};
use linuxqq_clipsync::rules::{needs_uri_normalization, ProcessMode};
use xxhash_rust::xxh3::xxh3_128;

const MODES: [ProcessMode; 3] = [ProcessMode::UriList, ProcessMode::Text, ProcessMode::Raw];

#[test]
fn raw_contents_are_hashed_as_they_are() {
    assert_eq!(calc_hash(b"abc", ProcessMode::Raw), 0x06b05ab6733a618578af5f94892f3950);
    assert_eq!(calc_hash(b"a b\n\0\xff", ProcessMode::Raw), xxh3_128(b"a b\n\0\xff"));
}

#[test]
fn texts_are_hashed_without_padding() {
    assert_eq!(calc_hash(b" a\tb\r\nc\0", ProcessMode::Text), xxh3_128(b"abc"));
    assert_eq!(calc_hash("a\u{3000}b".as_bytes(), ProcessMode::Text), xxh3_128("a\u{3000}b".as_bytes()));
    assert_eq!(calc_hash(b"a\xff b", ProcessMode::Text), xxh3_128("a\u{fffd}b".as_bytes()));
    assert_eq!(plain_text_key(" ä\n"), "ä".as_bytes());
}

#[test]
fn lists_are_hashed_by_their_paths() {
    assert_eq!(calc_hash(b"copy\nfile:///a\n /b \n", ProcessMode::UriList), xxh3_128(b"/a/b"));
    assert_eq!(calc_hash(b"/\xff", ProcessMode::UriList), xxh3_128("/\u{fffd}".as_bytes()));
}

#[test]
fn nothing_has_the_empty_hash() {
    for mode in MODES {
        assert_eq!(calc_hash(b"", mode), EMPTY_HASH);
    }
    assert_eq!(calc_hash(b" \n\r\t\0", ProcessMode::Text), EMPTY_HASH);
    assert_eq!(calc_hash(b"copy\n file:// \n", ProcessMode::UriList), EMPTY_HASH);
    assert_ne!(calc_hash(b" ", ProcessMode::Raw), EMPTY_HASH);
}

#[test]
fn only_lists_are_rewritten() {
    let data = b"copy\n/a".to_vec();
    assert_eq!(data_to_write(data.clone(), ProcessMode::UriList), b"file:///a\n");
    assert_eq!(data_to_write(data.clone(), ProcessMode::Text), data);
    assert_eq!(data_to_write(data.clone(), ProcessMode::Raw), data);
    assert!(needs_uri_normalization(ProcessMode::UriList));
    assert!(!needs_uri_normalization(ProcessMode::Text));
    assert!(!needs_uri_normalization(ProcessMode::Raw));
}

#[test]
fn written_data_keeps_its_hash() {
    for mode in MODES {
        for data in [&b"cut\r\n/a b\r\nfile:///c\r"[..], b"/\xfe\xff", b"x", b"\n\n", b""] {
            let written = data_to_write(data.to_vec(), mode);
            assert_eq!(calc_hash(&written, mode), calc_hash(data, mode));
        }
    }
}

#[test]
fn padding_keeps_the_hash_of_a_text() {
    let plain = calc_hash("漢字かな".as_bytes(), ProcessMode::Text);
    assert_eq!(calc_hash("漢字 \r\n\t\0かな".as_bytes(), ProcessMode::Text), plain);
    assert_eq!(calc_hash("漢字かな\n".as_bytes(), ProcessMode::Text), plain);
}
