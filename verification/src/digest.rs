//! The hash by which clipboard contents are recognized.
use crate::encoding::lemma_encoding_of_nothing;
use crate::outside::{from_utf8_lossy, lossy_utf8, xxh3_128, xxh3_128_of};
use crate::rules::{needs_uri_normalization, ProcessMode};
use crate::uri::{
    law_normalization_keeps_key, normalize_uri_list, normalized, normalized_text, uri_key,
    uri_list_key,
};
use vstd::prelude::*;
use vstd::utf8::{encode_utf8, encode_utf8_decode_utf8, encode_utf8_valid_utf8};

verus! {

/// The hash of contents that hold nothing to synchronize.
pub const EMPTY_HASH: u128 = 0;

/// Whether a character does not count when two texts are compared.
pub open spec fn is_padding(c: char) -> bool {
    c == '\0' || c == '\n' || c == '\r' || c == ' ' || c == '\t'
}

/// The text by which two texts are compared: all of it but the padding.
pub open spec fn text_key(text: Seq<char>) -> Seq<char> {
    text.filter(|c: char| !is_padding(c))
}

/// The hash of the bytes by which contents are compared.
pub open spec fn digest(bytes: Seq<u8>) -> u128 {
    if bytes.len() == 0 {
        EMPTY_HASH
    } else {
        xxh3_128_of(bytes)
    }
}

/// The bytes by which contents are compared.
pub open spec fn content_key(data: Seq<u8>, mode: ProcessMode) -> Seq<u8> {
    match mode {
        ProcessMode::UriList => encode_utf8(uri_key(lossy_utf8(data))),
        ProcessMode::Text => encode_utf8(text_key(lossy_utf8(data))),
        ProcessMode::Raw => data,
    }
}

/// The hash by which contents are recognized.
pub open spec fn content_hash(data: Seq<u8>, mode: ProcessMode) -> u128 {
    digest(content_key(data, mode))
}

/// What is written to the other clipboard for contents read from one.
pub open spec fn written(data: Seq<u8>, mode: ProcessMode) -> Seq<u8> {
    match mode {
        ProcessMode::UriList => normalized(data),
        _ => data,
    }
}

/// The text by which a plain text is compared with another.
pub fn plain_text_key(text: &str) -> (bytes: Vec<u8>)
    ensures
        bytes@ == encode_utf8(text_key(text@)),
{
    let ghost keep = |c: char| !is_padding(c);
    let mut out = String::new();
    assert(text@.take(0).filter(keep) =~= seq![]) by {
        reveal(Seq::filter);
    }
    for c in iter: text.chars()
        invariant
            iter.seq() == text@,
            keep == (|c: char| !is_padding(c)),
            out@ == text@.take(iter.index() as int).filter(keep),
    {
        proof {
            reveal(Seq::filter);
            assert(text@.take(iter.index() + 1).drop_last() =~= text@.take(iter.index() as int));
        }
        if c != '\0' && c != '\n' && c != '\r' && c != ' ' && c != '\t' {
            out.push(c);
        }
    }
    assert(text@.take(text@.len() as int) =~= text@);
    out.as_str().as_bytes_vec()
}

/// Hashes the bytes by which contents are compared.
fn digest_of(bytes: &[u8]) -> (hash: u128)
    ensures
        hash == digest(bytes@),
{
    if bytes.is_empty() {
        EMPTY_HASH
    } else {
        xxh3_128(bytes)
    }
}

/// The hash by which clipboard contents are recognized, whichever side they are read from.
///
/// Lists of file addresses are compared by the paths they hold, texts by what is not padding, and
/// everything else byte by byte.
pub fn calc_hash(data: &[u8], process_mode: ProcessMode) -> (hash: u128)
    ensures
        hash == content_hash(data@, process_mode),
{
    match process_mode {
        ProcessMode::UriList => {
            let text = from_utf8_lossy(data);
            let key = uri_list_key(text.as_str());
            digest_of(key.as_slice())
        },
        ProcessMode::Text => {
            let text = from_utf8_lossy(data);
            let key = plain_text_key(text.as_str());
            digest_of(key.as_slice())
        },
        ProcessMode::Raw => digest_of(data),
    }
}

/// What is to be written to the other clipboard for contents read from one.
pub fn data_to_write(data: Vec<u8>, process_mode: ProcessMode) -> (bytes: Vec<u8>)
    ensures
        bytes@ == written(data@, process_mode),
{
    if needs_uri_normalization(process_mode) {
        normalize_uri_list(data.as_slice())
    } else {
        data
    }
}

/// Contents without a byte have the hash of empty contents, however they are processed.
pub proof fn law_no_bytes_hash_empty(mode: ProcessMode)
    ensures
        content_hash(seq![], mode) == EMPTY_HASH,
{
    reveal(Seq::filter);
    assert(lossy_utf8(seq![]) == Seq::<char>::empty());
}

/// What is written to the other clipboard has the hash of what was read from the first.
pub proof fn law_written_data_keeps_hash(data: Seq<u8>, mode: ProcessMode)
    ensures
        content_hash(written(data, mode), mode) == content_hash(data, mode),
{
    let text = lossy_utf8(data);
    law_normalization_keeps_key(text);
    encode_utf8_valid_utf8(normalized_text(text));
    encode_utf8_decode_utf8(normalized_text(text));
}

/// Padding does not change the hash of a text, wherever it stands.
pub proof fn law_padding_keeps_hash(before: Seq<char>, padding: Seq<char>, after: Seq<char>)
    requires
        forall|i: int| 0 <= i < padding.len() ==> is_padding(#[trigger] padding[i]),
    ensures
        content_hash(encode_utf8(before + padding + after), ProcessMode::Text) == content_hash(
            encode_utf8(before + after),
            ProcessMode::Text,
        ),
{
    let keep = |c: char| !is_padding(c);
    encode_utf8_valid_utf8(before + padding + after);
    encode_utf8_decode_utf8(before + padding + after);
    encode_utf8_valid_utf8(before + after);
    encode_utf8_decode_utf8(before + after);
    Seq::filter_distributes_over_add(before + padding, after, keep);
    Seq::filter_distributes_over_add(before, padding, keep);
    Seq::filter_distributes_over_add(before, after, keep);
    padding.lemma_all_neg_filter_empty(keep);
    assert(before.filter(keep) + padding.filter(keep) =~= before.filter(keep));
}

/// Every character counts when texts are compared, but for these five: the null character, the line
/// feed, the carriage return, the space and the tab. A character that counts does so wherever it
/// stands.
pub proof fn law_every_other_character_counts(before: Seq<char>, c: char, after: Seq<char>)
    ensures
        text_key(seq![]) == Seq::<char>::empty(),
        c != '\0' && c != '\n' && c != '\r' && c != ' ' && c != '\t' ==> text_key(
            before + seq![c] + after,
        ) == text_key(before) + seq![c] + text_key(after),
        c == '\0' || c == '\n' || c == '\r' || c == ' ' || c == '\t' ==> text_key(
            before + seq![c] + after,
        ) == text_key(before) + text_key(after),
{
    let keep = |c: char| !is_padding(c);
    reveal_with_fuel(Seq::filter, 2);
    Seq::filter_distributes_over_add(before + seq![c], after, keep);
    Seq::filter_distributes_over_add(before, seq![c], keep);
    if keep(c) {
        assert(seq![c].filter(keep) =~= seq![c]);
    } else {
        assert(seq![c].filter(keep) =~= seq![]);
        assert(before.filter(keep) + seq![] =~= before.filter(keep));
    }
}

/// A text is empty to the comparison exactly if it holds no character but the five that do not
/// count.
pub proof fn law_text_with_a_character_has_a_key(text: Seq<char>)
    ensures
        text_key(text).len() == 0 <==> forall|i: int|
            0 <= i < text.len() ==> #[trigger] text[i] == '\0' || text[i] == '\n' || text[i] == '\r'
                || text[i] == ' ' || text[i] == '\t',
    decreases text.len(),
{
    if text.len() == 0 {
        law_every_other_character_counts(seq![], 'a', seq![]);
        assert(text =~= seq![]);
    } else {
        let rest = text.skip(1);
        law_text_with_a_character_has_a_key(rest);
        law_every_other_character_counts(seq![], text[0], rest);
        assert(seq![] + seq![text[0]] + rest =~= text);
        assert forall|i: int| 0 < i < text.len() implies #[trigger] text[i] == rest[i - 1] by {
        }
        assert forall|i: int| 0 <= i < rest.len() implies #[trigger] rest[i] == text[i + 1] by {
        }
    }
}

/// Bytes that are passed on as they are have their own XXH3 hash, unless there are none.
pub proof fn law_raw_contents_hash_as_they_are(data: Seq<u8>)
    ensures
        data.len() > 0 ==> content_hash(data, ProcessMode::Raw) == xxh3_128_of(data),
        content_hash(seq![], ProcessMode::Raw) == 0,
{
}

/// A text has the XXH3 hash of the encoding of what counts of it, or 0 if nothing does.
pub proof fn law_text_hashes_as_what_counts(text: Seq<char>)
    ensures
        text_key(text).len() > 0 ==> content_hash(encode_utf8(text), ProcessMode::Text)
            == xxh3_128_of(encode_utf8(text_key(text))),
        text_key(text).len() == 0 ==> content_hash(encode_utf8(text), ProcessMode::Text) == 0,
{
    encode_utf8_valid_utf8(text);
    encode_utf8_decode_utf8(text);
    lemma_encoding_of_nothing(text_key(text));
}

/// A list of file addresses has the XXH3 hash of the encoding of its paths, or 0 if it has none.
pub proof fn law_list_hashes_as_its_paths(text: Seq<char>)
    ensures
        uri_key(text).len() > 0 ==> content_hash(encode_utf8(text), ProcessMode::UriList)
            == xxh3_128_of(encode_utf8(uri_key(text))),
        uri_key(text).len() == 0 ==> content_hash(encode_utf8(text), ProcessMode::UriList) == 0,
{
    encode_utf8_valid_utf8(text);
    encode_utf8_decode_utf8(text);
    lemma_encoding_of_nothing(uri_key(text));
}

/// Contents that are not valid UTF-8 hash as the text they are taken for, where they are texts or
/// lists.
pub proof fn law_contents_hash_as_decoded(data: Seq<u8>)
    ensures
        content_hash(data, ProcessMode::Text) == content_hash(
            encode_utf8(lossy_utf8(data)),
            ProcessMode::Text,
        ),
        content_hash(data, ProcessMode::UriList) == content_hash(
            encode_utf8(lossy_utf8(data)),
            ProcessMode::UriList,
        ),
{
    encode_utf8_valid_utf8(lossy_utf8(data));
    encode_utf8_decode_utf8(lossy_utf8(data));
}

/// Only lists of file addresses are rewritten: texts and other bytes are passed on as they are.
pub proof fn law_only_lists_are_rewritten(data: Seq<u8>)
    ensures
        written(data, ProcessMode::Text) == data,
        written(data, ProcessMode::Raw) == data,
        written(data, ProcessMode::UriList) == normalized(data),
{
}

} // verus!
