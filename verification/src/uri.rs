//! Lists of file addresses, as file managers put them on a clipboard: one path or `file://`
//! address per line, after a line that says whether the files were copied or cut.
use crate::encoding::{
    lemma_encoding_of_joined, lemma_last_byte_of_line_feed, lemma_paired_returns, returns_are_paired,
};
use crate::outside::{from_utf8_lossy, lossy_utf8};
use crate::text::{
    chars_of, is_white_space, law_lines_end_with_line_feeds, law_prefix_is_taken_away,
    law_trimming_leaves_the_inside, law_white_space_is_known, lemma_lines_hold_no_line_feed, lemma_lines_hold_no_paired_return,
    lemma_lines_of_ended_line, lemma_lines_of_joined, lemma_trimmed_without_cr, lines, push_chars,
    same_chars, split_lines, trim, trim_back, trim_start_matches, trimmed, views, without_cr,
    without_prefix,
};
use vstd::prelude::*;
use vstd::slice::slice_subrange;
use vstd::utf8::{
    decode_utf8, decode_utf8_encode_utf8, encode_utf8, encode_utf8_decode_utf8,
    encode_utf8_valid_utf8, valid_utf8,
};

verus! {

/// Whether a line only says what was done with the files.
pub open spec fn is_verb(line: Seq<char>) -> bool {
    line == "copy"@ || line == "cut"@
}

/// A line with an absolute path turned into a `file://` address; any other line as it is.
pub open spec fn addressed(line: Seq<char>) -> Seq<char> {
    if line.len() > 0 && line[0] == '/' {
        "file:///"@ + line.skip(1)
    } else {
        line
    }
}

/// What normalization writes for one line.
pub open spec fn normalized_line(line: Seq<char>) -> Seq<char> {
    if is_verb(line) {
        seq![]
    } else {
        addressed(line).push('\n')
    }
}

/// What normalization writes for a list of lines.
pub open spec fn normalized_lines(lines: Seq<Seq<char>>) -> Seq<char>
    decreases lines.len(),
{
    if lines.len() == 0 {
        seq![]
    } else {
        normalized_line(lines[0]) + normalized_lines(lines.drop_first())
    }
}

/// The normalized form of a text.
pub open spec fn normalized_text(text: Seq<char>) -> Seq<char> {
    normalized_lines(lines(text))
}

/// The normalized form of clipboard data.
pub open spec fn normalized(data: Seq<u8>) -> Seq<u8> {
    encode_utf8(normalized_text(lossy_utf8(data)))
}

/// What one line adds to the text by which two lists are compared.
pub open spec fn line_key(line: Seq<char>) -> Seq<char> {
    if is_verb(trimmed(line)) {
        seq![]
    } else {
        without_prefix(trimmed(line), "file://"@)
    }
}

/// What a list of lines adds to the text by which two lists are compared.
pub open spec fn lines_key(lines: Seq<Seq<char>>) -> Seq<char>
    decreases lines.len(),
{
    if lines.len() == 0 {
        seq![]
    } else {
        line_key(lines[0]) + lines_key(lines.drop_first())
    }
}

/// The text by which two lists are compared: the paths, one after the other, without white space
/// around them and without the line breaks.
pub open spec fn uri_key(text: Seq<char>) -> Seq<char> {
    lines_key(lines(text)).filter(|c: char| c != '\n' && c != '\r')
}

proof fn lemma_normalized_lines_push(lines: Seq<Seq<char>>, line: Seq<char>)
    ensures
        normalized_lines(lines.push(line)) == normalized_lines(lines) + normalized_line(line),
    decreases lines.len(),
{
    if lines.len() == 0 {
        reveal_with_fuel(normalized_lines, 2);
        assert(normalized_lines(lines.push(line)) =~= normalized_line(line));
        assert(normalized_lines(lines) + normalized_line(line) =~= normalized_line(line));
    } else {
        lemma_normalized_lines_push(lines.drop_first(), line);
        assert(lines.push(line).drop_first() =~= lines.drop_first().push(line));
        assert(normalized_lines(lines.push(line)) =~= normalized_lines(lines) + normalized_line(
            line,
        ));
    }
}

proof fn lemma_lines_key_push(lines: Seq<Seq<char>>, line: Seq<char>)
    ensures
        lines_key(lines.push(line)) == lines_key(lines) + line_key(line),
    decreases lines.len(),
{
    if lines.len() == 0 {
        reveal_with_fuel(lines_key, 2);
        assert(lines_key(lines.push(line)) =~= line_key(line));
        assert(lines_key(lines) + line_key(line) =~= line_key(line));
    } else {
        lemma_lines_key_push(lines.drop_first(), line);
        assert(lines.push(line).drop_first() =~= lines.drop_first().push(line));
        assert(lines_key(lines.push(line)) =~= lines_key(lines) + line_key(line));
    }
}

/// Writes a list of file addresses the way the receiving side expects it: one address per line,
/// every line ended by a line feed, and no line that says whether the files were copied or cut.
pub fn normalize_uri_text(text: &str) -> (bytes: Vec<u8>)
    ensures
        bytes@ == encode_utf8(normalized_text(text@)),
{
    let chars = chars_of(text);
    let parts = split_lines(chars.as_slice());
    let copy = chars_of("copy");
    let cut = chars_of("cut");
    let mut out = String::new();
    let mut i: usize = 0;
    assert(views(parts@).take(0) =~= seq![]);
    while i < parts.len()
        invariant
            i <= parts@.len(),
            copy@ == "copy"@,
            cut@ == "cut"@,
            out@ == normalized_lines(views(parts@).take(i as int)),
        decreases parts@.len() - i,
    {
        let line = parts[i];
        proof {
            lemma_normalized_lines_push(views(parts@).take(i as int), line@);
            assert(views(parts@).take(i + 1) =~= views(parts@).take(i as int).push(line@));
        }
        i += 1;
        if same_chars(line, copy.as_slice()) || same_chars(line, cut.as_slice()) {
            assert(out@ =~= normalized_lines(views(parts@).take(i as int)));
            continue ;
        }
        if line.len() > 0 && line[0] == '/' {
            out.append("file:///");
            push_chars(&mut out, slice_subrange(line, 1, line.len()));
            assert(line@.subrange(1, line@.len() as int) =~= line@.skip(1));
        } else {
            push_chars(&mut out, line);
        }
        out.push('\n');
        assert(out@ =~= normalized_lines(views(parts@).take(i as int)));
    }
    assert(views(parts@).take(i as int) =~= views(parts@));
    out.as_str().as_bytes_vec()
}

/// Decodes clipboard data and normalizes the list of file addresses it holds.
pub fn normalize_uri_list(data: &[u8]) -> (bytes: Vec<u8>)
    ensures
        bytes@ == normalized(data@),
{
    let text = from_utf8_lossy(data);
    normalize_uri_text(text.as_str())
}

/// The text by which a list of file addresses is compared with another.
pub fn uri_list_key(text: &str) -> (bytes: Vec<u8>)
    ensures
        bytes@ == encode_utf8(uri_key(text@)),
{
    let chars = chars_of(text);
    let parts = split_lines(chars.as_slice());
    let copy = chars_of("copy");
    let cut = chars_of("cut");
    let scheme = chars_of("file://");
    let ghost keep = |c: char| c != '\n' && c != '\r';
    let mut out = String::new();
    let mut i: usize = 0;
    assert(views(parts@).take(0) =~= seq![]);
    assert(lines_key(seq![]).filter(keep) =~= seq![]) by {
        reveal(Seq::filter);
    }
    while i < parts.len()
        invariant
            i <= parts@.len(),
            copy@ == "copy"@,
            cut@ == "cut"@,
            scheme@ == "file://"@,
            keep == (|c: char| c != '\n' && c != '\r'),
            out@ == lines_key(views(parts@).take(i as int)).filter(keep),
        decreases parts@.len() - i,
    {
        let line = parts[i];
        proof {
            lemma_lines_key_push(views(parts@).take(i as int), line@);
            assert(views(parts@).take(i + 1) =~= views(parts@).take(i as int).push(line@));
            Seq::filter_distributes_over_add(
                lines_key(views(parts@).take(i as int)),
                line_key(line@),
                keep,
            );
        }
        i += 1;
        let inner = trim(line);
        if same_chars(inner, copy.as_slice()) || same_chars(inner, cut.as_slice()) {
            assert(line_key(line@).filter(keep) =~= seq![]) by {
                reveal(Seq::filter);
            }
            assert(out@ =~= lines_key(views(parts@).take(i as int)).filter(keep));
            continue ;
        }
        let path = trim_start_matches(inner, scheme.as_slice());
        let ghost before = out@;
        let mut k: usize = 0;
        assert(path@.take(0).filter(keep) =~= seq![]) by {
            reveal(Seq::filter);
        }
        while k < path.len()
            invariant
                k <= path@.len(),
                keep == (|c: char| c != '\n' && c != '\r'),
                out@ == before + path@.take(k as int).filter(keep),
            decreases path@.len() - k,
        {
            let c = path[k];
            proof {
                reveal(Seq::filter);
                assert(path@.take(k + 1).drop_last() =~= path@.take(k as int));
            }
            if c != '\n' && c != '\r' {
                out.push(c);
            }
            k += 1;
            assert(out@ =~= before + path@.take(k as int).filter(keep));
        }
        assert(path@.take(k as int) =~= path@);
    }
    assert(views(parts@).take(i as int) =~= views(parts@));
    out.as_str().as_bytes_vec()
}

/// Trimming the end of a text leaves alone what does not end with white space.
proof fn lemma_trim_back_behind(front: Seq<char>, back: Seq<char>)
    requires
        front.len() > 0,
        !is_white_space(front.last()),
    ensures
        trim_back(front + back) == front + trim_back(back),
    decreases back.len(),
{
    if back.len() == 0 {
        assert(front + back =~= front);
        assert(front + trim_back(back) =~= front);
    } else if is_white_space(back.last()) {
        assert((front + back).drop_last() =~= front + back.drop_last());
        lemma_trim_back_behind(front, back.drop_last());
    }
}

proof fn lemma_verbs_have_no_key(line: Seq<char>)
    requires
        is_verb(line),
    ensures
        line_key(line) == Seq::<char>::empty(),
{
    reveal_strlit("copy");
    reveal_strlit("cut");
}

/// A path and the address made of it are compared as the same.
proof fn lemma_addressed_key(line: Seq<char>)
    ensures
        line_key(addressed(line)) == line_key(line),
{
    if line.len() > 0 && line[0] == '/' {
        reveal_strlit("copy");
        reveal_strlit("cut");
        reveal_strlit("file://");
        reveal_strlit("file:///");
        let scheme = "file://"@;
        let front = "file:///"@;
        let back = trim_back(line.skip(1));
        lemma_trim_back_behind(seq!['/'], line.skip(1));
        assert(seq!['/'] + line.skip(1) =~= line);
        lemma_trim_back_behind(front, line.skip(1));
        let path = seq!['/'] + back;
        assert(trimmed(line) == path);
        assert(trimmed(addressed(line)) == front + back);
        assert(!scheme.is_prefix_of(path)) by {
            if scheme.is_prefix_of(path) {
                assert(scheme[0] == path.subrange(0, scheme.len() as int)[0]);
            }
        }
        assert(without_prefix(path, scheme) == path);
        assert(scheme =~= (front + back).subrange(0, scheme.len() as int));
        assert((front + back).skip(scheme.len() as int) =~= path);
        assert(path[0] != "copy"@[0] && path[0] != "cut"@[0]);
        assert((front + back)[0] != "copy"@[0] && (front + back)[0] != "cut"@[0]);
    }
}

proof fn lemma_addressed_holds_no_line_feed(line: Seq<char>)
    requires
        !line.contains('\n'),
    ensures
        !addressed(line).contains('\n'),
{
    reveal_strlit("file:///");
    assert forall|i: int| 0 <= i < addressed(line).len() implies addressed(line)[i] != '\n' by {
        if line.len() > 0 && line[0] == '/' {
            if i >= 8 {
                assert(addressed(line)[i] == line[i - 7]);
                assert(line.contains(line[i - 7]));
            }
        } else {
            assert(line.contains(line[i]));
        }
    }
}

/// Splits the normalized form of a list of lines behind what it holds of the first one.
proof fn lemma_normalized_lines_first(lines_of_text: Seq<Seq<char>>)
    requires
        lines_of_text.len() > 0,
        !lines_of_text[0].contains('\n'),
        !is_verb(lines_of_text[0]),
    ensures
        lines(normalized_lines(lines_of_text)) == seq![without_cr(addressed(lines_of_text[0]))]
            + lines(normalized_lines(lines_of_text.drop_first())),
{
    let line = addressed(lines_of_text[0]);
    let rest = normalized_lines(lines_of_text.drop_first());
    lemma_addressed_holds_no_line_feed(lines_of_text[0]);
    lemma_lines_of_ended_line(line, rest);
    assert(normalized_lines(lines_of_text) =~= line + seq!['\n'] + rest);
}

proof fn lemma_normalized_lines_key(lines_of_text: Seq<Seq<char>>)
    requires
        forall|i: int|
            0 <= i < lines_of_text.len() ==> !(#[trigger] lines_of_text[i]).contains('\n'),
    ensures
        lines_key(lines(normalized_lines(lines_of_text))) == lines_key(lines_of_text),
    decreases lines_of_text.len(),
{
    if lines_of_text.len() > 0 {
        let line = lines_of_text[0];
        let rest = lines_of_text.drop_first();
        lemma_normalized_lines_key(rest);
        if is_verb(line) {
            lemma_verbs_have_no_key(line);
            assert(normalized_lines(lines_of_text) =~= normalized_lines(rest));
            assert(lines_key(lines_of_text) =~= lines_key(rest));
        } else {
            lemma_normalized_lines_first(lines_of_text);
            lemma_trimmed_without_cr(addressed(line));
            lemma_addressed_key(line);
            let written = lines(normalized_lines(lines_of_text));
            assert(written.drop_first() =~= lines(normalized_lines(rest)));
        }
    }
}

proof fn lemma_normalized_lines_again(lines_of_text: Seq<Seq<char>>)
    requires
        forall|i: int|
            0 <= i < lines_of_text.len() ==> !(#[trigger] lines_of_text[i]).contains('\n')
                && without_cr(lines_of_text[i]) == lines_of_text[i],
    ensures
        normalized_lines(lines(normalized_lines(lines_of_text))) == normalized_lines(lines_of_text),
    decreases lines_of_text.len(),
{
    if lines_of_text.len() > 0 {
        let line = lines_of_text[0];
        let rest = lines_of_text.drop_first();
        lemma_normalized_lines_again(rest);
        if is_verb(line) {
            assert(normalized_lines(lines_of_text) =~= normalized_lines(rest));
        } else {
            reveal_strlit("copy");
            reveal_strlit("cut");
            reveal_strlit("file:///");
            lemma_normalized_lines_first(lines_of_text);
            assert(without_cr(line) == line);
            if line.len() > 0 && line[0] == '/' {
                assert(addressed(line)[0] == 'f');
                if line.len() > 1 {
                    assert(addressed(line).last() == line.last());
                }
            }
            assert(without_cr(addressed(line)) == addressed(line));
            let written = lines(normalized_lines(lines_of_text));
            assert(written.drop_first() =~= lines(normalized_lines(rest)));
        }
    }
}

/// Normalizing a list of file addresses does not change the text by which it is compared.
pub proof fn law_normalization_keeps_key(text: Seq<char>)
    ensures
        uri_key(normalized_text(text)) == uri_key(text),
{
    lemma_lines_hold_no_line_feed(text);
    lemma_normalized_lines_key(lines(text));
}

/// A line that says whether the files were copied or cut does not count when lists are compared.
pub proof fn law_verb_does_not_count(verb: Seq<char>, text: Seq<char>)
    requires
        is_verb(verb),
    ensures
        uri_key(verb + seq!['\n'] + text) == uri_key(text),
{
    reveal_strlit("copy");
    reveal_strlit("cut");
    lemma_verbs_have_no_key(verb);
    assert(!verb.contains('\n'));
    lemma_lines_of_ended_line(verb, text);
    let parts = lines(verb + seq!['\n'] + text);
    assert(parts.drop_first() =~= lines(text));
    assert(lines_key(parts) =~= lines_key(lines(text)));
}

/// Lists with paths and lists with the addresses of those paths are compared as the same.
pub proof fn law_address_counts_as_path(
    before: Seq<Seq<char>>,
    path: Seq<char>,
    after: Seq<Seq<char>>,
)
    requires
        path.len() > 0,
        path[0] == '/',
    ensures
        lines_key(before + seq!["file://"@ + path] + after) == lines_key(
            before + seq![path] + after,
        ),
    decreases before.len(),
{
    let with_address = before + seq!["file://"@ + path] + after;
    let with_path = before + seq![path] + after;
    if before.len() == 0 {
        lemma_addressed_key(path);
        reveal_strlit("file://");
        reveal_strlit("file:///");
        assert("file:///"@ + path.skip(1) =~= "file://"@ + path);
        assert(with_address.drop_first() =~= with_path.drop_first());
    } else {
        let rest = before.drop_first();
        law_address_counts_as_path(rest, path, after);
        assert(with_address.drop_first() =~= rest + seq!["file://"@ + path] + after);
        assert(with_path.drop_first() =~= rest + seq![path] + after);
    }
}

/// Normalizing data that is normalized already changes nothing, unless a line ended with a bare
/// carriage return, which becomes part of the line break that normalization writes behind it.
pub proof fn law_normalization_is_stable(data: Seq<u8>)
    requires
        forall|i: int|
            0 <= i < lines(lossy_utf8(data)).len() ==> without_cr(
                #[trigger] lines(lossy_utf8(data))[i],
            ) == lines(lossy_utf8(data))[i],
    ensures
        normalized(normalized(data)) == normalized(data),
{
    let text = lossy_utf8(data);
    lemma_lines_hold_no_line_feed(text);
    lemma_normalized_lines_again(lines(text));
    encode_utf8_valid_utf8(normalized_text(text));
    encode_utf8_decode_utf8(normalized_text(text));
}

/// Normalizing data that is normalized already changes nothing, if the data is valid UTF-8 in which
/// every carriage return stands before a line feed.
pub proof fn law_normalization_is_stable_on_paired_returns(data: Seq<u8>)
    requires
        valid_utf8(data),
        returns_are_paired(data),
    ensures
        normalized(normalized(data)) == normalized(data),
{
    let text = decode_utf8(data);
    decode_utf8_encode_utf8(data);
    assert forall|i: int| 0 <= i < text.len() && #[trigger] text[i] == '\r' implies i + 1
        < text.len() && text[i + 1] == '\n' by {
        lemma_paired_returns(text, i);
    }
    lemma_lines_hold_no_paired_return(text);
    assert forall|i: int| 0 <= i < lines(text).len() implies without_cr(#[trigger] lines(text)[i])
        == lines(text)[i] by {
        let line = lines(text)[i];
        if line.len() > 0 {
            assert(line.contains(line.last()));
        }
    }
    law_normalization_is_stable(data);
}

proof fn lemma_normalized_lines_of_joined(a: Seq<Seq<char>>, b: Seq<Seq<char>>)
    ensures
        normalized_lines(a + b) == normalized_lines(a) + normalized_lines(b),
    decreases a.len(),
{
    if a.len() == 0 {
        assert(a + b =~= b);
        assert(normalized_lines(a) + normalized_lines(b) =~= normalized_lines(b));
    } else {
        lemma_normalized_lines_of_joined(a.drop_first(), b);
        assert((a + b).drop_first() =~= a.drop_first() + b);
        assert(normalized_lines(a + b) =~= normalized_lines(a) + normalized_lines(b));
    }
}

/// Two lists, joined behind a line feed, are normalized to their normalized forms, joined.
pub proof fn law_normalization_joins_texts(a: Seq<char>, b: Seq<char>)
    requires
        a.len() == 0 || a.last() == '\n',
    ensures
        normalized_text(a + b) == normalized_text(a) + normalized_text(b),
{
    lemma_lines_of_joined(a, b);
    lemma_normalized_lines_of_joined(lines(a), lines(b));
}

/// Data of two lists in valid UTF-8, joined behind a line feed, is normalized to their normalized
/// forms, joined.
pub proof fn law_normalization_joins(a: Seq<u8>, b: Seq<u8>)
    requires
        valid_utf8(a),
        valid_utf8(b),
        a.len() == 0 || a.last() == 10,
    ensures
        normalized(a + b) == normalized(a) + normalized(b),
{
    let first = decode_utf8(a);
    let second = decode_utf8(b);
    decode_utf8_encode_utf8(a);
    decode_utf8_encode_utf8(b);
    lemma_encoding_of_joined(first, second);
    encode_utf8_valid_utf8(first + second);
    encode_utf8_decode_utf8(first + second);
    if a.len() > 0 {
        lemma_last_byte_of_line_feed(first);
    }
    law_normalization_joins_texts(first, second);
    lemma_encoding_of_joined(normalized_text(first), normalized_text(second));
}

/// Of the lines of a list, "copy" and "cut" are left out, and every other line is written: behind
/// `file://` if it begins with a slash, else as it stands, and ended by a line feed.
pub proof fn law_only_copy_and_cut_are_left_out(line: Seq<char>, rest: Seq<char>)
    requires
        !line.contains('\n'),
    ensures
        normalized_text(seq![]) == Seq::<char>::empty(),
        ({
            let out = if line == "copy"@ || line == "cut"@ {
                seq![]
            } else if line.len() > 0 && line[0] == '/' {
                "file://"@ + line + seq!['\n']
            } else {
                line + seq!['\n']
            };
            &&& line.len() > 0 ==> normalized_text(line) == out
            &&& normalized_text(line + seq!['\r', '\n'] + rest) == out + normalized_text(rest)
            &&& line.len() == 0 || line.last() != '\r' ==> normalized_text(
                line + seq!['\n'] + rest,
            ) == out + normalized_text(rest)
        }),
{
    law_lines_end_with_line_feeds(line, rest);
    reveal_strlit("file://");
    reveal_strlit("file:///");
    if line.len() > 0 && line[0] == '/' {
        assert("file:///"@ + line.skip(1) =~= "file://"@ + line);
    }
    let out = if line == "copy"@ || line == "cut"@ {
        seq![]
    } else if line.len() > 0 && line[0] == '/' {
        "file://"@ + line + seq!['\n']
    } else {
        line + seq!['\n']
    };
    assert(normalized_line(line) =~= out);
    assert((seq![line] + lines(rest)).drop_first() =~= lines(rest));
    reveal_with_fuel(normalized_lines, 2);
    assert(normalized_lines(seq![line]) =~= out);
}

/// A normalized list has as many lines as the list has lines other than "copy" and "cut".
pub proof fn law_every_other_line_is_written(text: Seq<char>)
    ensures
        lines(normalized_text(text)).len() == lines(text).filter(
            |line: Seq<char>| line != "copy"@ && line != "cut"@,
        ).len(),
{
    lemma_lines_hold_no_line_feed(text);
    lemma_every_other_line_is_written(lines(text));
}

proof fn lemma_every_other_line_is_written(lines_of_text: Seq<Seq<char>>)
    requires
        forall|i: int|
            0 <= i < lines_of_text.len() ==> !(#[trigger] lines_of_text[i]).contains('\n'),
    ensures
        lines(normalized_lines(lines_of_text)).len() == lines_of_text.filter(
            |line: Seq<char>| line != "copy"@ && line != "cut"@,
        ).len(),
    decreases lines_of_text.len(),
{
    let keep = |line: Seq<char>| line != "copy"@ && line != "cut"@;
    if lines_of_text.len() == 0 {
        reveal(Seq::filter);
    } else {
        let line = lines_of_text[0];
        let rest = lines_of_text.drop_first();
        lemma_every_other_line_is_written(rest);
        Seq::filter_distributes_over_add(seq![line], rest, keep);
        assert(seq![line] + rest =~= lines_of_text);
        assert(seq![line].filter(keep) =~= if keep(line) {
            seq![line]
        } else {
            seq![]
        }) by {
            reveal_with_fuel(Seq::filter, 2);
        }
        if is_verb(line) {
            assert(normalized_lines(lines_of_text) =~= normalized_lines(rest));
        } else {
            lemma_normalized_lines_first(lines_of_text);
        }
    }
}

/// Data in UTF-8 is normalized to the encoding of its normalized text, and other data is normalized
/// as the text it is taken for.
pub proof fn law_data_is_normalized_as_text(text: Seq<char>, data: Seq<u8>)
    ensures
        normalized(encode_utf8(text)) == encode_utf8(normalized_text(text)),
        normalized(data) == normalized(encode_utf8(lossy_utf8(data))),
{
    encode_utf8_valid_utf8(text);
    encode_utf8_decode_utf8(text);
    encode_utf8_valid_utf8(lossy_utf8(data));
    encode_utf8_decode_utf8(lossy_utf8(data));
}

/// `text`, `count` times over.
pub open spec fn repeated(text: Seq<char>, count: nat) -> Seq<char>
    decreases count,
{
    if count == 0 {
        seq![]
    } else {
        text + repeated(text, (count - 1) as nat)
    }
}

proof fn lemma_repeated_prefix(prefix: Seq<char>, count: nat, text: Seq<char>)
    ensures
        without_prefix(repeated(prefix, count) + text, prefix) == without_prefix(text, prefix),
    decreases count,
{
    if count == 0 {
        assert(repeated(prefix, count) + text =~= text);
    } else {
        let fewer = (count - 1) as nat;
        lemma_repeated_prefix(prefix, fewer, text);
        law_prefix_is_taken_away(repeated(prefix, fewer) + text, prefix);
        assert(repeated(prefix, count) + text =~= prefix + (repeated(prefix, fewer) + text));
    }
}

proof fn lemma_lines_key_of_joined(a: Seq<Seq<char>>, b: Seq<Seq<char>>)
    ensures
        lines_key(a + b) == lines_key(a) + lines_key(b),
    decreases a.len(),
{
    if a.len() == 0 {
        assert(a + b =~= b);
        assert(lines_key(a) + lines_key(b) =~= lines_key(b));
    } else {
        lemma_lines_key_of_joined(a.drop_first(), b);
        assert((a + b).drop_first() =~= a.drop_first() + b);
        assert(lines_key(a + b) =~= lines_key(a) + lines_key(b));
    }
}

/// Lists that are joined behind a line feed are compared by the texts by which the two are
/// compared, joined.
pub proof fn law_keys_join(a: Seq<char>, b: Seq<char>)
    requires
        a.len() == 0 || a.last() == '\n',
    ensures
        uri_key(a + b) == uri_key(a) + uri_key(b),
{
    lemma_lines_of_joined(a, b);
    lemma_lines_key_of_joined(lines(a), lines(b));
    Seq::filter_distributes_over_add(
        lines_key(lines(a)),
        lines_key(lines(b)),
        |c: char| c != '\n' && c != '\r',
    );
}

/// What one line adds to the text by which a list is compared, wherever the line stands and
/// whether it is ended or not.
proof fn lemma_key_of_line(line: Seq<char>, rest: Seq<char>)
    requires
        !line.contains('\n'),
    ensures
        ({
            let key = line_key(line).filter(|c: char| c != '\n' && c != '\r');
            &&& uri_key(line) == key
            &&& uri_key(line + seq!['\n'] + rest) == key + uri_key(rest)
        }),
{
    let keep = |c: char| c != '\n' && c != '\r';
    lemma_lines_of_ended_line(line, rest);
    lemma_trimmed_without_cr(line);
    let parts = seq![without_cr(line)] + lines(rest);
    assert(parts.drop_first() =~= lines(rest));
    Seq::filter_distributes_over_add(line_key(line), lines_key(lines(rest)), keep);
    reveal_with_fuel(lines_key, 2);
    if line.len() > 0 {
        law_lines_end_with_line_feeds(line, rest);
        assert(lines_key(seq![line]) =~= line_key(line));
    } else {
        reveal_strlit("copy");
        reveal_strlit("cut");
        assert(line =~= seq![]);
        assert(line_key(line) =~= seq![]) by {
            reveal_strlit("file://");
        }
    }
}

/// Two conditions that agree on a text pick the same of it.
proof fn lemma_filters_agree(
    text: Seq<char>,
    keep: spec_fn(char) -> bool,
    keep_too: spec_fn(char) -> bool,
)
    requires
        forall|i: int| 0 <= i < text.len() ==> keep(#[trigger] text[i]) == keep_too(text[i]),
    ensures
        text.filter(keep) == text.filter(keep_too),
    decreases text.len(),
{
    reveal(Seq::filter);
    if text.len() > 0 {
        lemma_filters_agree(text.drop_last(), keep, keep_too);
    }
}

/// A condition that holds of all of a text picks all of it.
proof fn lemma_filter_keeps_all(text: Seq<char>, keep: spec_fn(char) -> bool)
    requires
        forall|i: int| 0 <= i < text.len() ==> keep(#[trigger] text[i]),
    ensures
        text.filter(keep) == text,
    decreases text.len(),
{
    reveal(Seq::filter);
    if text.len() > 0 {
        lemma_filter_keeps_all(text.drop_last(), keep);
        assert(text.drop_last().push(text.last()) =~= text);
    } else {
        assert(text =~= seq![]);
    }
}

/// A line counts as its path, without the white space around it and without `file://` in front of
/// it, however many times that stands there. All of the path counts but carriage returns in it.
pub proof fn law_line_counts_as_its_path(
    before: Seq<char>,
    schemes: nat,
    path: Seq<char>,
    after: Seq<char>,
    rest: Seq<char>,
)
    requires
        forall|i: int| 0 <= i < before.len() ==> is_white_space(#[trigger] before[i]),
        forall|i: int| 0 <= i < after.len() ==> is_white_space(#[trigger] after[i]),
        !before.contains('\n'),
        !path.contains('\n'),
        !after.contains('\n'),
        path.len() > 0,
        schemes == 0 ==> !is_white_space(path[0]) && path != "copy"@ && path != "cut"@,
        !is_white_space(path.last()),
        !"file://"@.is_prefix_of(path),
    ensures
        ({
            let line = before + repeated("file://"@, schemes) + path + after;
            let key = path.filter(|c: char| c != '\r');
            &&& uri_key(line) == key
            &&& uri_key(line + seq!['\n'] + rest) == key + uri_key(rest)
        }),
        !path.contains('\r') ==> path.filter(|c: char| c != '\r') == path,
{
    reveal_strlit("copy");
    reveal_strlit("cut");
    reveal_strlit("file://");
    let front = repeated("file://"@, schemes);
    let inside = front + path;
    let line = before + front + path + after;
    lemma_repeated_holds_no_line_feed(schemes);
    if schemes > 0 {
        assert(inside[0] == 'f');
    } else {
        assert(inside =~= path);
    }
    assert(inside.last() == path.last());
    law_white_space_is_known('f');
    law_trimming_leaves_the_inside(before, inside, after);
    assert(line =~= before + inside + after);
    assert(!line.contains('\n')) by {
        if line.contains('\n') {
            let i = choose|i: int| 0 <= i < line.len() && line[i] == '\n';
            let n = before.len() as int;
            let m = n + front.len();
            if i < n {
                assert(before.contains(before[i]));
            } else if i < m {
                assert(front.contains(front[i - n]));
            } else if i < m + path.len() {
                assert(path.contains(path[i - m]));
            } else {
                assert(after.contains(after[i - m - path.len()]));
            }
        }
    }
    assert(!is_verb(inside)) by {
        if schemes > 0 {
            assert("copy"@[0] != 'f' && "cut"@[0] != 'f');
        }
    }
    lemma_repeated_prefix("file://"@, schemes, path);
    assert(line_key(line) == path);
    assert forall|i: int| 0 <= i < path.len() implies #[trigger] path[i] != '\n' by {
        assert(path.contains(path[i]));
    }
    lemma_filters_agree(path, |c: char| c != '\n' && c != '\r', |c: char| c != '\r');
    lemma_key_of_line(line, rest);
    if !path.contains('\r') {
        assert forall|i: int| 0 <= i < path.len() implies #[trigger] path[i] != '\r' by {
            assert(path.contains(path[i]));
        }
        lemma_filter_keeps_all(path, |c: char| c != '\r');
    }
}

proof fn lemma_repeated_holds_no_line_feed(count: nat)
    ensures
        !repeated("file://"@, count).contains('\n'),
        count > 0 ==> repeated("file://"@, count).len() > 0 && repeated("file://"@, count)[0] == 'f'
            && repeated("file://"@, count).last() == '/',
    decreases count,
{
    reveal_strlit("file://");
    if count > 0 {
        let fewer = repeated("file://"@, (count - 1) as nat);
        lemma_repeated_holds_no_line_feed((count - 1) as nat);
        let text = repeated("file://"@, count);
        assert forall|i: int| 0 <= i < text.len() implies text[i] != '\n' by {
            if i >= 7 {
                assert(fewer.contains(fewer[i - 7]));
            }
        }
    }
}

/// A line of white space, and a line of "copy", of "cut" or of nothing but `file://`, once or more
/// times, with or without white space around it, does not count.
pub proof fn law_line_without_a_path_does_not_count(
    before: Seq<char>,
    inside: Seq<char>,
    schemes: nat,
    after: Seq<char>,
    rest: Seq<char>,
)
    requires
        forall|i: int| 0 <= i < before.len() ==> is_white_space(#[trigger] before[i]),
        forall|i: int| 0 <= i < after.len() ==> is_white_space(#[trigger] after[i]),
        !before.contains('\n'),
        !after.contains('\n'),
        inside == "copy"@ || inside == "cut"@ || inside == repeated("file://"@, schemes),
    ensures
        uri_key(before + inside + after) == Seq::<char>::empty(),
        uri_key(before + inside + after + seq!['\n'] + rest) == uri_key(rest),
{
    reveal_strlit("copy");
    reveal_strlit("cut");
    reveal_strlit("file://");
    let line = before + inside + after;
    lemma_repeated_holds_no_line_feed(schemes);
    law_white_space_is_known('c');
    law_white_space_is_known('y');
    law_white_space_is_known('t');
    law_white_space_is_known('f');
    law_white_space_is_known('/');
    law_trimming_leaves_the_inside(before, inside, after);
    assert(!line.contains('\n')) by {
        if line.contains('\n') {
            let i = choose|i: int| 0 <= i < line.len() && line[i] == '\n';
            let n = before.len() as int;
            if i < n {
                assert(before.contains(before[i]));
            } else if i < n + inside.len() {
                assert(inside.contains(inside[i - n]));
            } else {
                assert(after.contains(after[i - n - inside.len()]));
            }
        }
    }
    assert(line_key(line) =~= seq![]) by {
        if inside == repeated("file://"@, schemes) {
            lemma_repeated_prefix("file://"@, schemes, seq![]);
            assert(repeated("file://"@, schemes) + seq![] =~= inside);
        }
    }
    assert(line_key(line).filter(|c: char| c != '\n' && c != '\r') =~= seq![]) by {
        reveal(Seq::filter);
    }
    lemma_key_of_line(line, rest);
    assert(seq![] + uri_key(rest) =~= uri_key(rest));
}

} // verus!
