//! Text as a sequence of characters: comparing, searching, trimming, and splitting into lines.
use vstd::prelude::*;
use vstd::slice::slice_subrange;

verus! {

/// The characters of a list of character slices.
pub open spec fn views(parts: Seq<&[char]>) -> Seq<Seq<char>> {
    parts.map_values(|part: &[char]| part@)
}

/// Whether `needle` stands in `text` at position `at`.
pub open spec fn occurs_at(text: Seq<char>, needle: Seq<char>, at: int) -> bool {
    &&& 0 <= at
    &&& at + needle.len() <= text.len()
    &&& text.subrange(at, at + needle.len()) == needle
}

/// Whether `needle` stands somewhere in `text`.
pub open spec fn occurs_in(text: Seq<char>, needle: Seq<char>) -> bool {
    exists|at: int| occurs_at(text, needle, at)
}

/// Whether `c` has the Unicode property `White_Space`.
pub open spec fn is_white_space(c: char) -> bool {
    ||| '\u{9}' <= c <= '\u{d}'
    ||| c == '\u{20}'
    ||| c == '\u{85}'
    ||| c == '\u{a0}'
    ||| c == '\u{1680}'
    ||| '\u{2000}' <= c <= '\u{200a}'
    ||| c == '\u{2028}'
    ||| c == '\u{2029}'
    ||| c == '\u{202f}'
    ||| c == '\u{205f}'
    ||| c == '\u{3000}'
}

/// `text` without the white space it begins with.
pub open spec fn trim_front(text: Seq<char>) -> Seq<char>
    decreases text.len(),
{
    if text.len() > 0 && is_white_space(text[0]) {
        trim_front(text.drop_first())
    } else {
        text
    }
}

/// `text` without the white space it ends with.
pub open spec fn trim_back(text: Seq<char>) -> Seq<char>
    decreases text.len(),
{
    if text.len() > 0 && is_white_space(text.last()) {
        trim_back(text.drop_last())
    } else {
        text
    }
}

/// `text` without the white space at either end.
pub open spec fn trimmed(text: Seq<char>) -> Seq<char> {
    trim_front(trim_back(text))
}

/// `text` without `prefix` at its front, however many times it stands there.
pub open spec fn without_prefix(text: Seq<char>, prefix: Seq<char>) -> Seq<char>
    decreases text.len(),
{
    if prefix.len() > 0 && prefix.is_prefix_of(text) {
        without_prefix(text.skip(prefix.len() as int), prefix)
    } else {
        text
    }
}

/// The number of characters before the first line feed, or of all characters if there is none.
pub open spec fn line_len(text: Seq<char>) -> nat
    decreases text.len(),
{
    if text.len() == 0 || text[0] == '\n' {
        0
    } else {
        1 + line_len(text.drop_first())
    }
}

/// `line` without the one carriage return it may end with.
pub open spec fn without_cr(line: Seq<char>) -> Seq<char> {
    if line.len() > 0 && line.last() == '\r' {
        line.drop_last()
    } else {
        line
    }
}

/// The lines of `text`. A line ends with a line feed, or with a carriage return and a line feed;
/// neither belongs to the line. The last line need not be ended, and if it is not, a carriage
/// return at its end belongs to it.
pub open spec fn lines(text: Seq<char>) -> Seq<Seq<char>>
    decreases text.len(),
{
    let n = line_len(text);
    if text.len() == 0 {
        seq![]
    } else if n >= text.len() {
        seq![text]
    } else {
        seq![without_cr(text.take(n as int))] + lines(text.skip(n + 1int))
    }
}

/// The characters that `line_len` counts are no line feeds, and the next one, if any, is.
pub proof fn lemma_line_len(text: Seq<char>)
    ensures
        line_len(text) <= text.len(),
        forall|i: int| 0 <= i < line_len(text) ==> text[i] != '\n',
        line_len(text) < text.len() ==> text[line_len(text) as int] == '\n',
    decreases text.len(),
{
    if text.len() > 0 && text[0] != '\n' {
        let rest = text.drop_first();
        lemma_line_len(rest);
        assert forall|i: int| 0 <= i < line_len(text) implies text[i] != '\n' by {
            if i > 0 {
                assert(rest[i - 1] == text[i]);
            }
        }
    }
}

/// `line_len` is the only count of which `lemma_line_len` holds.
pub proof fn lemma_line_len_unique(text: Seq<char>, n: nat)
    requires
        n <= text.len(),
        forall|i: int| 0 <= i < n ==> text[i] != '\n',
        n < text.len() ==> text[n as int] == '\n',
    ensures
        line_len(text) == n,
{
    lemma_line_len(text);
    if line_len(text) < n {
        assert(text[line_len(text) as int] == '\n');
    } else if n < line_len(text) {
        assert(text[n as int] == '\n');
    }
}

/// No line of a text holds a line feed.
pub proof fn lemma_lines_hold_no_line_feed(text: Seq<char>)
    ensures
        forall|i: int| 0 <= i < lines(text).len() ==> !(#[trigger] lines(text)[i]).contains('\n'),
    decreases text.len(),
{
    let n = line_len(text);
    lemma_line_len(text);
    if text.len() > 0 && n < text.len() {
        let rest = text.skip(n + 1int);
        lemma_lines_hold_no_line_feed(rest);
        assert forall|i: int| 0 <= i < lines(text).len() implies !(
        #[trigger] lines(text)[i]).contains('\n') by {
            if i > 0 {
                assert(lines(text)[i] == lines(rest)[i - 1]);
            }
        }
    }
}

/// A line that holds no line feed, ended by one, is the first line of the text it begins.
pub proof fn lemma_lines_of_ended_line(line: Seq<char>, rest: Seq<char>)
    requires
        !line.contains('\n'),
    ensures
        lines(line + seq!['\n'] + rest) == seq![without_cr(line)] + lines(rest),
{
    let text = line + seq!['\n'] + rest;
    assert forall|i: int| 0 <= i < line.len() implies text[i] != '\n' by {
        assert(line.contains(line[i]));
    }
    lemma_line_len_unique(text, line.len());
    assert(text.take(line.len() as int) =~= line);
    assert(text.skip(line.len() + 1int) =~= rest);
}

/// If every carriage return in a text stands before a line feed, no line of it holds one.
pub proof fn lemma_lines_hold_no_paired_return(text: Seq<char>)
    requires
        forall|i: int|
            0 <= i < text.len() && #[trigger] text[i] == '\r' ==> i + 1 < text.len() && text[i + 1]
                == '\n',
    ensures
        forall|i: int| 0 <= i < lines(text).len() ==> !(#[trigger] lines(text)[i]).contains('\r'),
    decreases text.len(),
{
    let n = line_len(text);
    lemma_line_len(text);
    if text.len() > 0 && n >= text.len() {
        assert(forall|i: int| 0 <= i < text.len() ==> text[i] != '\r');
    } else if text.len() > 0 {
        let rest = text.skip(n + 1int);
        let line = without_cr(text.take(n as int));
        assert forall|i: int| 0 <= i < rest.len() && #[trigger] rest[i] == '\r' implies i + 1
            < rest.len() && rest[i + 1] == '\n' by {
            assert(text[n + 1 + i] == '\r');
        }
        lemma_lines_hold_no_paired_return(rest);
        assert forall|i: int| 0 <= i < line.len() implies line[i] != '\r' by {
            assert(line[i] == text[i]);
            if text[i] == '\r' {
                assert(text[i + 1] == '\n');
            }
        }
        assert forall|i: int| 0 <= i < lines(text).len() implies !(
        #[trigger] lines(text)[i]).contains('\r') by {
            if i > 0 {
                assert(lines(text)[i] == lines(rest)[i - 1]);
            }
        }
    }
}

/// The lines of a text that is joined of two, of which the first is empty or ended by a line feed,
/// are the lines of the two.
pub proof fn lemma_lines_of_joined(a: Seq<char>, b: Seq<char>)
    requires
        a.len() == 0 || a.last() == '\n',
    ensures
        lines(a + b) == lines(a) + lines(b),
    decreases a.len(),
{
    if a.len() == 0 {
        assert(a + b =~= b);
        assert(lines(a) + lines(b) =~= lines(b));
    } else {
        let n = line_len(a);
        lemma_line_len(a);
        if n >= a.len() {
            assert(a[a.len() - 1] != '\n');
        }
        let line = a.take(n as int);
        let rest = a.skip(n + 1int);
        assert(!line.contains('\n'));
        lemma_lines_of_joined(rest, b);
        lemma_lines_of_ended_line(line, rest);
        lemma_lines_of_ended_line(line, rest + b);
        assert(line + seq!['\n'] + rest =~= a);
        assert(line + seq!['\n'] + (rest + b) =~= a + b);
        assert(lines(a + b) =~= lines(a) + lines(b));
    }
}

/// White space at its end does not change what trimming leaves of a text.
pub proof fn lemma_trimmed_without_cr(line: Seq<char>)
    ensures
        trimmed(without_cr(line)) == trimmed(line),
{
}

/// The characters of `text`, one by one.
pub fn chars_of(text: &str) -> (chars: Vec<char>)
    ensures
        chars@ == text@,
{
    let mut chars: Vec<char> = Vec::new();
    for c in iter: text.chars()
        invariant
            iter.seq() == text@,
            chars@ == text@.take(iter.index() as int),
    {
        chars.push(c);
    }
    chars
}

/// Adds `chars` to the end of `text`.
pub fn push_chars(text: &mut String, chars: &[char])
    ensures
        final(text)@ == old(text)@ + chars@,
{
    let mut i: usize = 0;
    while i < chars.len()
        invariant
            i <= chars.len(),
            text@ == old(text)@ + chars@.take(i as int),
        decreases chars.len() - i,
    {
        text.push(chars[i]);
        i += 1;
    }
}

/// Whether the two texts are the same, character by character.
pub fn str_eq(a: &str, b: &str) -> (same: bool)
    ensures
        same == (a@ == b@),
{
    a.to_owned() == b.to_owned()
}

/// Whether the two slices hold the same characters.
pub fn same_chars(a: &[char], b: &[char]) -> (same: bool)
    ensures
        same == (a@ == b@),
{
    assert(a@.subrange(0, a@.len() as int) =~= a@);
    a.len() == b.len() && starts_with(a, b)
}

/// Whether `text` begins with `prefix`.
pub fn starts_with(text: &[char], prefix: &[char]) -> (begins: bool)
    ensures
        begins == prefix@.is_prefix_of(text@),
{
    if text.len() < prefix.len() {
        return false;
    }
    let mut i: usize = 0;
    while i < prefix.len()
        invariant
            i <= prefix.len() <= text.len(),
            forall|j: int| 0 <= j < i ==> text@[j] == prefix@[j],
        decreases prefix.len() - i,
    {
        if text[i] != prefix[i] {
            return false;
        }
        i += 1;
    }
    true
}

/// Whether `needle` stands somewhere in `text`.
pub fn contains(text: &[char], needle: &[char]) -> (found: bool)
    ensures
        found == occurs_in(text@, needle@),
{
    if text.len() < needle.len() {
        return false;
    }
    let last: usize = text.len() - needle.len();
    let mut at: usize = 0;
    loop
        invariant
            at <= last,
            last == text@.len() - needle@.len(),
            forall|i: int| 0 <= i < at ==> !occurs_at(text@, needle@, i),
        decreases last - at,
    {
        let tail = slice_subrange(text, at, text.len());
        if starts_with(tail, needle) {
            assert(text@.subrange(at as int, at + needle@.len()) =~= needle@) by {
                assert forall|i: int| 0 <= i < needle@.len() implies needle@[i] == text@[at
                    + i] by {
                    assert(tail@[i] == needle@[i]);
                }
            }
            assert(occurs_at(text@, needle@, at as int));
            return true;
        }
        assert(!occurs_at(text@, needle@, at as int)) by {
            if occurs_at(text@, needle@, at as int) {
                assert(needle@ =~= tail@.subrange(0, needle@.len() as int));
            }
        }
        if at == last {
            return false;
        }
        at += 1;
    }
}

/// Whether `c` is white space.
pub fn is_whitespace(c: char) -> (white: bool)
    ensures
        white == is_white_space(c),
{
    ('\u{9}' <= c && c <= '\u{d}') || c == '\u{20}' || c == '\u{85}' || c == '\u{a0}' || c
        == '\u{1680}' || ('\u{2000}' <= c && c <= '\u{200a}') || c == '\u{2028}' || c == '\u{2029}'
        || c == '\u{202f}' || c == '\u{205f}' || c == '\u{3000}'
}

/// The part of `text` between the white space at either end.
pub fn trim(text: &[char]) -> (inner: &[char])
    ensures
        inner@ == trimmed(text@),
{
    let mut end: usize = text.len();
    assert(text@.take(end as int) =~= text@);
    while end > 0 && is_whitespace(text[end - 1])
        invariant
            end <= text@.len(),
            trim_back(text@.take(end as int)) == trim_back(text@),
        decreases end,
    {
        assert(text@.take(end as int).drop_last() =~= text@.take(end - 1));
        end -= 1;
    }
    let ghost back = text@.take(end as int);
    assert(back == trim_back(text@));
    let mut start: usize = 0;
    assert(back.skip(0) =~= back);
    while start < end && is_whitespace(text[start])
        invariant
            start <= end <= text@.len(),
            back == text@.take(end as int),
            trim_front(back.skip(start as int)) == trim_front(back),
        decreases end - start,
    {
        assert(back.skip(start as int).drop_first() =~= back.skip(start + 1));
        start += 1;
    }
    assert(text@.subrange(start as int, end as int) =~= back.skip(start as int));
    slice_subrange(text, start, end)
}

/// The part of `text` behind every `prefix` at its front.
pub fn trim_start_matches<'a>(text: &'a [char], prefix: &[char]) -> (rest: &'a [char])
    ensures
        rest@ == without_prefix(text@, prefix@),
{
    if prefix.len() == 0 {
        return text;
    }
    let mut rest = text;
    while starts_with(rest, prefix)
        invariant
            prefix@.len() > 0,
            without_prefix(rest@, prefix@) == without_prefix(text@, prefix@),
        decreases rest@.len(),
    {
        let ghost before = rest@;
        rest = slice_subrange(rest, prefix.len(), rest.len());
        assert(rest@ =~= before.skip(prefix@.len() as int));
    }
    rest
}

/// The lines of `text`, without what ends them.
pub fn split_lines(text: &[char]) -> (parts: Vec<&[char]>)
    ensures
        views(parts@) == lines(text@),
{
    let mut parts: Vec<&[char]> = Vec::new();
    let mut start: usize = 0;
    assert(text@.skip(0) =~= text@);
    assert(views(parts@) =~= seq![]);
    while start < text.len()
        invariant
            start <= text@.len(),
            views(parts@) + lines(text@.skip(start as int)) == lines(text@),
        decreases text@.len() - start,
    {
        let ghost tail = text@.skip(start as int);
        let ghost before = parts@;
        let mut end: usize = start;
        while end < text.len() && text[end] != '\n'
            invariant
                start <= end <= text@.len(),
                tail == text@.skip(start as int),
                forall|i: int| 0 <= i < end - start ==> tail[i] != '\n',
            decreases text@.len() - end,
        {
            end += 1;
        }
        proof {
            lemma_line_len_unique(tail, (end - start) as nat);
        }
        if end == text.len() {
            parts.push(slice_subrange(text, start, end));
            assert(parts@.last()@ =~= tail);
            assert(views(parts@) =~= views(before).push(tail));
            assert(views(parts@) =~= lines(text@));
            return parts;
        }
        let mut stop: usize = end;
        if end > start && text[end - 1] == '\r' {
            stop = end - 1;
        }
        parts.push(slice_subrange(text, start, stop));
        assert(parts@.last()@ =~= without_cr(tail.take(end - start)));
        assert(views(parts@) =~= views(before).push(parts@.last()@));
        assert(tail.skip(end - start + 1) =~= text@.skip(end + 1));
        assert(views(parts@) + lines(text@.skip(end + 1)) =~= views(before) + lines(tail));
        start = end + 1;
    }
    assert(views(parts@) =~= lines(text@));
    parts
}

/// A text occurs in another exactly if the other is made of something, the text, and something.
pub proof fn law_occurrence_is_surrounded(text: Seq<char>, needle: Seq<char>)
    ensures
        occurs_in(text, needle) <==> exists|before: Seq<char>, after: Seq<char>|
            #[trigger] (before + needle + after) == text,
{
    if occurs_in(text, needle) {
        let at = choose|at: int| occurs_at(text, needle, at);
        let before = text.take(at);
        let after = text.skip(at + needle.len());
        assert(before + needle + after =~= text) by {
            assert forall|i: int| 0 <= i < text.len() implies #[trigger] (before + needle
                + after)[i] == text[i] by {
                if at <= i < at + needle.len() {
                    assert(text.subrange(at, at + needle.len())[i - at] == text[i]);
                }
            }
        }
    }
    assert forall|before: Seq<char>, after: Seq<char>|
        #[trigger] (before + needle + after) == text implies occurs_in(text, needle) by {
        let at = before.len() as int;
        assert(text.subrange(at, at + needle.len()) =~= needle);
        assert(occurs_at(text, needle, at));
    }
}

/// The white space is made of these characters: the controls from 9 to 13, the space, the next line,
/// and the spaces and separators that Unicode has besides.
pub proof fn law_white_space_is_known(c: char)
    ensures
        is_white_space(c) <==> set![
            9u32, 10, 11, 12, 13, 32, 133, 160, 5760, 8192, 8193, 8194, 8195, 8196, 8197, 8198,
            8199, 8200, 8201, 8202, 8232, 8233, 8239, 8287, 12288,
        ].contains(c as u32),
{
}

/// Trimming takes away the white space at either end, and nothing else.
pub proof fn law_trimming_leaves_the_inside(
    before: Seq<char>,
    inside: Seq<char>,
    after: Seq<char>,
)
    requires
        forall|i: int| 0 <= i < before.len() ==> is_white_space(#[trigger] before[i]),
        forall|i: int| 0 <= i < after.len() ==> is_white_space(#[trigger] after[i]),
        inside.len() > 0 ==> !is_white_space(inside[0]) && !is_white_space(inside.last()),
    ensures
        trimmed(before + inside + after) == inside,
    decreases before.len() + after.len(),
{
    let text = before + inside + after;
    if after.len() > 0 {
        law_trimming_leaves_the_inside(before, inside, after.drop_last());
        assert(text.drop_last() =~= before + inside + after.drop_last());
        assert(text.last() == after.last());
    } else if inside.len() > 0 {
        assert(text.last() == inside.last());
        lemma_trim_front_of(before, inside);
        assert(text =~= before + inside);
    } else {
        lemma_trim_back_of_white_space(before);
        assert(text =~= before);
        assert(inside =~= seq![]);
    }
}

proof fn lemma_trim_front_of(before: Seq<char>, inside: Seq<char>)
    requires
        forall|i: int| 0 <= i < before.len() ==> is_white_space(#[trigger] before[i]),
        inside.len() > 0,
        !is_white_space(inside[0]),
    ensures
        trim_front(before + inside) == inside,
    decreases before.len(),
{
    if before.len() == 0 {
        assert(before + inside =~= inside);
    } else {
        assert((before + inside)[0] == before[0]);
        assert((before + inside).drop_first() =~= before.drop_first() + inside);
        lemma_trim_front_of(before.drop_first(), inside);
    }
}

proof fn lemma_trim_back_of_white_space(text: Seq<char>)
    requires
        forall|i: int| 0 <= i < text.len() ==> is_white_space(#[trigger] text[i]),
    ensures
        trim_back(text) == Seq::<char>::empty(),
    decreases text.len(),
{
    if text.len() > 0 {
        assert(is_white_space(text[text.len() - 1]));
        lemma_trim_back_of_white_space(text.drop_last());
    } else {
        assert(text =~= seq![]);
    }
}

/// A prefix that is taken away leaves what stands behind it, and a text that does not begin with it
/// is left alone.
pub proof fn law_prefix_is_taken_away(text: Seq<char>, prefix: Seq<char>)
    ensures
        without_prefix(prefix + text, prefix) == without_prefix(text, prefix),
        text.len() < prefix.len() || text.take(prefix.len() as int) != prefix ==> without_prefix(
            text,
            prefix,
        ) == text,
{
    assert(prefix.is_prefix_of(prefix + text)) by {
        assert((prefix + text).subrange(0, prefix.len() as int) =~= prefix);
    }
    assert((prefix + text).skip(prefix.len() as int) =~= text);
    if prefix.len() == 0 {
        assert(prefix + text =~= text);
    }
    if prefix.is_prefix_of(text) {
        assert(text.take(prefix.len() as int) =~= text.subrange(0, prefix.len() as int));
    }
}

/// A line ends with a line feed, or with a carriage return and a line feed, and with nothing else.
/// The last line need not be ended.
pub proof fn law_lines_end_with_line_feeds(line: Seq<char>, rest: Seq<char>)
    requires
        !line.contains('\n'),
    ensures
        lines(seq![]) == Seq::<Seq<char>>::empty(),
        line.len() > 0 ==> lines(line) == seq![line],
        lines(line + seq!['\r', '\n'] + rest) == seq![line] + lines(rest),
        line.len() == 0 || line.last() != '\r' ==> lines(line + seq!['\n'] + rest) == seq![line]
            + lines(rest),
{
    let ended = line.push('\r');
    assert(!ended.contains('\n')) by {
        if ended.contains('\n') {
            let i = choose|i: int| 0 <= i < ended.len() && ended[i] == '\n';
            assert(line[i] == '\n');
        }
    }
    lemma_lines_of_ended_line(ended, rest);
    assert(ended + seq!['\n'] + rest =~= line + seq!['\r', '\n'] + rest);
    assert(ended.drop_last() =~= line);
    lemma_lines_of_ended_line(line, rest);
    if line.len() > 0 {
        assert forall|i: int| 0 <= i < line.len() implies line[i] != '\n' by {
            assert(line.contains(line[i]));
        }
        lemma_line_len_unique(line, line.len());
    }
}

} // verus!
