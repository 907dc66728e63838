use linuxqq_clipsync::text::{
    chars_of, contains, is_whitespace, push_chars, same_chars, split_lines, starts_with, str_eq,
    trim, trim_start_matches,
};

fn chars(text: &str) -> Vec<char> {
    text.chars().collect()
}

fn text(chars: &[char]) -> String {
    chars.iter().collect()
}

/// All texts of at most `len` of the given characters.
fn texts(alphabet: &[char], len: usize) -> Vec<String> {
    let mut all = vec![String::new()];
    let mut last = vec![String::new()];
    for _ in 0..len {
        let mut longer = Vec::new();
        for shorter in &last {
            for c in alphabet {
                let mut next = shorter.clone();
                next.push(*c);
                longer.push(next);
            }
        }
        all.extend(longer.iter().cloned());
        last = longer;
    }
    all
}

#[test]
fn white_space_is_that_of_unicode() {
    for c in '\0'..=char::MAX {
        assert_eq!(is_whitespace(c), c.is_whitespace(), "{:?}", c);
    }
}

#[test]
fn lines_are_split_as_usual() {
    for t in texts(&['a', '\n', '\r', ' '], 6) {
        let expected: Vec<String> = t.lines().map(String::from).collect();
        let cs = chars(&t);
        let got: Vec<String> = split_lines(&cs).into_iter().map(text).collect();
        assert_eq!(got, expected, "{:?}", t);
    }
}

#[test]
fn last_line_keeps_a_bare_carriage_return() {
    let cs = chars("a\r\nb\r");
    let got: Vec<String> = split_lines(&cs).into_iter().map(text).collect();
    assert_eq!(got, vec!["a", "b\r"]);
}

#[test]
fn trimming_is_as_usual() {
    for t in texts(&['a', ' ', '\u{3000}', '\u{200b}', '\t'], 5) {
        assert_eq!(text(trim(&chars(&t))), t.trim(), "{:?}", t);
    }
}

#[test]
fn prefix_is_stripped_as_often_as_it_stands() {
    let scheme = chars("file://");
    for t in ["", "file:/", "file://", "file:///a", "file://file:///a", "a file://", "ffile://"] {
        let cs = chars(t);
        assert_eq!(text(trim_start_matches(&cs, &scheme)), t.trim_start_matches("file://"));
    }
    assert_eq!(text(trim_start_matches(&chars("ab"), &[])), "ab");
}

#[test]
fn searching_is_as_usual() {
    let all = texts(&['a', 'b'], 4);
    for t in &all {
        for n in &all {
            assert_eq!(contains(&chars(t), &chars(n)), t.contains(n.as_str()), "{} {}", t, n);
            assert_eq!(starts_with(&chars(t), &chars(n)), t.starts_with(n.as_str()));
            assert_eq!(same_chars(&chars(t), &chars(n)), t == n);
            assert_eq!(str_eq(t, n), t == n);
        }
    }
}

#[test]
fn characters_go_into_a_string_and_come_out_of_it() {
    let mut s = String::from("ä");
    push_chars(&mut s, &chars("漢字!"));
    assert_eq!(s, "ä漢字!");
    assert_eq!(chars_of(&s), chars("ä漢字!"));
}
