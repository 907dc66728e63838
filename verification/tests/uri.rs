use linuxqq_clipsync::uri::{normalize_uri_list, normalize_uri_text, uri_list_key};

fn normalized(text: &str) -> String {
    String::from_utf8(normalize_uri_list(text.as_bytes())).unwrap()
}

fn key(text: &str) -> String {
    String::from_utf8(uri_list_key(text)).unwrap()
}

fn plain_key(text: &str) -> String {
    let mut result = String::new();
    for line in text.lines() {
        let trimmed = line.trim();
        if trimmed != "copy" && trimmed != "cut" {
            result.push_str(trimmed.trim_start_matches("file://"));
        }
    }
    result.replace(['\n', '\r'], "")
}

/// Lists made of up to four of these pieces.
fn lists() -> Vec<String> {
    let pieces = ["/a b", "file:///c", "copy", " cut ", "\n", "\r", " ", "file://", "é"];
    let mut all = vec![String::new()];
    let mut last = vec![String::new()];
    for _ in 0..4 {
        let mut longer = Vec::new();
        for shorter in &last {
            for piece in pieces {
                longer.push(format!("{}{}", shorter, piece));
            }
        }
        all.extend(longer.iter().cloned());
        last = longer;
    }
    all
}

#[test]
fn copied_files_become_a_list_of_addresses() {
    assert_eq!(
        normalized("copy\nfile:///home/u/a.png\nfile:///home/u/b.png"),
        "file:///home/u/a.png\nfile:///home/u/b.png\n",
    );
    assert_eq!(normalized("cut\r\n/home/u/a.png\r\n"), "file:///home/u/a.png\n");
}

#[test]
fn only_whole_lines_are_verbs() {
    assert_eq!(normalized(" copy\ncopyright\ncut\n"), " copy\ncopyright\n");
    assert_eq!(normalized("copy\r"), "copy\r\n");
}

#[test]
fn empty_lines_stay() {
    assert_eq!(normalized(""), "");
    assert_eq!(normalized("\n\n/"), "\n\nfile:///\n");
}

#[test]
fn bytes_that_are_no_text_are_replaced() {
    assert_eq!(
        normalize_uri_list(b"/a\xffb\n\xe6\xbc\xa2"),
        "file:///a\u{fffd}b\n漢\n".as_bytes(),
    );
}

#[test]
fn text_and_bytes_are_normalized_alike() {
    for list in lists() {
        assert_eq!(normalize_uri_text(&list), normalize_uri_list(list.as_bytes()));
    }
}

#[test]
fn key_holds_the_paths() {
    assert_eq!(key("copy\nfile:///a b\r\n  /c\t\n"), "/a b/c");
    assert_eq!(key("file://file:///a"), "/a");
    assert_eq!(key(" cut \ncopy"), "");
    assert_eq!(key("a\rb"), "ab");
}

#[test]
fn key_is_made_of_trimmed_lines() {
    for list in lists() {
        assert_eq!(key(&list), plain_key(&list), "{:?}", list);
    }
}

#[test]
fn normalization_keeps_the_key() {
    for list in lists() {
        assert_eq!(key(&normalized(&list)), key(&list), "{:?}", list);
    }
}

#[test]
fn normalization_is_stable() {
    for list in lists() {
        let once = normalized(&list);
        if !list.lines().any(|line| line.ends_with('\r')) {
            assert_eq!(normalized(&once), once, "{:?}", list);
        }
    }
    assert_eq!(normalized("a\r"), "a\r\n");
    assert_eq!(normalized("a\r\n"), "a\n");
}

#[test]
fn verbs_and_schemes_do_not_count() {
    assert_eq!(key("copy\n/a\n/b"), key("/a\n/b"));
    assert_eq!(key("/a\nfile:///b\n/c"), key("/a\n/b\n/c"));
}

#[test]
fn normalization_is_stable_where_returns_are_paired() {
    for list in lists() {
        if !list.replace("\r\n", "").contains('\r') {
            let once = normalized(&list);
            assert_eq!(normalized(&once), once, "{:?}", list);
        }
    }
    assert_eq!(normalized(&normalized("cut\r\n/ä\r\n")), "file:///ä\n");
}

#[test]
fn lists_are_normalized_one_by_one() {
    let all = lists();
    for a in all.iter().filter(|a| a.is_empty() || a.ends_with('\n')) {
        for b in all.iter().step_by(97) {
            assert_eq!(normalized(&format!("{}{}", a, b)), normalized(a) + &normalized(b));
        }
    }
    assert_eq!(normalize_uri_list(b"/\xff\n\xfe/b"), "file:///\u{fffd}\n\u{fffd}/b\n".as_bytes());
}
