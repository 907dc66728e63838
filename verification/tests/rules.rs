use linuxqq_clipsync::rules::{
    detect_wayland_clipboard_spec, detect_x11_clipboard_spec, x11_target, ProcessMode,
};
use linuxqq_clipsync::rules::ProcessMode::{Raw, Text, UriList};

fn x11(types: &str) -> Option<(&'static str, &'static str, ProcessMode)> {
    detect_x11_clipboard_spec(types).map(|s| (s.source_mime, s.sync_mime, s.process_mode))
}

fn wayland(types: &str) -> Option<(&'static str, ProcessMode)> {
    detect_wayland_clipboard_spec(types).map(|s| (s.sync_mime, s.process_mode))
}

#[test]
fn every_x11_format_is_found() {
    let gnome = "x-special/gnome-copied-files";
    assert_eq!(x11(gnome), Some((gnome, "text/uri-list", UriList)));
    assert_eq!(x11("application/x-qt-image"), Some(("text/uri-list", "text/uri-list", UriList)));
    assert_eq!(x11("text/uri-list"), Some(("text/uri-list", "text/uri-list", UriList)));
    assert_eq!(x11("image/png"), Some(("image/png", "image/png", Raw)));
    assert_eq!(x11("image/jpeg"), Some(("image/jpeg", "image/jpeg", Raw)));
    let utf8 = "text/plain;charset=utf-8";
    assert_eq!(x11(utf8), Some((utf8, "text/plain", Text)));
    assert_eq!(x11("UTF8_STRING"), Some(("UTF8_STRING", "text/plain", Text)));
    assert_eq!(x11("STRING"), Some(("STRING", "text/plain", Text)));
    assert_eq!(x11("text/plain"), Some(("text/plain", "text/plain", Text)));
    assert_eq!(x11("text/html"), Some(("text/html", "text/html", Raw)));
}

#[test]
fn every_wayland_format_is_found() {
    assert_eq!(wayland("application/x-qt-image"), Some(("text/uri-list", UriList)));
    assert_eq!(wayland("text/uri-list"), Some(("text/uri-list", UriList)));
    assert_eq!(wayland("image/png"), Some(("image/png", Raw)));
    assert_eq!(wayland("image/jpeg"), Some(("image/jpeg", Raw)));
    let utf8 = "text/plain;charset=utf-8";
    assert_eq!(wayland(utf8), Some((utf8, Text)));
    assert_eq!(wayland("UTF8_STRING"), Some(("UTF8_STRING", Text)));
    assert_eq!(wayland("STRING"), Some(("STRING", Text)));
    assert_eq!(wayland("text/plain"), Some(("text/plain", Text)));
    assert_eq!(wayland("text/html"), Some(("text/html", Raw)));
}

#[test]
fn preferred_format_wins_wherever_it_stands() {
    let types = "TARGETS\ntext/html\nUTF8_STRING\nimage/png\n";
    assert_eq!(x11(types), Some(("image/png", "image/png", ProcessMode::Raw)));
    assert_eq!(wayland(types), Some(("image/png", ProcessMode::Raw)));
    let files = "text/uri-list\nx-special/gnome-copied-files\n";
    assert_eq!(x11(files).unwrap().0, "x-special/gnome-copied-files");
    assert_eq!(wayland(files).unwrap().0, "text/uri-list");
}

#[test]
fn formats_are_found_within_longer_names() {
    assert_eq!(x11("COMPOUND_STRING").unwrap().0, "STRING");
    assert_eq!(wayland("text/plain;charset=ISO-8859-1").unwrap().0, "text/plain");
}

#[test]
fn unknown_formats_are_left_alone() {
    for types in ["", "TARGETS\nTIMESTAMP\n", "image/gif", "x-special/gnome-copied-file"] {
        assert!(x11(types).is_none());
        assert!(wayland(types).is_none());
    }
    assert!(wayland("x-special/gnome-copied-files").is_none());
}

#[test]
fn plain_texts_are_utf8_strings_on_x11() {
    assert_eq!(x11_target("text/plain;charset=utf-8"), "UTF8_STRING");
    assert_eq!(x11_target("text/plain"), "UTF8_STRING");
    assert_eq!(x11_target("UTF8_STRING"), "UTF8_STRING");
    assert_eq!(x11_target("STRING"), "STRING");
    assert_eq!(x11_target("text/html"), "text/html");
}

#[test]
fn what_is_written_is_read_back_in_the_same_way() {
    for mime in ["text/uri-list", "image/png", "image/jpeg", "text/plain", "text/html"] {
        assert_eq!(wayland(mime), Some((mime, x11(mime).unwrap().2)));
        let target = x11_target(mime);
        let back = x11(target).unwrap();
        assert_eq!((back.0, back.2), (target, wayland(mime).unwrap().1));
    }
}

#[test]
fn names_that_no_rule_looks_for_do_not_count() {
    for mime in ["text/uri-list", "image/png", "image/jpeg", "text/plain", "text/html"] {
        let target = x11_target(mime);
        for types in [
            format!("{}\n", target),
            format!("TARGETS\n{}\n", target),
            format!("{}\nTIMESTAMP\n", target),
        ] {
            assert_eq!(x11(&types), x11(target));
        }
        assert_eq!(wayland(&format!("{}\n", mime)), wayland(mime));
    }
}
