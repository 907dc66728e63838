//! Which of the offered formats is synchronized, and how its contents are processed.
use crate::text::{chars_of, contains, occurs_at, occurs_in, str_eq};
use vstd::prelude::*;

verus! {

/// How clipboard contents are compared and written.
#[derive(Clone, Copy, Debug, PartialEq, Eq, Structural)]
pub enum ProcessMode {
    /// A list of file addresses.
    UriList,
    /// A text.
    Text,
    /// Bytes that are passed on as they are.
    Raw,
}

/// Whether contents are rewritten as a list of file addresses before they are written.
pub fn needs_uri_normalization(mode: ProcessMode) -> (needed: bool)
    ensures
        needed == (mode == ProcessMode::UriList),
{
    mode == ProcessMode::UriList
}

/// What is read from the X11 clipboard, and as what it is written to the Wayland clipboard.
#[derive(Clone, Copy, Debug)]
pub struct X11ClipboardSpec {
    /// The format that is read.
    pub source_mime: &'static str,
    /// The format that is written.
    pub sync_mime: &'static str,
    /// How the contents are processed.
    pub process_mode: ProcessMode,
}

/// What is read from the Wayland clipboard.
#[derive(Clone, Copy, Debug)]
pub struct WaylandClipboardSpec {
    /// The format that is read.
    pub sync_mime: &'static str,
    /// How the contents are processed.
    pub process_mode: ProcessMode,
}

/// An `X11ClipboardSpec` with its formats as sequences of characters.
pub struct X11Format {
    pub source_mime: Seq<char>,
    pub sync_mime: Seq<char>,
    pub process_mode: ProcessMode,
}

/// A `WaylandClipboardSpec` with its format as a sequence of characters.
pub struct WaylandFormat {
    pub sync_mime: Seq<char>,
    pub process_mode: ProcessMode,
}

impl View for X11ClipboardSpec {
    type V = X11Format;

    open spec fn view(&self) -> X11Format {
        X11Format {
            source_mime: self.source_mime@,
            sync_mime: self.sync_mime@,
            process_mode: self.process_mode,
        }
    }
}

impl View for WaylandClipboardSpec {
    type V = WaylandFormat;

    open spec fn view(&self) -> WaylandFormat {
        WaylandFormat { sync_mime: self.sync_mime@, process_mode: self.process_mode }
    }
}

/// A rule for the X11 side: the name to look for, and what follows from finding it.
pub open spec fn x11_rule(
    needle: Seq<char>,
    source_mime: Seq<char>,
    sync_mime: Seq<char>,
    process_mode: ProcessMode,
) -> (Seq<char>, X11Format) {
    (needle, X11Format { source_mime, sync_mime, process_mode })
}

/// A rule for the Wayland side: the name to look for, and what follows from finding it.
pub open spec fn wayland_rule(
    needle: Seq<char>,
    sync_mime: Seq<char>,
    process_mode: ProcessMode,
) -> (Seq<char>, WaylandFormat) {
    (needle, WaylandFormat { sync_mime, process_mode })
}

/// The rules for the X11 side, the one that is preferred first.
pub open spec fn x11_rules() -> Seq<(Seq<char>, X11Format)> {
    seq![
        x11_rule(
            "x-special/gnome-copied-files"@,
            "x-special/gnome-copied-files"@,
            "text/uri-list"@,
            ProcessMode::UriList,
        ),
        x11_rule(
            "application/x-qt-image"@,
            "text/uri-list"@,
            "text/uri-list"@,
            ProcessMode::UriList,
        ),
        x11_rule("text/uri-list"@, "text/uri-list"@, "text/uri-list"@, ProcessMode::UriList),
        x11_rule("image/png"@, "image/png"@, "image/png"@, ProcessMode::Raw),
        x11_rule("image/jpeg"@, "image/jpeg"@, "image/jpeg"@, ProcessMode::Raw),
        x11_rule(
            "text/plain;charset=utf-8"@,
            "text/plain;charset=utf-8"@,
            "text/plain"@,
            ProcessMode::Text,
        ),
        x11_rule("UTF8_STRING"@, "UTF8_STRING"@, "text/plain"@, ProcessMode::Text),
        x11_rule("STRING"@, "STRING"@, "text/plain"@, ProcessMode::Text),
        x11_rule("text/plain"@, "text/plain"@, "text/plain"@, ProcessMode::Text),
        x11_rule("text/html"@, "text/html"@, "text/html"@, ProcessMode::Raw),
    ]
}

/// The rules for the Wayland side, the one that is preferred first.
pub open spec fn wayland_rules() -> Seq<(Seq<char>, WaylandFormat)> {
    seq![
        wayland_rule("application/x-qt-image"@, "text/uri-list"@, ProcessMode::UriList),
        wayland_rule("text/uri-list"@, "text/uri-list"@, ProcessMode::UriList),
        wayland_rule("image/png"@, "image/png"@, ProcessMode::Raw),
        wayland_rule("image/jpeg"@, "image/jpeg"@, ProcessMode::Raw),
        wayland_rule("text/plain;charset=utf-8"@, "text/plain;charset=utf-8"@, ProcessMode::Text),
        wayland_rule("UTF8_STRING"@, "UTF8_STRING"@, ProcessMode::Text),
        wayland_rule("STRING"@, "STRING"@, ProcessMode::Text),
        wayland_rule("text/plain"@, "text/plain"@, ProcessMode::Text),
        wayland_rule("text/html"@, "text/html"@, ProcessMode::Raw),
    ]
}

/// What follows from the first rule whose name stands in `types`.
pub open spec fn first_match<T>(rules: Seq<(Seq<char>, T)>, types: Seq<char>) -> Option<T>
    decreases rules.len(),
{
    if rules.len() == 0 {
        None
    } else if occurs_in(types, rules[0].0) {
        Some(rules[0].1)
    } else {
        first_match(rules.drop_first(), types)
    }
}

/// What is read from the X11 clipboard when it offers `types`.
pub open spec fn x11_format(types: Seq<char>) -> Option<X11Format> {
    first_match(x11_rules(), types)
}

/// What is read from the Wayland clipboard when it offers `types`.
pub open spec fn wayland_format(types: Seq<char>) -> Option<WaylandFormat> {
    first_match(wayland_rules(), types)
}

/// The rules for the X11 side.
fn x11_clipboard_rules() -> (rules: Vec<(&'static str, X11ClipboardSpec)>)
    ensures
        rules@.map_values(|rule: (&'static str, X11ClipboardSpec)| (rule.0@, rule.1@))
            == x11_rules(),
{
    vec![
        (
            "x-special/gnome-copied-files",
            X11ClipboardSpec {
                source_mime: "x-special/gnome-copied-files",
                sync_mime: "text/uri-list",
                process_mode: ProcessMode::UriList,
            },
        ),
        (
            "application/x-qt-image",
            X11ClipboardSpec {
                source_mime: "text/uri-list",
                sync_mime: "text/uri-list",
                process_mode: ProcessMode::UriList,
            },
        ),
        (
            "text/uri-list",
            X11ClipboardSpec {
                source_mime: "text/uri-list",
                sync_mime: "text/uri-list",
                process_mode: ProcessMode::UriList,
            },
        ),
        (
            "image/png",
            X11ClipboardSpec {
                source_mime: "image/png",
                sync_mime: "image/png",
                process_mode: ProcessMode::Raw,
            },
        ),
        (
            "image/jpeg",
            X11ClipboardSpec {
                source_mime: "image/jpeg",
                sync_mime: "image/jpeg",
                process_mode: ProcessMode::Raw,
            },
        ),
        (
            "text/plain;charset=utf-8",
            X11ClipboardSpec {
                source_mime: "text/plain;charset=utf-8",
                sync_mime: "text/plain",
                process_mode: ProcessMode::Text,
            },
        ),
        (
            "UTF8_STRING",
            X11ClipboardSpec {
                source_mime: "UTF8_STRING",
                sync_mime: "text/plain",
                process_mode: ProcessMode::Text,
            },
        ),
        (
            "STRING",
            X11ClipboardSpec {
                source_mime: "STRING",
                sync_mime: "text/plain",
                process_mode: ProcessMode::Text,
            },
        ),
        (
            "text/plain",
            X11ClipboardSpec {
                source_mime: "text/plain",
                sync_mime: "text/plain",
                process_mode: ProcessMode::Text,
            },
        ),
        (
            "text/html",
            X11ClipboardSpec {
                source_mime: "text/html",
                sync_mime: "text/html",
                process_mode: ProcessMode::Raw,
            },
        ),
    ]
}

/// The rules for the Wayland side.
fn wayland_clipboard_rules() -> (rules: Vec<(&'static str, WaylandClipboardSpec)>)
    ensures
        rules@.map_values(|rule: (&'static str, WaylandClipboardSpec)| (rule.0@, rule.1@))
            == wayland_rules(),
{
    vec![
        (
            "application/x-qt-image",
            WaylandClipboardSpec { sync_mime: "text/uri-list", process_mode: ProcessMode::UriList },
        ),
        (
            "text/uri-list",
            WaylandClipboardSpec { sync_mime: "text/uri-list", process_mode: ProcessMode::UriList },
        ),
        (
            "image/png",
            WaylandClipboardSpec { sync_mime: "image/png", process_mode: ProcessMode::Raw },
        ),
        (
            "image/jpeg",
            WaylandClipboardSpec { sync_mime: "image/jpeg", process_mode: ProcessMode::Raw },
        ),
        (
            "text/plain;charset=utf-8",
            WaylandClipboardSpec {
                sync_mime: "text/plain;charset=utf-8",
                process_mode: ProcessMode::Text,
            },
        ),
        (
            "UTF8_STRING",
            WaylandClipboardSpec { sync_mime: "UTF8_STRING", process_mode: ProcessMode::Text },
        ),
        (
            "STRING",
            WaylandClipboardSpec { sync_mime: "STRING", process_mode: ProcessMode::Text },
        ),
        (
            "text/plain",
            WaylandClipboardSpec { sync_mime: "text/plain", process_mode: ProcessMode::Text },
        ),
        (
            "text/html",
            WaylandClipboardSpec { sync_mime: "text/html", process_mode: ProcessMode::Raw },
        ),
    ]
}

/// Picks what to read from the X11 clipboard: the preferred format among those whose name stands
/// anywhere in the list of offered ones.
pub fn detect_x11_clipboard_spec(types_str: &str) -> (spec: Option<X11ClipboardSpec>)
    ensures
        spec is Some <==> x11_format(types_str@) is Some,
        spec is Some ==> spec->0@ == x11_format(types_str@)->0,
{
    let types = chars_of(types_str);
    let rules = x11_clipboard_rules();
    let ghost table = x11_rules();
    let mut i: usize = 0;
    assert(table.skip(0) =~= table);
    while i < rules.len()
        invariant
            i <= rules@.len(),
            types@ == types_str@,
            rules@.map_values(|rule: (&'static str, X11ClipboardSpec)| (rule.0@, rule.1@))
                == table,
            first_match(table.skip(i as int), types_str@) == first_match(table, types_str@),
            table == x11_rules(),
        decreases rules@.len() - i,
    {
        let (needle, spec) = rules[i];
        assert(table[i as int] == (needle@, spec@));
        if contains(types.as_slice(), chars_of(needle).as_slice()) {
            return Some(spec);
        }
        assert(table.skip(i as int).drop_first() =~= table.skip(i + 1));
        i += 1;
    }
    None
}

/// Picks what to read from the Wayland clipboard: the preferred format among those whose name
/// stands anywhere in the list of offered ones.
pub fn detect_wayland_clipboard_spec(types_str: &str) -> (spec: Option<WaylandClipboardSpec>)
    ensures
        spec is Some <==> wayland_format(types_str@) is Some,
        spec is Some ==> spec->0@ == wayland_format(types_str@)->0,
{
    let types = chars_of(types_str);
    let rules = wayland_clipboard_rules();
    let ghost table = wayland_rules();
    let mut i: usize = 0;
    assert(table.skip(0) =~= table);
    while i < rules.len()
        invariant
            i <= rules@.len(),
            types@ == types_str@,
            rules@.map_values(|rule: (&'static str, WaylandClipboardSpec)| (rule.0@, rule.1@))
                == table,
            first_match(table.skip(i as int), types_str@) == first_match(table, types_str@),
            table == wayland_rules(),
        decreases rules@.len() - i,
    {
        let (needle, spec) = rules[i];
        assert(table[i as int] == (needle@, spec@));
        if contains(types.as_slice(), chars_of(needle).as_slice()) {
            return Some(spec);
        }
        assert(table.skip(i as int).drop_first() =~= table.skip(i + 1));
        i += 1;
    }
    None
}

/// The format as which contents of the Wayland clipboard are offered on the X11 clipboard.
pub open spec fn x11_name(sync_mime: Seq<char>) -> Seq<char> {
    if sync_mime == "text/plain;charset=utf-8"@ || sync_mime == "text/plain"@ {
        "UTF8_STRING"@
    } else {
        sync_mime
    }
}

/// The format as which contents of the Wayland clipboard are offered on the X11 clipboard.
pub fn x11_target(sync_mime: &'static str) -> (target: &'static str)
    ensures
        target@ == x11_name(sync_mime@),
{
    if str_eq(sync_mime, "text/plain;charset=utf-8") || str_eq(sync_mime, "text/plain") {
        "UTF8_STRING"
    } else {
        sync_mime
    }
}

/// A text does not hold a name of which it lacks a character.
proof fn lemma_lacks_character(text: Seq<char>, needle: Seq<char>, k: int)
    requires
        0 <= k < needle.len(),
        !text.contains(needle[k]),
    ensures
        !occurs_in(text, needle),
{
    if occurs_in(text, needle) {
        let at = choose|at: int| occurs_at(text, needle, at);
        assert(text.subrange(at, at + needle.len())[k] == text[at + k]);
        assert(text.contains(text[at + k]));
    }
}

proof fn lemma_occurs_in_itself(text: Seq<char>)
    ensures
        occurs_in(text, text),
{
    assert(text.subrange(0, 0int + text.len()) =~= text);
    assert(occurs_at(text, text, 0));
}

/// The first rule whose name is offered decides what is read.
pub proof fn law_first_rule_decides<T>(rules: Seq<(Seq<char>, T)>, types: Seq<char>, i: int)
    requires
        0 <= i < rules.len(),
        occurs_in(types, rules[i].0),
        forall|j: int| 0 <= j < i ==> !occurs_in(types, (#[trigger] rules[j]).0),
    ensures
        first_match(rules, types) == Some(rules[i].1),
    decreases i,
{
    if i > 0 {
        assert(!occurs_in(types, rules[0].0));
        let rest = rules.drop_first();
        assert forall|j: int| 0 <= j < i - 1 implies !occurs_in(types, (#[trigger] rest[j]).0) by {
            assert(rest[j] == rules[j + 1]);
        }
        law_first_rule_decides(rest, types, i - 1);
    }
}

/// Nothing is read exactly if no rule's name is offered.
pub proof fn law_nothing_without_a_rule<T>(rules: Seq<(Seq<char>, T)>, types: Seq<char>)
    ensures
        first_match(rules, types) is None <==> forall|i: int|
            0 <= i < rules.len() ==> !occurs_in(types, (#[trigger] rules[i]).0),
    decreases rules.len(),
{
    if rules.len() > 0 {
        let rest = rules.drop_first();
        law_nothing_without_a_rule(rest, types);
        assert forall|i: int| 0 < i < rules.len() implies #[trigger] rules[i] == rest[i - 1] by {
        }
        if forall|i: int| 0 <= i < rest.len() ==> !occurs_in(types, (#[trigger] rest[i]).0) {
            assert(forall|i: int|
                0 < i < rules.len() ==> !occurs_in(types, (#[trigger] rules[i]).0));
        } else {
            let i = choose|i: int|
                0 <= i < rest.len() && occurs_in(types, (#[trigger] rest[i]).0);
            assert(occurs_in(types, rules[i + 1].0));
        }
    }
}

/// A name that holds no line feed stands in a list exactly if it stands before or behind a line
/// feed in it.
proof fn lemma_line_feed_parts_names(before: Seq<char>, after: Seq<char>, needle: Seq<char>)
    requires
        !needle.contains('\n'),
    ensures
        occurs_in(before + seq!['\n'] + after, needle) <==> occurs_in(before, needle)
            || occurs_in(after, needle),
{
    let text = before + seq!['\n'] + after;
    let n = before.len() as int;
    if occurs_in(before, needle) {
        let at = choose|at: int| occurs_at(before, needle, at);
        assert(text.subrange(at, at + needle.len()) =~= before.subrange(at, at + needle.len()));
        assert(occurs_at(text, needle, at));
    }
    if occurs_in(after, needle) {
        let at = choose|at: int| occurs_at(after, needle, at);
        assert(text.subrange(n + 1 + at, n + 1 + at + needle.len()) =~= after.subrange(
            at,
            at + needle.len(),
        ));
        assert(occurs_at(text, needle, n + 1 + at));
    }
    if occurs_in(text, needle) {
        let at = choose|at: int| occurs_at(text, needle, at);
        let found = text.subrange(at, at + needle.len());
        if at + needle.len() <= n {
            assert(before.subrange(at, at + needle.len()) =~= found);
            assert(occurs_at(before, needle, at));
        } else if at > n {
            assert(after.subrange(at - n - 1, at - n - 1 + needle.len()) =~= found);
            assert(occurs_at(after, needle, at - n - 1));
        } else {
            assert(found[n - at] == '\n');
            assert(needle.contains(needle[n - at]));
        }
    }
}

/// Names in the list of offered formats that no rule looks for do not count, before or behind the
/// rest of the list.
pub proof fn law_other_names_do_not_count<T>(
    rules: Seq<(Seq<char>, T)>,
    types: Seq<char>,
    others: Seq<char>,
)
    requires
        forall|i: int| 0 <= i < rules.len() ==> !(#[trigger] rules[i]).0.contains('\n'),
        first_match(rules, others) is None,
    ensures
        first_match(rules, others + seq!['\n'] + types) == first_match(rules, types),
        first_match(rules, types + seq!['\n'] + others) == first_match(rules, types),
    decreases rules.len(),
{
    if rules.len() > 0 {
        let needle = rules[0].0;
        let rest = rules.drop_first();
        lemma_line_feed_parts_names(others, types, needle);
        lemma_line_feed_parts_names(types, others, needle);
        assert forall|i: int| 0 <= i < rest.len() implies !(
        #[trigger] rest[i]).0.contains('\n') by {
            assert(rest[i] == rules[i + 1]);
        }
        law_other_names_do_not_count(rest, types, others);
    }
}

/// What the laws need of the names that are looked for. None is empty or holds a line feed, and
/// none holds one that is preferred to it: but for one pair, it lacks a character of it.
proof fn lemma_names()
    ensures
        forall|i: int|
            0 <= i < x11_rules().len() ==> (#[trigger] x11_rules()[i]).0.len() > 0
                && !x11_rules()[i].0.contains('\n'),
        forall|i: int, j: int|
            0 <= j < i < x11_rules().len() ==> !occurs_in(
                (#[trigger] x11_rules()[i]).0,
                (#[trigger] x11_rules()[j]).0,
            ),
{
    reveal_strlit("x-special/gnome-copied-files");
    reveal_strlit("application/x-qt-image");
    reveal_strlit("text/uri-list");
    reveal_strlit("image/png");
    reveal_strlit("image/jpeg");
    reveal_strlit("text/plain;charset=utf-8");
    reveal_strlit("UTF8_STRING");
    reveal_strlit("STRING");
    reveal_strlit("text/plain");
    reveal_strlit("text/html");
    assert forall|i: int, j: int| 0 <= j < i < x11_rules().len() implies !occurs_in(
        (#[trigger] x11_rules()[i]).0,
        (#[trigger] x11_rules()[j]).0,
    ) by {
        if i == 5 && j == 2 {
            let (text, needle) = ("text/plain;charset=utf-8"@, "text/uri-list"@);
            if occurs_in(text, needle) {
                let at = choose|at: int| occurs_at(text, needle, at);
                let found = text.subrange(at, at + needle.len());
                assert(found[4] == text[at + 4] && found[5] == text[at + 5]);
                assert(text[at + 4] == '/');
                assert(at == 0);
            }
        } else {
            let k: int = if j == 0 {
                21
            } else if j == 1 {
                14
            } else if j == 2 {
                5
            } else if j == 3 {
                if i == 4 {
                    7
                } else {
                    3
                }
            } else if j == 4 {
                3
            } else if j == 5 {
                10
            } else if j == 8 {
                5
            } else {
                0
            };
            lemma_lacks_character(x11_rules()[i].0, x11_rules()[j].0, k);
        }
    }
}

/// The names of the rules for the Wayland side are those of the rules for the X11 side but the
/// first.
proof fn lemma_wayland_names()
    ensures
        wayland_rules().len() + 1 == x11_rules().len(),
        forall|i: int|
            0 <= i < wayland_rules().len() ==> (#[trigger] wayland_rules()[i]).0 == x11_rules()[i
                + 1].0,
{
}

/// No rule looks for a name with a line feed in it, nor for the empty name.
pub(crate) proof fn lemma_names_stand_on_one_line()
    ensures
        forall|i: int|
            0 <= i < x11_rules().len() ==> !(#[trigger] x11_rules()[i]).0.contains('\n'),
        forall|i: int|
            0 <= i < wayland_rules().len() ==> !(#[trigger] wayland_rules()[i]).0.contains('\n'),
        x11_format(seq![]) is None,
        wayland_format(seq![]) is None,
{
    lemma_names();
    lemma_wayland_names();
    law_nothing_without_a_rule(x11_rules(), seq![]);
    law_nothing_without_a_rule(wayland_rules(), seq![]);
}

/// A name that is offered alone on the X11 clipboard is decided by its own rule.
proof fn lemma_x11_name_alone(i: int)
    requires
        0 <= i < x11_rules().len(),
    ensures
        x11_format(x11_rules()[i].0) == Some(x11_rules()[i].1),
{
    let name = x11_rules()[i].0;
    lemma_names();
    lemma_occurs_in_itself(name);
    law_first_rule_decides(x11_rules(), name, i);
}

/// A name that is offered alone on the Wayland clipboard is decided by its own rule.
proof fn lemma_wayland_name_alone(i: int)
    requires
        0 <= i < wayland_rules().len(),
    ensures
        wayland_format(wayland_rules()[i].0) == Some(wayland_rules()[i].1),
{
    let name = wayland_rules()[i].0;
    lemma_names();
    lemma_wayland_names();
    lemma_occurs_in_itself(name);
    law_first_rule_decides(wayland_rules(), name, i);
}

/// What is written to the Wayland clipboard is read back from it in the same format, and
/// processed in the same way, when that format is the only one offered.
pub proof fn law_wayland_reads_back(i: int)
    requires
        0 <= i < x11_rules().len(),
    ensures
        wayland_format(x11_rules()[i].1.sync_mime) == Some(
            WaylandFormat {
                sync_mime: x11_rules()[i].1.sync_mime,
                process_mode: x11_rules()[i].1.process_mode,
            },
        ),
{
    let rule: int = if i <= 2 {
        1
    } else if i <= 4 {
        i - 1
    } else if i <= 8 {
        7
    } else {
        8
    };
    lemma_wayland_name_alone(rule);
}

/// What is written to the X11 clipboard is read back from it in the same format, and processed
/// in the same way, when that format is the only one offered.
pub proof fn law_x11_reads_back(i: int)
    requires
        0 <= i < wayland_rules().len(),
    ensures
        x11_format(x11_name(wayland_rules()[i].1.sync_mime)) is Some,
        x11_format(x11_name(wayland_rules()[i].1.sync_mime))->0.source_mime == x11_name(
            wayland_rules()[i].1.sync_mime,
        ),
        x11_format(x11_name(wayland_rules()[i].1.sync_mime))->0.process_mode
            == wayland_rules()[i].1.process_mode,
{
    let mime = wayland_rules()[i].1.sync_mime;
    let rule: int = if i == 0 {
        2
    } else if i == 4 || i == 7 {
        6
    } else {
        i + 1
    };
    lemma_names();
    lemma_occurs_in_itself(mime);
    assert(x11_rules()[5].0 == "text/plain;charset=utf-8"@);
    assert(x11_rules()[8].0 == "text/plain"@);
    assert(i != 4 && i != 7 ==> mime == x11_rules()[rule].0);
    lemma_x11_name_alone(rule);
}

/// What is read from the X11 clipboard goes by the names that it offers: files before images,
/// images before text, and text before markup.
pub proof fn law_x11_names_are_preferred_in_order(types: Seq<char>)
    ensures
        x11_format(types) == (if occurs_in(types, "x-special/gnome-copied-files"@) {
            Some(
                X11Format {
                    source_mime: "x-special/gnome-copied-files"@,
                    sync_mime: "text/uri-list"@,
                    process_mode: ProcessMode::UriList,
                },
            )
        } else if occurs_in(types, "application/x-qt-image"@) {
            Some(
                X11Format {
                    source_mime: "text/uri-list"@,
                    sync_mime: "text/uri-list"@,
                    process_mode: ProcessMode::UriList,
                },
            )
        } else if occurs_in(types, "text/uri-list"@) {
            Some(
                X11Format {
                    source_mime: "text/uri-list"@,
                    sync_mime: "text/uri-list"@,
                    process_mode: ProcessMode::UriList,
                },
            )
        } else if occurs_in(types, "image/png"@) {
            Some(
                X11Format {
                    source_mime: "image/png"@,
                    sync_mime: "image/png"@,
                    process_mode: ProcessMode::Raw,
                },
            )
        } else if occurs_in(types, "image/jpeg"@) {
            Some(
                X11Format {
                    source_mime: "image/jpeg"@,
                    sync_mime: "image/jpeg"@,
                    process_mode: ProcessMode::Raw,
                },
            )
        } else if occurs_in(types, "text/plain;charset=utf-8"@) {
            Some(
                X11Format {
                    source_mime: "text/plain;charset=utf-8"@,
                    sync_mime: "text/plain"@,
                    process_mode: ProcessMode::Text,
                },
            )
        } else if occurs_in(types, "UTF8_STRING"@) {
            Some(
                X11Format {
                    source_mime: "UTF8_STRING"@,
                    sync_mime: "text/plain"@,
                    process_mode: ProcessMode::Text,
                },
            )
        } else if occurs_in(types, "STRING"@) {
            Some(
                X11Format {
                    source_mime: "STRING"@,
                    sync_mime: "text/plain"@,
                    process_mode: ProcessMode::Text,
                },
            )
        } else if occurs_in(types, "text/plain"@) {
            Some(
                X11Format {
                    source_mime: "text/plain"@,
                    sync_mime: "text/plain"@,
                    process_mode: ProcessMode::Text,
                },
            )
        } else if occurs_in(types, "text/html"@) {
            Some(
                X11Format {
                    source_mime: "text/html"@,
                    sync_mime: "text/html"@,
                    process_mode: ProcessMode::Raw,
                },
            )
        } else {
            None
        }),
{
    reveal_with_fuel(first_match, 11);
}

/// What is read from the Wayland clipboard goes by the names that it offers: files before images,
/// images before text, and text before markup.
pub proof fn law_wayland_names_are_preferred_in_order(types: Seq<char>)
    ensures
        wayland_format(types) == (if occurs_in(types, "application/x-qt-image"@) {
            Some(
                WaylandFormat {
                    sync_mime: "text/uri-list"@,
                    process_mode: ProcessMode::UriList,
                },
            )
        } else if occurs_in(types, "text/uri-list"@) {
            Some(
                WaylandFormat {
                    sync_mime: "text/uri-list"@,
                    process_mode: ProcessMode::UriList,
                },
            )
        } else if occurs_in(types, "image/png"@) {
            Some(
                WaylandFormat {
                    sync_mime: "image/png"@,
                    process_mode: ProcessMode::Raw,
                },
            )
        } else if occurs_in(types, "image/jpeg"@) {
            Some(
                WaylandFormat {
                    sync_mime: "image/jpeg"@,
                    process_mode: ProcessMode::Raw,
                },
            )
        } else if occurs_in(types, "text/plain;charset=utf-8"@) {
            Some(
                WaylandFormat {
                    sync_mime: "text/plain;charset=utf-8"@,
                    process_mode: ProcessMode::Text,
                },
            )
        } else if occurs_in(types, "UTF8_STRING"@) {
            Some(
                WaylandFormat {
                    sync_mime: "UTF8_STRING"@,
                    process_mode: ProcessMode::Text,
                },
            )
        } else if occurs_in(types, "STRING"@) {
            Some(
                WaylandFormat {
                    sync_mime: "STRING"@,
                    process_mode: ProcessMode::Text,
                },
            )
        } else if occurs_in(types, "text/plain"@) {
            Some(
                WaylandFormat {
                    sync_mime: "text/plain"@,
                    process_mode: ProcessMode::Text,
                },
            )
        } else if occurs_in(types, "text/html"@) {
            Some(
                WaylandFormat {
                    sync_mime: "text/html"@,
                    process_mode: ProcessMode::Raw,
                },
            )
        } else {
            None
        }),
{
    reveal_with_fuel(first_match, 10);
}

/// On the X11 side plain text goes by one name, and every other format by its own.
pub proof fn law_only_plain_text_is_renamed(mime: Seq<char>)
    ensures
        x11_name("text/plain"@) == "UTF8_STRING"@,
        x11_name("text/plain;charset=utf-8"@) == "UTF8_STRING"@,
        mime != "text/plain"@ && mime != "text/plain;charset=utf-8"@ ==> x11_name(mime) == mime,
{
}

/// The views of what is read from the clipboards show the formats and how they are processed.
pub proof fn law_views_show_formats(x11: X11ClipboardSpec, wayland: WaylandClipboardSpec)
    ensures
        x11@.source_mime == x11.source_mime@,
        x11@.sync_mime == x11.sync_mime@,
        x11@.process_mode == x11.process_mode,
        wayland@.sync_mime == wayland.sync_mime@,
        wayland@.process_mode == wayland.process_mode,
{
}

} // verus!
