//! Where the two display servers are found.
use crate::log::{LogEntry, LogView};
use crate::numerals::{decimal, push_decimal};
use crate::text::{chars_of, push_chars, starts_with};
use vstd::prelude::*;
use vstd::slice::slice_subrange;

verus! {

/// The directory with the sockets of the user's session: the one that the environment names, or
/// the usual one for the user.
pub fn get_xdg_runtime_dir(from_environment: Option<String>, uid: u32) -> (dir: String)
    ensures
        match from_environment {
            Some(named) => dir@ == named@,
            None => dir@ == "/run/user/"@ + decimal(uid as nat),
        },
{
    match from_environment {
        Some(named) => named,
        None => {
            let mut dir = "/run/user/".to_owned();
            push_decimal(&mut dir, uid);
            dir
        },
    }
}

/// The file to take the X11 credentials from, if the environment names none and the file exists.
pub fn xauthority_candidate(named: bool, home: Option<String>) -> (candidate: Option<String>)
    ensures
        candidate is Some <==> !named && home is Some,
        candidate is Some ==> candidate->0@ == home->0@ + "/.Xauthority"@,
{
    if named {
        return None;
    }
    match home {
        Some(home) => Some(home.concat("/.Xauthority")),
        None => None,
    }
}

/// Whether a file of the session's directory is named like the socket of a Wayland server.
pub open spec fn is_wayland_socket(file_name: Seq<char>) -> bool {
    "wayland-"@.is_prefix_of(file_name) && !file_name.contains('.')
}

/// The name of the Wayland display behind a file of the session's directory, if it is named like
/// the socket of one.
pub fn wayland_candidate(file_name: &str) -> (candidate: Option<String>)
    ensures
        candidate is Some <==> is_wayland_socket(file_name@),
        candidate is Some ==> candidate->0@ == file_name@,
{
    let chars = chars_of(file_name);
    if !starts_with(chars.as_slice(), chars_of("wayland-").as_slice()) {
        return None;
    }
    let mut i: usize = 0;
    while i < chars.len()
        invariant
            i <= chars@.len(),
            chars@ == file_name@,
            forall|j: int| 0 <= j < i ==> file_name@[j] != '.',
        decreases chars@.len() - i,
    {
        if chars[i] == '.' {
            return None;
        }
        i += 1;
    }
    Some(file_name.to_owned())
}

/// The name of the X11 display behind a file of the directory with the X11 sockets, if it is named
/// like one.
pub fn x11_candidate(file_name: &str) -> (candidate: Option<String>)
    ensures
        candidate is Some <==> file_name@.len() > 0 && file_name@[0] == 'X',
        candidate is Some ==> candidate->0@ == ":"@ + file_name@.skip(1),
{
    let chars = chars_of(file_name);
    if chars.len() == 0 || chars[0] != 'X' {
        return None;
    }
    let mut display = ":".to_owned();
    push_chars(&mut display, slice_subrange(chars.as_slice(), 1, chars.len()));
    assert(chars@.subrange(1, chars@.len() as int) =~= file_name@.skip(1));
    Some(display)
}

/// One of the two display servers.
#[derive(Clone, Copy, Debug, PartialEq, Eq, Structural)]
pub enum DisplayServer {
    X11,
    Wayland,
}

/// What has come of the last piece of work in the search for a display.
#[derive(Debug)]
pub enum ProbeEvent {
    /// The environment was asked for a display; the name is empty if it gives none.
    Named { display: String },
    /// A file was found where the sockets of the server are.
    FileFound { name: String },
    /// A display was probed.
    Probed { display: String, answered: bool },
    /// There are no more files.
    NoMoreFiles,
}

/// A `ProbeEvent` with its names as sequences of characters.
pub enum ProbeEventView {
    Named { display: Seq<char> },
    FileFound { name: Seq<char> },
    Probed { display: Seq<char>, answered: bool },
    NoMoreFiles,
}

impl View for ProbeEvent {
    type V = ProbeEventView;

    open spec fn view(&self) -> ProbeEventView {
        match *self {
            ProbeEvent::Named { display } => ProbeEventView::Named { display: display@ },
            ProbeEvent::FileFound { name } => ProbeEventView::FileFound { name: name@ },
            ProbeEvent::Probed { display, answered } => ProbeEventView::Probed {
                display: display@,
                answered,
            },
            ProbeEvent::NoMoreFiles => ProbeEventView::NoMoreFiles,
        }
    }
}

/// The next piece of work in the search for a display.
#[derive(Debug)]
pub enum ProbeAction {
    /// The search has ended with this display, or with the empty name if there is none.
    Done { display: String },
    /// Look for the next file.
    NextFile,
    /// Find out whether this display answers.
    Probe { display: String },
}

/// A `ProbeAction` with its names as sequences of characters.
pub enum ProbeActionView {
    Done { display: Seq<char> },
    NextFile,
    Probe { display: Seq<char> },
}

impl View for ProbeAction {
    type V = ProbeActionView;

    open spec fn view(&self) -> ProbeActionView {
        match *self {
            ProbeAction::Done { display } => ProbeActionView::Done { display: display@ },
            ProbeAction::NextFile => ProbeActionView::NextFile,
            ProbeAction::Probe { display } => ProbeActionView::Probe { display: display@ },
        }
    }
}

/// The display behind a file, if the file is named like the socket of the server.
pub open spec fn candidate_of(server: DisplayServer, name: Seq<char>) -> Option<Seq<char>> {
    match server {
        DisplayServer::X11 => if name.len() > 0 && name[0] == 'X' {
            Some(":"@ + name.skip(1))
        } else {
            None
        },
        DisplayServer::Wayland => if is_wayland_socket(name) {
            Some(name)
        } else {
            None
        },
    }
}

/// The next piece of work in the search for a display: the one that the environment names is
/// taken, or else the first behind a file that answers.
pub open spec fn next_probe(server: DisplayServer, event: ProbeEventView) -> ProbeActionView {
    match event {
        ProbeEventView::Named { display } => if display.len() > 0 {
            ProbeActionView::Done { display }
        } else {
            ProbeActionView::NextFile
        },
        ProbeEventView::FileFound { name } => match candidate_of(server, name) {
            Some(display) => ProbeActionView::Probe { display },
            None => ProbeActionView::NextFile,
        },
        ProbeEventView::Probed { display, answered } => if answered {
            ProbeActionView::Done { display }
        } else {
            ProbeActionView::NextFile
        },
        ProbeEventView::NoMoreFiles => ProbeActionView::Done { display: seq![] },
    }
}

/// Decides the next piece of work in the search for a display.
pub fn probe_step(server: DisplayServer, event: ProbeEvent) -> (action: ProbeAction)
    ensures
        action@ == next_probe(server, event@),
{
    match event {
        ProbeEvent::Named { display } => if display.as_str().is_empty() {
            ProbeAction::NextFile
        } else {
            ProbeAction::Done { display }
        },
        ProbeEvent::FileFound { name } => {
            let candidate = match server {
                DisplayServer::X11 => x11_candidate(name.as_str()),
                DisplayServer::Wayland => wayland_candidate(name.as_str()),
            };
            match candidate {
                Some(display) => ProbeAction::Probe { display },
                None => ProbeAction::NextFile,
            }
        },
        ProbeEvent::Probed { display, answered } => if answered {
            ProbeAction::Done { display }
        } else {
            ProbeAction::NextFile
        },
        ProbeEvent::NoMoreFiles => ProbeAction::Done { display: String::new() },
    }
}

/// Whether `event` tells what has come of `action`.
pub open spec fn answers_probe(event: ProbeEventView, action: ProbeActionView) -> bool {
    match action {
        ProbeActionView::Done { .. } => false,
        ProbeActionView::NextFile => event is FileFound || event is NoMoreFiles,
        ProbeActionView::Probe { display } => event is Probed && event->Probed_display == display,
    }
}

/// Whether `events` is what happens in a search, up to its end or to some point in it.
pub open spec fn is_search(server: DisplayServer, events: Seq<ProbeEventView>) -> bool {
    &&& events.len() > 0
    &&& events[0] is Named
    &&& forall|i: int|
        0 < i < events.len() ==> answers_probe(
            #[trigger] events[i],
            next_probe(server, events[i - 1]),
        )
}

/// A search ends with the display that the environment names; or, if it names none, with the first
/// display that answers, which is that of the file found just before, named like a socket of the
/// server; or with none, when there are no more files and no display has answered.
pub proof fn law_first_answer_is_taken(server: DisplayServer, events: Seq<ProbeEventView>)
    requires
        is_search(server, events),
        next_probe(server, events.last()) is Done,
    ensures
        ({
            let last = events.len() - 1;
            let display = next_probe(server, events.last())->Done_display;
            &&& events[0]->Named_display.len() > 0 ==> last == 0 && display
                == events[0]->Named_display
            &&& events[0]->Named_display.len() == 0 ==> {
                ||| events[last] is NoMoreFiles && display.len() == 0
                ||| {
                    &&& events[last] == (ProbeEventView::Probed { display, answered: true })
                    &&& events[last - 1] is FileFound
                    &&& candidate_of(server, events[last - 1]->name) == Some(display)
                }
            }
            &&& forall|i: int|
                0 <= i < last ==> !((#[trigger] events[i]) is Probed && events[i]->answered)
        }),
{
    let last = events.len() - 1;
    assert forall|i: int| 0 <= i < last implies !(next_probe(
        server,
        #[trigger] events[i],
    ) is Done) by {
        assert(answers_probe(events[i + 1], next_probe(server, events[i])));
    }
    if last > 0 {
        assert(answers_probe(events[last], next_probe(server, events[last - 1])));
    }
}

/// What is reported about the displays that were found, and, if one of the two is missing, the
/// report with which the program gives up.
pub fn startup_report(display: &str, wayland_display: &str) -> (report: (
    LogEntry,
    Option<LogEntry>,
))
    ensures
        report.0@ == (LogView {
            level: "INIT"@,
            msg: "探测结果: DISPLAY="@ + display@ + ", WAYLAND_DISPLAY="@ + wayland_display@,
        }),
        report.1 is Some <==> display@.len() == 0 || wayland_display@.len() == 0,
        report.1 is Some ==> report.1->0@ == (LogView {
            level: "FATAL"@,
            msg: "找不到存活的图形界面，退出..."@,
        }),
{
    let entry = LogEntry {
        level: "INIT",
        msg: "探测结果: DISPLAY=".to_owned().concat(display).concat(", WAYLAND_DISPLAY=").concat(
            wayland_display,
        ),
    };
    if display.is_empty() || wayland_display.is_empty() {
        let fatal = LogEntry {
            level: "FATAL",
            msg: "找不到存活的图形界面，退出...".to_owned(),
        };
        (entry, Some(fatal))
    } else {
        (entry, None)
    }
}

/// A file is taken for the socket of an X11 server exactly if it is named with an `X` in front, and
/// the display goes by what stands behind it. A file is taken for the socket of a Wayland server
/// exactly if it is named with `wayland-` in front and without a dot, and the display goes by the
/// whole name.
pub proof fn law_sockets_are_known_by_name(rest: Seq<char>, name: Seq<char>)
    ensures
        candidate_of(DisplayServer::X11, seq!['X'] + rest) == Some(seq![':'] + rest),
        name.len() == 0 || name[0] != 'X' ==> candidate_of(DisplayServer::X11, name) is None,
        !rest.contains('.') ==> candidate_of(DisplayServer::Wayland, "wayland-"@ + rest) == Some(
            "wayland-"@ + rest,
        ),
        name.contains('.') ==> candidate_of(DisplayServer::Wayland, name) is None,
        name.len() < 8 || name.take(8) != "wayland-"@ ==> candidate_of(
            DisplayServer::Wayland,
            name,
        ) is None,
{
    reveal_strlit("wayland-");
    reveal_strlit(":");
    assert((seq!['X'] + rest).skip(1) =~= rest);
    assert(":"@ =~= seq![':']);
    let socket = "wayland-"@ + rest;
    assert(socket.subrange(0, 8) =~= "wayland-"@);
    if socket.contains('.') {
        let i = choose|i: int| 0 <= i < socket.len() && socket[i] == '.';
        assert(rest[i - 8] == '.');
    }
    if "wayland-"@.is_prefix_of(name) {
        assert(name.take(8) =~= name.subrange(0, 8));
    }
}

/// Every display that may answer is probed: the search goes on after a file that is no socket and
/// after a display that does not answer, and ends at a display that is named, at one that answers,
/// and when there are no more files.
pub proof fn law_search_leaves_out_no_display(
    server: DisplayServer,
    name: Seq<char>,
    display: Seq<char>,
)
    ensures
        next_probe(server, ProbeEventView::Named { display: seq![] }) is NextFile,
        display.len() > 0 ==> next_probe(server, ProbeEventView::Named { display }) == (
        ProbeActionView::Done { display }),
        candidate_of(server, name) is None ==> next_probe(
            server,
            ProbeEventView::FileFound { name },
        ) is NextFile,
        candidate_of(server, name) == Some(display) ==> next_probe(
            server,
            ProbeEventView::FileFound { name },
        ) == (ProbeActionView::Probe { display }),
        next_probe(server, ProbeEventView::Probed { display, answered: true }) == (
        ProbeActionView::Done { display }),
        next_probe(server, ProbeEventView::Probed { display, answered: false }) is NextFile,
        next_probe(server, ProbeEventView::NoMoreFiles) == (ProbeActionView::Done {
            display: seq![],
        }),
{
}

/// The views of what happens in a search and of what is next show the names as they are.
pub proof fn law_views_show_search(name: String, answered: bool, action: ProbeAction)
    ensures
        (ProbeEvent::Named { display: name })@ == (ProbeEventView::Named { display: name@ }),
        (ProbeEvent::FileFound { name })@ == (ProbeEventView::FileFound { name: name@ }),
        (ProbeEvent::Probed { display: name, answered })@ == (ProbeEventView::Probed {
            display: name@,
            answered,
        }),
        ProbeEvent::NoMoreFiles@ is NoMoreFiles,
        action@ is Done <==> action is Done,
        action@ is Done ==> action@->Done_display == action->Done_display@,
        action@ is NextFile <==> action is NextFile,
        action@ is Probe <==> action is Probe,
        action@ is Probe ==> action@->Probe_display == action->Probe_display@,
{
}

} // verus!
