use linuxqq_clipsync::digest::{calc_hash, EMPTY_HASH};
use linuxqq_clipsync::rules::ProcessMode;
use linuxqq_clipsync::state::{begin_sync_at, finish_sync, should_skip_recent, SyncDir, SyncState};
use linuxqq_clipsync::transfer::{
    announcement, plan_transfer, step, step_for_hash, Action, Event, Transfer,
};
use linuxqq_clipsync::watch::{watch_step, WatchAction, WatchEvent};

/// What the other clipboard is given in a pass: the format and the contents.
type Written = Option<(String, Vec<u8>)>;

/// Makes a pass at the time `now`, with a clipboard that offers `types` and holds `data`.
fn pass(state: &mut SyncState, dir: SyncDir, now: i64, types: &[u8], data: &[u8]) -> Written {
    let mut result = None;
    let mut event = Event::Changed;
    loop {
        event = match step(dir, event) {
            Action::Wait => return result,
            Action::Settle => Event::Settled,
            Action::Precheck => Event::Prechecked { skip: should_skip_recent(state, dir, now) },
            Action::ReadTypes { .. } => Event::TypesRead { types: Some(types.to_vec()) },
            Action::ReadData { transfer, command } => {
                assert_eq!(command.args.last(), Some(&transfer.read_mime));
                Event::DataRead { transfer, data: Some(data.to_vec()) }
            }
            Action::Begin { pending } => {
                let begun = begin_sync_at(state, dir, pending.hash, now);
                Event::Begun { pending, begun }
            }
            Action::Write { hash, command, data, .. } => {
                result = Some((command.args.last().unwrap().to_string(), data));
                Event::Written { hash, written: true }
            }
            Action::Finish { hash } => {
                finish_sync(state, hash);
                Event::Finished
            }
        };
    }
}

fn transfer() -> Transfer {
    Transfer {
        read_mime: "image/png",
        write_mime: "image/png",
        process_mode: ProcessMode::Raw,
    }
}

#[test]
fn contents_are_passed_on_once() {
    let mut state = SyncState::new();
    let first = pass(&mut state, SyncDir::X2W, 5000, b"TARGETS\nUTF8_STRING\n", b"hello\n");
    assert_eq!(first, Some(("text/plain".to_string(), b"hello\n".to_vec())));
    assert_eq!(state.last_sync_hash, calc_hash(b"hello", ProcessMode::Text));
    let echo = pass(&mut state, SyncDir::W2X, 5500, b"text/plain\n", b"hello\n");
    assert_eq!(echo, None);
    let late_echo = pass(&mut state, SyncDir::W2X, 9000, b"text/plain\n", b"hello");
    assert_eq!(late_echo, None);
    let reply = pass(&mut state, SyncDir::W2X, 9000, b"text/plain\n", b"bye");
    assert_eq!(reply, Some(("UTF8_STRING".to_string(), b"bye".to_vec())));
}

#[test]
fn copied_files_are_not_sent_back() {
    let mut state = SyncState::new();
    let types = b"x-special/gnome-copied-files\ntext/uri-list\n";
    let (mime, data) =
        pass(&mut state, SyncDir::X2W, 0, types, b"copy\n/a b\nfile:///c").unwrap();
    assert_eq!(mime, "text/uri-list");
    assert_eq!(data, b"file:///a b\nfile:///c\n");
    assert_eq!(pass(&mut state, SyncDir::W2X, 100_000, mime.as_bytes(), &data), None);
}

#[test]
fn images_go_both_ways() {
    let mut state = SyncState::new();
    let png = b"\x89PNG\r\n\x1a\n";
    let there = pass(&mut state, SyncDir::W2X, 0, b"image/png", png);
    assert_eq!(there, Some(("image/png".to_string(), png.to_vec())));
    assert_eq!(pass(&mut state, SyncDir::X2W, 2000, b"image/png", png), None);
    let other = pass(&mut state, SyncDir::X2W, 2000, b"image/png", b"\xff");
    assert_eq!(other, Some(("image/png".to_string(), b"\xff".to_vec())));
}

#[test]
fn nothing_to_transfer_is_not_transferred() {
    let mut state = SyncState::new();
    assert_eq!(pass(&mut state, SyncDir::X2W, 0, b"TIMESTAMP\n", b"x"), None);
    assert_eq!(pass(&mut state, SyncDir::X2W, 0, b"STRING\n", b" \n"), None);
    assert_eq!(pass(&mut state, SyncDir::X2W, 0, b"", b"x"), None);
    assert_eq!(state, SyncState::new());
}

#[test]
fn formats_are_found_among_bytes_that_are_no_text() {
    let mut state = SyncState::new();
    let there = pass(&mut state, SyncDir::X2W, 0, b"\xff\xfe\nimage/jpeg\xff", b"x");
    assert_eq!(there, Some(("image/jpeg".to_string(), b"x".to_vec())));
}

#[test]
fn pass_ends_where_something_is_missing() {
    let dir = SyncDir::W2X;
    let ends = |event: Event| matches!(step(dir, event), Action::Wait);
    assert!(ends(Event::Prechecked { skip: true }));
    assert!(ends(Event::TypesRead { types: None }));
    assert!(ends(Event::DataRead { transfer: transfer(), data: None }));
    assert!(ends(Event::DataRead { transfer: transfer(), data: Some(vec![]) }));
    assert!(ends(Event::Written { hash: 3, written: false }));
    assert!(ends(Event::Finished));
    let begin = step(dir, Event::DataRead { transfer: transfer(), data: Some(vec![1]) });
    match begin {
        Action::Begin { pending } => {
            assert_eq!(pending.hash, calc_hash(&[1], ProcessMode::Raw));
            assert!(ends(Event::Begun { pending, begun: false }));
        }
        other => panic!("{:?}", other),
    }
}

#[test]
fn transfer_is_offered_by_its_hash() {
    assert!(matches!(step_for_hash(transfer(), vec![1], EMPTY_HASH), Action::Wait));
    match step_for_hash(transfer(), vec![1], 9) {
        Action::Begin { pending } => assert_eq!((pending.hash, pending.data), (9, vec![1])),
        other => panic!("{:?}", other),
    }
}

#[test]
fn transfer_is_planned_by_the_offer() {
    let there = plan_transfer(SyncDir::X2W, "text/plain;charset=utf-8").unwrap();
    assert_eq!((there.read_mime, there.write_mime), ("text/plain;charset=utf-8", "text/plain"));
    let back = plan_transfer(SyncDir::W2X, "text/plain;charset=utf-8").unwrap();
    assert_eq!((back.read_mime, back.write_mime), ("text/plain;charset=utf-8", "UTF8_STRING"));
    assert_eq!(back.process_mode, ProcessMode::Text);
    assert!(plan_transfer(SyncDir::W2X, "SAVE_TARGETS").is_none());
}

#[test]
fn transfer_is_announced_by_the_front_of_its_hash() {
    let hash = 0x00c0_ffee_u128 << 96 | 0x1234;
    let entry = announcement(SyncDir::X2W, hash);
    assert_eq!((entry.level, entry.msg.as_str()), ("X2W", "写入 Wayland... (Hash: 00c0ffee)"));
    let entry = announcement(SyncDir::W2X, u128::MAX);
    assert_eq!((entry.level, entry.msg.as_str()), ("W2X", "写入 X11... (Hash: ffffffff)"));
}

#[test]
fn lost_connection_is_made_anew() {
    assert!(matches!(watch_step(WatchEvent::Connected), WatchAction::AwaitChange));
    assert!(matches!(watch_step(WatchEvent::Changed), WatchAction::MakePass));
    assert!(matches!(watch_step(WatchEvent::PassEnded), WatchAction::AwaitChange));
    match watch_step(WatchEvent::ConnectFailed(String::from("E"))) {
        WatchAction::Reconnect(entry) => {
            assert_eq!((entry.level, entry.msg.as_str()), ("ERROR", "X11 监听初始化失败: E"));
        }
        other => panic!("{:?}", other),
    }
    match watch_step(WatchEvent::WaitFailed(String::from("E"))) {
        WatchAction::Reconnect(entry) => {
            assert_eq!((entry.level, entry.msg.as_str()), ("ERROR", "X11 监听失败: E"));
        }
        other => panic!("{:?}", other),
    }
}
