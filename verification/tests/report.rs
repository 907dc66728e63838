use linuxqq_clipsync::display::{
    get_xdg_runtime_dir, probe_step, startup_report, wayland_candidate, x11_candidate,
    xauthority_candidate, DisplayServer, ProbeAction, ProbeEvent,
};
use linuxqq_clipsync::log::{log, log_line, read_or_log, write_or_log};
use linuxqq_clipsync::numerals::{push_decimal, push_padded};

#[test]
fn report_bears_the_time_of_day() {
    let noon = 1000 * (86_400 * 19_000 + 12 * 3600 + 34 * 60 + 5) + 999;
    assert_eq!(log_line(Some(noon), "INFO", "x: y"), "[12:34:05] [INFO] x: y");
    assert_eq!(log_line(Some(86_399_999), "A", ""), "[23:59:59] [A] ");
    assert_eq!(log_line(Some(86_400_000), "A", "b"), "[00:00:00] [A] b");
    assert_eq!(log_line(None, "A", "b"), "[00:00:00] [A] b");
}

#[test]
fn report_is_made_now() {
    let line = log("WARN", "消息");
    assert_eq!(&line[0..1], "[");
    assert_eq!(&line[9..], "] [WARN] 消息");
    assert!(line[1..9].split(':').all(|part| part.len() == 2 && part.parse::<u32>().is_ok()));
}

#[test]
fn numbers_are_written_out() {
    for n in [0, 7, 10, 1000, 65_534, u32::MAX] {
        let mut s = String::from("x");
        push_decimal(&mut s, n);
        assert_eq!(s, format!("x{}", n));
        let mut s = String::from("x");
        push_padded(&mut s, n, 16, 8);
        assert_eq!(s, format!("x{:08x}", n));
    }
    let mut s = String::new();
    push_padded(&mut s, 7, 10, 2);
    push_padded(&mut s, 123, 10, 2);
    assert_eq!(s, "0723");
}

#[test]
fn failed_reading_is_reported() {
    let (data, warning) = read_or_log(Ok(vec![1, 2]), "ctx");
    assert_eq!(data, Some(vec![1, 2]));
    assert!(warning.is_none());
    let (data, warning) = read_or_log(Err(String::from("oops")), "ctx");
    assert_eq!(data, None);
    let entry = warning.unwrap();
    assert_eq!((entry.level, entry.msg.as_str()), ("WARN", "ctx: oops"));
}

#[test]
fn failed_writing_is_reported() {
    let (written, warning) = write_or_log(Ok(()), "ctx");
    assert!(written && warning.is_none());
    let (written, warning) = write_or_log(Err(String::from("oops")), "ctx");
    let entry = warning.unwrap();
    assert!(!written);
    assert_eq!((entry.level, entry.msg.as_str()), ("WARN", "ctx: oops"));
}

#[test]
fn session_directory_is_named_or_usual() {
    assert_eq!(get_xdg_runtime_dir(Some(String::from("/x")), 1000), "/x");
    assert_eq!(get_xdg_runtime_dir(Some(String::new()), 1000), "");
    assert_eq!(get_xdg_runtime_dir(None, 1000), "/run/user/1000");
    assert_eq!(get_xdg_runtime_dir(None, 0), "/run/user/0");
}

#[test]
fn credentials_are_looked_for_at_home() {
    let home = || Some(String::from("/home/u"));
    assert_eq!(xauthority_candidate(false, home()).unwrap(), "/home/u/.Xauthority");
    assert_eq!(xauthority_candidate(true, home()), None);
    assert_eq!(xauthority_candidate(false, None), None);
}

#[test]
fn sockets_are_known_by_their_names() {
    assert_eq!(wayland_candidate("wayland-0").unwrap(), "wayland-0");
    assert_eq!(wayland_candidate("wayland-").unwrap(), "wayland-");
    for name in ["wayland-0.lock", "wayland", "xwayland-0", ""] {
        assert_eq!(wayland_candidate(name), None);
    }
    assert_eq!(x11_candidate("X0").unwrap(), ":0");
    assert_eq!(x11_candidate("X").unwrap(), ":");
    for name in ["x0", "0X", ""] {
        assert_eq!(x11_candidate(name), None);
    }
}

#[test]
fn both_displays_are_needed() {
    let (entry, fatal) = startup_report(":0", "wayland-1");
    assert_eq!(entry.level, "INIT");
    assert_eq!(entry.msg, "探测结果: DISPLAY=:0, WAYLAND_DISPLAY=wayland-1");
    assert!(fatal.is_none());
    for (display, wayland) in [("", "wayland-1"), (":0", ""), ("", "")] {
        let entry = startup_report(display, wayland).1.unwrap();
        assert_eq!((entry.level, entry.msg.as_str()), ("FATAL", "找不到存活的图形界面，退出..."));
    }
}

/// Searches for a display among `files`, of which those named in `alive` answer.
fn search(server: DisplayServer, named: &str, files: &[&str], alive: &[&str]) -> (String, usize) {
    let mut probes = 0;
    let mut rest = files.iter();
    let mut event = ProbeEvent::Named { display: named.to_string() };
    loop {
        event = match probe_step(server, event) {
            ProbeAction::Done { display } => return (display, probes),
            ProbeAction::NextFile => match rest.next() {
                Some(name) => ProbeEvent::FileFound { name: name.to_string() },
                None => ProbeEvent::NoMoreFiles,
            },
            ProbeAction::Probe { display } => {
                probes += 1;
                let answered = alive.contains(&display.as_str());
                ProbeEvent::Probed { display, answered }
            }
        };
    }
}

#[test]
fn named_display_is_taken() {
    let found = search(DisplayServer::X11, ":7", &["X0"], &[":0"]);
    assert_eq!(found, (":7".to_string(), 0));
}

#[test]
fn first_display_that_answers_is_taken() {
    let files = ["bus", "wayland-0", "wayland-1.lock", "wayland-1", "wayland-2"];
    let found = search(DisplayServer::Wayland, "", &files, &["wayland-1", "wayland-2"]);
    assert_eq!(found, ("wayland-1".to_string(), 2));
    let found = search(DisplayServer::X11, "", &["x", "X0", "X1"], &[":1"]);
    assert_eq!(found, (":1".to_string(), 2));
}

#[test]
fn no_display_may_be_found() {
    assert_eq!(search(DisplayServer::X11, "", &["X0"], &[]), (String::new(), 1));
    assert_eq!(search(DisplayServer::Wayland, "", &[], &["wayland-0"]), (String::new(), 0));
}
