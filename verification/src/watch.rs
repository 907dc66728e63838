//! How the X11 clipboard is watched: the connection is kept up, and each change leads to a pass.
use crate::log::{LogEntry, LogView};
use vstd::prelude::*;

verus! {

/// How long to wait, in milliseconds, before a lost connection is made anew.
pub const RECONNECT_DELAY_MS: u64 = 1000;

/// What has come of the last piece of work.
#[derive(Debug)]
pub enum WatchEvent {
    /// There is a connection, and the clipboard is watched.
    Connected,
    /// There is no connection, or the clipboard cannot be watched.
    ConnectFailed(String),
    /// The clipboard has changed.
    Changed,
    /// The pass that followed a change has ended.
    PassEnded,
    /// The connection has failed.
    WaitFailed(String),
}

/// The next piece of work.
#[derive(Debug)]
pub enum WatchAction {
    /// Wait for a change.
    AwaitChange,
    /// Make a pass.
    MakePass,
    /// Report this, wait for `RECONNECT_DELAY_MS`, and connect.
    Reconnect(LogEntry),
}

/// Decides the next piece of work.
pub fn watch_step(event: WatchEvent) -> (action: WatchAction)
    ensures
        match event {
            WatchEvent::Connected => action is AwaitChange,
            WatchEvent::Changed => action is MakePass,
            WatchEvent::PassEnded => action is AwaitChange,
            WatchEvent::ConnectFailed(err) => action is Reconnect && (action->Reconnect_0)@ == (
            LogView { level: "ERROR"@, msg: "X11 监听初始化失败: "@ + err@ }),
            WatchEvent::WaitFailed(err) => action is Reconnect && (action->Reconnect_0)@ == (
            LogView { level: "ERROR"@, msg: "X11 监听失败: "@ + err@ }),
        },
{
    match event {
        WatchEvent::Connected => WatchAction::AwaitChange,
        WatchEvent::Changed => WatchAction::MakePass,
        WatchEvent::PassEnded => WatchAction::AwaitChange,
        WatchEvent::ConnectFailed(err) => WatchAction::Reconnect(
            LogEntry {
                level: "ERROR",
                msg: "X11 监听初始化失败: ".to_owned().concat(err.as_str()),
            },
        ),
        WatchEvent::WaitFailed(err) => WatchAction::Reconnect(
            LogEntry { level: "ERROR", msg: "X11 监听失败: ".to_owned().concat(err.as_str()) },
        ),
    }
}

/// A lost connection is made anew after a second.
pub proof fn law_connection_is_made_anew_after_a_second()
    ensures
        RECONNECT_DELAY_MS == 1000,
{
}

} // verus!
