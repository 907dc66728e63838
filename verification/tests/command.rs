use linuxqq_clipsync::command::{
    read_command, types_command, wait_child_step, write_command, ChildPoll, CommandLine, Failure,
    WaitAction, COMMAND_TIMEOUT_MS,
};
use linuxqq_clipsync::state::SyncDir;

fn parts(command: CommandLine) -> (&'static str, String, &'static str) {
    (command.program, command.args.join(" "), command.context)
}

#[test]
fn x11_is_read_and_wayland_written() {
    let dir = SyncDir::X2W;
    let types = parts(types_command(dir));
    assert_eq!(types.0, "xclip");
    assert_eq!(types.1, "-selection clipboard -t TARGETS -o");
    assert_eq!(types.2, "读取 X11 TARGETS 失败");
    let read = parts(read_command(dir, "image/png"));
    assert_eq!(read, ("xclip", "-sel clip -o -t image/png".to_string(), "读取 X11 剪贴板失败"));
    let write = parts(write_command(dir, "text/plain"));
    assert_eq!(write, ("wl-copy", "-t text/plain".to_string(), "写入 Wayland 剪贴板失败"));
}

#[test]
fn wayland_is_read_and_x11_written() {
    let dir = SyncDir::W2X;
    let types = parts(types_command(dir));
    assert_eq!(types, ("wl-paste", "--list-types".to_string(), "读取 Wayland TARGETS 失败"));
    let read = parts(read_command(dir, "image/png"));
    assert_eq!(read, ("wl-paste", "-t image/png".to_string(), "读取 Wayland 剪贴板失败"));
    let write = parts(write_command(dir, "UTF8_STRING"));
    assert_eq!(write.0, "xclip");
    assert_eq!(write.1, "-sel clip -i -t UTF8_STRING");
    assert_eq!(write.2, "写入 X11 剪贴板失败");
}

#[test]
fn every_failure_has_its_message() {
    let (cmd, err) = ("xclip", "E");
    assert_eq!(Failure::CreateMemfd.message(), "创建 memfd 失败");
    assert_eq!(Failure::CloneMemfd.message(), "复制 memfd 句柄失败");
    assert_eq!(Failure::WriteInput { cmd, err }.message(), "写入 xclip 输入失败: E");
    assert_eq!(Failure::RewindInput { cmd, err }.message(), "重置 xclip 输入游标失败: E");
    assert_eq!(Failure::Start { cmd, err }.message(), "启动 xclip 失败: E");
    assert_eq!(Failure::Wait { cmd, err }.message(), "xclip 等待失败: E");
    assert_eq!(Failure::Exit { cmd, status: "S" }.message(), "xclip 退出失败: S");
    assert_eq!(Failure::Timeout { cmd }.message(), "xclip 执行超时");
    assert_eq!(Failure::RewindOutput { cmd, err }.message(), "重置 xclip 输出游标失败: E");
    assert_eq!(Failure::ReadOutput { cmd, err }.message(), "读取 xclip 输出失败: E");
    assert_eq!(Failure::Connect { err }.message(), "X11 连接失败: E");
    assert_eq!(Failure::QueryExtension { err }.message(), "查询 XFixes 扩展失败: E");
    assert_eq!(Failure::NoExtension.message(), "X11 服务器未提供 XFixes 扩展");
    assert_eq!(Failure::NegotiateVersion { err }.message(), "XFixes 版本协商失败: E");
    assert_eq!(Failure::VersionReply { err }.message(), "获取 XFixes 版本回复失败: E");
    assert_eq!(Failure::QueryAtom { err }.message(), "查询 CLIPBOARD atom 失败: E");
    assert_eq!(Failure::AtomReply { err }.message(), "获取 CLIPBOARD atom 回复失败: E");
    assert_eq!(Failure::SelectInput { err }.message(), "注册 X11 剪贴板监听失败: E");
    assert_eq!(Failure::Flush { err }.message(), "刷新 X11 请求失败: E");
    assert_eq!(Failure::AwaitEvent { err }.message(), "等待 X11 事件失败: E");
}

#[test]
fn ended_program_is_not_waited_for() {
    let status = String::from("exit status: 1");
    let ended = |success: bool| ChildPoll::Ended { success, status: status.clone() };
    assert!(matches!(wait_child_step("xclip", ended(true)), WaitAction::Succeed));
    match wait_child_step("xclip", ended(false)) {
        WaitAction::Fail(msg) => assert_eq!(msg, "xclip 退出失败: exit status: 1"),
        other => panic!("{:?}", other),
    }
}

#[test]
fn running_program_is_killed_in_time() {
    for elapsed in [0, 1999] {
        let action = wait_child_step("xclip", ChildPoll::Running { elapsed });
        assert!(matches!(action, WaitAction::PollAgain));
    }
    for elapsed in [COMMAND_TIMEOUT_MS, 2000, 9999] {
        match wait_child_step("xclip", ChildPoll::Running { elapsed }) {
            WaitAction::KillAndFail(msg) => assert_eq!(msg, "xclip 执行超时"),
            other => panic!("{:?}", other),
        }
    }
}

#[test]
fn unknown_program_is_given_up() {
    match wait_child_step("wl-copy", ChildPoll::Unknown { err: String::from("E") }) {
        WaitAction::Fail(msg) => assert_eq!(msg, "wl-copy 等待失败: E"),
        other => panic!("{:?}", other),
    }
}
