//! The programs that read and write the clipboards, how long one may take, and what is said when
//! one fails.
use crate::state::SyncDir;
use vstd::prelude::*;

verus! {

/// A program to run, with its arguments, and what to say if it fails.
#[derive(Debug)]
pub struct CommandLine {
    pub program: &'static str,
    pub args: Vec<&'static str>,
    pub context: &'static str,
}

/// A `CommandLine` with its parts as sequences of characters.
pub struct CommandView {
    pub program: Seq<char>,
    pub args: Seq<Seq<char>>,
    pub context: Seq<char>,
}

impl View for CommandLine {
    type V = CommandView;

    open spec fn view(&self) -> CommandView {
        CommandView {
            program: self.program@,
            args: self.args@.map_values(|arg: &'static str| arg@),
            context: self.context@,
        }
    }
}

/// What lists the formats that the source of a transfer offers.
pub open spec fn types_command_text(dir: SyncDir) -> CommandView {
    match dir {
        SyncDir::X2W => CommandView {
            program: "xclip"@,
            args: seq!["-selection"@, "clipboard"@, "-t"@, "TARGETS"@, "-o"@],
            context: "读取 X11 TARGETS 失败"@,
        },
        SyncDir::W2X => CommandView {
            program: "wl-paste"@,
            args: seq!["--list-types"@],
            context: "读取 Wayland TARGETS 失败"@,
        },
    }
}

/// What reads the source of a transfer in the format `mime`.
pub open spec fn read_command_text(dir: SyncDir, mime: Seq<char>) -> CommandView {
    match dir {
        SyncDir::X2W => CommandView {
            program: "xclip"@,
            args: seq!["-sel"@, "clip"@, "-o"@, "-t"@, mime],
            context: "读取 X11 剪贴板失败"@,
        },
        SyncDir::W2X => CommandView {
            program: "wl-paste"@,
            args: seq!["-t"@, mime],
            context: "读取 Wayland 剪贴板失败"@,
        },
    }
}

/// What writes the destination of a transfer in the format `mime`.
pub open spec fn write_command_text(dir: SyncDir, mime: Seq<char>) -> CommandView {
    match dir {
        SyncDir::X2W => CommandView {
            program: "wl-copy"@,
            args: seq!["-t"@, mime],
            context: "写入 Wayland 剪贴板失败"@,
        },
        SyncDir::W2X => CommandView {
            program: "xclip"@,
            args: seq!["-sel"@, "clip"@, "-i"@, "-t"@, mime],
            context: "写入 X11 剪贴板失败"@,
        },
    }
}

/// The command that lists the formats that the source of a transfer offers.
pub fn types_command(dir: SyncDir) -> (command: CommandLine)
    ensures
        command@ == types_command_text(dir),
{
    let command = match dir {
        SyncDir::X2W => CommandLine {
            program: "xclip",
            args: vec!["-selection", "clipboard", "-t", "TARGETS", "-o"],
            context: "读取 X11 TARGETS 失败",
        },
        SyncDir::W2X => CommandLine {
            program: "wl-paste",
            args: vec!["--list-types"],
            context: "读取 Wayland TARGETS 失败",
        },
    };
    assert(command@.args =~= types_command_text(dir).args);
    command
}

/// The command that reads the source of a transfer in the format `mime`.
pub fn read_command(dir: SyncDir, mime: &'static str) -> (command: CommandLine)
    ensures
        command@ == read_command_text(dir, mime@),
{
    let command = match dir {
        SyncDir::X2W => CommandLine {
            program: "xclip",
            args: vec!["-sel", "clip", "-o", "-t", mime],
            context: "读取 X11 剪贴板失败",
        },
        SyncDir::W2X => CommandLine {
            program: "wl-paste",
            args: vec!["-t", mime],
            context: "读取 Wayland 剪贴板失败",
        },
    };
    assert(command@.args =~= read_command_text(dir, mime@).args);
    command
}

/// The command that writes the destination of a transfer in the format `mime`.
pub fn write_command(dir: SyncDir, mime: &'static str) -> (command: CommandLine)
    ensures
        command@ == write_command_text(dir, mime@),
{
    let command = match dir {
        SyncDir::X2W => CommandLine {
            program: "wl-copy",
            args: vec!["-t", mime],
            context: "写入 Wayland 剪贴板失败",
        },
        SyncDir::W2X => CommandLine {
            program: "xclip",
            args: vec!["-sel", "clip", "-i", "-t", mime],
            context: "写入 X11 剪贴板失败",
        },
    };
    assert(command@.args =~= write_command_text(dir, mime@).args);
    command
}

/// What went wrong while a program was run or the X11 server was asked for something.
#[derive(Clone, Copy, Debug)]
pub enum Failure<'a> {
    /// No file in memory could be made.
    CreateMemfd,
    /// The file in memory could not be shared with the program.
    CloneMemfd,
    /// The input for the program could not be stored.
    WriteInput { cmd: &'a str, err: &'a str },
    /// The stored input could not be rewound.
    RewindInput { cmd: &'a str, err: &'a str },
    /// The program could not be started.
    Start { cmd: &'a str, err: &'a str },
    /// The program could not be waited for.
    Wait { cmd: &'a str, err: &'a str },
    /// The program ended with a status that is no success.
    Exit { cmd: &'a str, status: &'a str },
    /// The program did not end in time.
    Timeout { cmd: &'a str },
    /// The output of the program could not be rewound.
    RewindOutput { cmd: &'a str, err: &'a str },
    /// The output of the program could not be read.
    ReadOutput { cmd: &'a str, err: &'a str },
    /// There is no connection to the X11 server.
    Connect { err: &'a str },
    /// The X11 server could not be asked for the XFixes extension.
    QueryExtension { err: &'a str },
    /// The X11 server does not have the XFixes extension.
    NoExtension,
    /// The version of the extension could not be negotiated.
    NegotiateVersion { err: &'a str },
    /// The negotiation was not answered.
    VersionReply { err: &'a str },
    /// The X11 server could not be asked for the clipboard's atom.
    QueryAtom { err: &'a str },
    /// The question for the atom was not answered.
    AtomReply { err: &'a str },
    /// The clipboard could not be watched.
    SelectInput { err: &'a str },
    /// The requests could not be sent.
    Flush { err: &'a str },
    /// No event could be waited for.
    AwaitEvent { err: &'a str },
}

impl<'a> Failure<'a> {
    /// What is said about the failure.
    pub open spec fn text(self) -> Seq<char> {
        match self {
            Failure::CreateMemfd => "创建 memfd 失败"@,
            Failure::CloneMemfd => "复制 memfd 句柄失败"@,
            Failure::WriteInput { cmd, err } => "写入 "@ + cmd@ + " 输入失败: "@ + err@,
            Failure::RewindInput { cmd, err } => "重置 "@ + cmd@ + " 输入游标失败: "@ + err@,
            Failure::Start { cmd, err } => "启动 "@ + cmd@ + " 失败: "@ + err@,
            Failure::Wait { cmd, err } => cmd@ + " 等待失败: "@ + err@,
            Failure::Exit { cmd, status } => cmd@ + " 退出失败: "@ + status@,
            Failure::Timeout { cmd } => cmd@ + " 执行超时"@,
            Failure::RewindOutput { cmd, err } => "重置 "@ + cmd@ + " 输出游标失败: "@ + err@,
            Failure::ReadOutput { cmd, err } => "读取 "@ + cmd@ + " 输出失败: "@ + err@,
            Failure::Connect { err } => "X11 连接失败: "@ + err@,
            Failure::QueryExtension { err } => "查询 XFixes 扩展失败: "@ + err@,
            Failure::NoExtension => "X11 服务器未提供 XFixes 扩展"@,
            Failure::NegotiateVersion { err } => "XFixes 版本协商失败: "@ + err@,
            Failure::VersionReply { err } => "获取 XFixes 版本回复失败: "@ + err@,
            Failure::QueryAtom { err } => "查询 CLIPBOARD atom 失败: "@ + err@,
            Failure::AtomReply { err } => "获取 CLIPBOARD atom 回复失败: "@ + err@,
            Failure::SelectInput { err } => "注册 X11 剪贴板监听失败: "@ + err@,
            Failure::Flush { err } => "刷新 X11 请求失败: "@ + err@,
            Failure::AwaitEvent { err } => "等待 X11 事件失败: "@ + err@,
        }
    }

    /// What is said about the failure.
    pub fn message(&self) -> (text: String)
        ensures
            text@ == self.text(),
    {
        match *self {
            Failure::CreateMemfd => "创建 memfd 失败".to_owned(),
            Failure::CloneMemfd => "复制 memfd 句柄失败".to_owned(),
            Failure::WriteInput { cmd, err } => "写入 ".to_owned().concat(cmd).concat(
                " 输入失败: ",
            ).concat(err),
            Failure::RewindInput { cmd, err } => "重置 ".to_owned().concat(cmd).concat(
                " 输入游标失败: ",
            ).concat(err),
            Failure::Start { cmd, err } => "启动 ".to_owned().concat(cmd).concat(
                " 失败: ",
            ).concat(err),
            Failure::Wait { cmd, err } => cmd.to_owned().concat(" 等待失败: ").concat(err),
            Failure::Exit { cmd, status } => cmd.to_owned().concat(" 退出失败: ").concat(status),
            Failure::Timeout { cmd } => cmd.to_owned().concat(" 执行超时"),
            Failure::RewindOutput { cmd, err } => "重置 ".to_owned().concat(cmd).concat(
                " 输出游标失败: ",
            ).concat(err),
            Failure::ReadOutput { cmd, err } => "读取 ".to_owned().concat(cmd).concat(
                " 输出失败: ",
            ).concat(err),
            Failure::Connect { err } => "X11 连接失败: ".to_owned().concat(err),
            Failure::QueryExtension { err } => "查询 XFixes 扩展失败: ".to_owned().concat(err),
            Failure::NoExtension => "X11 服务器未提供 XFixes 扩展".to_owned(),
            Failure::NegotiateVersion { err } => "XFixes 版本协商失败: ".to_owned().concat(err),
            Failure::VersionReply { err } => "获取 XFixes 版本回复失败: ".to_owned().concat(err),
            Failure::QueryAtom { err } => "查询 CLIPBOARD atom 失败: ".to_owned().concat(err),
            Failure::AtomReply { err } => "获取 CLIPBOARD atom 回复失败: ".to_owned().concat(err),
            Failure::SelectInput { err } => "注册 X11 剪贴板监听失败: ".to_owned().concat(err),
            Failure::Flush { err } => "刷新 X11 请求失败: ".to_owned().concat(err),
            Failure::AwaitEvent { err } => "等待 X11 事件失败: ".to_owned().concat(err),
        }
    }
}

/// For how many milliseconds a program may run.
pub const COMMAND_TIMEOUT_MS: u128 = 2000;

/// How many milliseconds pass between two looks at a running program.
pub const POLL_INTERVAL_MS: u64 = 10;

/// What a look at a program shows.
#[derive(Debug)]
pub enum ChildPoll {
    /// It has ended, with this status.
    Ended { success: bool, status: String },
    /// It is running, and was started so many milliseconds ago.
    Running { elapsed: u128 },
    /// It could not be looked at.
    Unknown { err: String },
}

/// What follows from a look at a program.
#[derive(Debug)]
pub enum WaitAction {
    /// It has done its work.
    Succeed,
    /// It has failed, or nothing can be learned of it.
    Fail(String),
    /// It has run for too long and is to be killed.
    KillAndFail(String),
    /// It may go on for `POLL_INTERVAL_MS` and is then to be looked at again.
    PollAgain,
}

/// Decides what follows from a look at the program `cmd`.
pub fn wait_child_step(cmd: &str, poll: ChildPoll) -> (action: WaitAction)
    ensures
        match poll {
            ChildPoll::Ended { success: true, .. } => action is Succeed,
            ChildPoll::Ended { success: false, status } => action is Fail && (
            action->Fail_0)@ == (cmd@ + " 退出失败: "@ + status@),
            ChildPoll::Running { elapsed } => if elapsed < COMMAND_TIMEOUT_MS {
                action is PollAgain
            } else {
                action is KillAndFail && (action->KillAndFail_0)@ == (cmd@ + " 执行超时"@)
            },
            ChildPoll::Unknown { err } => action is Fail && (action->Fail_0)@ == (cmd@
                + " 等待失败: "@ + err@),
        },
{
    match poll {
        ChildPoll::Ended { success, status } => if success {
            WaitAction::Succeed
        } else {
            WaitAction::Fail(Failure::Exit { cmd, status: status.as_str() }.message())
        },
        ChildPoll::Running { elapsed } => if elapsed >= COMMAND_TIMEOUT_MS {
            WaitAction::KillAndFail(Failure::Timeout { cmd }.message())
        } else {
            WaitAction::PollAgain
        },
        ChildPoll::Unknown { err } => WaitAction::Fail(
            Failure::Wait { cmd, err: err.as_str() }.message(),
        ),
    }
}

/// A command that reads or writes names the format as its last argument and otherwise does not
/// depend on it.
pub proof fn law_format_is_the_last_argument(dir: SyncDir, mime: Seq<char>, other: Seq<char>)
    ensures
        ({
            let command = read_command_text(dir, mime);
            let with_other = read_command_text(dir, other);
            &&& command.args == with_other.args.drop_last().push(mime)
            &&& command.args[command.args.len() - 2] == "-t"@
            &&& command.program == with_other.program
            &&& command.context == with_other.context
        }),
        ({
            let command = write_command_text(dir, mime);
            let with_other = write_command_text(dir, other);
            &&& command.args == with_other.args.drop_last().push(mime)
            &&& command.args[command.args.len() - 2] == "-t"@
            &&& command.program == with_other.program
            &&& command.context == with_other.context
        }),
{
    assert(read_command_text(dir, mime).args =~= read_command_text(
        dir,
        other,
    ).args.drop_last().push(mime));
    assert(write_command_text(dir, mime).args =~= write_command_text(
        dir,
        other,
    ).args.drop_last().push(mime));
}

/// The X11 clipboard is read and written by `xclip`; the Wayland clipboard is read by `wl-paste` and
/// written by `wl-copy`. A transfer lists and reads one and writes the other.
pub proof fn law_each_clipboard_has_its_programs(mime: Seq<char>)
    ensures
        types_command_text(SyncDir::X2W).program == "xclip"@,
        read_command_text(SyncDir::X2W, mime).program == "xclip"@,
        write_command_text(SyncDir::X2W, mime).program == "wl-copy"@,
        types_command_text(SyncDir::W2X).program == "wl-paste"@,
        read_command_text(SyncDir::W2X, mime).program == "wl-paste"@,
        write_command_text(SyncDir::W2X, mime).program == "xclip"@,
{
}

/// What is said about a program that fails is its name, what it failed at, and the reason.
pub proof fn law_program_failures_name_program_and_reason(cmd: &str, err: &str)
    ensures
        (Failure::WriteInput { cmd, err }).text() == "写入 "@ + cmd@ + " 输入失败: "@ + err@,
        (Failure::RewindInput { cmd, err }).text() == "重置 "@ + cmd@ + " 输入游标失败: "@ + err@,
        (Failure::Start { cmd, err }).text() == "启动 "@ + cmd@ + " 失败: "@ + err@,
        (Failure::Wait { cmd, err }).text() == cmd@ + " 等待失败: "@ + err@,
        (Failure::Exit { cmd, status: err }).text() == cmd@ + " 退出失败: "@ + err@,
        (Failure::Timeout { cmd }).text() == cmd@ + " 执行超时"@,
        (Failure::RewindOutput { cmd, err }).text() == "重置 "@ + cmd@ + " 输出游标失败: "@ + err@,
        (Failure::ReadOutput { cmd, err }).text() == "读取 "@ + cmd@ + " 输出失败: "@ + err@,
{
}

/// What is said about the X11 server ends with the reason that it gave.
pub proof fn law_server_failures_end_with_the_reason(err: &str)
    ensures
        (Failure::Connect { err }).text() == "X11 连接失败: "@ + err@,
        (Failure::QueryExtension { err }).text() == "查询 XFixes 扩展失败: "@ + err@,
        (Failure::NegotiateVersion { err }).text() == "XFixes 版本协商失败: "@ + err@,
        (Failure::VersionReply { err }).text() == "获取 XFixes 版本回复失败: "@ + err@,
        (Failure::QueryAtom { err }).text() == "查询 CLIPBOARD atom 失败: "@ + err@,
        (Failure::AtomReply { err }).text() == "获取 CLIPBOARD atom 回复失败: "@ + err@,
        (Failure::SelectInput { err }).text() == "注册 X11 剪贴板监听失败: "@ + err@,
        (Failure::Flush { err }).text() == "刷新 X11 请求失败: "@ + err@,
        (Failure::AwaitEvent { err }).text() == "等待 X11 事件失败: "@ + err@,
{
}

/// The view of a command shows its program, every one of its arguments in order, and what to say if
/// it fails.
pub proof fn law_view_shows_command(command: CommandLine, i: int)
    ensures
        command@.program == command.program@,
        command@.context == command.context@,
        command@.args.len() == command.args@.len(),
        0 <= i < command.args@.len() ==> command@.args[i] == command.args@[i]@,
{
}

/// A program may run for two seconds and is looked at a hundred times in each.
pub proof fn law_program_may_run_for_two_seconds()
    ensures
        COMMAND_TIMEOUT_MS == 2 * 1000,
        POLL_INTERVAL_MS * 100 == 1000,
{
}

} // verus!
