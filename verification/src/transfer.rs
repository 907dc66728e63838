//! One pass from a change of one clipboard to the other clipboard's new contents.
//!
//! A pass alternates between decisions, which are made here, and work outside: waiting, running
//! programs, and consulting what is remembered. `step` takes what has come of the last piece of
//! work and says which is next.
use crate::command::{
    read_command, read_command_text, types_command, types_command_text, write_command,
    write_command_text, CommandLine, CommandView,
};
use crate::digest::{
    calc_hash, content_hash, data_to_write, law_written_data_keeps_hash, written, EMPTY_HASH,
};
use crate::log::{LogEntry, LogView};
use crate::numerals::{law_padded_reads_back, padded, push_padded};
use crate::outside::{from_utf8_lossy, lossy_utf8};
use crate::rules::{
    detect_wayland_clipboard_spec, detect_x11_clipboard_spec, first_match,
    law_other_names_do_not_count, law_wayland_reads_back, law_x11_reads_back,
    lemma_names_stand_on_one_line, wayland_format, wayland_rules, x11_format, x11_name, x11_rules,
    x11_target, ProcessMode,
};
use crate::state::{
    after_begins, after_finish, begins, law_transferred_contents_are_refused, opposite, SyncDir,
    SyncState,
};
use vstd::arithmetic::div_mod::lemma_div_denominator;
use vstd::arithmetic::power::{lemma_pow0, lemma_pow_positive, pow};
use vstd::prelude::*;

verus! {

/// How long to wait, in milliseconds, before a changed clipboard is looked at.
pub const SETTLE_MS: u64 = 30;

/// In which format a transfer reads, in which it writes, and how the contents are processed.
#[derive(Clone, Copy, Debug)]
pub struct Transfer {
    pub read_mime: &'static str,
    pub write_mime: &'static str,
    pub process_mode: ProcessMode,
}

/// A `Transfer` with its formats as sequences of characters.
pub struct TransferView {
    pub read_mime: Seq<char>,
    pub write_mime: Seq<char>,
    pub process_mode: ProcessMode,
}

impl View for Transfer {
    type V = TransferView;

    open spec fn view(&self) -> TransferView {
        TransferView {
            read_mime: self.read_mime@,
            write_mime: self.write_mime@,
            process_mode: self.process_mode,
        }
    }
}

/// Contents that have been read and may be about to be written.
#[derive(Debug)]
pub struct Pending {
    pub transfer: Transfer,
    pub data: Vec<u8>,
    pub hash: u128,
}

/// A `Pending` with its parts as sequences.
pub struct PendingView {
    pub transfer: TransferView,
    pub data: Seq<u8>,
    pub hash: u128,
}

impl View for Pending {
    type V = PendingView;

    open spec fn view(&self) -> PendingView {
        PendingView { transfer: self.transfer@, data: self.data@, hash: self.hash }
    }
}

/// What has come of the last piece of work.
#[derive(Debug)]
pub enum Event {
    /// The clipboard has changed.
    Changed,
    /// It was given the time to settle.
    Settled,
    /// What is remembered was asked whether the change is an echo.
    Prechecked { skip: bool },
    /// The list of offered formats was read, or could not be.
    TypesRead { types: Option<Vec<u8>> },
    /// The contents were read, or could not be.
    DataRead { transfer: Transfer, data: Option<Vec<u8>> },
    /// What is remembered was asked to begin the transfer.
    Begun { pending: Pending, begun: bool },
    /// The other clipboard was written, or could not be.
    Written { hash: u128, written: bool },
    /// The transfer was remembered.
    Finished,
}

/// An `Event` with its parts as sequences.
pub enum EventView {
    Changed,
    Settled,
    Prechecked { skip: bool },
    TypesRead { types: Option<Seq<u8>> },
    DataRead { transfer: TransferView, data: Option<Seq<u8>> },
    Begun { pending: PendingView, begun: bool },
    Written { hash: u128, written: bool },
    Finished,
}

/// The bytes of what was read, if anything was.
pub open spec fn bytes_of(data: Option<Vec<u8>>) -> Option<Seq<u8>> {
    match data {
        Some(data) => Some(data@),
        None => None,
    }
}

impl View for Event {
    type V = EventView;

    open spec fn view(&self) -> EventView {
        match *self {
            Event::Changed => EventView::Changed,
            Event::Settled => EventView::Settled,
            Event::Prechecked { skip } => EventView::Prechecked { skip },
            Event::TypesRead { types } => EventView::TypesRead { types: bytes_of(types) },
            Event::DataRead { transfer, data } => EventView::DataRead {
                transfer: transfer@,
                data: bytes_of(data),
            },
            Event::Begun { pending, begun } => EventView::Begun { pending: pending@, begun },
            Event::Written { hash, written } => EventView::Written { hash, written },
            Event::Finished => EventView::Finished,
        }
    }
}

/// The next piece of work.
#[derive(Debug)]
pub enum Action {
    /// The pass has ended: wait for the next change.
    Wait,
    /// Wait for `SETTLE_MS`.
    Settle,
    /// Ask what is remembered whether the change is an echo.
    Precheck,
    /// Read the list of offered formats.
    ReadTypes { command: CommandLine },
    /// Read the contents.
    ReadData { transfer: Transfer, command: CommandLine },
    /// Ask what is remembered to begin the transfer.
    Begin { pending: Pending },
    /// Report the transfer and write the other clipboard.
    Write { hash: u128, entry: LogEntry, command: CommandLine, data: Vec<u8> },
    /// Remember the transfer.
    Finish { hash: u128 },
}

/// An `Action` with its parts as sequences.
pub enum ActionView {
    Wait,
    Settle,
    Precheck,
    ReadTypes { command: CommandView },
    ReadData { transfer: TransferView, command: CommandView },
    Begin { pending: PendingView },
    Write { hash: u128, entry: LogView, command: CommandView, data: Seq<u8> },
    Finish { hash: u128 },
}

impl View for Action {
    type V = ActionView;

    open spec fn view(&self) -> ActionView {
        match *self {
            Action::Wait => ActionView::Wait,
            Action::Settle => ActionView::Settle,
            Action::Precheck => ActionView::Precheck,
            Action::ReadTypes { command } => ActionView::ReadTypes { command: command@ },
            Action::ReadData { transfer, command } => ActionView::ReadData {
                transfer: transfer@,
                command: command@,
            },
            Action::Begin { pending } => ActionView::Begin { pending: pending@ },
            Action::Write { hash, entry, command, data } => ActionView::Write {
                hash,
                entry: entry@,
                command: command@,
                data: data@,
            },
            Action::Finish { hash } => ActionView::Finish { hash },
        }
    }
}

/// The transfer that is made when the source offers `types`.
pub open spec fn transfer_for(dir: SyncDir, types: Seq<char>) -> Option<TransferView> {
    match dir {
        SyncDir::X2W => match x11_format(types) {
            Some(format) => Some(
                TransferView {
                    read_mime: format.source_mime,
                    write_mime: format.sync_mime,
                    process_mode: format.process_mode,
                },
            ),
            None => None,
        },
        SyncDir::W2X => match wayland_format(types) {
            Some(format) => Some(
                TransferView {
                    read_mime: format.sync_mime,
                    write_mime: x11_name(format.sync_mime),
                    process_mode: format.process_mode,
                },
            ),
            None => None,
        },
    }
}

/// What is reported when contents are written: where to, and the front of their hash.
pub open spec fn announcement_text(dir: SyncDir, hash: u128) -> LogView {
    let front = padded(hash as nat / 0x1_0000_0000_0000_0000_0000_0000, 16, 8);
    match dir {
        SyncDir::X2W => LogView {
            level: "X2W"@,
            msg: "写入 Wayland... (Hash: "@ + front + ")"@,
        },
        SyncDir::W2X => LogView { level: "W2X"@, msg: "写入 X11... (Hash: "@ + front + ")"@ },
    }
}

/// The next piece of work once the hash of the contents is known.
pub open spec fn next_for_hash(transfer: TransferView, data: Seq<u8>, hash: u128) -> ActionView {
    if hash == EMPTY_HASH {
        ActionView::Wait
    } else {
        ActionView::Begin { pending: PendingView { transfer, data, hash } }
    }
}

/// The next piece of work in a pass.
pub open spec fn next(dir: SyncDir, event: EventView) -> ActionView {
    match event {
        EventView::Changed => ActionView::Settle,
        EventView::Settled => ActionView::Precheck,
        EventView::Prechecked { skip } => if skip {
            ActionView::Wait
        } else {
            ActionView::ReadTypes { command: types_command_text(dir) }
        },
        EventView::TypesRead { types: None } => ActionView::Wait,
        EventView::TypesRead { types: Some(types) } => match transfer_for(
            dir,
            lossy_utf8(types),
        ) {
            Some(transfer) => ActionView::ReadData {
                transfer,
                command: read_command_text(dir, transfer.read_mime),
            },
            None => ActionView::Wait,
        },
        EventView::DataRead { data: None, .. } => ActionView::Wait,
        EventView::DataRead { transfer, data: Some(data) } => next_for_hash(
            transfer,
            data,
            content_hash(data, transfer.process_mode),
        ),
        EventView::Begun { pending, begun } => if begun {
            ActionView::Write {
                hash: pending.hash,
                entry: announcement_text(dir, pending.hash),
                command: write_command_text(dir, pending.transfer.write_mime),
                data: written(pending.data, pending.transfer.process_mode),
            }
        } else {
            ActionView::Wait
        },
        EventView::Written { hash, written } => if written {
            ActionView::Finish { hash }
        } else {
            ActionView::Wait
        },
        EventView::Finished => ActionView::Wait,
    }
}

/// Picks the transfer that is made when the source offers `types`.
pub fn plan_transfer(dir: SyncDir, types: &str) -> (transfer: Option<Transfer>)
    ensures
        transfer is Some <==> transfer_for(dir, types@) is Some,
        transfer is Some ==> transfer->0@ == transfer_for(dir, types@)->0,
{
    match dir {
        SyncDir::X2W => match detect_x11_clipboard_spec(types) {
            Some(spec) => Some(
                Transfer {
                    read_mime: spec.source_mime,
                    write_mime: spec.sync_mime,
                    process_mode: spec.process_mode,
                },
            ),
            None => None,
        },
        SyncDir::W2X => match detect_wayland_clipboard_spec(types) {
            Some(spec) => Some(
                Transfer {
                    read_mime: spec.sync_mime,
                    write_mime: x11_target(spec.sync_mime),
                    process_mode: spec.process_mode,
                },
            ),
            None => None,
        },
    }
}

/// The report that contents are written.
pub fn announcement(dir: SyncDir, hash: u128) -> (entry: LogEntry)
    ensures
        entry@ == announcement_text(dir, hash),
{
    let front: u32 = (hash / 0x1_0000_0000_0000_0000_0000_0000) as u32;
    let (level, start) = match dir {
        SyncDir::X2W => ("X2W", "写入 Wayland... (Hash: "),
        SyncDir::W2X => ("W2X", "写入 X11... (Hash: "),
    };
    let mut msg = start.to_owned();
    push_padded(&mut msg, front, 16, 8);
    msg.append(")");
    LogEntry { level, msg }
}

/// Decides the next piece of work once the hash of the contents is known: a transfer is offered
/// unless there is nothing to transfer.
pub fn step_for_hash(transfer: Transfer, data: Vec<u8>, hash: u128) -> (action: Action)
    ensures
        action@ == next_for_hash(transfer@, data@, hash),
{
    if hash == EMPTY_HASH {
        Action::Wait
    } else {
        Action::Begin { pending: Pending { transfer, data, hash } }
    }
}

/// Decides the next piece of work in a pass.
pub fn step(dir: SyncDir, event: Event) -> (action: Action)
    ensures
        action@ == next(dir, event@),
{
    match event {
        Event::Changed => Action::Settle,
        Event::Settled => Action::Precheck,
        Event::Prechecked { skip } => if skip {
            Action::Wait
        } else {
            Action::ReadTypes { command: types_command(dir) }
        },
        Event::TypesRead { types } => match types {
            Some(types) => {
                let text = from_utf8_lossy(types.as_slice());
                match plan_transfer(dir, text.as_str()) {
                    Some(transfer) => Action::ReadData {
                        transfer,
                        command: read_command(dir, transfer.read_mime),
                    },
                    None => Action::Wait,
                }
            },
            None => Action::Wait,
        },
        Event::DataRead { transfer, data } => match data {
            Some(data) => {
                let hash: u128 = calc_hash(data.as_slice(), transfer.process_mode);
                step_for_hash(transfer, data, hash)
            },
            None => Action::Wait,
        },
        Event::Begun { pending, begun } => if begun {
            Action::Write {
                hash: pending.hash,
                entry: announcement(dir, pending.hash),
                command: write_command(dir, pending.transfer.write_mime),
                data: data_to_write(pending.data, pending.transfer.process_mode),
            }
        } else {
            Action::Wait
        },
        Event::Written { hash, written } => if written {
            Action::Finish { hash }
        } else {
            Action::Wait
        },
        Event::Finished => Action::Wait,
    }
}

/// Whether `event` tells what has come of `action`.
pub open spec fn answers(event: EventView, action: ActionView) -> bool {
    match action {
        ActionView::Wait => false,
        ActionView::Settle => event is Settled,
        ActionView::Precheck => event is Prechecked,
        ActionView::ReadTypes { .. } => event is TypesRead,
        ActionView::ReadData { transfer, .. } => event is DataRead && event->transfer == transfer,
        ActionView::Begin { pending } => event is Begun && event->pending == pending,
        ActionView::Write { hash, .. } => event is Written && event->Written_hash == hash,
        ActionView::Finish { .. } => event is Finished,
    }
}

/// Whether `events` is what happens in a pass, up to its end or to some point in it.
pub open spec fn is_pass(dir: SyncDir, events: Seq<EventView>) -> bool {
    &&& events.len() > 0
    &&& events[0] is Changed
    &&& forall|i: int|
        0 < i < events.len() ==> answers(#[trigger] events[i], next(dir, events[i - 1]))
}

/// How far a pass has come when an event happens in it.
pub open spec fn progress(event: EventView) -> int {
    match event {
        EventView::Changed => 0,
        EventView::Settled => 1,
        EventView::Prechecked { .. } => 2,
        EventView::TypesRead { .. } => 3,
        EventView::DataRead { .. } => 4,
        EventView::Begun { .. } => 5,
        EventView::Written { .. } => 6,
        EventView::Finished => 7,
    }
}

/// Every event of a pass happens in its turn, and none happens twice: a pass ends.
pub proof fn law_pass_makes_progress(dir: SyncDir, events: Seq<EventView>)
    requires
        is_pass(dir, events),
    ensures
        events.len() <= 8,
        forall|i: int| 0 <= i < events.len() ==> progress(#[trigger] events[i]) == i,
    decreases events.len(),
{
    if events.len() > 1 {
        let earlier = events.drop_last();
        assert forall|i: int| 0 < i < earlier.len() implies answers(
            #[trigger] earlier[i],
            next(dir, earlier[i - 1]),
        ) by {
            assert(earlier[i] == events[i]);
        }
        law_pass_makes_progress(dir, earlier);
        let last = events.len() - 1;
        assert(answers(events[last], next(dir, events[last - 1])));
        assert(progress(earlier[last - 1]) == last - 1);
        assert forall|i: int| 0 <= i < events.len() implies progress(#[trigger] events[i]) == i by {
            if i < last {
                assert(earlier[i] == events[i]);
            }
        }
    }
}

/// A clipboard is written only in a pass in which the change was not taken for an echo, a format
/// was found among the offered ones, the contents were read in it and are not empty, and the
/// transfer was begun. What is written is made of those contents, and goes by their hash.
pub proof fn law_written_contents_were_read(dir: SyncDir, events: Seq<EventView>, i: int)
    requires
        is_pass(dir, events),
        0 <= i < events.len(),
        next(dir, events[i]) is Write,
    ensures
        i == 5,
        events[2] == (EventView::Prechecked { skip: false }),
        events[3] is TypesRead,
        events[3]->types is Some,
        transfer_for(dir, lossy_utf8(events[3]->types->0)) is Some,
        events[4] is DataRead,
        events[4]->data is Some,
        ({
            let transfer = transfer_for(dir, lossy_utf8(events[3]->types->0))->0;
            let data = events[4]->data->0;
            let hash = content_hash(data, transfer.process_mode);
            &&& events[4]->transfer == transfer
            &&& hash != EMPTY_HASH
            &&& events[5] == (EventView::Begun {
                pending: PendingView { transfer, data, hash },
                begun: true,
            })
            &&& next(dir, events[5]) == (ActionView::Write {
                hash,
                entry: announcement_text(dir, hash),
                command: write_command_text(dir, transfer.write_mime),
                data: written(data, transfer.process_mode),
            })
        }),
{
    law_pass_makes_progress(dir, events);
    assert(progress(events[i]) == i);
    assert(answers(events[5], next(dir, events[4])));
    assert(answers(events[4], next(dir, events[3])));
    assert(answers(events[3], next(dir, events[2])));
    assert(progress(events[4]) == 4);
    assert(progress(events[3]) == 3);
    assert(progress(events[2]) == 2);
}

/// A transfer is remembered only after the other clipboard was written, and by the hash of what
/// was read.
pub proof fn law_remembered_contents_were_written(dir: SyncDir, events: Seq<EventView>, i: int)
    requires
        is_pass(dir, events),
        0 <= i < events.len(),
        next(dir, events[i]) is Finish,
    ensures
        i == 6,
        events[6] == (EventView::Written { hash: next(dir, events[6])->Finish_hash, written: true }),
        next(dir, events[5]) is Write,
        next(dir, events[5])->Write_hash == next(dir, events[6])->Finish_hash,
{
    law_pass_makes_progress(dir, events);
    assert(progress(events[i]) == i);
    assert(answers(events[6], next(dir, events[5])));
    assert(progress(events[5]) == 5);
}

/// What is decided by a rule is what the rule says.
proof fn lemma_match_is_a_rule<T>(rules: Seq<(Seq<char>, T)>, types: Seq<char>) -> (i: int)
    requires
        first_match(rules, types) is Some,
    ensures
        0 <= i < rules.len(),
        first_match(rules, types) == Some(rules[i].1),
    decreases rules.len(),
{
    if first_match(rules, types) == Some(rules[0].1) {
        0
    } else {
        let i = lemma_match_is_a_rule(rules.drop_first(), types);
        assert(rules.drop_first()[i] == rules[i + 1]);
        i + 1
    }
}

/// Whether a pass the other way, on a clipboard that offers `types`, reads the format that a
/// transfer has written, and processes it in the same way.
pub open spec fn reads_back(dir: SyncDir, transfer: TransferView, types: Seq<char>) -> bool {
    let back = transfer_for(opposite(dir), types);
    &&& back is Some
    &&& back->0.read_mime == transfer.write_mime
    &&& back->0.process_mode == transfer.process_mode
}

proof fn lemma_other_names_do_not_count(dir: SyncDir, types: Seq<char>, others: Seq<char>)
    requires
        transfer_for(dir, others) is None,
    ensures
        transfer_for(dir, others + seq!['\n'] + types) == transfer_for(dir, types),
        transfer_for(dir, types + seq!['\n'] + others) == transfer_for(dir, types),
{
    lemma_names_stand_on_one_line();
    match dir {
        SyncDir::X2W => law_other_names_do_not_count(x11_rules(), types, others),
        SyncDir::W2X => law_other_names_do_not_count(wayland_rules(), types, others),
    }
}

/// What a transfer writes is read back from the other clipboard in the same format, and processed
/// in the same way, when that format is the only one offered there: with or without a line feed
/// behind its name, and among other names that lead to no transfer.
pub proof fn law_transfer_reads_back(dir: SyncDir, types: Seq<char>)
    requires
        transfer_for(dir, types) is Some,
    ensures
        ({
            let transfer = transfer_for(dir, types)->0;
            let name = transfer.write_mime;
            &&& reads_back(dir, transfer, name)
            &&& reads_back(dir, transfer, name.push('\n'))
            &&& forall|others: Seq<char>| #[trigger]
                transfer_for(opposite(dir), others) is None ==> reads_back(
                    dir,
                    transfer,
                    others + seq!['\n'] + name.push('\n'),
                ) && reads_back(dir, transfer, name + seq!['\n'] + others)
        }),
{
    match dir {
        SyncDir::X2W => {
            let i = lemma_match_is_a_rule(x11_rules(), types);
            law_wayland_reads_back(i);
        },
        SyncDir::W2X => {
            let i = lemma_match_is_a_rule(wayland_rules(), types);
            law_x11_reads_back(i);
        },
    }
    let transfer = transfer_for(dir, types)->0;
    let name = transfer.write_mime;
    lemma_names_stand_on_one_line();
    lemma_other_names_do_not_count(opposite(dir), name, seq![]);
    assert(name.push('\n') =~= name + seq!['\n'] + seq![]);
    assert forall|others: Seq<char>| #[trigger]
        transfer_for(opposite(dir), others) is None implies reads_back(
        dir,
        transfer,
        others + seq!['\n'] + name.push('\n'),
    ) && reads_back(dir, transfer, name + seq!['\n'] + others) by {
        lemma_other_names_do_not_count(opposite(dir), name.push('\n'), others);
        lemma_other_names_do_not_count(opposite(dir), name, others);
    }
}

/// A transfer is not sent back. Once contents were transferred one way, reading what was written
/// leads to no transfer the other way, whenever it is read and whatever was attempted in between:
/// it has the same hash, and what is remembered refuses it until other contents are transferred.
pub proof fn law_transfer_is_not_sent_back(
    dir: SyncDir,
    transfer: TransferView,
    data: Seq<u8>,
    state: SyncState,
    attempts: Seq<(SyncDir, u128, i64)>,
    back: TransferView,
    now: i64,
)
    requires
        next(dir, EventView::DataRead { transfer, data: Some(data) }) is Begin,
        back.process_mode == transfer.process_mode,
    ensures
        ({
            let hash = content_hash(data, transfer.process_mode);
            let echo = written(data, transfer.process_mode);
            let event = EventView::DataRead { transfer: back, data: Some(echo) };
            &&& next(opposite(dir), event) == (ActionView::Begin {
                pending: PendingView { transfer: back, data: echo, hash },
            })
            &&& !begins(
                after_begins(after_finish(state, hash), attempts),
                opposite(dir),
                hash,
                now,
            )
        }),
{
    law_written_data_keeps_hash(data, transfer.process_mode);
    law_transferred_contents_are_refused(
        state,
        content_hash(data, transfer.process_mode),
        attempts,
        opposite(dir),
        now,
    );
}

/// Two passes, one behind the other, do not send contents to and fro. Let contents be transferred
/// one way and remembered. If a pass the other way then reads what was written, in a format that is
/// processed in the same way, it writes nothing, whenever it happens and whatever was attempted in
/// between.
pub proof fn law_echo_is_not_written(
    dir: SyncDir,
    first: Seq<EventView>,
    state: SyncState,
    attempts: Seq<(SyncDir, u128, i64)>,
    second: Seq<EventView>,
    now: i64,
)
    requires
        is_pass(dir, first),
        first.len() == 7,
        next(dir, first[6]) is Finish,
        is_pass(opposite(dir), second),
        second.len() == 6,
        second[4]->transfer.process_mode == first[4]->transfer.process_mode,
        second[4]->data == Some(next(dir, first[5])->Write_data),
        second[5]->begun == begins(
            after_begins(after_finish(state, next(dir, first[6])->Finish_hash), attempts),
            opposite(dir),
            second[5]->pending.hash,
            now,
        ),
    ensures
        second[5]->pending.hash == next(dir, first[6])->Finish_hash,
        next(opposite(dir), second[5]) is Wait,
{
    law_remembered_contents_were_written(dir, first, 6);
    law_written_contents_were_read(dir, first, 5);
    let transfer = first[4]->transfer;
    let data = first[4]->data->0;
    law_pass_makes_progress(opposite(dir), second);
    assert(progress(second[4]) == 4);
    assert(answers(second[5], next(opposite(dir), second[4])));
    law_transfer_is_not_sent_back(
        dir,
        transfer,
        data,
        state,
        attempts,
        second[4]->transfer,
        now,
    );
}

/// Contents that were read are offered for a transfer, whatever their size and however they are
/// processed, unless their hash is that of empty contents; and they are offered as they were read.
pub proof fn law_contents_are_offered(dir: SyncDir, transfer: TransferView, data: Seq<u8>)
    ensures
        content_hash(data, transfer.process_mode) != 0 ==> next(
            dir,
            EventView::DataRead { transfer, data: Some(data) },
        ) == (ActionView::Begin {
            pending: PendingView {
                transfer,
                data,
                hash: content_hash(data, transfer.process_mode),
            },
        }),
        content_hash(data, transfer.process_mode) == 0 ==> next(
            dir,
            EventView::DataRead { transfer, data: Some(data) },
        ) is Wait,
        next(dir, EventView::DataRead { transfer, data: None }) is Wait,
{
}

/// Contents go by any hash that is not 0, whatever it is.
pub proof fn law_any_other_hash_is_offered(transfer: TransferView, data: Seq<u8>, hash: u128)
    ensures
        hash != 0 ==> next_for_hash(transfer, data, hash) == (ActionView::Begin {
            pending: PendingView { transfer, data, hash },
        }),
        next_for_hash(transfer, data, 0) is Wait,
{
}

/// A pass carries contents over. If the change is not taken for an echo, the types that are read name
/// a format, the contents are not empty, and the transfer is begun, then the pass comes to the point
/// where the other clipboard is written, with what is made of the contents and in the format of the
/// transfer; and once that is done, the contents are remembered by their hash, and the pass ends.
pub proof fn law_pass_carries_contents_over(
    dir: SyncDir,
    types: Seq<u8>,
    transfer: TransferView,
    data: Seq<u8>,
)
    requires
        transfer_for(dir, lossy_utf8(types)) == Some(transfer),
        content_hash(data, transfer.process_mode) != 0,
    ensures
        ({
            let hash = content_hash(data, transfer.process_mode);
            let events = seq![
                EventView::Changed,
                EventView::Settled,
                EventView::Prechecked { skip: false },
                EventView::TypesRead { types: Some(types) },
                EventView::DataRead { transfer, data: Some(data) },
                EventView::Begun { pending: PendingView { transfer, data, hash }, begun: true },
                EventView::Written { hash, written: true },
                EventView::Finished,
            ];
            &&& is_pass(dir, events)
            &&& next(dir, events[0]) is Settle
            &&& next(dir, events[1]) is Precheck
            &&& next(dir, events[2]) == (ActionView::ReadTypes { command: types_command_text(dir) })
            &&& next(dir, events[3]) == (ActionView::ReadData {
                transfer,
                command: read_command_text(dir, transfer.read_mime),
            })
            &&& next(dir, events[4]) is Begin
            &&& next(dir, events[5]) is Write
            &&& next(dir, events[5])->Write_hash == hash
            &&& next(dir, events[5])->Write_data == written(data, transfer.process_mode)
            &&& next(dir, events[5])->Write_command == write_command_text(dir, transfer.write_mime)
            &&& next(dir, events[5])->entry == announcement_text(dir, hash)
            &&& next(dir, events[6]) == (ActionView::Finish { hash })
            &&& next(dir, events[7]) is Wait
        }),
{
    law_contents_are_offered(dir, transfer, data);
    let hash = content_hash(data, transfer.process_mode);
    let events = seq![
        EventView::Changed,
        EventView::Settled,
        EventView::Prechecked { skip: false },
        EventView::TypesRead { types: Some(types) },
        EventView::DataRead { transfer, data: Some(data) },
        EventView::Begun { pending: PendingView { transfer, data, hash }, begun: true },
        EventView::Written { hash, written: true },
        EventView::Finished,
    ];
    assert(answers(events[1], next(dir, events[0])));
    assert(answers(events[2], next(dir, events[1])));
    assert(answers(events[3], next(dir, events[2])));
    assert(answers(events[4], next(dir, events[3])));
    assert(answers(events[5], next(dir, events[4])));
    assert(answers(events[6], next(dir, events[5])));
    assert(answers(events[7], next(dir, events[6])));
}

/// A transfer that is begun is written, whatever is pending, and one that was written is remembered
/// by its hash.
pub proof fn law_begun_transfer_is_written(dir: SyncDir, pending: PendingView, hash: u128)
    ensures
        next(dir, EventView::Begun { pending, begun: true }) == (ActionView::Write {
            hash: pending.hash,
            entry: announcement_text(dir, pending.hash),
            command: write_command_text(dir, pending.transfer.write_mime),
            data: written(pending.data, pending.transfer.process_mode),
        }),
        next(dir, EventView::Written { hash, written: true }) == (ActionView::Finish { hash }),
{
}

/// A pass ends where it cannot go on: at an echo, at types or contents that could not be read, at
/// types that name no format, at a transfer that is not begun, and at a clipboard that could not be
/// written.
pub proof fn law_pass_ends_at_an_obstacle(
    dir: SyncDir,
    types: Seq<u8>,
    transfer: TransferView,
    pending: PendingView,
    hash: u128,
)
    ensures
        next(dir, EventView::Prechecked { skip: true }) is Wait,
        next(dir, EventView::TypesRead { types: None }) is Wait,
        transfer_for(dir, lossy_utf8(types)) is None ==> next(
            dir,
            EventView::TypesRead { types: Some(types) },
        ) is Wait,
        next(dir, EventView::DataRead { transfer, data: None }) is Wait,
        next(dir, EventView::Begun { pending, begun: false }) is Wait,
        next(dir, EventView::Written { hash, written: false }) is Wait,
{
}

/// A transfer from X11 reads and writes what the X11 side goes by. A transfer from Wayland reads what
/// the Wayland side goes by, and writes it under the same name, unless it is plain text.
pub proof fn law_transfer_goes_by_the_source(types: Seq<char>)
    ensures
        x11_format(types) is None <==> transfer_for(SyncDir::X2W, types) is None,
        x11_format(types) matches Some(format) ==> transfer_for(SyncDir::X2W, types) == Some(
            TransferView {
                read_mime: format.source_mime,
                write_mime: format.sync_mime,
                process_mode: format.process_mode,
            },
        ),
        wayland_format(types) is None <==> transfer_for(SyncDir::W2X, types) is None,
        wayland_format(types) matches Some(format) ==> transfer_for(SyncDir::W2X, types) == Some(
            TransferView {
                read_mime: format.sync_mime,
                write_mime: if format.sync_mime == "text/plain"@ || format.sync_mime
                    == "text/plain;charset=utf-8"@ {
                    "UTF8_STRING"@
                } else {
                    format.sync_mime
                },
                process_mode: format.process_mode,
            },
        ),
{
}

/// A report of a transfer names its direction, where the contents are written, and the first eight
/// hexadecimal digits of their hash, which has thirty-two.
pub proof fn law_report_shows_front_of_hash(hash: u128)
    ensures
        ({
            let front = padded(hash as nat, 16, 32).take(8);
            &&& announcement_text(SyncDir::X2W, hash).level == "X2W"@
            &&& announcement_text(SyncDir::X2W, hash).msg == "写入 Wayland... (Hash: "@ + front
                + ")"@
            &&& announcement_text(SyncDir::W2X, hash).level == "W2X"@
            &&& announcement_text(SyncDir::W2X, hash).msg == "写入 X11... (Hash: "@ + front + ")"@
        }),
{
    lemma_front_digits(hash as nat, 24);
    assert(pow(16, 24) == 0x1_0000_0000_0000_0000_0000_0000) by {
        reveal(pow);
        reveal_with_fuel(pow, 25);
    }
}

/// The first eight digits of a number are those of the number without the digits behind them.
proof fn lemma_front_digits(n: nat, behind: nat)
    ensures
        padded(n, 16, 8 + behind).len() == 8 + behind,
        padded(n, 16, 8 + behind).take(8) == padded(
            (n as int / pow(16, behind)) as nat,
            16,
            8,
        ),
    decreases behind,
{
    law_padded_reads_back(n, 16, 8 + behind);
    if behind == 0 {
        lemma_pow0(16);
        assert(padded(n, 16, 8).take(8) =~= padded(n, 16, 8));
    } else {
        let fewer = (behind - 1) as nat;
        lemma_front_digits(n / 16, fewer);
        lemma_pow_positive(16, fewer);
        lemma_div_denominator(n as int, 16, pow(16, fewer));
        assert(pow(16, behind) == 16 * pow(16, fewer)) by {
            reveal(pow);
        }
        assert(padded(n, 16, 8 + behind).take(8) =~= padded(n / 16, 16, 8 + fewer).take(8));
    }
}

/// A changed clipboard is given thirty milliseconds to settle.
pub proof fn law_clipboard_settles(dir: SyncDir)
    ensures
        next(dir, EventView::Changed) is Settle,
        next(dir, EventView::Settled) is Precheck,
        SETTLE_MS == 30,
{
}

/// What an event or an action holds is what its view shows: nothing is left out of it and nothing is
/// shown that it does not hold.
pub proof fn law_views_show_all(
    transfer: Transfer,
    data: Vec<u8>,
    hash: u128,
    begun: bool,
    action: Action,
)
    ensures
        Event::Changed@ is Changed,
        Event::Settled@ is Settled,
        Event::Finished@ is Finished,
        (Event::Prechecked { skip: begun })@ == (EventView::Prechecked { skip: begun }),
        (Event::TypesRead { types: Some(data) })@ == (EventView::TypesRead { types: Some(data@) }),
        (Event::TypesRead { types: None })@ == (EventView::TypesRead { types: None }),
        (Event::DataRead { transfer, data: Some(data) })@ == (EventView::DataRead {
            transfer: transfer@,
            data: Some(data@),
        }),
        (Event::DataRead { transfer, data: None })@ == (EventView::DataRead {
            transfer: transfer@,
            data: None,
        }),
        (Event::Begun { pending: Pending { transfer, data, hash }, begun })@ == (EventView::Begun {
            pending: PendingView { transfer: transfer@, data: data@, hash },
            begun,
        }),
        (Event::Written { hash, written: begun })@ == (EventView::Written { hash, written: begun }),
        transfer@ == (TransferView {
            read_mime: transfer.read_mime@,
            write_mime: transfer.write_mime@,
            process_mode: transfer.process_mode,
        }),
        action@ is Wait <==> action is Wait,
        action@ is Settle <==> action is Settle,
        action@ is Precheck <==> action is Precheck,
        action@ is ReadTypes <==> action is ReadTypes,
        action@ is ReadTypes ==> action@->ReadTypes_command == action->ReadTypes_command@,
        action@ is ReadData <==> action is ReadData,
        action@ is ReadData ==> action@->ReadData_command == action->ReadData_command@
            && action@->transfer == action->transfer@,
        action@ is Begin <==> action is Begin,
        action@ is Begin ==> action@->pending.data == action->pending.data@
            && action@->pending.hash == action->pending.hash && action@->pending.transfer
            == action->pending.transfer@,
        action@ is Write <==> action is Write,
        action@ is Write ==> action@->Write_hash == action->Write_hash && action@->Write_data
            == action->Write_data@ && action@->Write_command == action->Write_command@
            && action@->entry == action->entry@,
        action@ is Finish <==> action is Finish,
        action@ is Finish ==> action@->Finish_hash == action->Finish_hash,
{
}

} // verus!
