//! What is remembered between two transfers, and which transfers that rules out.
use crate::clock::get_ms;
use crate::digest::EMPTY_HASH;
use vstd::prelude::*;

verus! {

/// The way a transfer goes.
#[derive(Clone, Copy, Debug, PartialEq, Eq, Structural)]
pub enum SyncDir {
    /// From the X11 clipboard to the Wayland clipboard.
    X2W,
    /// From the Wayland clipboard to the X11 clipboard.
    W2X,
}

/// What is remembered of earlier transfers.
#[derive(Clone, Copy, Debug, PartialEq, Eq, Structural)]
pub struct SyncState {
    /// The way the last transfer went that was begun.
    pub last_dir: Option<SyncDir>,
    /// The clock reading at which it was begun.
    pub last_time: i64,
    /// The hash of the contents that were transferred last.
    pub last_sync_hash: u128,
}

/// For how many milliseconds after a transfer one the other way is taken for its echo.
pub const ECHO_WINDOW_MS: i64 = 1000;

/// The other way.
pub open spec fn opposite(dir: SyncDir) -> SyncDir {
    match dir {
        SyncDir::X2W => SyncDir::W2X,
        SyncDir::W2X => SyncDir::X2W,
    }
}

/// Whether a change is taken for the echo of a transfer that went the other way.
pub open spec fn skips(state: SyncState, dir: SyncDir, now: i64) -> bool {
    state.last_dir == Some(opposite(dir)) && now - state.last_time < ECHO_WINDOW_MS
}

/// Whether a transfer is begun.
pub open spec fn begins(state: SyncState, dir: SyncDir, hash: u128, now: i64) -> bool {
    !skips(state, dir, now) && state.last_sync_hash != hash
}

/// What is remembered after an attempt to begin a transfer.
pub open spec fn after_begin(state: SyncState, dir: SyncDir, hash: u128, now: i64) -> SyncState {
    if begins(state, dir, hash, now) {
        SyncState { last_dir: Some(dir), last_time: now, ..state }
    } else {
        state
    }
}

/// What is remembered after a transfer.
pub open spec fn after_finish(state: SyncState, hash: u128) -> SyncState {
    SyncState { last_sync_hash: hash, ..state }
}

/// What is remembered after a row of attempts to begin a transfer.
pub open spec fn after_begins(
    state: SyncState,
    attempts: Seq<(SyncDir, u128, i64)>,
) -> SyncState
    decreases attempts.len(),
{
    if attempts.len() == 0 {
        state
    } else {
        let earlier = after_begins(state, attempts.drop_last());
        after_begin(earlier, attempts.last().0, attempts.last().1, attempts.last().2)
    }
}

impl SyncState {
    /// What is remembered before the first transfer.
    pub fn new() -> (state: SyncState)
        ensures
            state.last_dir is None,
            state.last_time == 0,
            state.last_sync_hash == EMPTY_HASH,
    {
        SyncState { last_dir: None, last_time: 0, last_sync_hash: EMPTY_HASH }
    }
}

/// Whether a change seen at `now` is taken for the echo of a transfer that went the other way.
///
/// The time between the two readings is taken as an integer, so that no pair of readings is too
/// far apart.
pub fn should_skip_recent(state: &SyncState, dir: SyncDir, now: i64) -> (skip: bool)
    ensures
        skip == skips(*state, dir, now),
{
    let echoed = match dir {
        SyncDir::X2W => SyncDir::W2X,
        SyncDir::W2X => SyncDir::X2W,
    };
    match state.last_dir {
        Some(last_dir) => last_dir == echoed && (now as i128) - (state.last_time as i128)
            < ECHO_WINDOW_MS as i128,
        None => false,
    }
}

/// Whether a change seen now is taken for the echo of a transfer that went the other way. Only a
/// transfer that went the other way leaves that to the clock.
pub fn precheck_sync(state: &SyncState, dir: SyncDir) -> (skip: bool)
    ensures
        exists|now: i64| skip == #[trigger] skips(*state, dir, now),
        state.last_dir != Some(opposite(dir)) ==> !skip,
{
    should_skip_recent(state, dir, get_ms())
}

/// Begins a transfer at `now`, unless it is taken for an echo or its contents were the last to be
/// transferred.
pub fn begin_sync_at(state: &mut SyncState, dir: SyncDir, hash: u128, now: i64) -> (begun: bool)
    ensures
        begun == begins(*old(state), dir, hash, now),
        *final(state) == after_begin(*old(state), dir, hash, now),
{
    if should_skip_recent(state, dir, now) || state.last_sync_hash == hash {
        return false;
    }
    state.last_dir = Some(dir);
    state.last_time = now;
    true
}

/// Begins a transfer now, unless it is taken for an echo or its contents were the last to be
/// transferred. Only a transfer that went the other way leaves that to the clock.
pub fn begin_sync(state: &mut SyncState, dir: SyncDir, hash: u128) -> (begun: bool)
    ensures
        exists|now: i64|
            begun == #[trigger] begins(*old(state), dir, hash, now) && *final(state)
                == after_begin(*old(state), dir, hash, now),
        old(state).last_sync_hash == hash ==> !begun,
        old(state).last_sync_hash != hash && old(state).last_dir != Some(opposite(dir)) ==> begun,
        begun ==> begins(*old(state), dir, hash, final(state).last_time),
        begun ==> *final(state) == after_begin(*old(state), dir, hash, final(state).last_time),
        !begun ==> *final(state) == *old(state),
{
    let now: i64 = get_ms();
    begin_sync_at(state, dir, hash, now)
}

/// Remembers the contents that were transferred.
pub fn finish_sync(state: &mut SyncState, hash: u128)
    ensures
        *final(state) == after_finish(*old(state), hash),
{
    state.last_sync_hash = hash;
}

/// Within the window behind a transfer that was begun, every change on the other side is taken
/// for its echo, and no transfer the other way is begun.
pub proof fn law_echo_is_skipped(
    state: SyncState,
    dir: SyncDir,
    hash: u128,
    now: i64,
    echo_hash: u128,
    later: i64,
)
    requires
        begins(state, dir, hash, now),
        later - now < ECHO_WINDOW_MS,
    ensures
        skips(after_begin(state, dir, hash, now), opposite(dir), later),
        !begins(after_begin(state, dir, hash, now), opposite(dir), echo_hash, later),
{
}

/// Behind the window, and in the direction of the transfer itself at any time, no change is taken
/// for an echo.
pub proof fn law_only_echoes_are_skipped(
    state: SyncState,
    dir: SyncDir,
    hash: u128,
    now: i64,
    later: i64,
)
    requires
        begins(state, dir, hash, now),
    ensures
        later - now >= ECHO_WINDOW_MS ==> !skips(
            after_begin(state, dir, hash, now),
            opposite(dir),
            later,
        ),
        !skips(after_begin(state, dir, hash, now), dir, later),
{
}

/// Once contents are transferred, no transfer of the same contents is begun, whichever way and
/// whenever, and whatever was attempted in between, until other contents are transferred.
pub proof fn law_transferred_contents_are_refused(
    state: SyncState,
    hash: u128,
    attempts: Seq<(SyncDir, u128, i64)>,
    dir: SyncDir,
    now: i64,
)
    ensures
        !begins(after_begins(after_finish(state, hash), attempts), dir, hash, now),
{
    lemma_begins_keep_hash(after_finish(state, hash), attempts);
}

/// How many of a row of attempts begin a transfer.
pub open spec fn begun_count(state: SyncState, attempts: Seq<(SyncDir, u128, i64)>) -> nat
    decreases attempts.len(),
{
    if attempts.len() == 0 {
        0
    } else {
        let earlier = after_begins(state, attempts.drop_last());
        let (dir, hash, now) = attempts.last();
        begun_count(state, attempts.drop_last()) + if begins(earlier, dir, hash, now) {
            1nat
        } else {
            0nat
        }
    }
}

/// Of two attempts to begin a transfer, one each way and both within the window, exactly one is
/// begun, whichever comes first, and its direction is remembered. An attempt looks at what is
/// remembered and changes it in one step, for which it has it to itself, so that attempts made by
/// two threads do come one after the other.
pub proof fn law_one_of_two_attempts_begins(
    state: SyncState,
    x2w: (u128, i64),
    w2x: (u128, i64),
    attempts: Seq<(SyncDir, u128, i64)>,
)
    requires
        state.last_dir is None,
        state.last_sync_hash != x2w.0,
        state.last_sync_hash != w2x.0,
        -ECHO_WINDOW_MS < x2w.1 - w2x.1 < ECHO_WINDOW_MS,
        attempts.len() == 2,
        attempts.contains((SyncDir::X2W, x2w.0, x2w.1)),
        attempts.contains((SyncDir::W2X, w2x.0, w2x.1)),
    ensures
        begun_count(state, attempts) == 1,
        begins(state, attempts[0].0, attempts[0].1, attempts[0].2),
        !begins(
            after_begins(state, attempts.take(1)),
            attempts[1].0,
            attempts[1].1,
            attempts[1].2,
        ),
        after_begins(state, attempts).last_dir == Some(attempts[0].0),
        after_begins(state, attempts).last_time == attempts[0].2,
{
    reveal_with_fuel(after_begins, 3);
    reveal_with_fuel(begun_count, 3);
    assert(attempts.drop_last() =~= attempts.take(1));
    assert(attempts.take(1).drop_last() =~= seq![]);
    assert(attempts[0] == (SyncDir::X2W, x2w.0, x2w.1) && attempts[1] == (
        SyncDir::W2X,
        w2x.0,
        w2x.1,
    ) || attempts[0] == (SyncDir::W2X, w2x.0, w2x.1) && attempts[1] == (
        SyncDir::X2W,
        x2w.0,
        x2w.1,
    ));
}

proof fn lemma_begins_keep_hash(state: SyncState, attempts: Seq<(SyncDir, u128, i64)>)
    ensures
        after_begins(state, attempts).last_sync_hash == state.last_sync_hash,
    decreases attempts.len(),
{
    if attempts.len() > 0 {
        lemma_begins_keep_hash(state, attempts.drop_last());
    }
}

/// A transfer is refused for two reasons and no other: its contents were the last to be
/// transferred, or less than a second has passed since a transfer the other way. A transfer that
/// is begun leaves its direction and its time behind; one that is refused leaves everything as it
/// was.
pub proof fn law_transfer_is_refused_for_two_reasons(
    state: SyncState,
    dir: SyncDir,
    hash: u128,
    now: i64,
)
    ensures
        state.last_sync_hash != hash && state.last_dir is None ==> begins(state, dir, hash, now),
        state.last_sync_hash != hash && state.last_dir == Some(dir) ==> begins(
            state,
            dir,
            hash,
            now,
        ),
        state.last_sync_hash != hash && now - state.last_time >= 1000 ==> begins(
            state,
            dir,
            hash,
            now,
        ),
        state.last_sync_hash == hash ==> !begins(state, dir, hash, now),
        state.last_dir is Some && state.last_dir != Some(dir) && now - state.last_time < 1000
            ==> !begins(state, dir, hash, now),
        begins(state, dir, hash, now) ==> {
            &&& after_begin(state, dir, hash, now).last_dir == Some(dir)
            &&& after_begin(state, dir, hash, now).last_time == now
            &&& after_begin(state, dir, hash, now).last_sync_hash == state.last_sync_hash
        },
        !begins(state, dir, hash, now) ==> after_begin(state, dir, hash, now) == state,
{
    match (state.last_dir, dir) {
        (Some(SyncDir::X2W), SyncDir::X2W) => {},
        (Some(SyncDir::W2X), SyncDir::W2X) => {},
        _ => {},
    }
}

/// A change is taken for an echo exactly if a transfer the other way was begun less than a second
/// before.
pub proof fn law_what_is_taken_for_an_echo(state: SyncState, dir: SyncDir, now: i64)
    ensures
        skips(state, dir, now) <==> state.last_dir is Some && state.last_dir != Some(dir) && now
            - state.last_time < 1000,
{
    match (state.last_dir, dir) {
        (Some(SyncDir::X2W), SyncDir::X2W) => {},
        (Some(SyncDir::W2X), SyncDir::W2X) => {},
        _ => {},
    }
}

/// Remembering a transfer changes the remembered contents and nothing else.
pub proof fn law_only_the_contents_are_remembered(state: SyncState, hash: u128)
    ensures
        after_finish(state, hash).last_sync_hash == hash,
        after_finish(state, hash).last_dir == state.last_dir,
        after_finish(state, hash).last_time == state.last_time,
{
}

} // verus!
