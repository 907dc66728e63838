use linuxqq_clipsync::clock::{epoch_millis, get_ms};
use linuxqq_clipsync::digest::EMPTY_HASH;
use linuxqq_clipsync::state::{
    begin_sync, begin_sync_at, finish_sync, precheck_sync, should_skip_recent, SyncDir, SyncState,
};
use std::time::{SystemTime, UNIX_EPOCH};

#[test]
fn nothing_is_remembered_at_first() {
    let mut state = SyncState::new();
    let empty = SyncState { last_dir: None, last_time: 0, last_sync_hash: EMPTY_HASH };
    assert_eq!(state, empty);
    assert!(!should_skip_recent(&state, SyncDir::X2W, 0));
    assert!(!begin_sync_at(&mut state, SyncDir::X2W, EMPTY_HASH, 0));
    assert!(begin_sync_at(&mut state, SyncDir::X2W, 7, 5000));
    assert_eq!(state, SyncState { last_dir: Some(SyncDir::X2W), last_time: 5000, ..empty });
}

#[test]
fn echo_is_skipped_for_a_second() {
    let mut state = SyncState::new();
    assert!(begin_sync_at(&mut state, SyncDir::W2X, 7, 5000));
    let before = state;
    for now in [4000, 5000, 5999] {
        assert!(should_skip_recent(&state, SyncDir::X2W, now));
        assert!(!begin_sync_at(&mut state, SyncDir::X2W, 8, now));
        assert_eq!(state, before);
    }
    assert!(!should_skip_recent(&state, SyncDir::X2W, 6000));
    assert!(begin_sync_at(&mut state, SyncDir::X2W, 8, 6000));
}

#[test]
fn same_way_is_never_skipped() {
    let mut state = SyncState::new();
    assert!(begin_sync_at(&mut state, SyncDir::W2X, 7, 5000));
    assert!(!should_skip_recent(&state, SyncDir::W2X, 5001));
    assert!(begin_sync_at(&mut state, SyncDir::W2X, 8, 5001));
}

#[test]
fn transferred_contents_are_refused() {
    let mut state = SyncState::new();
    assert!(begin_sync_at(&mut state, SyncDir::X2W, 7, 5000));
    finish_sync(&mut state, 7);
    assert_eq!(state.last_sync_hash, 7);
    assert!(!begin_sync_at(&mut state, SyncDir::X2W, 7, 5001));
    assert!(!begin_sync_at(&mut state, SyncDir::W2X, 7, 50_000));
    assert!(begin_sync_at(&mut state, SyncDir::W2X, 8, 50_000));
    assert!(!begin_sync_at(&mut state, SyncDir::W2X, 7, 90_000));
    finish_sync(&mut state, 8);
    assert!(begin_sync_at(&mut state, SyncDir::W2X, 7, 90_000));
}

#[test]
fn readings_may_be_far_apart() {
    let mut state = SyncState::new();
    assert!(begin_sync_at(&mut state, SyncDir::X2W, 7, i64::MIN));
    assert!(!should_skip_recent(&state, SyncDir::W2X, i64::MAX));
    assert!(begin_sync_at(&mut state, SyncDir::X2W, 7, i64::MAX));
    assert!(should_skip_recent(&state, SyncDir::W2X, i64::MIN));
}

#[test]
fn clock_is_read_in_milliseconds() {
    assert_eq!(epoch_millis(None), 0);
    assert_eq!(epoch_millis(Some(1_700_000_000_123)), 1_700_000_000_123);
    assert_eq!(epoch_millis(Some((1 << 63) - 1)), i64::MAX);
    assert_eq!(epoch_millis(Some(1 << 63)), i64::MIN);
    assert_eq!(epoch_millis(Some((1 << 64) + 5)), 5);
    let before = SystemTime::now().duration_since(UNIX_EPOCH).unwrap().as_millis() as i64;
    let now = get_ms();
    assert!(before <= now && now < before + 20_000);
}

#[test]
fn transfers_are_begun_by_the_clock() {
    let mut state = SyncState::new();
    assert!(!precheck_sync(&state, SyncDir::X2W));
    let before = get_ms();
    assert!(begin_sync(&mut state, SyncDir::X2W, 7));
    assert!(before <= state.last_time && state.last_time <= get_ms());
    state.last_time += 100_000;
    assert!(precheck_sync(&state, SyncDir::W2X));
    assert!(!begin_sync(&mut state, SyncDir::W2X, 8));
    assert!(!precheck_sync(&state, SyncDir::X2W));
    state.last_time -= 200_000;
    assert!(!precheck_sync(&state, SyncDir::W2X));
    assert!(begin_sync(&mut state, SyncDir::W2X, 8));
    finish_sync(&mut state, 8);
    assert!(!begin_sync(&mut state, SyncDir::W2X, 8));
}

#[test]
fn one_of_two_attempts_is_begun() {
    for (first, second) in [(SyncDir::X2W, SyncDir::W2X), (SyncDir::W2X, SyncDir::X2W)] {
        for now in [4001, 5000, 5999] {
            let mut state = SyncState::new();
            assert!(begin_sync_at(&mut state, first, 7, 5000));
            assert!(!begin_sync_at(&mut state, second, 8, now));
            assert_eq!((state.last_dir, state.last_time), (Some(first), 5000));
        }
    }
}

#[test]
fn one_of_two_attempts_is_begun_by_the_clock() {
    for (first, second) in [(SyncDir::X2W, SyncDir::W2X), (SyncDir::W2X, SyncDir::X2W)] {
        let mut state = SyncState::new();
        assert!(begin_sync(&mut state, first, 7));
        state.last_time += 500;
        assert!(!begin_sync(&mut state, second, 8));
        assert_eq!(state.last_dir, Some(first));
    }
}
