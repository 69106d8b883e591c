use wyy::playback::{LoadOutcome, Play, PlayMode, PlayStep, QueuePage};
use wyy::timing::Timer;

fn queue(mode: PlayMode, current: u64, list: Vec<u64>) -> Play {
    let mut p = Play::new(1);
    p.select(current, list);
    p.set_mode(mode);
    p
}

#[test]
fn new_queue_is_empty_and_stopped() {
    let p = Play::new(1);
    assert_eq!(p.play_current_id, None);
    assert!(p.play_list.is_none());
    assert!(!p.play_flag);
    assert_eq!(p.mode, PlayMode::Normal);
    assert_eq!(p.preload_limit, 1);
    assert!(!p.mute);
    assert!(!p.has_current());
}

#[test]
fn empty_queue_next_and_previous_stay() {
    let mut p = Play::new(1);
    assert_eq!(p.next(), PlayStep::Stay);
    assert_eq!(p.previous(), PlayStep::Stay);
    assert_eq!(p.start_id(), None);
    assert_eq!(p.current_index(), None);
    assert!(p.preload_ids().is_empty());
    assert_eq!(p.queue_page(), QueuePage::Missing);
}

#[test]
fn normal_next_moves_forward_then_stops_at_end() {
    let mut p = queue(PlayMode::Normal, 10, vec![10, 20, 30]);
    p.set_play_flag(true);
    assert_eq!(p.next(), PlayStep::Start(20));
    assert_eq!(p.play_current_id, Some(20));
    assert_eq!(p.next(), PlayStep::Start(30));
    assert_eq!(p.next(), PlayStep::Stop);
    assert_eq!(p.play_current_id, Some(30));
    assert!(!p.play_flag);
}

#[test]
fn normal_previous_moves_back_then_stops_at_first() {
    let mut p = queue(PlayMode::Normal, 30, vec![10, 20, 30]);
    p.set_play_flag(true);
    assert_eq!(p.previous(), PlayStep::Start(20));
    assert_eq!(p.previous(), PlayStep::Start(10));
    assert_eq!(p.previous(), PlayStep::Stop);
    assert_eq!(p.play_current_id, Some(10));
    assert!(!p.play_flag);
}

#[test]
fn previous_undoes_next_with_distinct_ids() {
    let mut p = queue(PlayMode::Normal, 20, vec![10, 20, 30]);
    assert_eq!(p.next(), PlayStep::Start(30));
    assert_eq!(p.previous(), PlayStep::Start(20));
    assert_eq!(p.play_current_id, Some(20));
    assert_eq!(p.previous(), PlayStep::Start(10));
    assert_eq!(p.next(), PlayStep::Start(20));
}

#[test]
fn duplicate_ids_follow_first_occurrence() {
    // the position of the current track is its first occurrence
    let mut p = queue(PlayMode::Normal, 7, vec![5, 7, 5]);
    assert_eq!(p.next(), PlayStep::Start(5));
    assert_eq!(p.previous(), PlayStep::Stop);
}

#[test]
fn loop_wraps_to_first() {
    let mut p = queue(PlayMode::Loop, 30, vec![10, 20, 30]);
    assert_eq!(p.next(), PlayStep::Start(10));
    assert_eq!(p.next(), PlayStep::Start(20));
    assert_eq!(p.next(), PlayStep::Start(30));
    assert_eq!(p.next(), PlayStep::Start(10));
}

#[test]
fn loop_previous_does_nothing() {
    let mut p = queue(PlayMode::Loop, 20, vec![10, 20, 30]);
    assert_eq!(p.previous(), PlayStep::Stay);
    assert_eq!(p.play_current_id, Some(20));
}

#[test]
fn single_repeats_current() {
    let mut p = queue(PlayMode::Single, 20, vec![10, 20, 30]);
    for _ in 0..3 {
        assert_eq!(p.next(), PlayStep::Start(20));
    }
    assert_eq!(p.previous(), PlayStep::Stay);
}

#[test]
fn random_picks_a_track_of_the_list() {
    let list = vec![10, 20, 30, 40];
    let mut p = queue(PlayMode::Random, 10, list.clone());
    for _ in 0..50 {
        match p.next() {
            PlayStep::Start(id) => {
                assert!(list.contains(&id));
                assert_eq!(p.play_current_id, Some(id));
            }
            other => panic!("unexpected {:?}", other),
        }
    }
    assert_eq!(p.previous(), PlayStep::Stay);
}

#[test]
fn random_visits_more_than_one_track() {
    let list: Vec<u64> = (1..=16).collect();
    let mut p = queue(PlayMode::Random, 1, list);
    let mut seen = std::collections::BTreeSet::new();
    for _ in 0..200 {
        if let PlayStep::Start(id) = p.next() {
            seen.insert(id);
        }
    }
    assert!(seen.len() > 1);
}

#[test]
fn next_with_uses_the_pick_only_in_random() {
    let mut p = queue(PlayMode::Random, 10, vec![10, 20, 30]);
    assert_eq!(p.next_with(2), PlayStep::Start(30));
    assert_eq!(p.next_with(0), PlayStep::Start(10));
    let mut q = queue(PlayMode::Normal, 10, vec![10, 20, 30]);
    assert_eq!(q.next_with(2), PlayStep::Start(20));
}

#[test]
fn preload_next_track_in_normal() {
    let p = queue(PlayMode::Normal, 10, vec![10, 20, 30]);
    assert_eq!(p.preload_ids(), vec![20]);
}

#[test]
fn preload_wraps_after_last() {
    let mut p = queue(PlayMode::Normal, 30, vec![10, 20, 30]);
    p.preload_limit = 2;
    assert_eq!(p.preload_ids(), vec![10, 20]);
    let mut q = queue(PlayMode::Normal, 20, vec![10, 20, 30]);
    q.preload_limit = 2;
    assert_eq!(q.preload_ids(), vec![30, 10]);
}

#[test]
fn preload_with_limit_of_list_length() {
    // the window is cut where the wrapped end falls
    let mut p = queue(PlayMode::Normal, 30, vec![10, 20, 30]);
    p.preload_limit = 3;
    assert_eq!(p.preload_ids(), Vec::<u64>::new());
    let mut q = queue(PlayMode::Normal, 10, vec![10, 20, 30]);
    q.preload_limit = 5;
    assert_eq!(q.preload_ids(), vec![20, 30]);
}

#[test]
fn preload_only_in_normal() {
    for mode in [PlayMode::Loop, PlayMode::Random, PlayMode::Single] {
        let p = queue(mode, 10, vec![10, 20, 30]);
        assert!(p.preload_ids().is_empty());
    }
}

#[test]
fn current_index_finds_first_occurrence() {
    let p = queue(PlayMode::Normal, 20, vec![10, 20, 30, 20]);
    assert_eq!(p.current_index(), Some(1));
    let mut q = Play::new(1);
    q.play_current_id = Some(99);
    q.play_list = Some(vec![1, 2]);
    assert_eq!(q.current_index(), None);
}

#[test]
fn mode_buttons_cycle() {
    assert_eq!(PlayMode::Normal.repeat_toggled(), Some(PlayMode::Loop));
    assert_eq!(PlayMode::Loop.repeat_toggled(), Some(PlayMode::Single));
    assert_eq!(PlayMode::Single.repeat_toggled(), Some(PlayMode::Normal));
    assert_eq!(PlayMode::Random.repeat_toggled(), None);
    assert_eq!(PlayMode::Random.shuffle_toggled(), PlayMode::Normal);
    assert_eq!(PlayMode::Normal.shuffle_toggled(), PlayMode::Random);
    assert_eq!(PlayMode::Loop.shuffle_toggled(), PlayMode::Random);
    assert_eq!(PlayMode::Single.shuffle_toggled(), PlayMode::Random);
}

#[test]
fn pause_resume_and_advance() {
    let mut p = queue(PlayMode::Normal, 10, vec![10, 20]);
    assert_eq!(p.resume(), Timer::Start);
    assert!(p.play_flag);
    assert!(p.should_advance(true));
    assert!(!p.should_advance(false));
    assert_eq!(p.pause(), Timer::Pause);
    assert!(!p.play_flag);
    assert!(!p.should_advance(true));
}

#[test]
fn after_load_outcomes() {
    let mut p = queue(PlayMode::Normal, 10, vec![10, 20]);
    assert_eq!(p.after_load(LoadOutcome::Failed), (vec![], false));
    assert!(!p.play_flag);
    assert_eq!(p.after_load(LoadOutcome::Cached), (vec![Timer::Stop, Timer::Start], false));
    assert!(p.play_flag);
    let mut q = queue(PlayMode::Normal, 10, vec![10, 20]);
    assert_eq!(q.after_load(LoadOutcome::Downloaded), (vec![Timer::Start], true));
    assert!(q.play_flag);
}

#[test]
fn queue_page_by_mode() {
    let p = queue(PlayMode::Normal, 10, vec![10]);
    assert_eq!(p.queue_page(), QueuePage::List);
    let q = queue(PlayMode::Random, 10, vec![10]);
    assert_eq!(q.queue_page(), QueuePage::RandomOrder);
    assert!(q.has_current());
}

#[test]
fn mute_switch() {
    let mut p = Play::new(1);
    p.set_mute(true);
    assert!(p.mute);
    p.set_mute(false);
    assert!(!p.mute);
}

#[test]
fn random_needs_only_a_list() {
    // in random order the current track need not be in the list
    let mut p = Play::new(1);
    p.select(99, vec![1, 2, 3]);
    p.set_mode(PlayMode::Random);
    match p.next() {
        PlayStep::Start(id) => assert!([1, 2, 3].contains(&id)),
        other => panic!("unexpected {:?}", other),
    }
    assert_eq!(p.current_index().is_some(), true);
}

#[test]
fn previous_ignored_outside_normal_even_off_list() {
    let mut p = Play::new(1);
    p.select(99, vec![1, 2, 3]);
    p.set_mode(PlayMode::Loop);
    assert_eq!(p.previous(), PlayStep::Stay);
    assert!(p.preload_ids().is_empty());
}

#[test]
fn readiness_checks() {
    let p = queue(PlayMode::Normal, 20, vec![10, 20, 30]);
    assert!(p.ready_for_next() && p.ready_for_previous() && p.ready_for_preload());
    let mut off = Play::new(1);
    off.select(99, vec![10, 20]);
    assert!(!off.ready_for_next());
    assert!(!off.ready_for_previous());
    assert!(!off.ready_for_preload());
    off.set_mode(PlayMode::Random);
    assert!(off.ready_for_next());
    assert!(off.ready_for_previous());
    assert!(off.ready_for_preload());
    let mut empty_random = Play::new(1);
    empty_random.select(1, vec![]);
    empty_random.set_mode(PlayMode::Random);
    assert!(!empty_random.ready_for_next());
    let mut huge = queue(PlayMode::Normal, 20, vec![10, 20, 30]);
    huge.preload_limit = usize::MAX - 1;
    assert!(!huge.ready_for_preload());
    huge.preload_limit = usize::MAX - 2;
    assert!(huge.ready_for_preload());
    assert!(Play::new(1).ready_for_next());
}
