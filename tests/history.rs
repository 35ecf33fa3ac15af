use iron_dbg::control::ControlState;
use iron_dbg::history::History;

#[test]
fn history_skips_immediate_repeats() {
    let mut h: History<u32> = History::new();
    assert_eq!(h.last(), None);
    assert!(h.is_new(&1));
    h.update(&1);
    h.update(&1);
    assert!(!h.is_new(&1));
    h.update(&2);
    h.update(&1);
    assert_eq!(h.stored, vec![1, 2, 1]);
    assert_eq!(h.last(), Some(1));
}

#[test]
fn history_of_states() {
    let mut h = History::new();
    h.update(&ControlState::LookingForGDB);
    h.update(&ControlState::LookingForGDB);
    h.update(&ControlState::StartGDB);
    assert_eq!(h.stored.len(), 2);
    assert_eq!(h.last(), Some(ControlState::StartGDB));
}
