use synesthesia::explorer::{ExplorerAction, SearchTrail};

#[test]
fn undo_walks_back_five_steps_and_then_stops() {
    let mut ex: SearchTrail<u32> = SearchTrail::new(0, 5);
    let first = *ex.current();
    for step in 1..=7 {
        ex.like(step);
    }
    let mut steps = 0;
    while ex.undo().is_some() {
        steps += 1;
    }
    assert_eq!(steps, 5, "history depth is five");
    assert_ne!(*ex.current(), first, "the oldest steps fell off the end");
    assert_eq!(*ex.current(), 2);
}

#[test]
fn an_undo_goes_back_to_the_point_before_the_step() {
    let mut ex: SearchTrail<u32> = SearchTrail::new(10, 5);
    ex.like(11);
    assert_eq!(*ex.current(), 11);
    assert_eq!(*ex.anchor(), 10, "the liked point becomes the anchor");
    assert!(ex.can_undo());
    assert_eq!(ex.undo().copied(), Some(10));
    assert_eq!(*ex.current(), 10);
    assert_eq!(ex.last_action(), ExplorerAction::Undo);
    assert!(!ex.can_undo());
    assert_eq!(ex.undo(), None);
}

#[test]
fn a_dislike_keeps_the_anchor() {
    let mut ex: SearchTrail<u32> = SearchTrail::new(1, 5);
    ex.dislike(2);
    assert_eq!(*ex.current(), 2);
    assert_eq!(*ex.anchor(), 1);
    assert_eq!(ex.undo_depth(), 1);
    assert_eq!(ex.version(), 1);
    assert_eq!(ex.last_action(), ExplorerAction::Dislike);
}

#[test]
fn surprise_and_load_move_the_anchor_too() {
    let mut ex: SearchTrail<u32> = SearchTrail::new(1, 5);
    ex.surprise(7);
    assert_eq!((*ex.current(), *ex.anchor()), (7, 7));
    assert_eq!(ex.undo_depth(), 1);
    assert_eq!(ex.last_action(), ExplorerAction::Surprise);
    ex.load(9);
    assert_eq!((*ex.current(), *ex.anchor()), (9, 9));
    assert_eq!(ex.last_action(), ExplorerAction::Load);
    assert_eq!(ex.undo_depth(), 0, "loading starts afresh");
}

#[test]
fn undo_reverts_a_dislike_and_a_surprise_even_with_a_full_history() {
    let mut ex: SearchTrail<u32> = SearchTrail::new(0, 2);
    ex.like(1);
    ex.like(2);
    ex.dislike(3);
    assert_eq!(ex.undo_depth(), 2);
    assert_eq!(ex.undo().copied(), Some(2));
    assert_eq!((*ex.current(), *ex.anchor()), (2, 2));
    assert_eq!(ex.last_action(), ExplorerAction::Undo);
    ex.surprise(8);
    assert_eq!(ex.undo().copied(), Some(2));
    assert_eq!((*ex.current(), *ex.anchor()), (2, 2));
    assert_eq!(ex.last_action(), ExplorerAction::Undo);
    assert_eq!(ex.undo().copied(), Some(1));
    assert_eq!(ex.undo(), None);
    assert_eq!(*ex.current(), 1);
}
