use synesthesia::session::{point_title, Effect, Session};
use synesthesia::tui::{Action, VizMode};

fn open_list(s: &mut Session, len: usize) {
    s.points_reloaded(len);
}

#[test]
fn a_fresh_session_shows_help_and_plays() {
    let s = Session::new(VizMode::Panel);
    assert!(s.show_help && !s.muted && !s.points_open);
    assert_eq!((s.steps, s.selected, s.viz), (0, 0, VizMode::Panel));
}

#[test]
fn any_key_closes_the_help_first() {
    let mut s = Session::new(VizMode::Panel);
    let mut pts: Vec<u8> = vec![];
    assert!(matches!(s.on_action(Action::Like, &mut pts), Effect::Like));
    assert!(!s.show_help);
    assert!(matches!(s.on_action(Action::Help, &mut pts), Effect::Nothing));
    assert!(s.show_help);
}

#[test]
fn the_sound_key_toggles_mute() {
    let mut s = Session::new(VizMode::Spectrum);
    let mut pts: Vec<u8> = vec![];
    assert!(matches!(s.on_action(Action::ToggleSound, &mut pts), Effect::Sound(true)));
    assert!(matches!(s.on_action(Action::ToggleSound, &mut pts), Effect::Sound(false)));
}

#[test]
fn the_picture_key_walks_the_modes() {
    let mut s = Session::new(VizMode::Spectrum);
    let mut pts: Vec<u8> = vec![];
    assert!(matches!(s.on_action(Action::Picture, &mut pts), Effect::Viz(VizMode::Panel)));
    assert!(matches!(s.on_action(Action::Picture, &mut pts), Effect::Viz(VizMode::Full)));
    assert!(matches!(s.on_action(Action::Picture, &mut pts), Effect::Viz(VizMode::Spectrum)));
}

#[test]
fn the_list_moves_loads_and_forgets() {
    let mut s = Session::new(VizMode::Panel);
    let mut pts = vec!["a", "b", "c"];
    open_list(&mut s, pts.len());
    assert!(s.points_open);
    s.on_action(Action::Down, &mut pts);
    s.on_action(Action::Down, &mut pts);
    s.on_action(Action::Down, &mut pts);
    assert_eq!(s.selected, 2, "the selection stops at the last row");
    match s.on_action(Action::Delete, &mut pts) {
        Effect::Forgot(p) => assert_eq!(p, "c"),
        _ => panic!("nothing forgotten"),
    }
    assert_eq!(pts, vec!["a", "b"]);
    assert_eq!(s.selected, 1);
    s.on_action(Action::Up, &mut pts);
    assert!(matches!(s.on_action(Action::Enter, &mut pts), Effect::Load(0)));
    assert!(!s.points_open);
}

#[test]
fn steps_count_up_and_back_down() {
    let mut s = Session::new(VizMode::Panel);
    s.stepped();
    s.stepped();
    s.undone();
    assert_eq!(s.steps, 1);
    s.undone();
    s.undone();
    assert_eq!(s.steps, 0);
    s.stepped();
    s.restarted();
    assert_eq!(s.steps, 0);
}

#[test]
fn the_title_counts_the_steps() {
    assert_eq!(point_title("Glass choir", 0), "Glass choir");
    assert_eq!(point_title("Glass choir", 3), "Glass choir \u{b7} 3 steps");
    assert_eq!(point_title("x", 120), "x \u{b7} 120 steps");
}
