use synesthesia::sim::Image;
use synesthesia::tui::{
    cell_pixels, cube_index, decode, help_popup_area, key_line, modules_text, points_popup_area, points_rows,
    xterm256, Action, Area, ColorMode, FieldView, Key, KeyPress, VizMode, FULL_KEYS, NO_POINTS, SHORT_KEYS,
};
use synesthesia::fx::FxSwitches;

fn press(key: Key) -> Option<Action> {
    decode(KeyPress { key, press: true, control: false })
}

#[test]
fn the_colour_mode_follows_the_setting_then_the_terminal() {
    assert_eq!(ColorMode::pick("256", Some("truecolor")), ColorMode::Indexed);
    assert_eq!(ColorMode::pick("truecolor", None), ColorMode::TrueColor);
    assert_eq!(ColorMode::pick("auto", Some("truecolor")), ColorMode::TrueColor);
    assert_eq!(ColorMode::pick("auto", Some("24bit")), ColorMode::TrueColor);
    assert_eq!(ColorMode::pick("auto", None), ColorMode::Indexed);
}

#[test]
fn xterm256_picks_cube_colours_and_greys() {
    assert_eq!(xterm256(0, 0, 0), 16);
    assert_eq!(xterm256(255, 255, 255), 231);
    assert_eq!(xterm256(255, 0, 0), 196);
    assert_eq!(xterm256(128, 128, 128), 244); // grey 128 sits on the ramp
    assert_eq!(xterm256(95, 135, 175), 16 + 36 + 12 + 3);
}

#[test]
fn cube_levels_are_the_nearest_ones() {
    assert_eq!(cube_index(0), 0);
    assert_eq!(cube_index(47), 0);
    assert_eq!(cube_index(48), 1);
    assert_eq!(cube_index(115), 1);
    assert_eq!(cube_index(116), 2);
    assert_eq!(cube_index(255), 5);
}

#[test]
fn keys_map_to_actions() {
    let ch = |c: char| press(Key::Char(c));
    assert_eq!(ch('q'), Some(Action::Quit));
    assert_eq!(ch(' '), Some(Action::ToggleSound));
    assert_eq!(ch('l'), Some(Action::Like));
    assert_eq!(ch('d'), Some(Action::Dislike));
    assert_eq!(ch('x'), Some(Action::Delete));
    assert_eq!(ch('v'), Some(Action::Picture));
    assert_eq!(ch('z'), None);
    assert_eq!(press(Key::Esc), Some(Action::Escape));
    assert_eq!(press(Key::Up), Some(Action::Up));
    assert_eq!(decode(KeyPress { key: Key::Char('c'), press: true, control: true }), Some(Action::Quit));
}

#[test]
fn releases_and_repeats_do_nothing() {
    assert_eq!(decode(KeyPress { key: Key::Char('q'), press: false, control: false }), None);
    assert_eq!(press(Key::Other), None);
    assert_eq!(press(Key::Char('k')), Some(Action::Up));
    assert_eq!(press(Key::Char('j')), Some(Action::Down));
    assert_eq!(press(Key::Char('?')), Some(Action::Help));
    assert_eq!(press(Key::Char('h')), Some(Action::Help));
}

#[test]
fn the_picture_key_cycles_through_the_three_modes() {
    assert_eq!(VizMode::Spectrum.next(), VizMode::Panel);
    assert_eq!(VizMode::Spectrum.next().next().next(), VizMode::Spectrum);
    assert_eq!(VizMode::parse(VizMode::Full.as_str()), VizMode::Full);
    for m in [VizMode::Spectrum, VizMode::Panel, VizMode::Full] {
        assert_eq!(VizMode::parse(m.as_str()), m);
    }
    assert_eq!(VizMode::parse("off"), VizMode::Spectrum);
    assert_eq!(VizMode::parse("whatever"), VizMode::Panel);
    assert_eq!(VizMode::Full.label(), "full-screen picture");
    assert_eq!(VizMode::Panel.label(), "picture");
}

#[test]
fn each_cell_carries_two_pixels() {
    let mut img = Image::new(2, 4);
    img.rgb = vec![[1, 0, 0], [2, 0, 0], [3, 0, 0], [4, 0, 0], [5, 0, 0], [6, 0, 0], [7, 0, 0], [8, 0, 0]];
    let view = FieldView { image: &img, mode: ColorMode::TrueColor };
    let (fg, bg) = view.cell(1, 1, 2, 2);
    assert_eq!(fg, [6, 0, 0]);
    assert_eq!(bg, [8, 0, 0]);
}

#[test]
fn a_small_picture_is_stretched_over_a_large_area() {
    assert_eq!(cell_pixels(9, 4, 10, 5, 5, 5), (4, 4, 4));
    assert_eq!(cell_pixels(0, 0, 10, 5, 5, 5), (0, 0, 0));
}

#[test]
fn popups_are_centred_and_bounded() {
    let screen = Area { x: 0, y: 0, width: 100, height: 30 };
    assert_eq!(help_popup_area(screen), Area { x: 18, y: 7, width: 64, height: 15 });
    let tiny = Area { x: 2, y: 1, width: 20, height: 6 };
    assert_eq!(help_popup_area(tiny), tiny);
    assert_eq!(points_popup_area(screen, 3), Area { x: 20, y: 11, width: 60, height: 7 });
    assert_eq!(points_popup_area(screen, 0), Area { x: 20, y: 12, width: 60, height: 5 });
    assert_eq!(points_popup_area(screen, 100), Area { x: 20, y: 0, width: 60, height: 30 });
}

#[test]
fn the_key_line_fits_the_width() {
    let full = FULL_KEYS.chars().count() as u16;
    assert_eq!(key_line(full), FULL_KEYS);
    assert_eq!(key_line(full - 1), SHORT_KEYS);
}

#[test]
fn the_points_list_marks_the_selected_row() {
    let names = vec!["calm".to_string(), "storm".to_string()];
    assert_eq!(points_rows(&names, 1), vec!["  calm".to_string(), "\u{203a} storm".to_string()]);
    assert_eq!(points_rows(&vec![], 0), vec![NO_POINTS.to_string()]);
    assert_eq!(NO_POINTS, "no points kept yet \u{2014} press s to keep this one");
}

#[test]
fn the_effects_line_names_the_modules_that_are_on() {
    let none = FxSwitches::default();
    assert_eq!(modules_text(none), "\u{2014}");
    let some = FxSwitches { filter_on: true, reverb_on: true, limiter_on: true, ..FxSwitches::default() };
    assert_eq!(modules_text(some), "filter\u{b7}reverb\u{b7}limiter");
    let one = FxSwitches { phaser_on: true, ..FxSwitches::default() };
    assert_eq!(modules_text(one), "phaser");
}

#[test]
fn the_points_list_shows_what_is_kept() {
    let points = vec!["first try".to_string(), "keeper".to_string()];
    let rows = points_rows(&points, 1).join("\n");
    assert!(rows.contains("first try") && rows.contains("keeper"), "{rows}");
    assert!(rows.contains("\u{203a} keeper"), "the selected row is marked:\n{rows}");
}
