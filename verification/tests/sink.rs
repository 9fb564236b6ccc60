use synesthesia::sink::{player_commands, split_words};

fn line(words: &[&str]) -> Vec<String> {
    words.iter().map(|w| w.to_string()).collect()
}

#[test]
fn without_a_command_pw_cat_comes_before_aplay() {
    let got = player_commands("", None, 48000, 1, 1024);
    assert_eq!(
        got,
        vec![
            line(&["pw-cat", "-p", "--format", "f32", "--rate", "48000", "--channels", "1", "--latency", "1024", "--raw", "-"]),
            line(&["aplay", "-q", "-t", "raw", "-f", "FLOAT_LE", "-c", "1", "-r", "48000", "--period-size=1024", "-"]),
        ]
    );
}

#[test]
fn the_configured_and_the_environment_command_go_first_with_placeholders_filled() {
    let got = player_commands("my-player --sr {rate}  -c{channels}", Some("env-player {rate}"), 44100, 2, 512);
    assert_eq!(got.len(), 4);
    assert_eq!(got[0], line(&["my-player", "--sr", "44100", "-c2"]));
    assert_eq!(got[1], line(&["env-player", "44100"]));
    assert_eq!(got[2][0], "pw-cat");
    assert_eq!(got[3][10], "--period-size=512");
}

#[test]
fn a_blank_command_is_skipped_but_a_blank_environment_is_kept() {
    let got = player_commands(" \t ", Some("  "), 8000, 1, 64);
    assert_eq!(got.len(), 3);
    assert!(got[0].is_empty());
    assert_eq!(got[1][0], "pw-cat");
}

#[test]
fn words_are_split_on_any_white_space() {
    assert_eq!(split_words("  a\tbb \n c  "), line(&["a", "bb", "c"]));
    assert!(split_words("").is_empty());
    assert_eq!(split_words("x\u{3000}y"), line(&["x", "y"]));
}
