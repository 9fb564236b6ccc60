use synesthesia::cli::{float_literal_ok, parse_args, parse_uint, CliError, Command, FloatError, IntError, Invocation};

fn args(words: &[&str]) -> Vec<String> {
    words.iter().map(|w| w.to_string()).collect()
}

fn run(words: &[&str]) -> synesthesia::cli::Options {
    match parse_args(&args(words)) {
        Ok(Invocation::Run(o)) => o,
        other => panic!("{words:?} gave {other:?}"),
    }
}

#[test]
fn no_arguments_open_the_interface_with_defaults() {
    let o = run(&[]);
    assert_eq!(o.command, Command::Tui);
    assert_eq!(o.preset, 0);
    assert!(!o.preset_given);
    assert_eq!(o.seed, 1);
    assert!(o.point.is_none() && o.secs.is_none() && o.sr.is_none());
    assert!(!o.no_sound);
}

#[test]
fn the_command_comes_first_and_flags_follow() {
    let o = run(&["render", "--preset", "3", "--secs", "2.5", "--out", "a.wav", "--seed", "9"]);
    assert_eq!(o.command, Command::Render);
    assert_eq!(o.preset, 3);
    assert!(o.preset_given);
    assert_eq!(o.secs.as_deref(), Some("2.5"));
    assert_eq!(o.out.as_deref(), Some("a.wav"));
    assert_eq!(o.seed, 9);
    assert_eq!(run(&["play", "--no-sound"]).command, Command::Play);
    assert_eq!(run(&["--no-sound"]).command, Command::Tui);
    assert!(run(&["tui", "--no-sound"]).no_sound);
}

#[test]
fn help_and_list_are_answered_directly() {
    assert!(matches!(parse_args(&args(&["--help"])), Ok(Invocation::Help)));
    assert!(matches!(parse_args(&args(&["-h"])), Ok(Invocation::Help)));
    assert!(matches!(parse_args(&args(&["help"])), Ok(Invocation::Help)));
    assert!(matches!(parse_args(&args(&["--list"])), Ok(Invocation::List)));
    assert!(matches!(parse_args(&args(&["play", "--list"])), Ok(Invocation::List)));
}

#[test]
fn each_refusal_names_its_flag() {
    match parse_args(&args(&["--preset"])) {
        Err(CliError::NeedsValue(f)) => assert_eq!(f, "--preset"),
        other => panic!("{other:?}"),
    }
    match parse_args(&args(&["--seed", "x1"])) {
        Err(CliError::BadInt(f, k)) => assert_eq!((f.as_str(), k), ("--seed", IntError::InvalidDigit)),
        other => panic!("{other:?}"),
    }
    match parse_args(&args(&["--seed", "4294967296"])) {
        Err(CliError::BadInt(f, k)) => assert_eq!((f.as_str(), k), ("--seed", IntError::PosOverflow)),
        other => panic!("{other:?}"),
    }
    match parse_args(&args(&["--sr", "fast"])) {
        Err(CliError::BadFloat(f, k)) => assert_eq!((f.as_str(), k), ("--sr", FloatError::Invalid)),
        other => panic!("{other:?}"),
    }
    match parse_args(&args(&["--secs", ""])) {
        Err(CliError::BadFloat(f, k)) => assert_eq!((f.as_str(), k), ("--secs", FloatError::Empty)),
        other => panic!("{other:?}"),
    }
    match parse_args(&args(&["--loud"])) {
        Err(CliError::Unknown(f)) => assert_eq!(f, "--loud"),
        other => panic!("{other:?}"),
    }
}

#[test]
fn integers_are_read_as_rust_reads_them() {
    assert_eq!(parse_uint("42", 100), Ok(42));
    assert_eq!(parse_uint("+7", 100), Ok(7));
    assert_eq!(parse_uint("", 100), Err(IntError::Empty));
    assert_eq!(parse_uint("+", 100), Err(IntError::InvalidDigit));
    assert_eq!(parse_uint("-1", 100), Err(IntError::InvalidDigit));
    assert_eq!(parse_uint("101", 100), Err(IntError::PosOverflow));
    assert_eq!(parse_uint("0042", 100), Ok(42));
}

#[test]
fn floats_are_accepted_as_rust_accepts_them() {
    for ok in ["1", "2.5", ".5", "5.", "-3e2", "+1E-3", "inf", "-Infinity", "NaN"] {
        assert_eq!(float_literal_ok(ok), Ok(()), "{ok}");
        assert!(ok.parse::<f64>().is_ok(), "{ok}");
    }
    for bad in [".", "e5", "1e", "1.2.3", "0x10", " 1"] {
        assert_eq!(float_literal_ok(bad), Err(FloatError::Invalid), "{bad}");
        assert!(bad.parse::<f64>().is_err(), "{bad}");
    }
    assert_eq!(float_literal_ok(""), Err(FloatError::Empty));
}
