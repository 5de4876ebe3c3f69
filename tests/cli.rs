use block_bench::cli::{or_default, resolve_test_files, select_mode, Cmd, Mode, ParseError, SubCmd};

fn words(ws: &[&str]) -> Vec<String> {
    ws.iter().map(|w| w.to_string()).collect()
}

#[test]
fn parse_write_with_sizes() {
    let c = Cmd::parse(words(&["write", "-f", "/tmp/x", "-s", "64", "-c", "10"])).unwrap();
    match c.sub {
        SubCmd::Write { file, block_size, count } => {
            assert_eq!(file, "/tmp/x");
            assert_eq!(block_size, 64);
            assert_eq!(count, 10);
        }
        other => panic!("unexpected {:?}", other),
    }
}

#[test]
fn parse_read_long_keys_and_defaults() {
    let c = Cmd::parse(words(&["read", "--file", "/tmp/missing"])).unwrap();
    match c.sub {
        SubCmd::Read { file, block_size, count } => {
            assert_eq!(file, "/tmp/missing");
            assert_eq!(block_size, 32);
            assert_eq!(count, 1);
        }
        other => panic!("unexpected {:?}", other),
    }
}

#[test]
fn parse_read_scenario() {
    let c = Cmd::parse(words(&["read", "-f", "/tmp/missing", "-s", "32", "-c", "1"])).unwrap();
    assert!(matches!(c.sub, SubCmd::Read { ref file, block_size: 32, count: 1 } if file == "/tmp/missing"));
}

#[test]
fn parse_test_shared_file() {
    let c = Cmd::parse(words(&["test", "-f", "/tmp/y", "-s", "16", "-c", "4"])).unwrap();
    match c.sub {
        SubCmd::Test { file_write, file_read, block_size, count } => {
            assert_eq!(file_write, "/tmp/y");
            assert_eq!(file_read, "/tmp/y");
            assert_eq!(block_size, 16);
            assert_eq!(count, 4);
        }
        other => panic!("unexpected {:?}", other),
    }
}

#[test]
fn parse_test_separate_files() {
    let c = Cmd::parse(words(&["test", "--file-write", "/tmp/a", "--file-read", "/tmp/b"])).unwrap();
    match c.sub {
        SubCmd::Test { file_write, file_read, block_size, count } => {
            assert_eq!(file_write, "/tmp/a");
            assert_eq!(file_read, "/tmp/b");
            assert_eq!(block_size, 32);
            assert_eq!(count, 1);
        }
        other => panic!("unexpected {:?}", other),
    }
}

#[test]
fn parse_test_explicit_overrides_shared() {
    let c = Cmd::parse(words(&["test", "-f", "/tmp/s", "--file-read", "/tmp/r"])).unwrap();
    match c.sub {
        SubCmd::Test { file_write, file_read, .. } => {
            assert_eq!(file_write, "/tmp/s");
            assert_eq!(file_read, "/tmp/r");
        }
        other => panic!("unexpected {:?}", other),
    }
}

#[test]
fn parse_invalid_subcommand() {
    assert!(matches!(Cmd::parse(words(&["copy", "-f", "/tmp/x"])), Err(ParseError::InvalidSubcommand)));
}

#[test]
fn parse_missing_subcommand() {
    assert!(matches!(Cmd::parse(words(&[])), Err(ParseError::InvalidSubcommand)));
    assert!(matches!(Cmd::parse(words(&["-f", "/tmp/x"])), Err(ParseError::InvalidSubcommand)));
}

#[test]
fn parse_missing_file() {
    assert!(matches!(Cmd::parse(words(&["write", "-s", "8"])), Err(ParseError::MissingFile)));
}

#[test]
fn parse_test_missing_files() {
    assert!(matches!(Cmd::parse(words(&["test"])), Err(ParseError::MissingFileWrite)));
    assert!(matches!(
        Cmd::parse(words(&["test", "--file-write", "/tmp/a"])),
        Err(ParseError::MissingFileRead)
    ));
}

#[test]
fn parse_bad_number() {
    assert!(matches!(
        Cmd::parse(words(&["write", "-f", "/tmp/x", "-s", "big"])),
        Err(ParseError::Arguments(_))
    ));
    assert!(matches!(
        Cmd::parse(words(&["read", "-f", "/tmp/x", "-c", "-3"])),
        Err(ParseError::Arguments(_))
    ));
}

#[test]
fn parse_option_without_value() {
    assert!(matches!(Cmd::parse(words(&["write", "-f"])), Err(ParseError::Arguments(_))));
}

#[test]
fn select_mode_words() {
    assert_eq!(select_mode(&Some("write".to_string())), Some(Mode::Write));
    assert_eq!(select_mode(&Some("read".to_string())), Some(Mode::Read));
    assert_eq!(select_mode(&Some("test".to_string())), Some(Mode::Test));
    assert_eq!(select_mode(&Some("Write".to_string())), None);
    assert_eq!(select_mode(&None), None);
}

#[test]
fn defaults_apply_only_when_absent() {
    assert_eq!(or_default(None, 32), 32);
    assert_eq!(or_default(Some(0), 32), 0);
}

#[test]
fn test_files_resolution() {
    let (w, r) = resolve_test_files(Some("s".to_string()), None, None).unwrap();
    assert_eq!((w.as_str(), r.as_str()), ("s", "s"));
    let (w, r) = resolve_test_files(None, Some("w".to_string()), Some("r".to_string())).unwrap();
    assert_eq!((w.as_str(), r.as_str()), ("w", "r"));
    assert!(matches!(resolve_test_files(None, None, Some("r".to_string())), Err(ParseError::MissingFileWrite)));
    assert!(matches!(resolve_test_files(None, Some("w".to_string()), None), Err(ParseError::MissingFileRead)));
}

#[test]
fn build_reports_missing_file() {
    assert!(matches!(
        Cmd::build(Mode::Read, None, Some("w".to_string()), None, None, None),
        Err(ParseError::MissingFile)
    ));
}

#[test]
fn parse_reviewed_refusals() {
    assert!(matches!(Cmd::parse(words(&["bench", "-f", "x"])), Err(ParseError::InvalidSubcommand)));
    assert!(matches!(Cmd::parse(words(&["write"])), Err(ParseError::MissingFile)));
    assert!(matches!(Cmd::parse(words(&["test", "-s", "16"])), Err(ParseError::MissingFileWrite)));
    assert!(matches!(
        Cmd::parse(words(&["test", "--file-write", "a"])),
        Err(ParseError::MissingFileRead)
    ));
    assert!(matches!(
        Cmd::parse(words(&["write", "-f", "x", "-s", "abc"])),
        Err(ParseError::Arguments(_))
    ));
    assert!(matches!(
        Cmd::parse(words(&["read", "-f", "x", "-c", "18446744073709551616"])),
        Err(ParseError::Arguments(_))
    ));
}

#[test]
fn parse_number_forms() {
    let c = Cmd::parse(words(&["read", "-f", "x", "-c", "18446744073709551615", "-s", "+7"])).unwrap();
    assert!(matches!(c.sub, SubCmd::Read { block_size: 7, count: u64::MAX, .. }));
    assert!(matches!(Cmd::parse(words(&["read", "-f", "x", "-s", "+"])), Err(ParseError::Arguments(_))));
    assert!(matches!(Cmd::parse(words(&["read", "-f", "x", "-s", ""])), Err(ParseError::Arguments(_))));
}

#[test]
fn parse_short_key_found_first() {
    let c = Cmd::parse(words(&["write", "--file", "a", "-f", "b"])).unwrap();
    assert!(matches!(c.sub, SubCmd::Write { ref file, .. } if file == "b"));
}

#[test]
fn parse_value_may_look_like_a_key() {
    let c = Cmd::parse(words(&["write", "-f", "-s", "-s", "5"])).unwrap();
    match c.sub {
        SubCmd::Write { file, block_size, .. } => {
            assert_eq!(file, "-s");
            assert_eq!(block_size, 5);
        }
        other => panic!("unexpected {:?}", other),
    }
}

#[test]
fn parse_key_as_last_word() {
    assert!(matches!(
        Cmd::parse(words(&["test", "-f", "x", "--file-read"])),
        Err(ParseError::Arguments(_))
    ));
}
