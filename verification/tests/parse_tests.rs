use cone::cmd::load::LoadCmd;
use cone::cmd::preview::PreviewCmd;
use cone::cmd::save::SaveCmd;
use cone::cmd::{parse_tokens, Commands, ParseError};

fn t(words: &[&str]) -> Vec<String> {
    words.iter().map(|w| w.to_string()).collect()
}

#[test]
fn load_with_files() {
    let r = parse_tokens(&t(&["load", "-f", "a.csv", "b.csv"]));
    assert_eq!(
        r,
        Ok(Commands::Load(LoadCmd { files: t(&["a.csv", "b.csv"]), dir: None }))
    );
}

#[test]
fn load_with_long_flag_and_dir() {
    let r = parse_tokens(&t(&["load", "--dir", "data"]));
    assert_eq!(r, Ok(Commands::Load(LoadCmd { files: vec![], dir: Some("data".to_string()) })));
}

#[test]
fn load_repeated_file_flag_appends() {
    let r = parse_tokens(&t(&["load", "-f", "a.csv", "-f", "b.csv"]));
    assert_eq!(
        r,
        Ok(Commands::Load(LoadCmd { files: t(&["a.csv", "b.csv"]), dir: None }))
    );
}

#[test]
fn load_requires_a_source() {
    assert_eq!(parse_tokens(&t(&["load"])), Err(ParseError::MissingLoadSource));
}

#[test]
fn load_sources_are_mutually_exclusive() {
    let r = parse_tokens(&t(&["load", "-f", "a.csv", "-d", "data"]));
    assert_eq!(r, Err(ParseError::ConflictingLoadSources));
}

#[test]
fn load_flag_without_value_is_rejected() {
    assert_eq!(
        parse_tokens(&t(&["load", "-f"])),
        Err(ParseError::MissingValue("-f".to_string()))
    );
    assert_eq!(
        parse_tokens(&t(&["load", "-d"])),
        Err(ParseError::MissingValue("-d".to_string()))
    );
}

#[test]
fn load_duplicate_dir_is_rejected() {
    let r = parse_tokens(&t(&["load", "-d", "a", "-d", "b"]));
    assert_eq!(r, Err(ParseError::DuplicateFlag("-d".to_string())));
}

#[test]
fn verbs_are_case_insensitive() {
    assert_eq!(parse_tokens(&t(&["EXIT"])), Ok(Commands::Exit));
    assert_eq!(
        parse_tokens(&t(&["LoAd", "-f", "a.csv"])),
        Ok(Commands::Load(LoadCmd { files: t(&["a.csv"]), dir: None }))
    );
}

#[test]
fn preview_defaults_to_six_rows() {
    assert_eq!(parse_tokens(&t(&["preview"])), Ok(Commands::Preview(PreviewCmd { rows: 6 })));
}

#[test]
fn preview_takes_signed_row_counts() {
    assert_eq!(
        parse_tokens(&t(&["preview", "-n", "3"])),
        Ok(Commands::Preview(PreviewCmd { rows: 3 }))
    );
    assert_eq!(
        parse_tokens(&t(&["preview", "--rows", "-3"])),
        Ok(Commands::Preview(PreviewCmd { rows: -3 }))
    );
    assert_eq!(
        parse_tokens(&t(&["preview", "-n", "+3"])),
        Ok(Commands::Preview(PreviewCmd { rows: 3 }))
    );
}

#[test]
fn preview_rejects_zero_rows() {
    assert_eq!(
        parse_tokens(&t(&["preview", "-n", "0"])),
        Err(ParseError::InvalidRowCount(
            "argument must be a non-zero integer number".to_string()
        ))
    );
}

#[test]
fn preview_rejects_non_integer_rows() {
    assert_eq!(
        parse_tokens(&t(&["preview", "-n", "abc"])),
        Err(ParseError::InvalidRowCount("argument must be an integer number".to_string()))
    );
}

#[test]
fn save_takes_pattern_and_flag() {
    assert_eq!(
        parse_tokens(&t(&["save", "pat"])),
        Ok(Commands::Save(SaveCmd { pattern: "pat".to_string(), ignore_case: false }))
    );
    assert_eq!(
        parse_tokens(&t(&["save", "pat", "-i"])),
        Ok(Commands::Save(SaveCmd { pattern: "pat".to_string(), ignore_case: true }))
    );
}

#[test]
fn save_requires_a_pattern() {
    assert_eq!(parse_tokens(&t(&["save"])), Err(ParseError::MissingPattern));
    assert_eq!(parse_tokens(&t(&["save", "-i"])), Err(ParseError::MissingPattern));
}

#[test]
fn exit_takes_no_arguments() {
    assert_eq!(
        parse_tokens(&t(&["exit", "now"])),
        Err(ParseError::UnexpectedArgument("now".to_string()))
    );
}

#[test]
fn unknown_verbs_are_rejected() {
    assert_eq!(
        parse_tokens(&t(&["frobnicate"])),
        Err(ParseError::UnknownCommand("frobnicate".to_string()))
    );
}

#[test]
fn parse_error_messages() {
    assert_eq!(
        ParseError::UnknownCommand("x".to_string()).message(),
        "unknown command 'x'"
    );
    assert_eq!(
        ParseError::MissingValue("-f".to_string()).message(),
        "flag '-f' requires a value"
    );
    assert_eq!(
        ParseError::MissingLoadSource.message(),
        "load requires exactly one of --file or --dir"
    );
}
