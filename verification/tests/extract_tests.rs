use rlhelp::extract::{extract, parse_line};
use rlhelp::flag::Flag;
use rlhelp::model::App;
use rlhelp::Error;

#[test]
fn end_to_end_two_flags_and_preview() {
    let text = "  -v, --verbose     Enable verbose output\n      --dry-run     Do not execute anything\n";
    let mut flags = extract(text).expect("two lines match the grammar");
    assert_eq!(flags.len(), 2);

    assert_eq!(flags[0].short.as_deref(), Some("-v"));
    assert_eq!(flags[0].long.as_deref(), Some("--verbose"));
    assert_eq!(flags[0].desc, "Enable verbose output");
    assert!(!flags[0].selected);

    assert_eq!(flags[1].short, None);
    assert_eq!(flags[1].long.as_deref(), Some("--dry-run"));
    assert_eq!(flags[1].desc, "Do not execute anything");
    assert!(!flags[1].selected);

    flags[1].selected = true;
    let app = App::new("cp".to_string(), flags);
    assert_eq!(app.build_preview_string(), "cp --dry-run");
}

#[test]
fn no_matching_line_is_no_flags_found() {
    let cases = [
        "",
        "\n",
        "just some prose about a tool\nwith no options at all\n",
        "-v  starts in the first column\n",
        "  - v  dash must touch its letter\n",
        "  -v x\n",
        "  --  no token characters\n",
    ];
    for text in cases {
        assert_eq!(extract(text), Err(Error::NoFlagsFound), "text: {:?}", text);
    }
}

#[test]
fn short_only_line() {
    let flags = extract("  -q  Quiet mode\n").unwrap();
    assert_eq!(flags.len(), 1);
    assert_eq!(flags[0].short.as_deref(), Some("-q"));
    assert_eq!(flags[0].long, None);
    assert_eq!(flags[0].desc, "Quiet mode");
}

#[test]
fn question_mark_short_token() {
    let flags = extract("  -?  Show usage\n").unwrap();
    assert_eq!(flags[0].short.as_deref(), Some("-?"));
}

#[test]
fn long_token_with_hyphen_and_underscore() {
    let flags = extract("  --dry_run-now  Pretend only\n").unwrap();
    assert_eq!(flags[0].short, None);
    assert_eq!(flags[0].long.as_deref(), Some("--dry_run-now"));
    assert_eq!(flags[0].desc, "Pretend only");
}

#[test]
fn comma_without_space_rejects_the_line() {
    // the grammar wants whitespace between the comma and the long token;
    // without it neither the pair nor the short-only reading fits
    assert_eq!(extract("  -o,--output  Write to a file\n"), Err(Error::NoFlagsFound));
}

#[test]
fn pair_with_comma_and_space() {
    let flags = extract("  -o, --output  Write to a file\n").unwrap();
    assert_eq!(flags[0].short.as_deref(), Some("-o"));
    assert_eq!(flags[0].long.as_deref(), Some("--output"));
    assert_eq!(flags[0].desc, "Write to a file");
}

#[test]
fn short_then_long_without_description_reads_long_as_description() {
    // with nothing after the long token, the line falls back to a short
    // token whose description is the rest of the line
    let flags = extract("  -v --verbose\n").unwrap();
    assert_eq!(flags.len(), 1);
    assert_eq!(flags[0].short.as_deref(), Some("-v"));
    assert_eq!(flags[0].long, None);
    assert_eq!(flags[0].desc, "--verbose");
}

#[test]
fn comma_pair_without_description_is_rejected() {
    assert_eq!(extract("  -v, --verbose\n"), Err(Error::NoFlagsFound));
}

#[test]
fn duplicates_are_kept() {
    let text = "  -v  Common verbose\n  -v  Verbose again\n";
    let flags = extract(text).unwrap();
    assert_eq!(flags.len(), 2);
    assert_eq!(flags[0].short, flags[1].short);
    assert_ne!(flags[0].desc, flags[1].desc);
}

#[test]
fn description_is_trimmed_and_needs_two_characters() {
    let flags = extract("  --wide  \t padded description \t \n").unwrap();
    assert_eq!(flags[0].desc, "padded description");
    assert_eq!(extract("  --wide  x \n"), Err(Error::NoFlagsFound));
    assert!(extract("  --wide  xy \n").is_ok());
}

#[test]
fn parse_line_matches_extract_on_one_line() {
    let f: Flag = parse_line("  -n, --number      Number the lines").unwrap();
    assert_eq!(f.short.as_deref(), Some("-n"));
    assert_eq!(f.long.as_deref(), Some("--number"));
    assert_eq!(f.desc, "Number the lines");
    assert_eq!(parse_line("plain prose"), None);
}
