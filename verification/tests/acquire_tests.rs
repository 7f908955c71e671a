use rlhelp::acquire::{
    accept_help_text, help_command, man_command, AcquireStep, Acquisition, AcquisitionPhase,
    HELP_TIMEOUT_MS, MAN_TIMEOUT_MS,
};
use rlhelp::{Error, Language};

#[test]
fn heuristic_boundary_on_space_dash() {
    // exactly three occurrences of a space before a dash: accepted
    assert!(accept_help_text("usage: x -a -b -c"));
    // exactly two: rejected
    assert!(!accept_help_text("usage: x -a -b"));
}

#[test]
fn heuristic_counts_newline_dash_too() {
    assert!(accept_help_text("x\n-a\n-b\n-c"));
    assert!(!accept_help_text("x\n-a\n-b"));
    assert!(!accept_help_text("plain prose with no options"));
}

#[test]
fn help_command_shape() {
    let c = help_command("grep", Language::System);
    assert_eq!(c.program, "grep");
    assert_eq!(c.args.len(), 1);
    assert_eq!(c.args[0], "--help");
    assert_eq!(c.timeout_ms, HELP_TIMEOUT_MS);
    assert_eq!(c.env.len(), 1);
    assert_eq!(c.env[0].name, "COLUMNS");
    assert_eq!(c.env[0].value, "500");
}

#[test]
fn english_mode_adds_the_locale_override() {
    let c = help_command("grep", Language::English);
    assert_eq!(c.env.len(), 2);
    assert_eq!(c.env[1].name, "LC_ALL");
    assert_eq!(c.env[1].value, "C");

    let m = man_command("grep", Language::English);
    assert_eq!(m.env.len(), 5);
    assert_eq!(m.env[4].name, "LC_ALL");
    assert_eq!(m.env[4].value, "C");
}

#[test]
fn man_command_shape() {
    let c = man_command("grep", Language::System);
    assert_eq!(c.program, "man");
    assert_eq!(c.args.len(), 1);
    assert_eq!(c.args[0], "grep");
    assert_eq!(c.timeout_ms, MAN_TIMEOUT_MS);
    let names: Vec<&str> = c.env.iter().map(|e| e.name.as_str()).collect();
    assert_eq!(names, vec!["PAGER", "MANROFFOPT", "GROFF_NO_SGR", "COLUMNS"]);
    let values: Vec<&str> = c.env.iter().map(|e| e.value.as_str()).collect();
    assert_eq!(values, vec!["cat", "-c", "1", "500"]);
}

#[test]
fn accepted_help_text_is_delivered_at_once() {
    let (mut acq, first) = Acquisition::start("tar".to_string(), Language::System);
    assert_eq!(acq.phase, AcquisitionPhase::Help);
    assert_eq!(first.program, "tar");
    let listing = "  -c  Create an archive\n  -x  Extract files\n  -t  List contents\n";
    match acq.on_outcome(Ok(listing.to_string())) {
        AcquireStep::Deliver(text) => assert_eq!(text, listing),
        _ => panic!("accepted help text must be delivered"),
    }
    assert_eq!(acq.phase, AcquisitionPhase::Help);
}

#[test]
fn rejected_help_text_falls_through_to_man() {
    let (mut acq, _) = Acquisition::start("true".to_string(), Language::System);
    match acq.on_outcome(Ok("nothing that looks like options".to_string())) {
        AcquireStep::RunNext(c) => {
            assert_eq!(c.program, "man");
            assert_eq!(c.args[0], "true");
            assert_eq!(c.timeout_ms, MAN_TIMEOUT_MS);
        }
        _ => panic!("a rejected help run must fall through"),
    }
    assert_eq!(acq.phase, AcquisitionPhase::Man);
    // the manual page is delivered without the heuristic
    let page = "TRUE(1)  do nothing, successfully".to_string();
    match acq.on_outcome(Ok(page.clone())) {
        AcquireStep::Deliver(text) => assert_eq!(text, page),
        _ => panic!("a successful man run must be delivered"),
    }
}

#[test]
fn failed_help_run_falls_through_and_exhaustion_fails() {
    let (mut acq, _) = Acquisition::start("sl".to_string(), Language::English);
    match acq.on_outcome(Err(Error::Timeout)) {
        AcquireStep::RunNext(c) => assert_eq!(c.program, "man"),
        _ => panic!("a timed-out help run must fall through"),
    }
    match acq.on_outcome(Err(Error::CommandFailed)) {
        AcquireStep::Fail(e) => assert_eq!(e, Error::NoHelpAvailable),
        _ => panic!("both phases exhausted must fail"),
    }
}
