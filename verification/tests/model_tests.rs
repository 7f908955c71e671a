use rlhelp::flag::Flag;
use rlhelp::model::App;
use rlhelp::{Error, Language};

fn flag(short: Option<&str>, long: Option<&str>, desc: &str) -> Flag {
    Flag {
        short: short.map(|s| s.to_string()),
        long: long.map(|s| s.to_string()),
        desc: desc.to_string(),
        selected: false,
    }
}

fn three_flag_app() -> App {
    App::new(
        "ls".to_string(),
        vec![
            flag(Some("-a"), Some("--all"), "Do not ignore hidden entries"),
            flag(Some("-l"), None, "Long listing format"),
            flag(None, Some("--color"), "Colorize the output"),
        ],
    )
}

#[test]
fn cursor_wraps_circularly() {
    let mut app = three_flag_app();
    assert_eq!(app.cursor, Some(0));
    app.next();
    app.next();
    assert_eq!(app.cursor, Some(2));
    // from the last index, a forward step lands on the first
    app.next();
    assert_eq!(app.cursor, Some(0));
    // from the first index, a backward step lands on the last
    app.previous();
    assert_eq!(app.cursor, Some(2));
    app.previous();
    assert_eq!(app.cursor, Some(1));
}

#[test]
fn moves_on_empty_list_are_no_ops() {
    let mut app = App::new("true".to_string(), vec![]);
    assert_eq!(app.cursor, None);
    app.next();
    assert_eq!(app.cursor, None);
    app.previous();
    assert_eq!(app.cursor, None);
    app.toggle_selection();
    assert!(app.get_selected_args().is_empty());
}

#[test]
fn toggle_selection_flips_only_the_cursor_flag() {
    let mut app = three_flag_app();
    app.next();
    app.toggle_selection();
    assert!(!app.flags[0].selected);
    assert!(app.flags[1].selected);
    assert!(!app.flags[2].selected);
    app.toggle_selection();
    assert!(!app.flags[1].selected);
}

#[test]
fn selected_args_in_list_order_and_preview() {
    let mut app = three_flag_app();
    app.toggle_selection();
    app.next();
    app.next();
    app.toggle_selection();
    assert_eq!(app.get_selected_args(), vec!["--all".to_string(), "--color".to_string()]);
    assert_eq!(app.build_preview_string(), "ls --all --color");
}

#[test]
fn preview_of_empty_selection_is_the_command_alone() {
    let app = three_flag_app();
    assert_eq!(app.build_preview_string(), "ls");
}

#[test]
fn as_arg_prefers_the_long_token() {
    let f = flag(Some("-a"), Some("--all"), "Everything");
    assert_eq!(f.as_arg(), "--all");
    let f = flag(Some("-l"), None, "Long listing");
    assert_eq!(f.as_arg(), "-l");
}

#[test]
fn display_string_pads_the_token_column() {
    let f = flag(Some("-v"), Some("--verbose"), "Verbose");
    assert_eq!(f.to_display_string(), format!("[ ] {:<25} | {}", "-v, --verbose", "Verbose"));
    let mut sel = flag(None, Some("--dry-run"), "Pretend");
    sel.selected = true;
    assert_eq!(sel.to_display_string(), format!("[x] {:<25} | {}", "    --dry-run", "Pretend"));
}

#[test]
fn failed_reload_changes_nothing() {
    let mut app = three_flag_app();
    app.toggle_selection();
    app.next();
    let before = app.clone();
    let lang = app.next_language();
    app.apply_reload(lang, Err(Error::Timeout));
    assert_eq!(app, before);
    app.apply_reload(Language::English, Err(Error::NoHelpAvailable));
    assert_eq!(app, before);
    app.apply_reload(Language::English, Err(Error::NoFlagsFound));
    assert_eq!(app, before);
}

#[test]
fn reload_projects_selection_by_canonical_argument() {
    let mut app = App::new(
        "conv".to_string(),
        vec![
            flag(Some("-v"), None, "Verbose output"),
            flag(Some("-o"), Some("--output"), "Output file"),
            flag(None, Some("--fast"), "Hurry up"),
        ],
    );
    // select -v and --output
    app.toggle_selection();
    app.next();
    app.toggle_selection();
    assert_eq!(app.get_selected_args(), vec!["-v".to_string(), "--output".to_string()]);

    // the reload finds the same canonical arguments under reworded
    // descriptions, in another order, with one flag gone and one new
    let new_flags = vec![
        flag(Some("-o"), Some("--output"), "Fichier de sortie"),
        flag(None, Some("--slow"), "Prendre son temps"),
        flag(Some("-v"), None, "Sortie detaillee"),
    ];
    app.apply_reload(Language::English, Ok(new_flags));
    assert_eq!(app.current_lang, Language::English);
    assert!(app.flags[0].selected, "--output stays selected");
    assert!(!app.flags[1].selected);
    assert!(app.flags[2].selected, "-v stays selected");
    assert_eq!(app.get_selected_args(), vec!["--output".to_string(), "-v".to_string()]);
}

#[test]
fn reload_clamps_the_cursor() {
    let mut app = three_flag_app();
    app.next();
    app.next();
    assert_eq!(app.cursor, Some(2));
    app.apply_reload(Language::English, Ok(vec![flag(Some("-x"), None, "Only one")]));
    assert_eq!(app.cursor, Some(0));

    let mut app = three_flag_app();
    app.next();
    app.apply_reload(
        Language::English,
        Ok(vec![flag(Some("-x"), None, "First one"), flag(Some("-y"), None, "Second one")]),
    );
    assert_eq!(app.cursor, Some(1), "a cursor still in bounds is kept");
}

#[test]
fn reload_with_empty_list_drops_the_cursor() {
    let mut app = three_flag_app();
    app.apply_reload(Language::English, Ok(vec![]));
    assert_eq!(app.cursor, None);
    assert!(app.flags.is_empty());
}

#[test]
fn language_toggle_alternates() {
    let app = three_flag_app();
    assert_eq!(app.current_lang, Language::System);
    assert_eq!(app.next_language(), Language::English);
}
