use deskutils::menu_search::{
    build_menu_text, default_engine, find_engine, launcher_for, parse_selection, search_target,
    selection_from_output, Launcher,
};
use deskutils::url::url_encode;

#[test]
fn main_parses_direct_bang_command() {
    assert_eq!(
        parse_selection("!gh rust traits"),
        ("gh".into(), "rust traits".into())
    );
}

#[test]
fn main_parses_plain_default_search() {
    assert_eq!(
        parse_selection("rust closures"),
        ("default".into(), "rust closures".into())
    );
}

#[test]
fn treats_menu_description_as_empty_query() {
    assert_eq!(parse_selection("!gh: github"), ("gh".into(), String::new()));
}

#[test]
fn parses_menu_bang_search_terms() {
    assert_eq!(
        parse_selection("!gh: rust ownership"),
        ("gh".into(), "rust ownership".into())
    );
}

#[test]
fn main_parses_default_menu_search_terms() {
    assert_eq!(
        parse_selection("Default: rust borrow checker"),
        ("default".into(), "rust borrow checker".into())
    );
}

#[test]
fn treats_default_menu_description_as_empty_query() {
    assert_eq!(
        parse_selection("Default: google"),
        ("default".into(), String::new())
    );
}

#[test]
fn other_colon_forms_fall_back_to_words() {
    assert_eq!(
        parse_selection("time: 10:30"),
        ("default".into(), "time: 10:30".into())
    );
    assert_eq!(parse_selection("!zz: x"), ("zz".into(), "x".into()));
    assert_eq!(parse_selection("!rs"), ("rs".into(), String::new()));
}

#[test]
fn menu_entries_open_home_pages() {
    let menu = build_menu_text();
    assert_eq!(
        menu,
        "Default: google\n!gh: github\n!rd: rdocumentation\n!rs: rust docs\n!r: reddit\n!yt: youtube\n!t: twitch\n!sp: spotify\n!ddg: duckduckgo\n!w: wikipedia"
    );
    for line in menu.lines() {
        let target = search_target(line);
        assert!(!target.contains('?'), "{line} -> {target}");
    }
    assert_eq!(search_target("!rs: rust docs"), "https://docs.rs");
    assert_eq!(search_target("Default: google"), "https://www.google.com");
}

#[test]
fn engines_and_default() {
    assert_eq!(default_engine().key, "default");
    assert_eq!(default_engine().home_url, "https://www.google.com");
    assert_eq!(find_engine("default").unwrap().description, "google");
    assert_eq!(find_engine("sp").unwrap().search_url, "https://open.spotify.com/search/");
    assert!(find_engine("x").is_none());
}

#[test]
fn menu_search_targets() {
    assert_eq!(
        search_target("!gh: rust ownership"),
        "https://github.com/search?q=rust+ownership"
    );
    assert_eq!(search_target("rust"), "https://www.google.com/search?q=rust");
    assert_eq!(url_encode("a b+c/d"), "a+b%2Bc%2Fd");
    assert_eq!(url_encode("-._~AZaz09"), "-._~AZaz09");
}

#[test]
fn launchers_by_session() {
    let l: Launcher = launcher_for("wayland");
    assert_eq!(l.program, "fuzzel");
    assert_eq!(l.args, &["--dmenu", "--prompt", "search:"]);
    let l = launcher_for("x11");
    assert_eq!(l.program, "rofi");
    assert_eq!(l.args, &["-dmenu", "-p", "search:", "-mesg", "search options"]);
    let custom = Launcher::new("dmenu", &["-l", "10"]);
    assert_eq!(custom.program, "dmenu");
}

#[test]
fn launcher_output() {
    assert_eq!(selection_from_output(false, "x"), None);
    assert_eq!(selection_from_output(true, " \n"), None);
    assert_eq!(selection_from_output(true, " !gh: github\n"), Some("!gh: github".to_string()));
}
