use deskutils::search::{
    after_menu, build_menu_text, find_engine, is_direct_url, menu_exit, menu_selection,
    parse_selection, search_target, MenuNext, MenuResult,
};

#[test]
fn parses_direct_bang_command() {
    assert_eq!(parse_selection("!gh rust traits"), ("gh", "rust traits"));
}

#[test]
fn parses_plain_default_search() {
    assert_eq!(
        parse_selection("rust closures"),
        ("default", "rust closures")
    );
}

#[test]
fn parses_default_menu_search_terms() {
    assert_eq!(
        parse_selection("Default rust borrow checker"),
        ("default", "rust borrow checker")
    );
}

#[test]
fn bang_without_terms_and_trimming() {
    assert_eq!(parse_selection("  !yt  "), ("yt", ""));
    assert_eq!(parse_selection("!w   rust   "), ("w", "rust"));
    assert_eq!(parse_selection("Default"), ("default", ""));
}

#[test]
fn finds_engines_by_bang() {
    assert_eq!(find_engine("gh").unwrap().home_url, "https://github.com");
    assert_eq!(find_engine("ddg").unwrap().description, "duckduckgo");
    assert!(find_engine("default").is_none());
    assert!(find_engine("nope").is_none());
}

#[test]
fn menu_lists_default_then_bangs() {
    let text = build_menu_text();
    assert_eq!(
        text,
        "default: google\n!gh: github\n!rd: rdocumentation\n!rs: rust docs\n!r: reddit\n!yt: youtube\n!t: twitch\n!sp: spotify\n!ddg: duckduckgo\n!w: wikipedia"
    );
}

#[test]
fn direct_urls_are_recognised() {
    assert!(is_direct_url("example.com"));
    assert!(is_direct_url("http://localhost"));
    assert!(is_direct_url("https://localhost:8080"));
    assert!(!is_direct_url("rust traits"));
    assert!(!is_direct_url("example.com path"));
    assert!(!is_direct_url("localhost"));
}

#[test]
fn search_targets() {
    assert_eq!(
        search_target("!gh rust traits"),
        "https://github.com/search?q=rust+traits"
    );
    assert_eq!(
        search_target("rust closures"),
        "https://www.google.com/search?q=rust+closures"
    );
    assert_eq!(search_target("!gh"), "https://github.com");
    assert_eq!(search_target("docs.rs"), "https://docs.rs");
    assert_eq!(search_target("http://example.com"), "http://example.com");
    assert_eq!(
        search_target("!zz c++ & rust"),
        "https://www.google.com/search?q=c%2B%2B+%26+rust"
    );
    assert_eq!(
        search_target("!w caf\u{e9}"),
        "https://www.wikipedia.org/wiki/caf%C3%A9"
    );
}

#[test]
fn launcher_exits_and_selections() {
    assert!(matches!(menu_exit(Some(10), false), Some(MenuResult::ToggleHelp)));
    assert!(matches!(menu_exit(Some(1), false), Some(MenuResult::Cancelled)));
    assert!(matches!(menu_exit(None, false), Some(MenuResult::Cancelled)));
    assert!(menu_exit(Some(0), true).is_none());
    assert!(matches!(menu_selection("  \n"), MenuResult::Cancelled));
    match menu_selection(" !gh rust \n") {
        MenuResult::Selected(s) => assert_eq!(s, "!gh rust"),
        other => panic!("unexpected {other:?}"),
    }
}

#[test]
fn menu_rounds() {
    assert!(matches!(
        after_menu(false, MenuResult::ToggleHelp),
        MenuNext::Again { show_help: true }
    ));
    assert!(matches!(after_menu(true, MenuResult::Cancelled), MenuNext::Quit));
    match after_menu(true, MenuResult::Selected("!r rust".to_string())) {
        MenuNext::Open { target } => assert_eq!(target, "https://reddit.com/search?q=rust"),
        other => panic!("unexpected {other:?}"),
    }
}

#[test]
fn help_entries_only_when_asked() {
    let full = build_menu_text();
    assert_eq!(deskutils::search::menu_text_for(true, &full), full);
    assert_eq!(deskutils::search::menu_text_for(false, &full), "");
}
