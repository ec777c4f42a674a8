//! Web search from a launcher prompt, with DuckDuckGo-style bangs.
//!
//! `search term` searches the default engine; `!gh search term` searches the
//! engine whose key is `gh`. A default search that looks like a URL opens
//! that URL directly.

use vstd::prelude::*;
use crate::text::{
    find_char, is_ws, lemma_lead_bounds, lemma_lead_is, lemma_trim_idempotent,
    lemma_trim_of_trimmed, other_than, push_str, range_starts_with, split_once, starts_with,
    str_eq, string_of, to_chars, trim, trim_range,
};
use crate::url::{query_encode, url_encode};

verus! {

/// A search engine.
#[derive(Clone, Copy, Debug)]
pub struct Engine {
    pub key: &'static str,
    pub search_url: &'static str,
    pub home_url: &'static str,
    pub description: &'static str,
}

/// The default engine (Google).
pub open spec fn default_engine_spec() -> Engine {
    Engine {
        key: "default",
        search_url: "https://www.google.com/search?q=",
        home_url: "https://www.google.com",
        description: "google",
    }
}

/// The engines reachable by a bang.
pub open spec fn engine_table() -> Seq<Engine> {
    seq![
        Engine {
            key: "gh",
            search_url: "https://github.com/search?q=",
            home_url: "https://github.com",
            description: "github",
        },
        Engine {
            key: "rd",
            search_url: "https://www.rdocumentation.org/search?q=",
            home_url: "https://www.rdocumentation.org",
            description: "rdocumentation",
        },
        Engine {
            key: "rs",
            search_url: "https://docs.rs/releases/search?query=",
            home_url: "https://docs.rs",
            description: "rust docs",
        },
        Engine {
            key: "r",
            search_url: "https://reddit.com/search?q=",
            home_url: "https://reddit.com",
            description: "reddit",
        },
        Engine {
            key: "yt",
            search_url: "https://www.youtube.com/results?search_query=",
            home_url: "https://www.youtube.com",
            description: "youtube",
        },
        Engine {
            key: "t",
            search_url: "https://twitch.tv/search?term=",
            home_url: "https://twitch.tv",
            description: "twitch",
        },
        Engine {
            key: "sp",
            search_url: "https://open.spotify.com/search/",
            home_url: "https://open.spotify.com",
            description: "spotify",
        },
        Engine {
            key: "ddg",
            search_url: "https://duckduckgo.com/?q=",
            home_url: "https://duckduckgo.com",
            description: "duckduckgo",
        },
        Engine {
            key: "w",
            search_url: "https://www.wikipedia.org/wiki/",
            home_url: "https://www.wikipedia.org",
            description: "wikipedia",
        },
    ]
}

/// The default engine.
pub fn default_search_engine() -> (e: Engine)
    ensures
        e == default_engine_spec(),
{
    Engine {
        key: "default",
        search_url: "https://www.google.com/search?q=",
        home_url: "https://www.google.com",
        description: "google",
    }
}

/// The engines reachable by a bang, in menu order.
pub fn engines() -> (v: Vec<Engine>)
    ensures
        v@ == engine_table(),
{
    let v = vec![
        Engine {
            key: "gh",
            search_url: "https://github.com/search?q=",
            home_url: "https://github.com",
            description: "github",
        },
        Engine {
            key: "rd",
            search_url: "https://www.rdocumentation.org/search?q=",
            home_url: "https://www.rdocumentation.org",
            description: "rdocumentation",
        },
        Engine {
            key: "rs",
            search_url: "https://docs.rs/releases/search?query=",
            home_url: "https://docs.rs",
            description: "rust docs",
        },
        Engine {
            key: "r",
            search_url: "https://reddit.com/search?q=",
            home_url: "https://reddit.com",
            description: "reddit",
        },
        Engine {
            key: "yt",
            search_url: "https://www.youtube.com/results?search_query=",
            home_url: "https://www.youtube.com",
            description: "youtube",
        },
        Engine {
            key: "t",
            search_url: "https://twitch.tv/search?term=",
            home_url: "https://twitch.tv",
            description: "twitch",
        },
        Engine {
            key: "sp",
            search_url: "https://open.spotify.com/search/",
            home_url: "https://open.spotify.com",
            description: "spotify",
        },
        Engine {
            key: "ddg",
            search_url: "https://duckduckgo.com/?q=",
            home_url: "https://duckduckgo.com",
            description: "duckduckgo",
        },
        Engine {
            key: "w",
            search_url: "https://www.wikipedia.org/wiki/",
            home_url: "https://www.wikipedia.org",
            description: "wikipedia",
        },
    ];
    assert(v@ =~= engine_table());
    v
}

/// The first engine of `table` whose key is `key`.
pub open spec fn lookup(table: Seq<Engine>, key: Seq<char>) -> Option<Engine>
    decreases table.len(),
{
    if table.len() == 0 {
        None
    } else if table[0].key@ == key {
        Some(table[0])
    } else {
        lookup(table.drop_first(), key)
    }
}

/// The first engine of `table` whose key is `key`.
pub fn find_in(table: &Vec<Engine>, key: &str) -> (r: Option<Engine>)
    ensures
        r == lookup(table@, key@),
{
    let n = table.len();
    let mut i: usize = 0;
    assert(table@.skip(0) =~= table@);
    while i < n
        invariant
            i <= n == table@.len(),
            lookup(table@, key@) == lookup(table@.skip(i as int), key@),
        decreases n - i,
    {
        let e = table[i];
        assert(table@.skip(i as int)[0] == table@[i as int]);
        if str_eq(e.key, key) {
            return Some(e);
        }
        assert(table@.skip(i as int).drop_first() =~= table@.skip(i + 1));
        i += 1;
    }
    None
}

/// The engine a bang names.
pub fn find_engine(key: &str) -> (r: Option<Engine>)
    ensures
        r == lookup(engine_table(), key@),
{
    let table = engines();
    find_in(&table, key)
}

/// Menu lines for the engines, each starting with a line break.
pub open spec fn menu_entries(t: Seq<Engine>) -> Seq<char>
    decreases t.len(),
{
    if t.len() == 0 {
        seq![]
    } else {
        menu_entries(t.drop_last()) + "\n!"@ + t.last().key@ + ": "@ + t.last().description@
    }
}

/// The help menu: the default engine, then `!key: description` per engine.
pub open spec fn menu_text() -> Seq<char> {
    "default: "@ + default_engine_spec().description@ + menu_entries(engine_table())
}

/// Builds the help menu shown in the launcher.
pub fn build_menu_text() -> (out: String)
    ensures
        out@ == menu_text(),
{
    let table = engines();
    let default = default_search_engine();
    let mut out = String::new();
    push_str(&mut out, "default: ");
    push_str(&mut out, default.description);
    let n = table.len();
    let mut i: usize = 0;
    assert(table@.take(0) =~= Seq::<Engine>::empty());
    while i < n
        invariant
            i <= n == table@.len(),
            table@ == engine_table(),
            out@ == "default: "@ + default_engine_spec().description@ + menu_entries(
                table@.take(i as int),
            ),
        decreases n - i,
    {
        let e = table[i];
        push_str(&mut out, "\n!");
        push_str(&mut out, e.key);
        push_str(&mut out, ": ");
        push_str(&mut out, e.description);
        assert(table@.take(i + 1).drop_last() =~= table@.take(i as int));
        assert(table@.take(i + 1).last() == e);
        i += 1;
        assert(out@ =~= "default: "@ + default_engine_spec().description@ + menu_entries(
            table@.take(i as int),
        ));
    }
    assert(table@.take(n as int) =~= table@);
    out
}

/// What a launcher selection asks for: the engine key and the search terms.
pub open spec fn selection_parts(selection: Seq<char>) -> (Seq<char>, Seq<char>) {
    let s = trim(selection);
    if s.len() > 0 && s[0] == '!' {
        let content = s.drop_first();
        match split_once(content, ' ') {
            Some((bang, rest)) => (bang, trim(rest)),
            None => (content, seq![]),
        }
    } else if starts_with(s, "Default"@) {
        ("default"@, trim(s.skip("Default"@.len() as int)))
    } else {
        ("default"@, s)
    }
}

/// Splits a selection into engine key and search terms: `!gh rust traits`
/// gives `("gh", "rust traits")`; without a bang the key is `default`.
pub fn parse_selection(selection: &str) -> (r: (&str, &str))
    ensures
        (r.0@, r.1@) == selection_parts(selection@),
{
    let v = to_chars(selection);
    let n = v.len();
    let (a, b) = trim_range(&v, 0, n);
    proof {
        assert(v@.subrange(0, n as int) =~= v@);
        reveal_strlit("");
        reveal_strlit("Default");
    }
    let ghost s = v@.subrange(a as int, b as int);
    if a < b && v[a] == '!' {
        let e = find_char(&v, a + 1, b, ' ');
        proof {
            let content = s.drop_first();
            assert(content =~= v@.subrange(a + 1, b as int));
            lemma_lead_bounds(content, other_than(' '));
        }
        if e < b {
            let (c, d) = trim_range(&v, e + 1, b);
            proof {
                let content = s.drop_first();
                assert(content.take(e - a - 1) =~= v@.subrange(a + 1, e as int));
                assert(content.skip(e - a) =~= v@.subrange(e + 1, b as int));
            }
            (selection.substring_char(a + 1, e), selection.substring_char(c, d))
        } else {
            (selection.substring_char(a + 1, b), "")
        }
    } else {
        let prefix = to_chars("Default");
        if range_starts_with(&v, a, b, &prefix) {
            let (c, d) = trim_range(&v, a + 7, b);
            assert(s.skip(7) =~= v@.subrange(a + 7, b as int));
            ("default", selection.substring_char(c, d))
        } else {
            ("default", selection.substring_char(a, b))
        }
    }
}

/// A search that is really a web address: no space, and either a scheme or a dot.
pub open spec fn looks_like_url(q: Seq<char>) -> bool {
    !q.contains(' ') && (starts_with(q, "http://"@) || starts_with(q, "https://"@) || q.contains(
        '.',
    ))
}

/// Whether `v` holds `c`.
pub fn chars_contain(v: &Vec<char>, c: char) -> (b: bool)
    ensures
        b == v@.contains(c),
{
    let i = find_char(v, 0, v.len(), c);
    proof {
        assert(v@.subrange(0, v@.len() as int) =~= v@);
        lemma_lead_bounds(v@, other_than(c));
        if i == v@.len() {
            assert forall|j: int| 0 <= j < v@.len() implies v@[j] != c by {
                assert((other_than(c))(v@[j]));
            }
        }
    }
    i < v.len()
}

/// Whether the search terms are a plain web address.
pub fn is_direct_url(query: &str) -> (b: bool)
    ensures
        b == looks_like_url(query@),
{
    let v = to_chars(query);
    if chars_contain(&v, ' ') {
        return false;
    }
    let http = to_chars("http://");
    let https = to_chars("https://");
    let n = v.len();
    assert(v@.subrange(0, n as int) =~= v@);
    range_starts_with(&v, 0, n, &http) || range_starts_with(&v, 0, n, &https) || chars_contain(
        &v,
        '.',
    )
}

/// The address opened for a selection.
pub open spec fn target_for(selection: Seq<char>) -> Seq<char> {
    let (key, terms) = selection_parts(selection);
    if key == "default"@ && looks_like_url(terms) {
        if starts_with(terms, "http"@) {
            terms
        } else {
            "https://"@ + terms
        }
    } else {
        let engine = match lookup(engine_table(), key) {
            Some(e) => e,
            None => default_engine_spec(),
        };
        if terms.len() == 0 {
            engine.home_url@
        } else {
            engine.search_url@ + query_encode(terms)
        }
    }
}

/// The address to open for a launcher selection: a direct address as it is
/// (with `https://` added when no scheme is given), an engine's home page
/// for empty terms, or the engine's search URL with the encoded terms.
pub fn search_target(selection: &str) -> (url: String)
    ensures
        url@ == target_for(selection@),
{
    let (key, terms) = parse_selection(selection);
    let mut url = String::new();
    if str_eq(key, "default") && is_direct_url(terms) {
        let t = to_chars(terms);
        let http = to_chars("http");
        assert(t@.subrange(0, t@.len() as int) =~= t@);
        if !range_starts_with(&t, 0, t.len(), &http) {
            push_str(&mut url, "https://");
        }
        push_str(&mut url, terms);
        return url;
    }
    let engine = match find_engine(key) {
        Some(e) => e,
        None => default_search_engine(),
    };
    if terms.unicode_len() == 0 {
        push_str(&mut url, engine.home_url);
    } else {
        push_str(&mut url, engine.search_url);
        let q = url_encode(terms);
        push_str(&mut url, q.as_str());
    }
    url
}

/// How the launcher window was closed.
#[derive(Debug)]
pub enum MenuResult {
    Selected(String),
    ToggleHelp,
    Cancelled,
}

/// The launcher's exit: code 10 (the custom key) toggles the help menu, any
/// other failure cancels; `None` means a selection is to be read.
pub fn menu_exit(status_code: Option<i32>, success: bool) -> (r: Option<MenuResult>)
    ensures
        (match status_code {
            Some(c) => c,
            None => 0,
        }) == 10 ==> r matches Some(MenuResult::ToggleHelp),
        (match status_code {
            Some(c) => c,
            None => 0,
        }) != 10 ==> (if success {
            r is None
        } else {
            r matches Some(MenuResult::Cancelled)
        }),
{
    let code = match status_code {
        Some(c) => c,
        None => 0,
    };
    if code == 10 {
        Some(MenuResult::ToggleHelp)
    } else if !success {
        Some(MenuResult::Cancelled)
    } else {
        None
    }
}

/// The launcher's output as a selection: trimmed; blank output cancels.
pub fn menu_selection(output: &str) -> (r: MenuResult)
    ensures
        trim(output@).len() == 0 ==> r is Cancelled,
        trim(output@).len() > 0 ==> (r matches MenuResult::Selected(sel) && sel@ == trim(output@)),
{
    let v = to_chars(output);
    let (a, b) = trim_range(&v, 0, v.len());
    assert(v@.subrange(0, v@.len() as int) =~= v@);
    if a == b {
        MenuResult::Cancelled
    } else {
        MenuResult::Selected(string_of(&v, a, b))
    }
}

/// The entries shown in the launcher: the help menu when asked for, else none.
pub fn menu_text_for(show_help: bool, full_menu_text: &str) -> (shown: &str)
    ensures
        show_help ==> shown@ == full_menu_text@,
        !show_help ==> shown@ == Seq::<char>::empty(),
{
    if show_help {
        full_menu_text
    } else {
        proof { reveal_strlit(""); }
        ""
    }
}

/// What the program does after the launcher closed.
#[derive(Debug)]
pub enum MenuNext {
    /// Show the launcher again, with or without the help entries.
    Again { show_help: bool },
    /// Open this address.
    Open { target: String },
    Quit,
}

/// The next move after a launcher round.
pub fn after_menu(show_help: bool, result: MenuResult) -> (r: MenuNext)
    ensures
        match result {
            MenuResult::ToggleHelp => r == MenuNext::Again { show_help: !show_help },
            MenuResult::Cancelled => r is Quit,
            MenuResult::Selected(sel) => r matches MenuNext::Open { target } && target@
                == target_for(sel@),
        },
{
    match result {
        MenuResult::ToggleHelp => MenuNext::Again { show_help: !show_help },
        MenuResult::Cancelled => MenuNext::Quit,
        MenuResult::Selected(sel) => MenuNext::Open { target: search_target(sel.as_str()) },
    }
}

/// The terms of a selection never start or end with whitespace.
pub proof fn lemma_terms_trimmed(selection: Seq<char>)
    ensures
        trim(selection_parts(selection).1) == selection_parts(selection).1,
{
    let s = trim(selection);
    lemma_trim_idempotent(selection);
    if s.len() > 0 && s[0] == '!' {
        match split_once(s.drop_first(), ' ') {
            Some((bang, rest)) => lemma_trim_idempotent(rest),
            None => lemma_trim_of_trimmed(seq![]),
        }
    } else if starts_with(s, "Default"@) {
        lemma_trim_idempotent(s.skip("Default"@.len() as int));
    }
}

/// No engine of the bang table has the key `default`.
pub proof fn lemma_default_not_a_bang()
    ensures
        forall|i: int| 0 <= i < engine_table().len() ==> #[trigger] engine_table()[i].key@
            != "default"@,
{
    reveal_strlit("default");
    reveal_strlit("gh");
    reveal_strlit("rd");
    reveal_strlit("rs");
    reveal_strlit("r");
    reveal_strlit("yt");
    reveal_strlit("t");
    reveal_strlit("sp");
    reveal_strlit("ddg");
    reveal_strlit("w");
    assert forall|i: int| 0 <= i < engine_table().len() implies #[trigger] engine_table()[i].key@
        != "default"@ by {
        assert(engine_table()[i].key@.len() <= 3);
    }
}

/// What `lookup` finds has the key looked for and comes from the table.
pub proof fn lemma_lookup_found(table: Seq<Engine>, key: Seq<char>)
    ensures
        lookup(table, key) matches Some(e) ==> e.key@ == key && exists|i: int|
            0 <= i < table.len() && table[i] == e,
    decreases table.len(),
{
    if table.len() > 0 && table[0].key@ != key {
        lemma_lookup_found(table.drop_first(), key);
        if lookup(table, key) is Some {
            let i = choose|i: int|
                0 <= i < table.drop_first().len() && table.drop_first()[i] == lookup(
                    table,
                    key,
                )->0;
            assert(table[i + 1] == table.drop_first()[i]);
        }
    }
}

/// Searching with a bang: `!<key> <terms>` splits into the key and the
/// terms, for any key without whitespace and any terms without whitespace
/// at their ends.
pub proof fn lemma_bang_selection(key: Seq<char>, terms: Seq<char>)
    requires
        forall|i: int| 0 <= i < key.len() ==> !is_ws(#[trigger] key[i]),
        terms.len() > 0,
        !is_ws(terms[0]),
        !is_ws(terms.last()),
    ensures
        selection_parts(seq!['!'] + key + seq![' '] + terms) == (key, terms),
{
    let sel = seq!['!'] + key + seq![' '] + terms;
    assert(sel[0] == '!');
    assert(sel.last() == terms.last());
    lemma_trim_of_trimmed(sel);
    lemma_trim_of_trimmed(terms);
    let content = sel.drop_first();
    assert(content =~= key + seq![' '] + terms);
    assert forall|j: int| 0 <= j < key.len() implies (other_than(' '))(#[trigger] content[j]) by {
        assert(content[j] == key[j]);
    }
    assert(content[key.len() as int] == ' ');
    lemma_lead_is(content, other_than(' '), key.len() as int);
    assert(content.take(key.len() as int) =~= key);
    assert(content.skip(key.len() as int + 1) =~= terms);
}

/// `!gh search term` searches GitHub: a bang naming an engine of the table,
/// followed by terms, opens that engine's search URL with the encoded terms.
pub proof fn lemma_bang_search(key: Seq<char>, terms: Seq<char>, e: Engine)
    requires
        forall|i: int| 0 <= i < key.len() ==> !is_ws(#[trigger] key[i]),
        terms.len() > 0,
        !is_ws(terms[0]),
        !is_ws(terms.last()),
        lookup(engine_table(), key) == Some(e),
    ensures
        target_for(seq!['!'] + key + seq![' '] + terms) == e.search_url@ + query_encode(terms),
{
    lemma_bang_selection(key, terms);
    lemma_lookup_found(engine_table(), key);
    lemma_default_not_a_bang();
}

/// `search term` searches Google: terms with no bang, not starting with
/// `Default` and not looking like an address open the default engine's
/// search URL with the encoded terms.
pub proof fn lemma_plain_search(terms: Seq<char>)
    requires
        terms.len() > 0,
        !is_ws(terms[0]),
        !is_ws(terms.last()),
        terms[0] != '!',
        !starts_with(terms, "Default"@),
        !looks_like_url(terms),
    ensures
        target_for(terms) == default_engine_spec().search_url@ + query_encode(terms),
{
    lemma_trim_of_trimmed(terms);
    lemma_default_not_a_bang();
    lemma_lookup_found(engine_table(), "default"@);
}

/// A typed address that already carries an `http` scheme (`https://…` or
/// `http://…`) is opened exactly as typed: no second scheme is put in front.
pub proof fn lemma_address_with_scheme_opened_as_is(sel: Seq<char>)
    requires
        forall|i: int| 0 <= i < sel.len() ==> !is_ws(#[trigger] sel[i]),
        starts_with(sel, "https://"@) || starts_with(sel, "http://"@),
    ensures
        target_for(sel) == sel,
{
    reveal_strlit("https://");
    reveal_strlit("http://");
    reveal_strlit("http");
    reveal_strlit("Default");
    reveal_strlit("default");
    let k: int = if starts_with(sel, "https://"@) { 8 } else { 7 };
    assert(sel.take(k) == (if k == 8 { "https://"@ } else { "http://"@ }));
    assert forall|j: int| 0 <= j < 4 implies sel[j] == #[trigger] "http"@[j] by {
        assert(sel[j] == sel.take(k)[j]);
    }
    assert(!is_ws(sel.last()));
    lemma_trim_of_trimmed(sel);
    assert(!sel.contains(' '));
    assert(sel.take(4) =~= "http"@);
    assert(!starts_with(sel, "Default"@)) by {
        if starts_with(sel, "Default"@) {
            assert(sel.take(7)[0] == sel[0]);
        }
    }
}

/// A typed address without a scheme (`docs.rs`) is opened over `https://`:
/// the target is `https://` followed by the address as typed.
pub proof fn lemma_bare_address_gets_https(sel: Seq<char>)
    requires
        sel.len() > 0,
        forall|i: int| 0 <= i < sel.len() ==> !is_ws(#[trigger] sel[i]),
        sel.contains('.'),
        sel[0] != '!',
        sel[0] != 'h',
        sel[0] != 'D',
    ensures
        target_for(sel) == "https://"@ + sel,
{
    reveal_strlit("http");
    reveal_strlit("Default");
    reveal_strlit("default");
    assert(!is_ws(sel.last()));
    lemma_trim_of_trimmed(sel);
    assert(!sel.contains(' '));
    assert(!starts_with(sel, "Default"@)) by {
        if starts_with(sel, "Default"@) {
            assert(sel.take(7)[0] == sel[0]);
        }
    }
    assert(!starts_with(sel, "http"@)) by {
        if starts_with(sel, "http"@) {
            assert(sel.take(4)[0] == sel[0]);
        }
    }
}

/// A bang alone (`!gh`, no terms) opens the home page of the engine it names.
pub proof fn lemma_bang_alone_opens_home(key: Seq<char>, e: Engine)
    requires
        key.len() > 0,
        forall|i: int| 0 <= i < key.len() ==> !is_ws(#[trigger] key[i]),
        lookup(engine_table(), key) == Some(e),
    ensures
        target_for(seq!['!'] + key) == e.home_url@,
{
    let sel = seq!['!'] + key;
    assert(sel[0] == '!');
    assert(sel.last() == key.last());
    lemma_trim_of_trimmed(sel);
    let content = sel.drop_first();
    assert(content =~= key);
    assert forall|j: int| 0 <= j < key.len() implies (other_than(' '))(#[trigger] key[j]) by {
        assert(!is_ws(key[j]));
    }
    lemma_lead_is(key, other_than(' '), key.len() as int);
    lemma_lookup_found(engine_table(), key);
    lemma_default_not_a_bang();
}

/// A bang that names no engine of the table searches the default engine
/// with the terms.
pub proof fn lemma_unknown_bang_searches_default(key: Seq<char>, terms: Seq<char>)
    requires
        forall|i: int| 0 <= i < key.len() ==> !is_ws(#[trigger] key[i]),
        terms.len() > 0,
        !is_ws(terms[0]),
        !is_ws(terms.last()),
        lookup(engine_table(), key) is None,
        key != "default"@,
    ensures
        target_for(seq!['!'] + key + seq![' '] + terms) == default_engine_spec().search_url@
            + query_encode(terms),
{
    lemma_bang_selection(key, terms);
}

} // verus!
