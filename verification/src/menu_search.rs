//! Web search from a menu of engines (`Default: google`, `!gh: github`, ...).
//!
//! The menu lists every engine; picking an entry as it is opens the engine's
//! home page, and typing terms after the colon (or after `!key `) searches.

use vstd::prelude::*;
use crate::search::{
    default_engine_spec, default_search_engine, engine_table, engines, find_in, lookup,
    menu_entries, Engine,
};
use crate::text::{
    find_char, index_of, is_ws, lemma_lead_bounds, lemma_lead_is, lemma_trim_of_trimmed, trim_start,
    ws_pred, other_than, push_str, range_eq, range_starts_with,
    split_once, starts_with, str_eq, string_of, to_chars, trim, trim_range,
};
use crate::url::{query_encode, url_encode};

verus! {

/// All engines of the menu, the default one last.
pub open spec fn menu_engine_table() -> Seq<Engine> {
    engine_table().push(default_engine_spec())
}

/// The menu's engines, the default one last.
pub fn menu_engines() -> (v: Vec<Engine>)
    ensures
        v@ == menu_engine_table(),
{
    let mut v = engines();
    v.push(default_search_engine());
    v
}

/// The engine with the given key.
pub fn find_engine(key: &str) -> (r: Option<Engine>)
    ensures
        r == lookup(menu_engine_table(), key@),
{
    let table = menu_engines();
    find_in(&table, key)
}

/// Looking up a key that only the appended engine has finds that engine.
proof fn lemma_lookup_last(a: Seq<Engine>, x: Engine, k: Seq<char>)
    requires
        forall|i: int| 0 <= i < a.len() ==> #[trigger] a[i].key@ != k,
        x.key@ == k,
    ensures
        lookup(a.push(x), k) == Some(x),
    decreases a.len(),
{
    if a.len() > 0 {
        assert(a.push(x)[0] == a[0]);
        assert(a.push(x).drop_first() =~= a.drop_first().push(x));
        assert forall|i: int| 0 <= i < a.drop_first().len() implies #[trigger] a.drop_first()[i].key@
            != k by {
            assert(a.drop_first()[i] == a[i + 1]);
        }
        lemma_lookup_last(a.drop_first(), x, k);
    } else {
        assert(a.push(x)[0] == x);
    }
}

/// The default engine is in the table, and no other engine has its key.
pub proof fn lemma_default_engine_listed()
    ensures
        lookup(menu_engine_table(), "default"@) == Some(default_engine_spec()),
{
    reveal_strlit("default");
    reveal_strlit("gh");
    reveal_strlit("rd");
    reveal_strlit("rs");
    reveal_strlit("r");
    reveal_strlit("yt");
    reveal_strlit("t");
    reveal_strlit("sp");
    reveal_strlit("ddg");
    reveal_strlit("w");
    let a = engine_table();
    assert forall|i: int| 0 <= i < a.len() implies #[trigger] a[i].key@ != "default"@ by {
        assert(a[i].key@.len() <= 3);
    }
    lemma_lookup_last(a, default_engine_spec(), "default"@);
}

/// The engine used when a selection names none.
pub fn default_engine() -> (e: Engine)
    ensures
        e == default_engine_spec(),
{
    proof { lemma_default_engine_listed(); }
    match find_engine("default") {
        Some(e) => e,
        None => {
            assert(false);
            default_search_engine()
        },
    }
}

/// The table without entries whose key is `default`.
pub open spec fn without_default(t: Seq<Engine>) -> Seq<Engine>
    decreases t.len(),
{
    if t.len() == 0 {
        seq![]
    } else if t.last().key@ == "default"@ {
        without_default(t.drop_last())
    } else {
        without_default(t.drop_last()).push(t.last())
    }
}

/// The menu: `Default: <description>`, then `!key: description` per other engine.
pub open spec fn menu_text() -> Seq<char> {
    "Default: "@ + default_engine_spec().description@ + menu_entries(
        without_default(menu_engine_table()),
    )
}

/// Builds the menu shown in the launcher.
pub fn build_menu_text() -> (out: String)
    ensures
        out@ == menu_text(),
{
    let table = menu_engines();
    let default = default_engine();
    let mut out = String::new();
    push_str(&mut out, "Default: ");
    push_str(&mut out, default.description);
    let n = table.len();
    let mut i: usize = 0;
    assert(table@.take(0) =~= Seq::<Engine>::empty());
    while i < n
        invariant
            i <= n == table@.len(),
            table@ == menu_engine_table(),
            out@ == "Default: "@ + default_engine_spec().description@ + menu_entries(
                without_default(table@.take(i as int)),
            ),
        decreases n - i,
    {
        let e = table[i];
        assert(table@.take(i + 1).drop_last() =~= table@.take(i as int));
        assert(table@.take(i + 1).last() == e);
        if !str_eq(e.key, "default") {
            push_str(&mut out, "\n!");
            push_str(&mut out, e.key);
            push_str(&mut out, ": ");
            push_str(&mut out, e.description);
            let ghost w = without_default(table@.take(i as int));
            assert(w.push(e).drop_last() =~= w);
        }
        i += 1;
        assert(out@ =~= "Default: "@ + default_engine_spec().description@ + menu_entries(
            without_default(table@.take(i as int)),
        ));
    }
    assert(table@.take(n as int) =~= table@);
    out
}

/// Key and terms of a selection typed without the menu's colon form.
pub open spec fn plain_parts(sel: Seq<char>) -> (Seq<char>, Seq<char>) {
    let first = match index_of(sel, ' ') {
        Some(i) => sel.take(i as int),
        None => sel,
    };
    let rest = match index_of(sel, ' ') {
        Some(i) => trim(sel.skip(i as int + 1)),
        None => seq![],
    };
    if first.len() > 0 && first[0] == '!' {
        (first.drop_first(), rest)
    } else {
        ("default"@, trim(sel))
    }
}

/// What a menu selection asks for: the engine key and the search terms.
/// A menu entry picked as it is (`!gh: github`) has empty terms.
pub open spec fn selection_parts(sel: Seq<char>) -> (Seq<char>, Seq<char>) {
    match split_once(sel, ':') {
        Some((choice, after)) => {
            let t = trim(after);
            if choice.len() > 0 && choice[0] == '!' {
                let bang = choice.drop_first();
                let desc = match lookup(menu_engine_table(), bang) {
                    Some(e) => e.description@,
                    None => seq![],
                };
                (
                    bang,
                    if t == desc {
                        seq![]
                    } else {
                        t
                    },
                )
            } else if starts_with(choice, "Default"@) {
                (
                    "default"@,
                    if t == default_engine_spec().description@ {
                        seq![]
                    } else {
                        t
                    },
                )
            } else {
                plain_parts(sel)
            }
        },
        None => plain_parts(sel),
    }
}

fn plain_selection(v: &Vec<char>) -> (r: (String, String))
    ensures
        (r.0@, r.1@) == plain_parts(v@),
{
    let n = v.len();
    let e = find_char(v, 0, n, ' ');
    proof {
        assert(v@.subrange(0, n as int) =~= v@);
        lemma_lead_bounds(v@, other_than(' '));
        reveal_strlit("default");
    }
    let (c, d) = if e < n {
        let (c, d) = trim_range(v, e + 1, n);
        assert(v@.skip(e + 1) =~= v@.subrange(e + 1, n as int));
        (c, d)
    } else {
        (n, n)
    };
    if e > 0 && v[0] == '!' {
        assert(v@.take(e as int).drop_first() =~= v@.subrange(1, e as int));
        assert(v@.subrange(n as int, n as int) =~= Seq::<char>::empty());
        (string_of(v, 1, e), string_of(v, c, d))
    } else {
        proof {
            if e < n {
                assert(v@.take(e as int).len() == e);
            } else {
                assert(v@.take(e as int) =~= v@);
            }
        }
        let (a, b) = trim_range(v, 0, n);
        let mut key = String::new();
        push_str(&mut key, "default");
        (key, string_of(v, a, b))
    }
}

/// Splits a menu selection into engine key and search terms.
pub fn parse_selection(selection: &str) -> (r: (String, String))
    ensures
        (r.0@, r.1@) == selection_parts(selection@),
{
    let v = to_chars(selection);
    let n = v.len();
    let colon = find_char(&v, 0, n, ':');
    proof {
        assert(v@.subrange(0, n as int) =~= v@);
        lemma_lead_bounds(v@, other_than(':'));
        reveal_strlit("Default");
        reveal_strlit("default");
    }
    if colon < n {
        let (a, b) = trim_range(&v, colon + 1, n);
        assert(v@.skip(colon + 1) =~= v@.subrange(colon + 1, n as int));
        assert(v@.take(colon as int) =~= v@.subrange(0, colon as int));
        if colon > 0 && v[0] == '!' {
            let bang = string_of(&v, 1, colon);
            assert(v@.take(colon as int).drop_first() =~= v@.subrange(1, colon as int));
            let desc = match find_engine(bang.as_str()) {
                Some(e) => to_chars(e.description),
                None => Vec::new(),
            };
            if range_eq(&v, a, b, &desc) {
                return (bang, String::new());
            } else {
                return (bang, string_of(&v, a, b));
            }
        }
        let prefix = to_chars("Default");
        if range_starts_with(&v, 0, colon, &prefix) {
            assert(v@.subrange(0, colon as int) == v@.take(colon as int));
            let default = default_engine();
            let desc = to_chars(default.description);
            let mut key = String::new();
            push_str(&mut key, "default");
            if range_eq(&v, a, b, &desc) {
                return (key, String::new());
            } else {
                return (key, string_of(&v, a, b));
            }
        }
    }
    plain_selection(&v)
}

/// The address opened for a selection: the engine's home page for empty
/// terms, else its search URL with the encoded terms.
pub open spec fn target_for(selection: Seq<char>) -> Seq<char> {
    let (key, terms) = selection_parts(selection);
    let engine = match lookup(menu_engine_table(), key) {
        Some(e) => e,
        None => default_engine_spec(),
    };
    if terms.len() == 0 {
        engine.home_url@
    } else {
        engine.search_url@ + query_encode(terms)
    }
}

/// The address to open for a menu selection.
pub fn search_target(selection: &str) -> (url: String)
    ensures
        url@ == target_for(selection@),
{
    let (key, terms) = parse_selection(selection);
    let engine = match find_engine(key.as_str()) {
        Some(e) => e,
        None => default_engine(),
    };
    let mut url = String::new();
    if terms.as_str().unicode_len() == 0 {
        push_str(&mut url, engine.home_url);
    } else {
        push_str(&mut url, engine.search_url);
        let q = url_encode(terms.as_str());
        push_str(&mut url, q.as_str());
    }
    url
}

/// Facts of the engine table the menu relies on: keys hold no `:`, keys are
/// distinct, and descriptions are non-empty without whitespace at their ends.
pub open spec fn menu_table_sound(t: Seq<Engine>) -> bool {
    &&& forall|i: int, k: int|
        0 <= i < t.len() && 0 <= k < t[i].key@.len() ==> #[trigger] t[i].key@[k] != ':'
    &&& forall|i: int, j: int| 0 <= j < i < t.len() ==> #[trigger] t[j].key@ != #[trigger] t[i].key@
    &&& forall|i: int|
        0 <= i < t.len() ==> (#[trigger] t[i].description@).len() > 0 && !is_ws(
            t[i].description@[0],
        ) && !is_ws(t[i].description@.last())
}

pub proof fn lemma_menu_table_sound()
    ensures
        menu_table_sound(menu_engine_table()),
{
    reveal_strlit("default");
    reveal_strlit("gh");
    reveal_strlit("rd");
    reveal_strlit("rs");
    reveal_strlit("r");
    reveal_strlit("yt");
    reveal_strlit("t");
    reveal_strlit("sp");
    reveal_strlit("ddg");
    reveal_strlit("w");
    reveal_strlit("google");
    reveal_strlit("github");
    reveal_strlit("rdocumentation");
    reveal_strlit("rust docs");
    reveal_strlit("reddit");
    reveal_strlit("youtube");
    reveal_strlit("twitch");
    reveal_strlit("spotify");
    reveal_strlit("duckduckgo");
    reveal_strlit("wikipedia");
    let t = menu_engine_table();
    assert(t.len() == 10);
    assert forall|i: int, k: int| 0 <= i < t.len() && 0 <= k < t[i].key@.len() implies #[trigger] t[i].key@[k]
        != ':' by {
        if i == 0 { } else if i == 1 { } else if i == 2 { } else if i == 3 { } else if i == 4 { }
        else if i == 5 { } else if i == 6 { } else if i == 7 { } else if i == 8 { } else { }
    }
    assert forall|i: int, j: int| 0 <= j < i < t.len() implies #[trigger] t[j].key@
        != #[trigger] t[i].key@ by {
        if t[j].key@ == t[i].key@ {
            assert(t[j].key@.len() == t[i].key@.len());
            assert(t[j].key@[0] == t[i].key@[0]);
            if t[i].key@.len() > 1 {
                assert(t[j].key@[1] == t[i].key@[1]);
            }
        }
    }
    assert forall|i: int| 0 <= i < t.len() implies (#[trigger] t[i].description@).len() > 0
        && !is_ws(t[i].description@[0]) && !is_ws(t[i].description@.last()) by {
        if i == 0 { } else if i == 1 { } else if i == 2 { } else if i == 3 { } else if i == 4 { }
        else if i == 5 { } else if i == 6 { } else if i == 7 { } else if i == 8 { } else { }
    }
}

/// The engine found for the key of the `i`-th engine is that engine, when
/// keys are distinct.
proof fn lemma_lookup_distinct(t: Seq<Engine>, i: int)
    requires
        0 <= i < t.len(),
        forall|a: int, b: int| 0 <= b < a < t.len() ==> #[trigger] t[b].key@ != #[trigger] t[a].key@,
    ensures
        lookup(t, t[i].key@) == Some(t[i]),
    decreases i,
{
    if i > 0 {
        assert(t[0].key@ != t[i].key@);
        let u = t.drop_first();
        assert forall|a: int, b: int| 0 <= b < a < u.len() implies #[trigger] u[b].key@
            != #[trigger] u[a].key@ by {
            assert(u[b] == t[b + 1]);
            assert(u[a] == t[a + 1]);
        }
        assert(u[i - 1] == t[i]);
        lemma_lookup_distinct(u, i - 1);
    }
}

/// Picking a menu entry as it is: the line `!key: description` of any
/// engine opens that engine's home page, and so does `Default: google`.
pub proof fn lemma_menu_entry_opens_home(i: int)
    requires
        0 <= i < engine_table().len(),
    ensures
        ({
            let e = menu_engine_table()[i];
            target_for("!"@ + e.key@ + ": "@ + e.description@) == e.home_url@
        }),
        target_for("Default: "@ + default_engine_spec().description@)
            == default_engine_spec().home_url@,
{
    lemma_menu_table_sound();
    reveal_strlit("!");
    reveal_strlit(": ");
    reveal_strlit("Default: ");
    reveal_strlit("Default");
    reveal_strlit("default");
    reveal_strlit("google");
    let t = menu_engine_table();
    let e = t[i];
    let line = "!"@ + e.key@ + ": "@ + e.description@;
    let klen = e.key@.len() as int;
    assert forall|j: int| 0 <= j < 1 + klen implies (other_than(':'))(#[trigger] line[j]) by {
        if j > 0 {
            assert(line[j] == e.key@[j - 1]);
        }
    }
    assert(line[1 + klen] == ':');
    lemma_lead_is(line, other_than(':'), 1 + klen);
    let choice = line.take(1 + klen);
    let after = line.skip(2 + klen);
    assert(choice.drop_first() =~= e.key@);
    assert(after =~= seq![' '] + e.description@);
    assert(after[0] == ' ');
    lemma_lead_is(after, ws_pred(), 1);
    assert(trim_start(after) =~= e.description@);
    lemma_trim_of_trimmed(e.description@);
    lemma_lookup_distinct(t, i);
    assert(trim(after) == e.description@);
    // the default entry
    let d = "Default: "@ + default_engine_spec().description@;
    assert forall|j: int| 0 <= j < 7 implies (other_than(':'))(#[trigger] d[j]) by {}
    assert(d[7] == ':');
    lemma_lead_is(d, other_than(':'), 7);
    let dafter = d.skip(8);
    assert(dafter =~= seq![' '] + "google"@);
    lemma_lead_is(dafter, ws_pred(), 1);
    assert(trim_start(dafter) =~= "google"@);
    lemma_trim_of_trimmed("google"@);
    assert(d.take(7) =~= "Default"@);
    assert(d.take(7).take(7) =~= d.take(7));
    assert(starts_with(d.take(7), "Default"@));
    assert(d.take(7)[0] != '!');
    assert(index_of(d, ':') == Some(7nat));
    assert(split_once(d, ':') == Some((d.take(7), dafter)));
    assert(trim(dafter) == default_engine_spec().description@);
    assert(selection_parts(d) == ("default"@, Seq::<char>::empty()));
    lemma_default_engine_listed();
}

/// The launcher's selection: nothing when it failed or printed only blanks,
/// else its trimmed output.
pub fn selection_from_output(success: bool, output: &str) -> (r: Option<String>)
    ensures
        !success ==> r is None,
        success ==> match r {
            Some(sel) => trim(output@).len() > 0 && sel@ == trim(output@),
            None => trim(output@).len() == 0,
        },
{
    if !success {
        return None;
    }
    let v = to_chars(output);
    let (a, b) = trim_range(&v, 0, v.len());
    assert(v@.subrange(0, v@.len() as int) =~= v@);
    if a == b {
        None
    } else {
        Some(string_of(&v, a, b))
    }
}

/// A menu program and its arguments.
pub struct Launcher<'a> {
    pub program: &'a str,
    pub args: &'a [&'a str],
}

impl<'a> Launcher<'a> {
    /// A launcher running `program` with `args`.
    pub fn new(program: &'a str, args: &'a [&'a str]) -> (l: Self)
        ensures
            l.program == program,
            l.args == args,
    {
        Self { program, args }
    }
}

/// The launcher for a session: `fuzzel` on Wayland, `rofi` elsewhere.
pub fn launcher_for(session_type: &str) -> (l: Launcher<'static>)
    ensures
        session_type@ == "wayland"@ ==> l.program@ == "fuzzel"@ && l.args@.map_values(
            |a: &str| a@,
        ) == seq!["--dmenu"@, "--prompt"@, "search:"@],
        session_type@ != "wayland"@ ==> l.program@ == "rofi"@ && l.args@.map_values(
            |a: &str| a@,
        ) == seq!["-dmenu"@, "-p"@, "search:"@, "-mesg"@, "search options"@],
{
    if str_eq(session_type, "wayland") {
        let l = Launcher::new("fuzzel", &["--dmenu", "--prompt", "search:"]);
        assert(l.args@.map_values(|a: &str| a@) =~= seq!["--dmenu"@, "--prompt"@, "search:"@]);
        l
    } else {
        let l = Launcher::new("rofi", &["-dmenu", "-p", "search:", "-mesg", "search options"]);
        assert(l.args@.map_values(|a: &str| a@) =~= seq![
            "-dmenu"@,
            "-p"@,
            "search:"@,
            "-mesg"@,
            "search options"@,
        ]);
        l
    }
}

} // verus!
