//! Dunst notification status for Waybar (JSON) and Polybar (plain text).

use vstd::prelude::*;
use crate::luks::{argv_view, push_arg};
use crate::numbers::{
    all_digits, decimal, digits_value, lemma_decimal_reads_back, parse_u64, parse_u64_spec,
    push_decimal,
};
use crate::text::{push_str, str_eq, to_chars, trim, trim_range, range_eq};

verus! {

/// How the status is printed.
#[derive(Clone, Copy, Debug, PartialEq, Eq, Structural)]
pub enum OutputMode {
    /// Waybar JSON.
    Json,
    /// Polybar text.
    Plain,
    /// JSON on Wayland sessions, text elsewhere.
    Auto,
}

/// One member of a JSON object: a key and a string value or `null`.
#[derive(Debug)]
pub struct JsonField {
    pub key: String,
    pub value: Option<String>,
}

/// The keys and values of a list of members.
pub open spec fn fields_view(fields: Seq<JsonField>) -> Seq<(Seq<char>, Option<Seq<char>>)> {
    fields.map_values(
        |f: JsonField|
            (
                f.key@,
                match f.value {
                    Some(v) => Some(v@),
                    None => None,
                },
            ),
    )
}

/// The compact JSON text `serde_json` writes for an object with these
/// members (string values, `null` for `None`).
pub uninterp spec fn json_object_text(fields: Seq<(Seq<char>, Option<Seq<char>>)>) -> Seq<char>;

/// `serde_json`: writes the members as a `serde_json::Map` of string and
/// null values and serialises it with `Value::to_string`; the text is named
/// `json_object_text` of the members.
#[verifier::external_body]
fn json_object(fields: &Vec<JsonField>) -> (r: String)
    ensures
        r@ == json_object_text(fields_view(fields@)),
{
    let mut map = serde_json::Map::new();
    for f in fields {
        let value = match &f.value {
            Some(s) => serde_json::Value::String(s.clone()),
            None => serde_json::Value::Null,
        };
        map.insert(f.key.clone(), value);
    }
    serde_json::Value::Object(map).to_string()
}

fn field(key: &str, value: Option<&str>) -> (f: JsonField)
    ensures
        f.key@ == key@,
        match value {
            Some(v) => f.value matches Some(s) && s@ == v@,
            None => f.value is None,
        },
{
    let mut k = String::new();
    push_str(&mut k, key);
    let v = match value {
        Some(v) => {
            let mut s = String::new();
            push_str(&mut s, v);
            Some(s)
        },
        None => None,
    };
    JsonField { key: k, value: v }
}

/// The session is a Wayland session.
pub fn is_wayland_session(session_type: Option<&str>) -> (b: bool)
    ensures
        b == match session_type {
            Some(t) => t@ == "wayland"@,
            None => false,
        },
{
    match session_type {
        Some(t) => str_eq(t, "wayland"),
        None => false,
    }
}

/// Whether the status is printed as JSON.
pub open spec fn emits_json(mode: OutputMode, is_wayland: bool) -> bool {
    match mode {
        OutputMode::Json => true,
        OutputMode::Plain => false,
        OutputMode::Auto => is_wayland,
    }
}

/// Whether the status is printed as JSON.
pub fn emit_json(mode: OutputMode, is_wayland: bool) -> (b: bool)
    ensures
        b == emits_json(mode, is_wayland),
{
    match mode {
        OutputMode::Json => true,
        OutputMode::Plain => false,
        OutputMode::Auto => is_wayland,
    }
}

/// Dunst is paused: its `paused` property, else a positive `pauseLevel`,
/// else not paused (when neither property could be read).
pub fn is_paused(paused: Option<bool>, pause_level: Option<i32>) -> (b: bool)
    ensures
        b == match paused {
            Some(p) => p,
            None => match pause_level {
                Some(l) => l > 0,
                None => false,
            },
        },
{
    match paused {
        Some(p) => p,
        None => match pause_level {
            Some(l) => l > 0,
            None => false,
        },
    }
}

/// The icon shown while notifications are paused.
pub open spec fn paused_icon() -> Seq<char> {
    seq!['\u{f1f7}']
}

/// The icon shown while notifications are shown.
pub open spec fn active_icon() -> Seq<char> {
    seq!['\u{f0a2}']
}

/// The Polybar text for a paused / active status.
pub open spec fn plain_text(paused: bool) -> Seq<char> {
    if paused {
        "%{F#821717}\u{f0f3} %{F-}"@
    } else {
        "\u{f0f3}"@
    }
}

/// The text of the paused badge: the icon, and the number of waiting
/// notifications when there are any.
pub open spec fn paused_badge(waiting: nat) -> Seq<char> {
    if waiting > 0 {
        paused_icon() + " "@ + decimal(waiting)
    } else {
        paused_icon()
    }
}

/// The status line of the dunst monitor.
pub open spec fn status_line(
    paused: bool,
    waiting_count: u32,
    num_notifications: u32,
    mode: OutputMode,
    is_wayland: bool,
) -> Seq<char> {
    if emits_json(mode, is_wayland) {
        let tooltip = decimal(num_notifications as nat) + " notifications in history"@;
        if paused {
            json_object_text(
                seq![
                    ("text"@, Some(paused_badge(waiting_count as nat))),
                    ("class"@, Some("paused"@)),
                    ("alt"@, None),
                    ("tooltip"@, Some(tooltip)),
                ],
            )
        } else {
            json_object_text(
                seq![
                    ("text"@, Some(active_icon())),
                    ("class"@, Some("active"@)),
                    ("alt"@, Some("active"@)),
                    ("tooltip"@, Some(tooltip)),
                ],
            )
        }
    } else {
        plain_text(paused)
    }
}

fn push_icon(s: &mut String, paused: bool)
    ensures
        final(s)@ == old(s)@ + (if paused {
            paused_icon()
        } else {
            active_icon()
        }),
{
    if paused {
        crate::text::push_char(s, '\u{f1f7}');
    } else {
        crate::text::push_char(s, '\u{f0a2}');
    }
}

fn paused_badge_string(waiting: u64) -> (s: String)
    ensures
        s@ == paused_badge(waiting as nat),
{
    let mut s = String::new();
    push_icon(&mut s, true);
    if waiting > 0 {
        push_str(&mut s, " ");
        push_decimal(&mut s, waiting);
    }
    assert(s@ =~= paused_badge(waiting as nat));
    s
}

fn plain_string(paused: bool) -> (s: String)
    ensures
        s@ == plain_text(paused),
{
    let mut s = String::new();
    if paused {
        push_str(&mut s, "%{F#821717}\u{f0f3} %{F-}");
    } else {
        push_str(&mut s, "\u{f0f3}");
    }
    s
}

/// The status line for the dunst properties read over D-Bus (`None`: the
/// property could not be read): a Waybar JSON object (`text`, `class`,
/// `alt`, `tooltip`) or the Polybar text. Unreadable counts are 0.
pub fn get_status(
    paused: Option<bool>,
    pause_level: Option<i32>,
    waiting_length: Option<u32>,
    history_length: Option<u32>,
    mode: OutputMode,
    is_wayland: bool,
) -> (s: String)
    ensures
        s@ == status_line(
            match paused {
                Some(p) => p,
                None => match pause_level {
                    Some(l) => l > 0,
                    None => false,
                },
            },
            match waiting_length {
                Some(n) => n,
                None => 0,
            },
            match history_length {
                Some(n) => n,
                None => 0,
            },
            mode,
            is_wayland,
        ),
{
    let paused = is_paused(paused, pause_level);
    let waiting_count: u32 = match waiting_length {
        Some(n) => n,
        None => 0,
    };
    let num_notifications: u32 = match history_length {
        Some(n) => n,
        None => 0,
    };
    if emit_json(mode, is_wayland) {
        let mut tooltip = String::new();
        push_decimal(&mut tooltip, num_notifications as u64);
        push_str(&mut tooltip, " notifications in history");
        let mut fields: Vec<JsonField> = Vec::new();
        if paused {
            let badge = paused_badge_string(waiting_count as u64);
            fields.push(field("text", Some(badge.as_str())));
            fields.push(field("class", Some("paused")));
            fields.push(field("alt", None));
        } else {
            let mut icon = String::new();
            push_icon(&mut icon, false);
            fields.push(field("text", Some(icon.as_str())));
            fields.push(field("class", Some("active")));
            fields.push(field("alt", Some("active")));
        }
        fields.push(field("tooltip", Some(tooltip.as_str())));
        proof {
            let expected = if paused {
                seq![
                    ("text"@, Some(paused_badge(waiting_count as nat))),
                    ("class"@, Some("paused"@)),
                    ("alt"@, None),
                    ("tooltip"@, Some(tooltip@)),
                ]
            } else {
                seq![
                    ("text"@, Some(active_icon())),
                    ("class"@, Some("active"@)),
                    ("alt"@, Some("active"@)),
                    ("tooltip"@, Some(tooltip@)),
                ]
            };
            assert(fields_view(fields@) =~= expected);
        }
        json_object(&fields)
    } else {
        plain_string(paused)
    }
}

/// Keeps the last printed status so that repeated property signals for one
/// change print nothing.
#[derive(Debug)]
pub struct StatusTracker {
    pub last: String,
}

impl StatusTracker {
    /// Starts with the first status, which is always printed.
    pub fn new(first: String) -> (r: (StatusTracker, String))
        ensures
            r.0.last@ == first@,
            r.1@ == first@,
    {
        let shown = first.clone();
        (StatusTracker { last: first }, shown)
    }

    /// A newly read status: printed only when it differs from the last one.
    pub fn observe(&mut self, status: String) -> (shown: Option<String>)
        ensures
            old(self).last@ == status@ ==> shown is None && final(self).last@ == old(self).last@,
            old(self).last@ != status@ ==> (shown matches Some(s) && s@ == status@)
                && final(self).last@ == status@,
    {
        if str_eq(self.last.as_str(), status.as_str()) {
            None
        } else {
            let shown = status.clone();
            self.last = status;
            Some(shown)
        }
    }
}

/// The status line printed from `dunstctl` answers: JSON with `text`,
/// `class` (paused) or `alt` (active), and `tooltip`; or the Polybar text.
pub open spec fn report_line(
    paused: bool,
    waiting_count: u64,
    num_notifications: u64,
    mode: OutputMode,
    is_wayland: bool,
) -> Seq<char> {
    if emits_json(mode, is_wayland) {
        let tooltip = decimal(num_notifications as nat);
        if paused {
            json_object_text(
                seq![
                    ("text"@, Some(paused_badge(waiting_count as nat))),
                    ("class"@, Some("paused"@)),
                    ("tooltip"@, Some(tooltip)),
                ],
            )
        } else {
            json_object_text(
                seq![
                    ("text"@, Some(active_icon())),
                    ("alt"@, Some("active"@)),
                    ("tooltip"@, Some(tooltip)),
                ],
            )
        }
    } else {
        plain_text(paused)
    }
}

/// The status line printed from `dunstctl` answers.
pub fn status_report(
    paused: bool,
    waiting_count: u64,
    num_notifications: u64,
    mode: OutputMode,
    is_wayland: bool,
) -> (s: String)
    ensures
        s@ == report_line(paused, waiting_count, num_notifications, mode, is_wayland),
{
    if emit_json(mode, is_wayland) {
        let mut tooltip = String::new();
        push_decimal(&mut tooltip, num_notifications);
        let mut fields: Vec<JsonField> = Vec::new();
        if paused {
            let badge = paused_badge_string(waiting_count);
            fields.push(field("text", Some(badge.as_str())));
            fields.push(field("class", Some("paused")));
        } else {
            let mut icon = String::new();
            push_icon(&mut icon, false);
            fields.push(field("text", Some(icon.as_str())));
            fields.push(field("alt", Some("active")));
        }
        fields.push(field("tooltip", Some(tooltip.as_str())));
        proof {
            let expected = if paused {
                seq![
                    ("text"@, Some(paused_badge(waiting_count as nat))),
                    ("class"@, Some("paused"@)),
                    ("tooltip"@, Some(tooltip@)),
                ]
            } else {
                seq![
                    ("text"@, Some(active_icon())),
                    ("alt"@, Some("active"@)),
                    ("tooltip"@, Some(tooltip@)),
                ]
            };
            assert(fields_view(fields@) =~= expected);
        }
        json_object(&fields)
    } else {
        plain_string(paused)
    }
}

/// `dunstctl is-paused` answered `true` (surrounding whitespace ignored).
pub fn paused_from_output(output: &str) -> (b: bool)
    ensures
        b == (trim(output@) == "true"@),
{
    let v = to_chars(output);
    let (a, b) = trim_range(&v, 0, v.len());
    assert(v@.subrange(0, v@.len() as int) =~= v@);
    let t = to_chars("true");
    range_eq(&v, a, b, &t)
}

/// The count printed by `dunstctl count waiting`; 0 when it is not a number.
pub fn waiting_from_output(output: &str) -> (n: u64)
    ensures
        n == match parse_u64_spec(trim(output@)) {
            Some(v) => v,
            None => 0,
        },
{
    let v = to_chars(output);
    let (a, b) = trim_range(&v, 0, v.len());
    assert(v@.subrange(0, v@.len() as int) =~= v@);
    let t = crate::text::string_of(&v, a, b);
    match parse_u64(t.as_str()) {
        Some(n) => n,
        None => 0,
    }
}

/// What the command line asks of the dunstctl-based monitor.
#[derive(Clone, Copy, Debug, PartialEq, Eq, Structural)]
pub enum ModeRequest {
    Mode(OutputMode),
    Help,
}

/// Why the dunstctl-based monitor stopped.
#[derive(Debug)]
pub enum NotifiError {
    /// `--json` and `--plain` were both given.
    ConflictingModes,
    UnknownArgument { arg: String },
    /// `dunstctl` is not installed.
    Unavailable,
    /// A `dunstctl` run reported failure; its arguments.
    CommandFailed { args: String },
    /// The history is not JSON; the parser's description.
    BadHistory { reason: String },
}

impl NotifiError {
    pub open spec fn text(&self) -> Seq<char> {
        match self {
            NotifiError::ConflictingModes => "cannot combine --json and --plain"@,
            NotifiError::UnknownArgument { arg } => "unknown argument: "@ + arg@,
            NotifiError::Unavailable => "dunstctl not available"@,
            NotifiError::CommandFailed { args } => "dunstctl command failed: "@ + args@,
            NotifiError::BadHistory { reason } => reason@,
        }
    }

    /// The message shown for the error.
    pub fn message(&self) -> (s: String)
        ensures
            s@ == self.text(),
    {
        let mut s = String::new();
        match self {
            NotifiError::ConflictingModes => push_str(&mut s, "cannot combine --json and --plain"),
            NotifiError::UnknownArgument { arg } => {
                push_str(&mut s, "unknown argument: ");
                push_str(&mut s, arg.as_str());
            },
            NotifiError::Unavailable => push_str(&mut s, "dunstctl not available"),
            NotifiError::CommandFailed { args } => {
                push_str(&mut s, "dunstctl command failed: ");
                push_str(&mut s, args.as_str());
            },
            NotifiError::BadHistory { reason } => push_str(&mut s, reason.as_str()),
        }
        s
    }
}

/// The words joined by single spaces (`[&str]::join(" ")`).
pub open spec fn joined(words: Seq<Seq<char>>) -> Seq<char>
    decreases words.len(),
{
    if words.len() == 0 {
        seq![]
    } else if words.len() == 1 {
        words[0]
    } else {
        joined(words.drop_last()) + " "@ + words.last()
    }
}

/// The error for a failed `dunstctl` run with these arguments.
pub fn command_failed(args: &Vec<String>) -> (e: NotifiError)
    ensures
        e matches NotifiError::CommandFailed { args: a } && a@ == joined(argv_view(args@)),
{
    let mut s = String::new();
    let n = args.len();
    let mut i: usize = 0;
    while i < n
        invariant
            i <= n == args@.len(),
            s@ == joined(argv_view(args@).take(i as int)),
        decreases n - i,
    {
        let ghost w = argv_view(args@).take(i + 1);
        assert(w.drop_last() =~= argv_view(args@).take(i as int));
        assert(w.last() == args@[i as int]@);
        if i > 0 {
            push_str(&mut s, " ");
        } else {
            assert(argv_view(args@).take(0) =~= Seq::<Seq<char>>::empty());
        }
        push_str(&mut s, args[i].as_str());
        proof {
            if i == 0 {
                assert(s@ =~= w[0]);
            }
        }
        i += 1;
    }
    assert(argv_view(args@).take(n as int) =~= argv_view(args@));
    NotifiError::CommandFailed { args: s }
}

/// What the arguments ask for, read left to right from mode `cur`: a mode,
/// help (which stops the reading), a conflict (`None`) or an unknown argument.
pub open spec fn scan_mode_args(args: Seq<Seq<char>>, cur: OutputMode) -> Result<
    ModeRequest,
    Option<Seq<char>>,
>
    decreases args.len(),
{
    if args.len() == 0 {
        Ok(ModeRequest::Mode(cur))
    } else {
        let a = args[0];
        if a == "--json"@ {
            if cur == OutputMode::Plain {
                Err(None)
            } else {
                scan_mode_args(args.drop_first(), OutputMode::Json)
            }
        } else if a == "--plain"@ {
            if cur == OutputMode::Json {
                Err(None)
            } else {
                scan_mode_args(args.drop_first(), OutputMode::Plain)
            }
        } else if a == "-h"@ || a == "--help"@ {
            Ok(ModeRequest::Help)
        } else {
            Err(Some(a))
        }
    }
}

/// Reads the output mode from the arguments after the program name.
pub fn parse_output_mode(args: &Vec<String>) -> (r: Result<ModeRequest, NotifiError>)
    ensures
        match scan_mode_args(argv_view(args@), OutputMode::Auto) {
            Ok(m) => r == Ok::<ModeRequest, NotifiError>(m),
            Err(None) => r matches Err(NotifiError::ConflictingModes),
            Err(Some(a)) => r matches Err(NotifiError::UnknownArgument { arg }) && arg@ == a,
        },
{
    let mut mode = OutputMode::Auto;
    let n = args.len();
    let mut i: usize = 0;
    let ghost all = argv_view(args@);
    assert(all.skip(0) =~= all);
    while i < n
        invariant
            i <= n == args@.len(),
            all == argv_view(args@),
            scan_mode_args(all, OutputMode::Auto) == scan_mode_args(all.skip(i as int), mode),
        decreases n - i,
    {
        let arg = args[i].as_str();
        let ghost rest = all.skip(i as int);
        assert(rest[0] == arg@);
        assert(rest.drop_first() =~= all.skip(i + 1));
        if str_eq(arg, "--json") {
            if mode == OutputMode::Plain {
                return Err(NotifiError::ConflictingModes);
            }
            mode = OutputMode::Json;
        } else if str_eq(arg, "--plain") {
            if mode == OutputMode::Json {
                return Err(NotifiError::ConflictingModes);
            }
            mode = OutputMode::Plain;
        } else if str_eq(arg, "-h") || str_eq(arg, "--help") {
            return Ok(ModeRequest::Help);
        } else {
            let mut a = String::new();
            push_str(&mut a, arg);
            return Err(NotifiError::UnknownArgument { arg: a });
        }
        i += 1;
    }
    Ok(ModeRequest::Mode(mode))
}

/// The help text, line by line.
pub open spec fn help_text() -> Seq<Seq<char>> {
    seq![
        "Usage: notifi [--json|--plain]"@,
        ""@,
        "  --json   Force Waybar JSON output"@,
        "  --plain  Force Polybar plain-text output"@,
    ]
}

/// The help text, line by line.
pub fn help_lines() -> (lines: Vec<String>)
    ensures
        argv_view(lines@) == help_text(),
{
    let mut lines: Vec<String> = Vec::new();
    push_arg(&mut lines, "Usage: notifi [--json|--plain]");
    push_arg(&mut lines, "");
    push_arg(&mut lines, "  --json   Force Waybar JSON output");
    push_arg(&mut lines, "  --plain  Force Polybar plain-text output");
    assert(argv_view(lines@) =~= help_text());
    lines
}

/// A JSON document as the history reader sees it.
#[derive(Debug)]
pub enum JsonValue {
    Null,
    Bool(bool),
    /// A number, in the text `serde_json` writes for it.
    Number(String),
    Str(String),
    Array(Vec<JsonValue>),
    /// Members in key order; keys are distinct.
    Object(Vec<(String, JsonValue)>),
}

/// The mathematical form of a JSON document.
pub enum JsonView {
    Null,
    Bool(bool),
    Number(Seq<char>),
    Str(Seq<char>),
    Array(Seq<JsonView>),
    Object(Seq<(Seq<char>, JsonView)>),
}

impl JsonValue {
    pub open spec fn json_view(self) -> JsonView
        decreases self,
    {
        match self {
            JsonValue::Null => JsonView::Null,
            JsonValue::Bool(b) => JsonView::Bool(b),
            JsonValue::Number(n) => JsonView::Number(n@),
            JsonValue::Str(s) => JsonView::Str(s@),
            JsonValue::Array(items) => JsonView::Array(
                Seq::new(
                    items@.len(),
                    |i: int|
                        {
                            if 0 <= i < items@.len() {
                                proof {
                                    assert(decreases_to!(items => items@));
                                    assert(decreases_to!(items@ => items@[i]));
                                }
                                items@[i].json_view()
                            } else {
                                JsonView::Null
                            }
                        },
                ),
            ),
            JsonValue::Object(members) => JsonView::Object(
                Seq::new(
                    members@.len(),
                    |i: int|
                        {
                            if 0 <= i < members@.len() {
                                proof {
                                    assert(decreases_to!(members => members@));
                                    assert(decreases_to!(members@ => members@[i]));
                                    assert(decreases_to!(members@[i] => members@[i].1));
                                }
                                (members@[i].0@, members@[i].1.json_view())
                            } else {
                                (seq![], JsonView::Null)
                            }
                        },
                ),
            ),
        }
    }
}

#[verifier::external_type_specification]
#[verifier::external_body]
pub struct ExSerdeJsonValue(serde_json::Value);

#[verifier::external_type_specification]
#[verifier::external_body]
pub struct ExSerdeJsonError(serde_json::Error);

/// The document `serde_json` reads from a text (`None`: not valid JSON).
pub uninterp spec fn json_document(raw: Seq<char>) -> Option<JsonView>;

/// `serde_json::from_str::<serde_json::Value>`, converted member by member
/// into a [`JsonValue`]; the result is named `json_document` of the text.
#[verifier::external_body]
fn parse_json(raw: &str) -> (r: Result<JsonValue, serde_json::Error>)
    ensures
        match r {
            Ok(v) => json_document(raw@) == Some(v.json_view()),
            Err(_) => json_document(raw@) is None,
        },
{
    serde_json::from_str::<serde_json::Value>(raw).map(|v| from_serde(&v))
}

/// The same value as a [`JsonValue`], one variant for each variant.
#[verifier::external_body]
fn from_serde(v: &serde_json::Value) -> JsonValue {
    match v {
        serde_json::Value::Null => JsonValue::Null,
        serde_json::Value::Bool(b) => JsonValue::Bool(*b),
        serde_json::Value::Number(n) => JsonValue::Number(n.to_string()),
        serde_json::Value::String(s) => JsonValue::Str(s.clone()),
        serde_json::Value::Array(a) => JsonValue::Array(a.iter().map(from_serde).collect()),
        serde_json::Value::Object(m) => JsonValue::Object(
            m.iter().map(|(k, x)| (k.clone(), from_serde(x))).collect(),
        ),
    }
}

/// `serde_json::Error`'s `Display` text.
#[verifier::external_body]
fn json_error_text(e: &serde_json::Error) -> String {
    e.to_string()
}

/// The value of the member named `key`, if any.
pub open spec fn member(members: Seq<(Seq<char>, JsonView)>, key: Seq<char>) -> Option<JsonView>
    decreases members.len(),
{
    if members.len() == 0 {
        None
    } else if members[0].0 == key {
        Some(members[0].1)
    } else {
        member(members.drop_first(), key)
    }
}

/// The number of notifications in the history document: the length of the
/// first array of its `data` array; 0 when the document has another shape.
pub open spec fn history_length(doc: JsonView) -> nat {
    match doc {
        JsonView::Object(members) => match member(members, "data"@) {
            Some(JsonView::Array(items)) => if items.len() > 0 {
                match items[0] {
                    JsonView::Array(inner) => inner.len(),
                    _ => 0,
                }
            } else {
                0
            },
            _ => 0,
        },
        _ => 0,
    }
}

/// The number of notifications in a history document.
pub fn history_length_of(doc: &JsonValue) -> (n: usize)
    ensures
        n == history_length(doc.json_view()),
{
    let members = match doc {
        JsonValue::Object(m) => m,
        _ => return 0,
    };
    let ghost mv = match doc.json_view() {
        JsonView::Object(ms) => ms,
        _ => seq![],
    };
    let k = members.len();
    let mut i: usize = 0;
    assert(mv.skip(0) =~= mv);
    while i < k
        invariant
            i <= k == members@.len() == mv.len(),
            doc.json_view() == JsonView::Object(mv),
            *doc == JsonValue::Object(*members),
            forall|j: int| 0 <= j < k ==> #[trigger] mv[j] == (members@[j].0@, members@[j].1.json_view()),
            member(mv, "data"@) == member(mv.skip(i as int), "data"@),
        decreases k - i,
    {
        assert(mv.skip(i as int)[0] == mv[i as int]);
        if str_eq(members[i].0.as_str(), "data") {
            let data = &members[i].1;
            assert(member(mv.skip(i as int), "data"@) == Some(data.json_view()));
            return match data {
                JsonValue::Array(items) => {
                    if items.len() > 0 {
                        let first = &items[0];
                        assert(data.json_view() matches JsonView::Array(xs) && xs.len() == items@.len()
                            && xs[0] == first.json_view());
                        match first {
                            JsonValue::Array(inner) => {
                                assert(first.json_view() matches JsonView::Array(ys) && ys.len()
                                    == inner@.len());
                                inner.len()
                            },
                            _ => 0,
                        }
                    } else {
                        0
                    }
                },
                _ => 0,
            };
        }
        assert(mv.skip(i as int).drop_first() =~= mv.skip(i + 1));
        i += 1;
    }
    0
}

/// The number of notifications in `dunstctl history` output.
pub fn history_count(history_raw: &str) -> (r: Result<usize, NotifiError>)
    ensures
        match json_document(history_raw@) {
            Some(doc) => r == Ok::<usize, NotifiError>(history_length(doc) as usize),
            None => r matches Err(NotifiError::BadHistory { .. }),
        },
{
    match parse_json(history_raw) {
        Ok(doc) => Ok(history_length_of(&doc)),
        Err(e) => Err(NotifiError::BadHistory { reason: json_error_text(&e) }),
    }
}

/// The paused badge shows the waiting count: with no notification waiting it
/// is the bare paused icon; with `n > 0` waiting it is the icon, a space and
/// digits that read back as `n`.
pub proof fn lemma_badge_shows_waiting(n: nat)
    ensures
        n == 0 ==> paused_badge(n) == paused_icon(),
        n > 0 ==> {
            let b = paused_badge(n);
            &&& b.len() > 2
            &&& b.take(2) == paused_icon() + " "@
            &&& all_digits(b.skip(2))
            &&& digits_value(b.skip(2)) == n
        },
{
    reveal_strlit(" ");
    if n > 0 {
        lemma_decimal_reads_back(n);
        let b = paused_badge(n);
        assert(b.take(2) =~= paused_icon() + " "@);
        assert(b.skip(2) =~= decimal(n));
    }
}

} // verus!
