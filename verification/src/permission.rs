//! The permission dialog: what it shows of a tool's request for permission (icon, title,
//! body, the requested escalation, the input laid out line by line) and how its stages
//! answer keys.
use vstd::prelude::*;
use crate::input::{lines_of, text_lines};
use crate::keys::KeyCode;
use crate::text::{
    char_to_uppercase, chars_of, decimal, first_chars, pop_char, push_char, push_decimal, str_eq,
    string_of_range, take_chars, uppercase_of_char, views,
};

verus! {

/// The answer to a permission request.
#[derive(Debug, Clone, Copy, PartialEq, Eq, Structural)]
pub enum PermissionAction {
    Approve,
    Deny,
    AlwaysAllow,
}

/// The stages of the permission dialog.
#[derive(Debug, Clone, Copy, PartialEq, Eq, Structural)]
pub enum PermissionStage {
    Permission,
    AlwaysConfirm,
    RejectMessage,
}

impl Default for PermissionStage {
    fn default() -> (s: Self)
        ensures
            s == PermissionStage::Permission,
    {
        PermissionStage::Permission
    }
}

/// How much a tool may do without asking.
#[derive(Debug, Clone, Copy, PartialEq, Eq, Structural)]
pub enum PermissionMode {
    ReadOnly,
    WorkspaceWrite,
    DangerFullAccess,
    Prompt,
    Allow,
}

/// A tool's request for permission: the tool, its input as sent (often JSON), the mode in
/// force, the mode it needs, and why.
#[derive(Debug, Clone)]
pub struct PermissionRequest {
    pub tool_name: String,
    pub input: String,
    pub current_mode: PermissionMode,
    pub required_mode: PermissionMode,
    pub reason: Option<String>,
}

/// What the dialog shows of a request: an icon, a title and body lines.
#[derive(Debug, Clone)]
pub struct PermissionDisplayInfo {
    pub icon: char,
    pub title: String,
    pub body: Vec<String>,
}

// ---------------------------------------------------------------------------
// Fields of a JSON input
// ---------------------------------------------------------------------------

/// The string that `serde_json` finds at key `field` of the JSON object parsed from
/// `input`, if `input` parses as JSON, has that key, and the value there is a string.
pub uninterp spec fn json_string_field(input: Seq<char>, field: Seq<char>) -> Option<Seq<char>>;

/// Parses `input` with `serde_json::from_str` into a `serde_json::Value`, looks up `field`
/// with `Value::get` and takes the string with `Value::as_str`. The contract names the
/// result; it says nothing of JSON syntax.
#[verifier::external_body]
fn extract_json_field(input: &str, field: &str) -> (r: Option<String>)
    ensures
        match r {
            Some(s) => json_string_field(input@, field@) == Some(s@),
            None => json_string_field(input@, field@) is None,
        },
{
    match serde_json::from_str::<serde_json::Value>(input) {
        Ok(val) => match val.get(field) {
            Some(v) => match v.as_str() {
                Some(s) => Some(s.to_string()),
                None => None,
            },
            None => None,
        },
        Err(_) => None,
    }
}

/// The first of two optional strings that is present.
pub open spec fn first_some(a: Option<Seq<char>>, b: Option<Seq<char>>) -> Option<Seq<char>> {
    match a {
        Some(x) => Some(x),
        None => b,
    }
}

/// The file a tool's input names: `path`, else `file_path`, else `filepath`.
pub open spec fn filepath_in(input: Seq<char>) -> Option<Seq<char>> {
    first_some(
        json_string_field(input, "path"@),
        first_some(json_string_field(input, "file_path"@), json_string_field(input, "filepath"@)),
    )
}

/// The directory a tool's input names: `path`, else `directory`.
pub open spec fn path_in(input: Seq<char>) -> Option<Seq<char>> {
    first_some(json_string_field(input, "path"@), json_string_field(input, "directory"@))
}

/// The task a tool's input describes: `description`, else `prompt`.
pub open spec fn description_in(input: Seq<char>) -> Option<Seq<char>> {
    first_some(json_string_field(input, "description"@), json_string_field(input, "prompt"@))
}

fn first_field(input: &str, a: &str, b: &str) -> (r: Option<String>)
    ensures
        match r {
            Some(s) => first_some(json_string_field(input@, a@), json_string_field(input@, b@)) == Some(s@),
            None => first_some(json_string_field(input@, a@), json_string_field(input@, b@)) is None,
        },
{
    match extract_json_field(input, a) {
        Some(s) => Some(s),
        None => extract_json_field(input, b),
    }
}

fn extract_filepath(input: &str) -> (r: Option<String>)
    ensures
        match r {
            Some(s) => filepath_in(input@) == Some(s@),
            None => filepath_in(input@) is None,
        },
{
    match extract_json_field(input, "path") {
        Some(s) => Some(s),
        None => first_field(input, "file_path", "filepath"),
    }
}

// ---------------------------------------------------------------------------
// Names and labels
// ---------------------------------------------------------------------------

/// A tool's name as shown: a fixed name for the known tools, else the name with its first
/// character upper-cased.
pub open spec fn human_name(name: Seq<char>) -> Seq<char> {
    if name == "bash"@ || name == "sh"@ {
        "Shell"@
    } else if name == "read_file"@ {
        "Read File"@
    } else if name == "write_file"@ {
        "Write File"@
    } else if name == "edit_file"@ {
        "Edit File"@
    } else if name == "glob_search"@ {
        "Glob Search"@
    } else if name == "grep_search"@ {
        "Grep Search"@
    } else if name == "web_search"@ {
        "Web Search"@
    } else if name == "web_fetch"@ {
        "Web Fetch"@
    } else if name == "todo_write"@ {
        "Todo Write"@
    } else if name == "notebook_edit"@ {
        "Notebook Edit"@
    } else if name.len() == 0 {
        Seq::empty()
    } else {
        uppercase_of_char(name[0]) + name.skip(1)
    }
}

/// A tool's name as shown (see `human_name`).
pub fn human_tool_name(name: &str) -> (r: String)
    ensures
        r@ == human_name(name@),
{
    if str_eq(name, "bash") || str_eq(name, "sh") {
        String::from_str("Shell")
    } else if str_eq(name, "read_file") {
        String::from_str("Read File")
    } else if str_eq(name, "write_file") {
        String::from_str("Write File")
    } else if str_eq(name, "edit_file") {
        String::from_str("Edit File")
    } else if str_eq(name, "glob_search") {
        String::from_str("Glob Search")
    } else if str_eq(name, "grep_search") {
        String::from_str("Grep Search")
    } else if str_eq(name, "web_search") {
        String::from_str("Web Search")
    } else if str_eq(name, "web_fetch") {
        String::from_str("Web Fetch")
    } else if str_eq(name, "todo_write") {
        String::from_str("Todo Write")
    } else if str_eq(name, "notebook_edit") {
        String::from_str("Notebook Edit")
    } else {
        let v = chars_of(name);
        if v.len() == 0 {
            return String::new();
        }
        let mut r = char_to_uppercase(v[0]);
        let rest = string_of_range(&v, 1, v.len());
        r.append(rest.as_str());
        assert(v@.subrange(1, v@.len() as int) =~= name@.skip(1));
        r
    }
}

/// The icon shown for a tool in the compact view.
pub open spec fn icon_of(name: Seq<char>) -> Seq<char> {
    if name == "bash"@ || name == "sh"@ {
        "$"@
    } else if name == "read"@ || name == "cat"@ || name == "read_file"@ {
        "\u{2192}"@
    } else if name == "write"@ || name == "create"@ || name == "save"@ || name == "write_file"@ {
        "\u{2190}"@
    } else if name == "edit"@ || name == "patch"@ || name == "replace"@ || name == "edit_file"@ {
        "\u{270e}"@
    } else if name == "glob"@ || name == "find"@ || name == "glob_search"@ {
        "\u{2731}"@
    } else if name == "grep"@ || name == "search"@ || name == "grep_search"@ {
        "\u{2731}"@
    } else if name == "web_search"@ {
        "\u{25c7}"@
    } else if name == "web_fetch"@ || name == "fetch"@ {
        "%"@
    } else if name == "task"@ || name == "delegate"@ {
        "\u{2502}"@
    } else if name == "todo_write"@ || name == "todo"@ {
        "\u{2611}"@
    } else if name == "notebook_edit"@ {
        "N"@
    } else {
        "\u{2699}"@
    }
}

/// The icon shown for a tool in the compact view (see `icon_of`).
pub fn tool_icon(name: &str) -> (r: &'static str)
    ensures
        r@ == icon_of(name@),
{
    if str_eq(name, "bash") || str_eq(name, "sh") {
        "$"
    } else if str_eq(name, "read") || str_eq(name, "cat") || str_eq(name, "read_file") {
        "\u{2192}"
    } else if str_eq(name, "write") || str_eq(name, "create") || str_eq(name, "save") || str_eq(name, "write_file") {
        "\u{2190}"
    } else if str_eq(name, "edit") || str_eq(name, "patch") || str_eq(name, "replace") || str_eq(name, "edit_file") {
        "\u{270e}"
    } else if str_eq(name, "glob") || str_eq(name, "find") || str_eq(name, "glob_search") {
        "\u{2731}"
    } else if str_eq(name, "grep") || str_eq(name, "search") || str_eq(name, "grep_search") {
        "\u{2731}"
    } else if str_eq(name, "web_search") {
        "\u{25c7}"
    } else if str_eq(name, "web_fetch") || str_eq(name, "fetch") {
        "%"
    } else if str_eq(name, "task") || str_eq(name, "delegate") {
        "\u{2502}"
    } else if str_eq(name, "todo_write") || str_eq(name, "todo") {
        "\u{2611}"
    } else if str_eq(name, "notebook_edit") {
        "N"
    } else {
        "\u{2699}"
    }
}

/// The name shown for a permission mode.
pub open spec fn mode_name(mode: PermissionMode) -> Seq<char> {
    match mode {
        PermissionMode::ReadOnly => "read-only"@,
        PermissionMode::WorkspaceWrite => "workspace-write"@,
        PermissionMode::DangerFullAccess => "danger-full-access"@,
        PermissionMode::Prompt => "prompt"@,
        PermissionMode::Allow => "allow"@,
    }
}

/// The name shown for a permission mode; the front end colours it.
pub fn permission_mode_badge(mode: PermissionMode) -> (r: &'static str)
    ensures
        r@ == mode_name(mode),
{
    match mode {
        PermissionMode::ReadOnly => "read-only",
        PermissionMode::WorkspaceWrite => "workspace-write",
        PermissionMode::DangerFullAccess => "danger-full-access",
        PermissionMode::Prompt => "prompt",
        PermissionMode::Allow => "allow",
    }
}

/// What a request asks for, in words, by the mode it needs.
pub open spec fn action_phrase(mode: PermissionMode) -> Seq<char> {
    match mode {
        PermissionMode::ReadOnly => " wants to read data"@,
        PermissionMode::WorkspaceWrite => " wants to modify files"@,
        PermissionMode::DangerFullAccess => " wants to run a shell command"@,
        PermissionMode::Prompt => " requires approval"@,
        PermissionMode::Allow => " is requesting access"@,
    }
}

/// The sentence describing a request: the tool's shown name and what it asks for.
pub fn humanize_action(req: &PermissionRequest) -> (r: String)
    ensures
        r@ == human_name(req.tool_name@) + action_phrase(req.required_mode),
{
    let mut r = human_tool_name(req.tool_name.as_str());
    let phrase = match req.required_mode {
        PermissionMode::ReadOnly => " wants to read data",
        PermissionMode::WorkspaceWrite => " wants to modify files",
        PermissionMode::DangerFullAccess => " wants to run a shell command",
        PermissionMode::Prompt => " requires approval",
        PermissionMode::Allow => " is requesting access",
    };
    r.append(phrase);
    r
}

// ---------------------------------------------------------------------------
// Display info
// ---------------------------------------------------------------------------

/// The found value, or `input` itself.
pub open spec fn or_input(found: Option<Seq<char>>, input: Seq<char>) -> Seq<char> {
    match found {
        Some(x) => x,
        None => input,
    }
}

/// The found file, or the word `file`.
pub open spec fn or_file(found: Option<Seq<char>>) -> Seq<char> {
    match found {
        Some(x) => x,
        None => "file"@,
    }
}

/// Icon, title and body shown for a request by tool `name` with `input`.
pub open spec fn display_of(name: Seq<char>, input: Seq<char>) -> (char, Seq<char>, Seq<Seq<char>>) {
    let fp = filepath_in(input);
    if name == "bash"@ || name == "sh"@ {
        ('$', "Shell command"@, seq![input])
    } else if name == "edit"@ || name == "write_file"@ {
        ('\u{2192}', "Edit "@ + or_file(fp), seq![or_input(fp, input)])
    } else if name == "read"@ || name == "read_file"@ {
        ('\u{2192}', "Read "@ + or_file(fp), seq![or_input(fp, input)])
    } else if name == "glob_search"@ {
        ('\u{2731}', "Glob pattern"@, seq![or_input(json_string_field(input, "pattern"@), input)])
    } else if name == "grep_search"@ {
        ('\u{2731}', "Grep pattern"@, seq![or_input(json_string_field(input, "pattern"@), input)])
    } else if name == "list"@ || name == "glob"@ {
        ('\u{2192}', "List directory"@, seq![or_input(path_in(input), input)])
    } else if name == "task"@ || name == "agent"@ {
        ('#', "Agent Task"@, seq![or_input(description_in(input), input)])
    } else if name == "web_fetch"@ {
        ('%', "WebFetch"@, seq![or_input(json_string_field(input, "url"@), input)])
    } else if name == "web_search"@ {
        ('\u{25c7}', "Web Search"@, seq![or_input(json_string_field(input, "query"@), input)])
    } else {
        ('\u{2699}', "Tool: "@ + human_name(name), seq![input])
    }
}

fn one_line(s: String) -> (v: Vec<String>)
    ensures
        views(v@) == seq![s@],
{
    let mut v: Vec<String> = Vec::new();
    v.push(s);
    assert(views(v@) =~= seq![s@]);
    v
}

fn found_or_input(found: Option<String>, input: &str) -> (r: String)
    ensures
        r@ == or_input(
            match found {
                Some(s) => Some(s@),
                None => None,
            },
            input@,
        ),
{
    match found {
        Some(s) => s,
        None => String::from_str(input),
    }
}

/// What the dialog shows of a request (see `display_of`).
pub fn tool_display_info(req: &PermissionRequest) -> (d: PermissionDisplayInfo)
    ensures
        (d.icon, d.title@, views(d.body@)) == display_of(req.tool_name@, req.input@),
{
    let name = req.tool_name.as_str();
    let input = req.input.as_str();
    let fp = extract_filepath(input);
    let ghost fpv = filepath_in(input@);
    if str_eq(name, "bash") || str_eq(name, "sh") {
        PermissionDisplayInfo { icon: '$', title: String::from_str("Shell command"), body: one_line(String::from_str(input)) }
    } else if str_eq(name, "edit") || str_eq(name, "write_file") || str_eq(name, "read") || str_eq(name, "read_file") {
        let is_edit = str_eq(name, "edit") || str_eq(name, "write_file");
        let mut title = if is_edit { String::from_str("Edit ") } else { String::from_str("Read ") };
        match &fp {
            Some(p) => title.append(p.as_str()),
            None => title.append("file"),
        }
        let body = match fp {
            Some(p) => one_line(p),
            None => one_line(String::from_str(input)),
        };
        PermissionDisplayInfo { icon: '\u{2192}', title, body }
    } else if str_eq(name, "glob_search") {
        let b = found_or_input(extract_json_field(input, "pattern"), input);
        PermissionDisplayInfo { icon: '\u{2731}', title: String::from_str("Glob pattern"), body: one_line(b) }
    } else if str_eq(name, "grep_search") {
        let b = found_or_input(extract_json_field(input, "pattern"), input);
        PermissionDisplayInfo { icon: '\u{2731}', title: String::from_str("Grep pattern"), body: one_line(b) }
    } else if str_eq(name, "list") || str_eq(name, "glob") {
        let b = found_or_input(first_field(input, "path", "directory"), input);
        PermissionDisplayInfo { icon: '\u{2192}', title: String::from_str("List directory"), body: one_line(b) }
    } else if str_eq(name, "task") || str_eq(name, "agent") {
        let b = found_or_input(first_field(input, "description", "prompt"), input);
        PermissionDisplayInfo { icon: '#', title: String::from_str("Agent Task"), body: one_line(b) }
    } else if str_eq(name, "web_fetch") {
        let b = found_or_input(extract_json_field(input, "url"), input);
        PermissionDisplayInfo { icon: '%', title: String::from_str("WebFetch"), body: one_line(b) }
    } else if str_eq(name, "web_search") {
        let b = found_or_input(extract_json_field(input, "query"), input);
        PermissionDisplayInfo { icon: '\u{25c7}', title: String::from_str("Web Search"), body: one_line(b) }
    } else {
        let mut title = String::from_str("Tool: ");
        let human = human_tool_name(name);
        title.append(human.as_str());
        PermissionDisplayInfo { icon: '\u{2699}', title, body: one_line(String::from_str(input)) }
    }
}


// ---------------------------------------------------------------------------
// Laying out the input
// ---------------------------------------------------------------------------

/// A JSON value as the dialog reads it. A number keeps its printed form; an object keeps
/// its entries in the order `serde_json` hands them out.
#[derive(Debug)]
pub enum JsonValue {
    Null,
    Bool(bool),
    Number(String),
    Str(String),
    Array(Vec<JsonValue>),
    Object(Vec<(String, JsonValue)>),
}

/// Declares `serde_json::Value`, the value that `serde_json` parses text into.
#[verifier::external_type_specification]
#[verifier::external_body]
pub struct ExJsonValue(serde_json::Value);

/// What `serde_json::from_str` parses `input` into, as a `JsonValue`, if it parses.
pub uninterp spec fn json_value_of(input: Seq<char>) -> Option<JsonValue>;

/// Converts a `serde_json::Value` into a `JsonValue` one for one: each variant into its
/// namesake, a number into its printed form (`Number::to_string`), array items and object
/// entries in the order `serde_json` hands them out. It states nothing; `parse_json` names
/// the result of parsing and converting together.
#[verifier::external_body]
fn json_value_from(v: &serde_json::Value) -> JsonValue {
    match v {
        serde_json::Value::Null => JsonValue::Null,
        serde_json::Value::Bool(b) => JsonValue::Bool(*b),
        serde_json::Value::Number(n) => JsonValue::Number(n.to_string()),
        serde_json::Value::String(t) => JsonValue::Str(t.clone()),
        serde_json::Value::Array(a) => JsonValue::Array(a.iter().map(json_value_from).collect()),
        serde_json::Value::Object(m) => JsonValue::Object(
            m.iter().map(|(k, x)| (k.clone(), json_value_from(x))).collect(),
        ),
    }
}

/// Parses `input` with `serde_json::from_str` into a `serde_json::Value` and converts it
/// (`json_value_from`); `None` when it does not parse. The contract names the result; it
/// says nothing of JSON syntax.
#[verifier::external_body]
fn parse_json(input: &str) -> (r: Option<JsonValue>)
    ensures
        r == json_value_of(input@),
{
    match serde_json::from_str::<serde_json::Value>(input) {
        Ok(v) => Some(json_value_from(&v)),
        Err(_) => None,
    }
}

/// How a piece of a detail line is shown: dim, bright, as a number, or as a flag.
#[derive(Debug, Clone, Copy, PartialEq, Eq, Structural)]
pub enum DetailTone {
    Dim,
    Bright,
    Numeric,
    Flag,
}

/// A piece of a detail line.
#[derive(Debug, Clone)]
pub struct DetailSpan {
    pub text: String,
    pub tone: DetailTone,
}

/// The plain value of a detail line.
pub open spec fn line_view(l: Vec<DetailSpan>) -> Seq<(Seq<char>, DetailTone)> {
    l@.map_values(|sp: DetailSpan| (sp.text@, sp.tone))
}

/// The plain value of detail lines.
pub open spec fn lines_view(ls: Seq<Vec<DetailSpan>>) -> Seq<Seq<(Seq<char>, DetailTone)>> {
    ls.map_values(|l: Vec<DetailSpan>| line_view(l))
}

/// A line of one piece.
pub open spec fn single(text: Seq<char>, tone: DetailTone) -> Seq<(Seq<char>, DetailTone)> {
    seq![(text, tone)]
}

/// A string as shown in a list: past 60 characters, its first 57 and `...`.
pub open spec fn shown_str(s: Seq<char>) -> Seq<char> {
    if s.len() > 60 {
        s.take(57) + "..."@
    } else {
        s
    }
}

/// `n` levels of indentation, two spaces each.
pub open spec fn indent_of(n: nat) -> Seq<char>
    decreases n,
{
    if n == 0 {
        Seq::empty()
    } else {
        indent_of((n - 1) as nat) + "  "@
    }
}

/// An entry's value as shown after its key: strings shortened, nested values by their
/// number of entries.
pub open spec fn value_text(v: JsonValue) -> (Seq<char>, DetailTone) {
    match v {
        JsonValue::Str(s) => (shown_str(s@), DetailTone::Bright),
        JsonValue::Number(n) => (n@, DetailTone::Numeric),
        JsonValue::Bool(b) => (if b { "true"@ } else { "false"@ }, DetailTone::Flag),
        JsonValue::Null => ("null"@, DetailTone::Dim),
        JsonValue::Array(a) => ("["@ + decimal(a@.len()) + " entries]"@, DetailTone::Dim),
        JsonValue::Object(o) => ("["@ + decimal(o@.len()) + " entries]"@, DetailTone::Dim),
    }
}

/// The lines for an object's first entries, and whether the listing stopped at `max`
/// lines (with a `...` line).
pub open spec fn object_lines(entries: Seq<(String, JsonValue)>, prefix: Seq<char>, max: nat) -> (
    Seq<Seq<(Seq<char>, DetailTone)>>,
    bool,
)
    decreases entries.len(),
{
    if entries.len() == 0 {
        (Seq::empty(), false)
    } else {
        let (ls, stop) = object_lines(entries.drop_last(), prefix, max);
        if stop {
            (ls, true)
        } else if ls.len() >= max {
            (ls.push(single(prefix + "..."@, DetailTone::Dim)), true)
        } else {
            let e = entries.last();
            (ls.push(seq![(prefix + e.0@ + ": "@, DetailTone::Dim), value_text(e.1)]), false)
        }
    }
}

/// The lines for an array's string items (with their index), and whether the listing
/// stopped at `max` lines (with a `...` line).
pub open spec fn array_lines(items: Seq<JsonValue>, prefix: Seq<char>, max: nat) -> (
    Seq<Seq<(Seq<char>, DetailTone)>>,
    bool,
)
    decreases items.len(),
{
    if items.len() == 0 {
        (Seq::empty(), false)
    } else {
        let (ls, stop) = array_lines(items.drop_last(), prefix, max);
        let i = (items.len() - 1) as nat;
        if stop {
            (ls, true)
        } else if ls.len() >= max {
            (ls.push(single(prefix + "..."@, DetailTone::Dim)), true)
        } else {
            match items.last() {
                JsonValue::Str(s) => (
                    ls.push(single(prefix + "["@ + decimal(i) + "] "@ + shown_str(s@), DetailTone::Bright)),
                    false,
                ),
                _ => (ls, false),
            }
        }
    }
}

/// The detail lines for a JSON value at `indent` levels, at most about `max` of them.
pub open spec fn json_lines(v: JsonValue, indent: nat, max: nat) -> Seq<Seq<(Seq<char>, DetailTone)>> {
    let prefix = indent_of(indent);
    let ls = match v {
        JsonValue::Object(o) => object_lines(o@, prefix, max).0,
        JsonValue::Array(a) => array_lines(a@, prefix, max).0,
        JsonValue::Str(s) => seq![single(first_chars(s@, 120), DetailTone::Bright)],
        JsonValue::Null => seq![single("null"@, DetailTone::Dim)],
        JsonValue::Bool(b) => seq![single(if b { "true"@ } else { "false"@ }, DetailTone::Dim)],
        JsonValue::Number(n) => seq![single(n@, DetailTone::Dim)],
    };
    if ls.len() == 0 {
        seq![single("(empty)"@, DetailTone::Dim)]
    } else {
        ls
    }
}

proof fn lemma_object_lines_bound(entries: Seq<(String, JsonValue)>, prefix: Seq<char>, max: nat)
    ensures
        object_lines(entries, prefix, max).0.len() <= max + 1,
        !object_lines(entries, prefix, max).1 ==> object_lines(entries, prefix, max).0.len() <= max,
    decreases entries.len(),
{
    if entries.len() > 0 {
        lemma_object_lines_bound(entries.drop_last(), prefix, max);
    }
}

proof fn lemma_array_lines_bound(items: Seq<JsonValue>, prefix: Seq<char>, max: nat)
    ensures
        array_lines(items, prefix, max).0.len() <= max + 1,
        !array_lines(items, prefix, max).1 ==> array_lines(items, prefix, max).0.len() <= max,
    decreases items.len(),
{
    if items.len() > 0 {
        lemma_array_lines_bound(items.drop_last(), prefix, max);
    }
}

/// The input is laid out in at most `max` lines and one more saying `...`: a value never
/// takes more than `max + 1` lines.
pub proof fn lemma_json_lines_bound(v: JsonValue, indent: nat, max: nat)
    ensures
        1 <= json_lines(v, indent, max).len() <= max + 1,
{
    match v {
        JsonValue::Object(o) => lemma_object_lines_bound(o@, indent_of(indent), max),
        JsonValue::Array(a) => lemma_array_lines_bound(a@, indent_of(indent), max),
        _ => {},
    }
}

fn span(text: String, tone: DetailTone) -> (l: Vec<DetailSpan>)
    ensures
        line_view(l) == single(text@, tone),
{
    let mut l: Vec<DetailSpan> = Vec::new();
    l.push(DetailSpan { text, tone });
    assert(line_view(l) =~= single(text@, tone));
    l
}

fn indent_string(n: usize) -> (r: String)
    ensures
        r@ == indent_of(n as nat),
{
    let mut r = String::new();
    let mut i: usize = 0;
    while i < n
        invariant
            i <= n,
            r@ == indent_of(i as nat),
        decreases n - i,
    {
        r.append("  ");
        i = i + 1;
    }
    r
}

fn shown_string(s: &String) -> (r: String)
    ensures
        r@ == shown_str(s@),
{
    let v = chars_of(s.as_str());
    if v.len() > 60 {
        let mut r = string_of_range(&v, 0, 57);
        r.append("...");
        assert(v@.subrange(0, 57) =~= s@.take(57));
        r
    } else {
        String::from_str(s.as_str())
    }
}

fn count_entries_text(n: usize) -> (r: String)
    ensures
        r@ == "["@ + decimal(n as nat) + " entries]"@,
{
    let mut r = String::from_str("[");
    push_decimal(&mut r, n as u128);
    r.append(" entries]");
    r
}

fn value_span(v: &JsonValue) -> (r: DetailSpan)
    ensures
        (r.text@, r.tone) == value_text(*v),
{
    match v {
        JsonValue::Str(s) => DetailSpan { text: shown_string(s), tone: DetailTone::Bright },
        JsonValue::Number(n) => DetailSpan { text: String::from_str(n.as_str()), tone: DetailTone::Numeric },
        JsonValue::Bool(b) => DetailSpan {
            text: if *b { String::from_str("true") } else { String::from_str("false") },
            tone: DetailTone::Flag,
        },
        JsonValue::Null => DetailSpan { text: String::from_str("null"), tone: DetailTone::Dim },
        JsonValue::Array(a) => DetailSpan { text: count_entries_text(a.len()), tone: DetailTone::Dim },
        JsonValue::Object(o) => DetailSpan { text: count_entries_text(o.len()), tone: DetailTone::Dim },
    }
}

fn ellipsis_line(prefix: &String) -> (l: Vec<DetailSpan>)
    ensures
        line_view(l) == single(prefix@ + "..."@, DetailTone::Dim),
{
    let mut t = String::from_str(prefix.as_str());
    t.append("...");
    span(t, DetailTone::Dim)
}

/// The detail lines for a JSON value at `indent` levels (see `json_lines`).
pub fn format_json_value(val: &JsonValue, indent: usize, max_lines: usize) -> (r: Vec<Vec<DetailSpan>>)
    ensures
        lines_view(r@) == json_lines(*val, indent as nat, max_lines as nat),
{
    let prefix = indent_string(indent);
    let mut lines: Vec<Vec<DetailSpan>> = Vec::new();
    match val {
        JsonValue::Object(map) => {
            let ghost es = map@;
            let mut stop = false;
            let mut i: usize = 0;
            assert(lines_view(lines@) =~= Seq::<Seq<(Seq<char>, DetailTone)>>::empty());
            while i < map.len()
                invariant
                    i <= map@.len(),
                    es == map@,
                    (lines_view(lines@), stop) == object_lines(es.take(i as int), prefix@, max_lines as nat),
                decreases map@.len() - i,
            {
                assert(es.take(i + 1).drop_last() =~= es.take(i as int));
                assert(es.take(i + 1).last() == map@[i as int]);
                if !stop {
                    let ghost before = lines@;
                    if lines.len() >= max_lines {
                        lines.push(ellipsis_line(&prefix));
                        stop = true;
                    } else {
                        let entry = &map[i];
                        let mut key = String::from_str(prefix.as_str());
                        key.append(entry.0.as_str());
                        key.append(": ");
                        let mut l: Vec<DetailSpan> = Vec::new();
                        l.push(DetailSpan { text: key, tone: DetailTone::Dim });
                        l.push(value_span(&entry.1));
                        assert(line_view(l) =~= seq![(prefix@ + entry.0@ + ": "@, DetailTone::Dim), value_text(entry.1)]);
                        lines.push(l);
                    }
                    assert(lines_view(lines@) =~= lines_view(before).push(line_view(lines@.last())));
                }
                i = i + 1;
            }
            assert(es.take(map@.len() as int) =~= es);
        },
        JsonValue::Array(arr) => {
            let ghost items = arr@;
            let mut stop = false;
            let mut i: usize = 0;
            assert(lines_view(lines@) =~= Seq::<Seq<(Seq<char>, DetailTone)>>::empty());
            while i < arr.len()
                invariant
                    i <= arr@.len(),
                    items == arr@,
                    (lines_view(lines@), stop) == array_lines(items.take(i as int), prefix@, max_lines as nat),
                decreases arr@.len() - i,
            {
                assert(items.take(i + 1).drop_last() =~= items.take(i as int));
                assert(items.take(i + 1).last() == arr@[i as int]);
                if !stop {
                    let ghost before = lines@;
                    if lines.len() >= max_lines {
                        lines.push(ellipsis_line(&prefix));
                        stop = true;
                        assert(lines_view(lines@) =~= lines_view(before).push(line_view(lines@.last())));
                    } else {
                        match &arr[i] {
                            JsonValue::Str(s) => {
                                let mut t = String::from_str(prefix.as_str());
                                t.append("[");
                                push_decimal(&mut t, i as u128);
                                t.append("] ");
                                let shown = shown_string(s);
                                t.append(shown.as_str());
                                lines.push(span(t, DetailTone::Bright));
                                assert(lines_view(lines@) =~= lines_view(before).push(line_view(lines@.last())));
                            },
                            _ => {},
                        }
                    }
                }
                i = i + 1;
            }
            assert(items.take(arr@.len() as int) =~= items);
        },
        JsonValue::Str(s) => {
            lines.push(span(take_chars(s.as_str(), 120), DetailTone::Bright));
        },
        JsonValue::Null => {
            lines.push(span(String::from_str("null"), DetailTone::Dim));
        },
        JsonValue::Bool(b) => {
            let t = if *b { String::from_str("true") } else { String::from_str("false") };
            lines.push(span(t, DetailTone::Dim));
        },
        JsonValue::Number(n) => {
            lines.push(span(String::from_str(n.as_str()), DetailTone::Dim));
        },
    }
    if lines.len() == 0 {
        lines.push(span(String::from_str("(empty)"), DetailTone::Dim));
    }
    assert(lines_view(lines@) =~= json_lines(*val, indent as nat, max_lines as nat));
    lines
}

/// The detail lines for a request's input: a placeholder for no input; the JSON layout
/// where the input parsed as `parsed`; else its first `max` lines (the last marked `...`
/// when more follow), or its first 80 characters when that leaves nothing.
pub open spec fn input_lines(input: Seq<char>, parsed: Option<JsonValue>, max: nat) -> Seq<Seq<(Seq<char>, DetailTone)>> {
    if input.len() == 0 {
        seq![single("(no input details)"@, DetailTone::Dim)]
    } else {
        match parsed {
            Some(v) => json_lines(v, 0, max),
            None => {
                let ls = text_lines(input);
                let k = if ls.len() < max { ls.len() } else { max };
                if k == 0 {
                    seq![single(first_chars(input, 80), DetailTone::Dim)]
                } else {
                    Seq::new(k, |i: int| single(
                        if i == max - 1 && ls.len() > max { ls[i] + "..."@ } else { ls[i] },
                        DetailTone::Dim,
                    ))
                }
            },
        }
    }
}

/// The detail lines for a request's input (see `input_lines`), with the input parsed as JSON
/// by `serde_json`.
pub fn format_input_details(input: &str, max_lines: usize) -> (r: Vec<Vec<DetailSpan>>)
    ensures
        lines_view(r@) == input_lines(input@, json_value_of(input@), max_lines as nat),
{
    let parsed = parse_json(input);
    format_parsed_input_details(input, parsed.as_ref(), max_lines)
}

/// The detail lines for a request's input (see `input_lines`). `parsed` is what the input
/// parses to as JSON, if it does.
pub fn format_parsed_input_details(input: &str, parsed: Option<&JsonValue>, max_lines: usize) -> (r: Vec<Vec<DetailSpan>>)
    ensures
        lines_view(r@) == input_lines(
            input@,
            match parsed {
                Some(v) => Some(*v),
                None => None,
            },
            max_lines as nat,
        ),
{
    if input.unicode_len() == 0 {
        let mut r: Vec<Vec<DetailSpan>> = Vec::new();
        r.push(span(String::from_str("(no input details)"), DetailTone::Dim));
        assert(lines_view(r@) =~= seq![single("(no input details)"@, DetailTone::Dim)]);
        return r;
    }
    match parsed {
        Some(v) => return format_json_value(v, 0, max_lines),
        None => {},
    }
    let ls = lines_of(input);
    let ghost lv = ls@.map_values(|l: String| l@);
    let n = ls.len();
    let k = if n < max_lines { n } else { max_lines };
    let mut out: Vec<Vec<DetailSpan>> = Vec::new();
    let mut i: usize = 0;
    while i < k
        invariant
            i <= k,
            k <= n,
            k <= max_lines,
            n == ls@.len(),
            lv == ls@.map_values(|l: String| l@),
            lv == text_lines(input@),
            lines_view(out@) == Seq::new(i as nat, |j: int| single(
                if j == max_lines - 1 && lv.len() > max_lines { lv[j] + "..."@ } else { lv[j] },
                DetailTone::Dim,
            )),
        decreases k - i,
    {
        let ghost before = out@;
        assert(lv[i as int] == ls@[i as int]@);
        let mut t = String::from_str(ls[i].as_str());
        if i + 1 == max_lines && n > max_lines {
            t.append("...");
        }
        out.push(span(t, DetailTone::Dim));
        assert(lines_view(out@) =~= lines_view(before).push(line_view(out@.last())));
        i = i + 1;
        assert(lines_view(out@) =~= Seq::new(i as nat, |j: int| single(
            if j == max_lines - 1 && lv.len() > max_lines { lv[j] + "..."@ } else { lv[j] },
            DetailTone::Dim,
        )));
    }
    if out.len() == 0 {
        out.push(span(take_chars(input, 80), DetailTone::Dim));
        assert(lines_view(out@) =~= seq![single(first_chars(input@, 80), DetailTone::Dim)]);
    }
    out
}

// ---------------------------------------------------------------------------
// The dialog
// ---------------------------------------------------------------------------

/// The number of buttons (allow once, reject, allow always).
pub const BUTTON_COUNT: usize = 3;

/// The answer of the focused button: allow once, reject, allow always (allow once for any
/// other index).
pub open spec fn button_action(focused: usize) -> PermissionAction {
    if focused == 1 {
        PermissionAction::Deny
    } else if focused == 2 {
        PermissionAction::AlwaysAllow
    } else {
        PermissionAction::Approve
    }
}

/// The button left of `focused`, wrapping to the last.
pub open spec fn button_left(focused: usize) -> usize {
    if focused > 0 {
        (focused - 1) as usize
    } else {
        (BUTTON_COUNT - 1) as usize
    }
}

/// The button right of `focused`, wrapping to the first.
pub open spec fn button_right(focused: usize) -> usize {
    ((focused + 1) % (BUTTON_COUNT as int)) as usize
}

/// Moving between the buttons goes round: right then left returns to the button, and three
/// moves right come back to it.
pub proof fn lemma_buttons_cycle(focused: usize)
    requires
        focused < BUTTON_COUNT,
    ensures
        button_left(button_right(focused)) == focused,
        button_right(button_left(focused)) == focused,
        button_right(button_right(button_right(focused))) == focused,
{
}

/// The permission dialog: whether it is open, the request, the focused button, the stage,
/// the typed reason for a rejection, and patterns to allow always.
#[derive(Debug)]
pub struct PermissionDialogState {
    pub open: bool,
    pub request: Option<PermissionRequest>,
    pub focused_button: usize,
    pub stage: PermissionStage,
    pub reject_message: String,
    pub always_patterns: Vec<String>,
}

impl Default for PermissionDialogState {
    fn default() -> (s: Self)
        ensures
            s.is_reset(),
            s.request is None,
    {
        PermissionDialogState {
            open: false,
            request: None,
            focused_button: 0,
            stage: PermissionStage::Permission,
            reject_message: String::new(),
            always_patterns: Vec::new(),
        }
    }
}

impl PermissionDialogState {
    /// Closed, on the first button, at the first stage, with nothing typed.
    pub open spec fn is_reset(&self) -> bool {
        &&& !self.open
        &&& self.focused_button == 0
        &&& self.stage == PermissionStage::Permission
        &&& self.reject_message@.len() == 0
        &&& self.always_patterns@.len() == 0
    }

    /// A closed dialog.
    pub fn new() -> (s: Self)
        ensures
            s.is_reset(),
            s.request is None,
    {
        Self::default()
    }

    /// Opens the dialog on `req`, on the first button and stage.
    pub fn open(&mut self, req: PermissionRequest)
        ensures
            final(self).open,
            final(self).request == Some(req),
            final(self).focused_button == 0,
            final(self).stage == PermissionStage::Permission,
            final(self).reject_message@.len() == 0,
            final(self).always_patterns@.len() == 0,
    {
        self.open = true;
        self.request = Some(req);
        self.focused_button = 0;
        self.stage = PermissionStage::Permission;
        self.reject_message = String::new();
        self.always_patterns = Vec::new();
    }

    /// Closes the dialog and forgets the request.
    pub fn close(&mut self)
        ensures
            final(self).is_reset(),
            final(self).request is None,
    {
        self.open = false;
        self.request = None;
        self.focused_button = 0;
        self.stage = PermissionStage::Permission;
        self.reject_message = String::new();
        self.always_patterns = Vec::new();
    }

    /// Answers a key. At the first stage: Enter answers with the focused button and closes;
    /// Esc moves to typing a reason for rejecting; `a` moves to confirming "allow always";
    /// Left and Right move between the buttons, wrapping. Confirming "allow always": Enter
    /// answers it and closes; Esc goes back. Typing a reason: Enter rejects and closes; Esc
    /// goes back; Backspace and characters edit the reason.
    pub fn handle_key(&mut self, code: KeyCode) -> (r: Option<PermissionAction>)
        requires
            old(self).focused_button < usize::MAX,
        ensures
            match (old(self).stage, code) {
                (PermissionStage::Permission, KeyCode::Enter) => r == Some(button_action(old(self).focused_button))
                    && final(self).is_reset() && final(self).request is None,
                (PermissionStage::AlwaysConfirm, KeyCode::Enter) => r == Some(PermissionAction::AlwaysAllow)
                    && final(self).is_reset() && final(self).request is None,
                (PermissionStage::RejectMessage, KeyCode::Enter) => r == Some(PermissionAction::Deny)
                    && final(self).is_reset() && final(self).request is None,
                _ => r is None && final(self).open == old(self).open && final(self).request == old(self).request
                    && final(self).always_patterns == old(self).always_patterns,
            },
            old(self).stage == PermissionStage::Permission ==> match code {
                KeyCode::Esc => final(self).stage == PermissionStage::RejectMessage
                    && final(self).reject_message@.len() == 0
                    && final(self).focused_button == old(self).focused_button,
                KeyCode::Char(c) => if c == 'a' || c == 'A' {
                    final(self).stage == PermissionStage::AlwaysConfirm
                        && final(self).reject_message == old(self).reject_message
                        && final(self).focused_button == old(self).focused_button
                } else {
                    final(self).stage == old(self).stage && final(self).reject_message == old(self).reject_message
                        && final(self).focused_button == old(self).focused_button
                },
                KeyCode::Left => final(self).focused_button == button_left(old(self).focused_button)
                    && final(self).stage == old(self).stage && final(self).reject_message == old(self).reject_message,
                KeyCode::Right => final(self).focused_button == button_right(old(self).focused_button)
                    && final(self).stage == old(self).stage && final(self).reject_message == old(self).reject_message,
                KeyCode::Enter => true,
                _ => final(self).stage == old(self).stage && final(self).reject_message == old(self).reject_message
                    && final(self).focused_button == old(self).focused_button,
            },
            old(self).stage == PermissionStage::AlwaysConfirm && code != KeyCode::Enter ==> final(self).focused_button
                == old(self).focused_button && final(self).reject_message == old(self).reject_message && final(self).stage
                == (if code == KeyCode::Esc { PermissionStage::Permission } else { PermissionStage::AlwaysConfirm }),
            old(self).stage == PermissionStage::RejectMessage ==> match code {
                KeyCode::Enter => true,
                KeyCode::Esc => final(self).stage == PermissionStage::Permission
                    && final(self).reject_message == old(self).reject_message
                    && final(self).focused_button == old(self).focused_button,
                KeyCode::Backspace => final(self).stage == old(self).stage
                    && final(self).focused_button == old(self).focused_button
                    && final(self).reject_message@ == (if old(self).reject_message@.len() > 0 {
                        old(self).reject_message@.drop_last()
                    } else {
                        old(self).reject_message@
                    }),
                KeyCode::Char(c) => final(self).stage == old(self).stage
                    && final(self).focused_button == old(self).focused_button
                    && final(self).reject_message@ == old(self).reject_message@.push(c),
                _ => final(self).stage == old(self).stage && final(self).reject_message == old(self).reject_message
                    && final(self).focused_button == old(self).focused_button,
            },
    {
        match self.stage {
            PermissionStage::Permission => self.handle_permission_key(code),
            PermissionStage::AlwaysConfirm => self.handle_always_key(code),
            PermissionStage::RejectMessage => self.handle_reject_key(code),
        }
    }

    fn handle_permission_key(&mut self, code: KeyCode) -> (r: Option<PermissionAction>)
        requires
            old(self).focused_button < usize::MAX,
            old(self).stage == PermissionStage::Permission,
        ensures
            match code {
                KeyCode::Enter => r == Some(button_action(old(self).focused_button)) && final(self).is_reset()
                    && final(self).request is None,
                _ => r is None && final(self).open == old(self).open && final(self).request == old(self).request
                    && final(self).always_patterns == old(self).always_patterns,
            },
            match code {
                KeyCode::Esc => final(self).stage == PermissionStage::RejectMessage
                    && final(self).reject_message@.len() == 0
                    && final(self).focused_button == old(self).focused_button,
                KeyCode::Char(c) => if c == 'a' || c == 'A' {
                    final(self).stage == PermissionStage::AlwaysConfirm
                        && final(self).reject_message == old(self).reject_message
                        && final(self).focused_button == old(self).focused_button
                } else {
                    final(self).stage == old(self).stage && final(self).reject_message == old(self).reject_message
                        && final(self).focused_button == old(self).focused_button
                },
                KeyCode::Left => final(self).focused_button == button_left(old(self).focused_button)
                    && final(self).stage == old(self).stage && final(self).reject_message == old(self).reject_message,
                KeyCode::Right => final(self).focused_button == button_right(old(self).focused_button)
                    && final(self).stage == old(self).stage && final(self).reject_message == old(self).reject_message,
                KeyCode::Enter => true,
                _ => final(self).stage == old(self).stage && final(self).reject_message == old(self).reject_message
                    && final(self).focused_button == old(self).focused_button,
            },
    {
        match code {
            KeyCode::Enter => {
                let action = if self.focused_button == 1 {
                    PermissionAction::Deny
                } else if self.focused_button == 2 {
                    PermissionAction::AlwaysAllow
                } else {
                    PermissionAction::Approve
                };
                self.close();
                Some(action)
            },
            KeyCode::Esc => {
                self.stage = PermissionStage::RejectMessage;
                self.reject_message = String::new();
                None
            },
            KeyCode::Char(c) => {
                if c == 'a' || c == 'A' {
                    self.stage = PermissionStage::AlwaysConfirm;
                }
                None
            },
            KeyCode::Left => {
                if self.focused_button > 0 {
                    self.focused_button = self.focused_button - 1;
                } else {
                    self.focused_button = BUTTON_COUNT - 1;
                }
                None
            },
            KeyCode::Right => {
                self.focused_button = (self.focused_button + 1) % BUTTON_COUNT;
                None
            },
            _ => None,
        }
    }

    fn handle_always_key(&mut self, code: KeyCode) -> (r: Option<PermissionAction>)
        requires
            old(self).stage == PermissionStage::AlwaysConfirm,
        ensures
            code == KeyCode::Enter ==> r == Some(PermissionAction::AlwaysAllow) && final(self).is_reset()
                && final(self).request is None,
            code != KeyCode::Enter ==> r is None && final(self).open == old(self).open && final(self).request
                == old(self).request && final(self).always_patterns == old(self).always_patterns
                && final(self).focused_button == old(self).focused_button && final(self).reject_message
                == old(self).reject_message && final(self).stage == (if code == KeyCode::Esc {
                PermissionStage::Permission
            } else {
                PermissionStage::AlwaysConfirm
            }),
    {
        match code {
            KeyCode::Enter => {
                self.close();
                Some(PermissionAction::AlwaysAllow)
            },
            KeyCode::Esc => {
                self.stage = PermissionStage::Permission;
                None
            },
            _ => None,
        }
    }

    fn handle_reject_key(&mut self, code: KeyCode) -> (r: Option<PermissionAction>)
        requires
            old(self).stage == PermissionStage::RejectMessage,
        ensures
            match code {
                KeyCode::Enter => r == Some(PermissionAction::Deny) && final(self).is_reset()
                    && final(self).request is None,
                _ => r is None && final(self).open == old(self).open && final(self).request == old(self).request
                    && final(self).always_patterns == old(self).always_patterns
                    && final(self).focused_button == old(self).focused_button,
            },
            match code {
                KeyCode::Enter => true,
                KeyCode::Esc => final(self).stage == PermissionStage::Permission
                    && final(self).reject_message == old(self).reject_message,
                KeyCode::Backspace => final(self).stage == old(self).stage
                    && final(self).reject_message@ == (if old(self).reject_message@.len() > 0 {
                        old(self).reject_message@.drop_last()
                    } else {
                        old(self).reject_message@
                    }),
                KeyCode::Char(c) => final(self).stage == old(self).stage
                    && final(self).reject_message@ == old(self).reject_message@.push(c),
                _ => final(self).stage == old(self).stage && final(self).reject_message == old(self).reject_message,
            },
    {
        match code {
            KeyCode::Enter => {
                self.close();
                Some(PermissionAction::Deny)
            },
            KeyCode::Esc => {
                self.stage = PermissionStage::Permission;
                None
            },
            KeyCode::Backspace => {
                pop_char(&mut self.reject_message);
                None
            },
            KeyCode::Char(c) => {
                push_char(&mut self.reject_message, c);
                None
            },
            _ => None,
        }
    }
}


// ---------------------------------------------------------------------------
// What the permission stage shows
// ---------------------------------------------------------------------------

/// What the dialog shows while asking: the tool's icon and title, the action asked for, the
/// permission modes when the request asks for more than the current one, the reason cut to
/// 60 characters, the input's detail lines, and the three buttons with the focused one marked.
#[derive(Debug, Clone)]
pub struct PermissionStageView {
    pub icon: char,
    pub title: String,
    pub action: String,
    pub escalation: Option<(String, String)>,
    pub reason: Option<String>,
    pub details: Vec<Vec<DetailSpan>>,
    pub buttons: Vec<(String, bool)>,
}

/// The labels of the buttons, in order.
pub open spec fn button_label(k: int) -> Seq<char> {
    if k == 0 { "Allow once"@ } else if k == 1 { "Reject"@ } else { "Allow always"@ }
}

/// Enter on the asking stage answers with what the focused button says: the button labelled
/// `Reject` rejects the call, the one labelled `Allow always` allows it from now on, and the
/// one labelled `Allow once` allows this call only.
pub proof fn lemma_enter_answers_as_labelled(k: usize)
    requires
        k < BUTTON_COUNT,
    ensures
        button_label(k as int) == "Reject"@ <==> button_action(k) == PermissionAction::Deny,
        button_label(k as int) == "Allow always"@ <==> button_action(k) == PermissionAction::AlwaysAllow,
        button_label(k as int) == "Allow once"@ <==> button_action(k) == PermissionAction::Approve,
{
    reveal_strlit("Reject");
    reveal_strlit("Allow always");
    reveal_strlit("Allow once");
    assert("Reject"@.len() != "Allow always"@.len());
    assert("Reject"@.len() != "Allow once"@.len());
    assert("Allow always"@.len() != "Allow once"@.len());
}

/// Moving right from the first button reaches `Reject`, and from there `Allow always`;
/// left from the first wraps round to `Allow always`.
pub proof fn lemma_buttons_in_order()
    ensures
        button_label(button_right(0) as int) == "Reject"@,
        button_label(button_right(button_right(0)) as int) == "Allow always"@,
        button_label(button_left(0) as int) == "Allow always"@,
        button_label(0) == "Allow once"@,
{
}

/// A reason as shown: cut to 57 characters and `...` when longer than 60.
pub open spec fn reason_shown(r: Seq<char>) -> Seq<char> {
    if r.len() > 60 { first_chars(r, 57) + "..."@ } else { r }
}

/// `v` is what the stage shows for request `req` of dialog `s`, with `parsed` what the
/// request's input parses to as JSON, if it does.
pub open spec fn stage_view(s: PermissionDialogState, req: PermissionRequest, parsed: Option<JsonValue>, v: PermissionStageView) -> bool {
    let d = display_of(req.tool_name@, req.input@);
    &&& v.icon == d.0 && v.title@ == d.1
    &&& v.action@ == human_name(req.tool_name@) + action_phrase(req.required_mode)
    &&& (match v.escalation {
        Some(e) => req.current_mode != req.required_mode && e.0@ == mode_name(req.current_mode) && e.1@ == mode_name(req.required_mode),
        None => req.current_mode == req.required_mode,
    })
    &&& (match v.reason {
        Some(r) => req.reason matches Some(q) && r@ == reason_shown(q@),
        None => req.reason is None,
    })
    &&& lines_view(v.details@) == input_lines(req.input@, parsed, 3)
    &&& v.buttons@.len() == 3
    &&& forall|k: int| 0 <= k < 3 ==> (#[trigger] v.buttons@[k]).0@ == button_label(k) && v.buttons@[k].1 == (s.focused_button == k)
}

/// What the stage shows for request `req` (see `stage_view`), with its input parsed as JSON
/// by `serde_json`.
pub fn permission_stage_view(s: &PermissionDialogState, req: &PermissionRequest) -> (v: PermissionStageView)
    ensures
        stage_view(*s, *req, json_value_of(req.input@), v),
{
    let parsed = parse_json(req.input.as_str());
    permission_stage_view_parsed(s, req, parsed.as_ref())
}

/// What the stage shows for request `req` (see `stage_view`), where its input parses to
/// `parsed` as JSON, if it does.
pub fn permission_stage_view_parsed(s: &PermissionDialogState, req: &PermissionRequest, parsed: Option<&JsonValue>) -> (v: PermissionStageView)
    ensures
        stage_view(*s, *req, match parsed { Some(p) => Some(*p), None => None }, v),
{
    let d = tool_display_info(req);
    let action = humanize_action(req);
    let escalation = if req.current_mode != req.required_mode {
        Some((
            String::from_str(permission_mode_badge(req.current_mode)),
            String::from_str(permission_mode_badge(req.required_mode)),
        ))
    } else {
        None
    };
    let reason = match &req.reason {
        Some(r) => if r.unicode_len() > 60 {
            let head = take_chars(r.as_str(), 57);
            let mut t = String::from_str(head.as_str());
            t.append("...");
            Some(t)
        } else {
            Some(String::from_str(r.as_str()))
        },
        None => None,
    };
    let details = format_parsed_input_details(req.input.as_str(), parsed, 3);
    let mut buttons: Vec<(String, bool)> = Vec::new();
    buttons.push((String::from_str("Allow once"), s.focused_button == 0));
    buttons.push((String::from_str("Reject"), s.focused_button == 1));
    buttons.push((String::from_str("Allow always"), s.focused_button == 2));
    PermissionStageView { icon: d.icon, title: d.title, action, escalation, reason, details, buttons }
}

} // verus!
