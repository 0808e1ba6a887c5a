//! Transcript analysis: JSON Lines parsing and status detection.
use vstd::prelude::*;
use vstd::utf8::encode_utf8;

use crate::hook::HookInput;
use crate::json::{json_get, opt_array, opt_bool, opt_get, opt_str, opt_u64, parse_json, Json};
use crate::summary::{line_at, next_line};
use crate::text::{chars_of, contains_chars, contains_seq, lowercase, push_all, slice_chars, str_eq, string_of, to_lowercase, trim, trim_chars};
use crate::types::Status;

verus! {

// ─── Message ─────────────────────────────────────────────────────────────────

/// One transcript entry, reduced to what the analysis reads.
#[derive(Debug)]
pub struct Message {
    pub msg_type: String,
    pub text_content: String,
    pub tool_name: Option<String>,
    pub tool_input: Json,
    pub is_api_error: bool,
    pub error_status: Option<u16>,
}

/// A message as plain values.
pub struct MessageView {
    pub msg_type: Seq<char>,
    pub text_content: Seq<char>,
    pub tool_name: Option<Seq<char>>,
    pub tool_input: Json,
    pub is_api_error: bool,
    pub error_status: Option<u16>,
}

impl View for Message {
    type V = MessageView;

    open spec fn view(&self) -> MessageView {
        MessageView {
            msg_type: self.msg_type@,
            text_content: self.text_content@,
            tool_name: crate::types::opt_view(self.tool_name),
            tool_input: self.tool_input,
            is_api_error: self.is_api_error,
            error_status: self.error_status,
        }
    }
}

// ─── Specification of parsing ────────────────────────────────────────────────

/// The text of a content item of type `text` that has a string `text`.
pub open spec fn item_text(item: Json) -> Option<Seq<char>> {
    if opt_str(json_get(item, "type"@)) == Some("text"@) {
        opt_str(json_get(item, "text"@))
    } else {
        None
    }
}

/// The texts of the text items from index `i` on, joined by single spaces;
/// `started` says whether a text came before.
pub open spec fn joined_texts_from(items: Seq<Json>, i: int, started: bool) -> Seq<char>
    decreases items.len() - i,
{
    if i < 0 || i >= items.len() {
        Seq::empty()
    } else {
        match item_text(items[i]) {
            Some(t) => (if started {
                " "@ + t
            } else {
                t
            }) + joined_texts_from(items, i + 1, true),
            None => joined_texts_from(items, i + 1, started),
        }
    }
}

/// Some item of the list is a text item.
pub open spec fn has_text_item(items: Seq<Json>) -> bool {
    exists|i: int| 0 <= i < items.len() && (#[trigger] item_text(items[i])) is Some
}

/// The texts of the text items joined by single spaces, if there is any.
pub open spec fn texts_of(items: Option<Seq<Json>>) -> Option<Seq<char>> {
    match items {
        Some(a) => if has_text_item(a) {
            Some(joined_texts_from(a, 0, false))
        } else {
            None
        },
        None => None,
    }
}

/// The text of an entry: the text items of `message.content`; else a
/// string `content`; else the text items of an array `content`; else empty.
pub open spec fn text_content_spec(v: Json) -> Seq<char> {
    match texts_of(opt_array(opt_get(json_get(v, "message"@), "content"@))) {
        Some(t) => t,
        None => match opt_str(json_get(v, "content"@)) {
            Some(s) => s,
            None => match texts_of(opt_array(json_get(v, "content"@))) {
                Some(t) => t,
                None => Seq::empty(),
            },
        },
    }
}

/// A content item that is a `tool_use` with a string `name`.
pub open spec fn is_named_tool_use(item: Json) -> bool {
    opt_str(json_get(item, "type"@)) == Some("tool_use"@) && opt_str(json_get(item, "name"@))
        is Some
}

/// Index of the first named `tool_use` item at or after `i` (`items.len()` if none).
pub open spec fn tool_use_from(items: Seq<Json>, i: int) -> int
    decreases items.len() - i,
{
    if 0 <= i < items.len() && !is_named_tool_use(items[i]) {
        tool_use_from(items, i + 1)
    } else {
        i
    }
}

/// A member, or `Null` when absent.
pub open spec fn or_null(j: Option<Json>) -> Json {
    match j {
        Some(x) => x,
        None => Json::Null,
    }
}

/// The tool of an entry: the first named `tool_use` item of
/// `message.content` with its `input`; else the top-level `tool_name` when it
/// is a non-empty string, with the top-level `tool_input`.
pub open spec fn tool_info_spec(v: Json) -> (Option<Seq<char>>, Json) {
    let arr = opt_array(opt_get(json_get(v, "message"@), "content"@));
    let k = match arr {
        Some(a) => tool_use_from(a, 0),
        None => 0,
    };
    if arr is Some && k < arr->0.len() {
        (opt_str(json_get(arr->0[k], "name"@)), or_null(json_get(arr->0[k], "input"@)))
    } else {
        let name = match opt_str(json_get(v, "tool_name"@)) {
            Some(n) => if n.len() > 0 {
                Some(n)
            } else {
                None
            },
            None => None,
        };
        (name, or_null(json_get(v, "tool_input"@)))
    }
}

/// The message that a parsed entry yields.
pub open spec fn message_of(v: Json) -> MessageView {
    MessageView {
        msg_type: match opt_str(json_get(v, "type"@)) {
            Some(t) => t,
            None => Seq::empty(),
        },
        text_content: text_content_spec(v),
        tool_name: tool_info_spec(v).0,
        tool_input: tool_info_spec(v).1,
        is_api_error: match opt_bool(json_get(v, "isApiErrorMessage"@)) {
            Some(b) => b,
            None => false,
        },
        error_status: match opt_u64(opt_get(json_get(v, "error"@), "status"@)) {
            Some(s) => Some(s as u16),
            None => None,
        },
    }
}

/// The message of one line: the trimmed line parsed as JSON, `None` when it
/// is not valid JSON.
pub open spec fn line_message(l: Seq<char>) -> Option<MessageView> {
    match crate::json::json_parse(trim(l)) {
        Some(v) => Some(message_of(v)),
        None => None,
    }
}

/// The messages of the lines from index `i` on, skipping blank lines and
/// lines that are not JSON.
pub open spec fn transcript_from(s: Seq<char>, i: int) -> Seq<MessageView>
    decreases s.len() + 1 - i,
{
    if i < 0 || i >= s.len() {
        Seq::empty()
    } else if i < next_line(s, i) <= s.len() + 1 {
        let l = line_at(s, i);
        let rest = transcript_from(s, next_line(s, i));
        if trim(l).len() == 0 {
            rest
        } else {
            match line_message(l) {
                Some(m) => seq![m] + rest,
                None => rest,
            }
        }
    } else {
        Seq::empty()
    }
}

/// The views of a list of messages.
pub open spec fn views(ms: Seq<Message>) -> Seq<MessageView> {
    ms.map_values(|m: Message| m@)
}

// ─── Parsing ─────────────────────────────────────────────────────────────────

/// Parses a JSON Lines transcript (one JSON object per line), skipping blank
/// lines and lines that are not valid JSON.
pub fn parse_transcript_str(content: &str) -> (r: Vec<Message>)
    ensures
        views(r@) == transcript_from(content@, 0),
{
    let s = chars_of(content);
    let mut out: Vec<Message> = Vec::new();
    let mut i: usize = 0;
    while i < s.len()
        invariant
            i <= s.len(),
            s@ == content@,
            transcript_from(s@, 0) == views(out@) + transcript_from(s@, i as int),
        decreases s.len() - i,
    {
        let e = find_newline(&s, i);
        let line = line_chars(&s, i, e);
        let ghost before = out@;
        let t = trim_chars(&line);
        if t.len() != 0 {
            let text = string_of(&line);
            match parse_message_line(text.as_str()) {
                Some(m) => {
                    out.push(m);
                    assert(views(out@) == views(before).push(out@.last()@));
                },
                None => {},
            }
        }
        assert(transcript_from(s@, i as int) == {
            let l = line_at(s@, i as int);
            let rest = transcript_from(s@, next_line(s@, i as int));
            if trim(l).len() == 0 {
                rest
            } else {
                match line_message(l) {
                    Some(m) => seq![m] + rest,
                    None => rest,
                }
            }
        });
        if e < s.len() {
            i = e + 1;
        } else {
            i = s.len();
        }
    }
    out
}

fn find_newline(s: &Vec<char>, i: usize) -> (r: usize)
    requires
        i <= s.len(),
    ensures
        r == crate::summary::find_from(s@, '\n', i as int),
        i <= r <= s.len(),
        i < next_line(s@, i as int),
{
    proof {
        crate::summary::lemma_find_from(s@, '\n', i as int);
    }
    let mut k = i;
    while k < s.len() && s[k] != '\n'
        invariant
            i <= k <= s.len(),
            crate::summary::find_from(s@, '\n', k as int) == crate::summary::find_from(
                s@,
                '\n',
                i as int,
            ),
        decreases s.len() - k,
    {
        k = k + 1;
    }
    k
}

fn line_chars(s: &Vec<char>, i: usize, e: usize) -> (r: Vec<char>)
    requires
        i <= e <= s.len(),
        e == crate::summary::find_from(s@, '\n', i as int),
    ensures
        r@ == line_at(s@, i as int),
{
    let l = slice_chars(s, i, e);
    if e < s.len() && l.len() > 0 && l[l.len() - 1] == '\r' {
        let m = slice_chars(&l, 0, l.len() - 1);
        assert(m@ == l@.drop_last());
        m
    } else {
        l
    }
}

/// Parses one JSON line into a message; `None` when the trimmed line is not
/// valid JSON.
pub fn parse_message_line(line: &str) -> (r: Option<Message>)
    ensures
        r matches Some(m) ==> line_message(line@) == Some(m@),
        r is None ==> line_message(line@) is None,
{
    let lv = chars_of(line);
    let tv = trim_chars(&lv);
    let trimmed = string_of(&tv);
    match parse_json(trimmed.as_str()) {
        Some(v) => Some(message_from_json(v)),
        None => None,
    }
}

/// The message that a parsed transcript entry describes.
pub fn message_from_json(v: Json) -> (r: Message)
    ensures
        r@ == message_of(v),
{
    let msg_type = match v.get("type") {
        Some(t) => match t.as_str() {
            Some(s) => s.clone(),
            None => String::new(),
        },
        None => String::new(),
    };
    let text_content = extract_text_content(&v);
    let is_api_error = match v.get("isApiErrorMessage") {
        Some(b) => match b.as_bool() {
            Some(x) => x,
            None => false,
        },
        None => false,
    };
    let error_status = match v.get("error") {
        Some(e) => match e.get("status") {
            Some(st) => match st.as_u64() {
                Some(n) => Some(n as u16),
                None => None,
            },
            None => None,
        },
        None => None,
    };
    let (tool_name, tool_input) = extract_tool_info(v);
    Message { msg_type, text_content, tool_name, tool_input, is_api_error, error_status }
}

/// The texts of the text items of a list, joined by single spaces, or `None`
/// when there is no text item.
fn join_texts(items: &Vec<Json>) -> (r: Option<String>)
    ensures
        opt_string_view(r) == texts_of(Some(items@)),
{
    let mut out: Vec<char> = Vec::new();
    let mut started = false;
    let mut i: usize = 0;
    while i < items.len()
        invariant
            i <= items.len(),
            joined_texts_from(items@, 0, false) == out@ + joined_texts_from(items@, i as int, started),
            started <==> exists|k: int| 0 <= k < i && (#[trigger] item_text(items@[k])) is Some,
        decreases items.len() - i,
    {
        let item = &items[i];
        let is_text = match item.get("type") {
            Some(t) => match t.as_str() {
                Some(ty) => str_eq(ty.as_str(), "text"),
                None => false,
            },
            None => false,
        };
        if is_text {
            match item.get("text") {
                Some(x) => match x.as_str() {
                    Some(text) => {
                        if started {
                            out.push(' ');
                        }
                        let tv = chars_of(text.as_str());
                        push_all(&mut out, &tv);
                        started = true;
                        assert(item_text(items@[i as int]) is Some);
                    },
                    None => {},
                },
                None => {},
            }
        }
        proof {
            reveal_strlit(" ");
            assert(" "@ == seq![' ']);
        }
        i = i + 1;
    }
    if started {
        Some(string_of(&out))
    } else {
        None
    }
}

/// The text of an optional string.
pub open spec fn opt_string_view(o: Option<String>) -> Option<Seq<char>> {
    crate::types::opt_view(o)
}

fn extract_text_content(v: &Json) -> (r: String)
    ensures
        r@ == text_content_spec(*v),
{
    match v.get("message") {
        Some(m) => match m.get("content") {
            Some(c) => match c.as_array() {
                Some(arr) => match join_texts(arr) {
                    Some(t) => return t,
                    None => {},
                },
                None => {},
            },
            None => {},
        },
        None => {},
    }
    match v.get("content") {
        Some(c) => {
            match c.as_str() {
                Some(s) => return s.clone(),
                None => {},
            }
            match c.as_array() {
                Some(arr) => match join_texts(arr) {
                    Some(t) => return t,
                    None => {},
                },
                None => {},
            }
        },
        None => {},
    }
    String::new()
}

/// Index of the first named `tool_use` item, or the length of the list.
fn find_tool_use(items: &Vec<Json>) -> (r: usize)
    ensures
        r == tool_use_from(items@, 0),
        r <= items.len(),
{
    let mut i: usize = 0;
    while i < items.len()
        invariant
            i <= items.len(),
            tool_use_from(items@, i as int) == tool_use_from(items@, 0),
        decreases items.len() - i,
    {
        let item = &items[i];
        let is_tool_use = match item.get("type") {
            Some(t) => match t.as_str() {
                Some(ty) => str_eq(ty.as_str(), "tool_use"),
                None => false,
            },
            None => false,
        };
        let named = match item.get("name") {
            Some(n) => n.as_str().is_some(),
            None => false,
        };
        if is_tool_use && named {
            return i;
        }
        i = i + 1;
    }
    i
}

fn extract_tool_info(v: Json) -> (r: (Option<String>, Json))
    ensures
        crate::types::opt_view(r.0) == tool_info_spec(v).0,
        r.1 == tool_info_spec(v).1,
{
    let k = match v.get("message") {
        Some(m) => match m.get("content") {
            Some(c) => match c.as_array() {
                Some(arr) => {
                    let k = find_tool_use(arr);
                    if k < arr.len() {
                        Some(k)
                    } else {
                        None
                    }
                },
                None => None,
            },
            None => None,
        },
        None => None,
    };
    match k {
        Some(k) => {
            let ghost whole = v;
            let m = v.into_member("message");
            let arr = match m {
                Some(m) => match m.into_member("content") {
                    Some(c) => c.into_array(),
                    None => None,
                },
                None => None,
            };
            match arr {
                Some(mut arr) => {
                    let item = arr.remove(k);
                    let name = match item.get("name") {
                        Some(n) => match n.as_str() {
                            Some(s) => Some(s.clone()),
                            None => None,
                        },
                        None => None,
                    };
                    let input = match item.into_member("input") {
                        Some(x) => x,
                        None => Json::Null,
                    };
                    (name, input)
                },
                None => (None, Json::Null),
            }
        },
        None => {
            let name = match v.get("tool_name") {
                Some(n) => match n.as_str() {
                    Some(s) => if s.as_str().is_empty() {
                        None
                    } else {
                        Some(s.clone())
                    },
                    None => None,
                },
                None => None,
            };
            let input = match v.into_member("tool_input") {
                Some(x) => x,
                None => Json::Null,
            };
            (name, input)
        },
    }
}

// ─── Detection ───────────────────────────────────────────────────────────────

/// Tools that change files or run commands.
pub open spec fn is_write_tool(n: Seq<char>) -> bool {
    n == "Write"@ || n == "Edit"@ || n == "Bash"@ || n == "NotebookEdit"@
}

/// Tools that only read.
pub open spec fn is_read_tool(n: Seq<char>) -> bool {
    n == "Read"@ || n == "Grep"@ || n == "Glob"@
}

/// The last messages, at most 15.
pub open spec fn recent_spec(ms: Seq<Message>) -> Seq<Message> {
    let start = if ms.len() > 15 {
        ms.len() - 15
    } else {
        0
    };
    ms.subrange(start, ms.len() as int)
}

/// The text of a message mentions the session limit.
pub open spec fn mentions_session_limit(m: Message) -> bool {
    contains_seq(lowercase(m.text_content@), "session limit reached"@)
}

/// The length in bytes (UTF-8) of a text.
pub open spec fn byte_len(t: Seq<char>) -> usize {
    encode_utf8(t).len() as usize
}

/// Index of the first API-error message at or after `i` (`r.len()` if none).
pub open spec fn api_error_from(r: Seq<Message>, i: int) -> int
    decreases r.len() - i,
{
    if 0 <= i < r.len() && !r[i].is_api_error {
        api_error_from(r, i + 1)
    } else {
        i
    }
}

/// One of the last three of the recent messages mentions the session limit.
pub open spec fn session_limit_in(r: Seq<Message>) -> bool {
    exists|i: int| last3_start(r) <= i < r.len() && mentions_session_limit(#[trigger] r[i])
}

/// Where the last three messages start.
pub open spec fn last3_start(r: Seq<Message>) -> int {
    if r.len() > 3 {
        r.len() - 3
    } else {
        0
    }
}

/// Some message uses a writing tool.
pub open spec fn has_write_tool(r: Seq<Message>) -> bool {
    exists|i: int|
        0 <= i < r.len() && (#[trigger] r[i]).tool_name is Some && is_write_tool(r[i].tool_name->0@)
}

/// Some message uses a tool.
pub open spec fn has_any_tool(r: Seq<Message>) -> bool {
    exists|i: int| 0 <= i < r.len() && (#[trigger] r[i]).tool_name is Some
}

/// Every tool used is a reading tool.
pub open spec fn only_read_tools(r: Seq<Message>) -> bool {
    forall|i: int|
        0 <= i < r.len() && (#[trigger] r[i]).tool_name is Some ==> is_read_tool(r[i].tool_name->0@)
}

/// Some message has a text longer than 200 bytes.
pub open spec fn has_long_text(r: Seq<Message>) -> bool {
    exists|i: int| 0 <= i < r.len() && byte_len((#[trigger] r[i]).text_content@) > 200
}

/// The status for an API-error message: overloaded for status 429 or 529.
pub open spec fn api_error_status(m: Message) -> Status {
    let code: u16 = match m.error_status {
        Some(c) => c,
        None => 0,
    };
    if code == 429 || code == 529 {
        Status::ApiOverloaded
    } else {
        Status::ApiError
    }
}

/// The status of a transcript and hook event. In order: the session limit
/// mentioned in one of the last 3 recent messages; an API error flagged by
/// the hook; the first API-error message among the recent ones (overloaded
/// for status 429 or 529); a question; a plan; a recent writing tool;
/// read-only tools with a long text (more than 200 bytes); else a completed
/// task.
pub open spec fn detect_status_spec(ms: Seq<Message>, hook_api_error: bool, hook_tool: Seq<char>) -> Status {
    let r = recent_spec(ms);
    if session_limit_in(r) {
        Status::SessionLimit
    } else if hook_api_error {
        Status::ApiError
    } else if api_error_from(r, 0) < r.len() {
        api_error_status(r[api_error_from(r, 0)])
    } else if hook_tool == "AskUserQuestion"@ {
        Status::Question
    } else if hook_tool == "ExitPlanMode"@ {
        Status::PlanReady
    } else if has_write_tool(r) {
        Status::TaskComplete
    } else if has_any_tool(r) && only_read_tools(r) && has_long_text(r) {
        Status::ReviewComplete
    } else {
        Status::TaskComplete
    }
}

/// The last messages of a transcript, at most 15.
pub fn recent_messages(messages: &[Message]) -> (r: &[Message])
    ensures
        r@ == recent_spec(messages@),
{
    let n = messages.len();
    let start = if n > 15 {
        n - 15
    } else {
        0
    };
    &messages[start..n]
}

fn mentions_limit(m: &Message) -> (r: bool)
    ensures
        r == mentions_session_limit(*m),
{
    let l = to_lowercase(m.text_content.as_str());
    let lv = chars_of(l.as_str());
    let p = chars_of("session limit reached");
    contains_chars(&lv, &p)
}

fn write_tool(n: &str) -> (r: bool)
    ensures
        r == is_write_tool(n@),
{
    str_eq(n, "Write") || str_eq(n, "Edit") || str_eq(n, "Bash") || str_eq(n, "NotebookEdit")
}

fn read_tool(n: &str) -> (r: bool)
    ensures
        r == is_read_tool(n@),
{
    str_eq(n, "Read") || str_eq(n, "Grep") || str_eq(n, "Glob")
}

/// Detects the status of a transcript and hook event (see `detect_status_spec`).
pub fn detect_status(messages: &[Message], hook_context: &HookInput) -> (s: Status)
    ensures
        s == detect_status_spec(
            messages@,
            hook_context.is_api_error_message,
            hook_context.tool_name@,
        ),
{
    let recent = recent_messages(messages);
    let n = recent.len();
    let ghost r = recent@;
    // 1. Session limit in the last three recent messages.
    let l3 = if n > 3 {
        n - 3
    } else {
        0
    };
    let mut i = l3;
    while i < n
        invariant
            l3 <= i <= n,
            l3 == last3_start(r),
            n == r.len(),
            r == recent@,
            r == recent_spec(messages@),
            forall|j: int| l3 <= j < i ==> !mentions_session_limit(#[trigger] r[j]),
        decreases n - i,
    {
        if mentions_limit(&recent[i]) {
            assert(session_limit_in(r));
            return Status::SessionLimit;
        }
        i = i + 1;
    }
    // 2. API errors.
    if hook_context.is_api_error_message {
        return Status::ApiError;
    }
    let mut i: usize = 0;
    while i < n
        invariant
            i <= n,
            n == r.len(),
            r == recent@,
            r == recent_spec(messages@),
            !hook_context.is_api_error_message,
            l3 == last3_start(r),
            forall|j: int| l3 <= j < n ==> !mentions_session_limit(#[trigger] r[j]),
            api_error_from(r, i as int) == api_error_from(r, 0),
        decreases n - i,
    {
        let msg = &recent[i];
        if msg.is_api_error {
            let code: u16 = match msg.error_status {
                Some(c) => c,
                None => 0,
            };
            assert(api_error_from(r, i as int) == i);
            assert(!session_limit_in(r));
            return if code == 429 || code == 529 {
                Status::ApiOverloaded
            } else {
                Status::ApiError
            };
        }
        i = i + 1;
    }
    // 3. Question, 4. plan.
    if str_eq(hook_context.tool_name.as_str(), "AskUserQuestion") {
        return Status::Question;
    }
    if str_eq(hook_context.tool_name.as_str(), "ExitPlanMode") {
        return Status::PlanReady;
    }
    // 5. A writing tool, 6. read-only tools with a long text.
    let mut has_write = false;
    let mut has_any_tool = false;
    let mut only_read = true;
    let mut long_text = false;
    let mut i: usize = 0;
    while i < n
        invariant
            i <= n,
            n == r.len(),
            r == recent@,
            r == recent_spec(messages@),
            has_write <==> exists|j: int|
                0 <= j < i && (#[trigger] r[j]).tool_name is Some && is_write_tool(
                    r[j].tool_name->0@,
                ),
            has_any_tool <==> exists|j: int| 0 <= j < i && (#[trigger] r[j]).tool_name is Some,
            only_read <==> forall|j: int|
                0 <= j < i && (#[trigger] r[j]).tool_name is Some ==> is_read_tool(
                    r[j].tool_name->0@,
                ),
            long_text <==> exists|j: int|
                0 <= j < i && byte_len((#[trigger] r[j]).text_content@) > 200,
        decreases n - i,
    {
        let msg = &recent[i];
        match &msg.tool_name {
            Some(name) => {
                has_any_tool = true;
                if write_tool(name.as_str()) {
                    has_write = true;
                }
                if !read_tool(name.as_str()) {
                    only_read = false;
                }
            },
            None => {},
        }
        if msg.text_content.as_str().len() > 200 {
            long_text = true;
        }
        i = i + 1;
    }
    if has_write {
        return Status::TaskComplete;
    }
    if has_any_tool && only_read && long_text {
        return Status::ReviewComplete;
    }
    Status::TaskComplete
}

/// Laws of detection: a session limit mentioned in the last recent message
/// wins over everything; otherwise an API error flagged by the hook wins
/// over the tools; and, with no API error anywhere, a question is detected
/// only when the hook names `AskUserQuestion`.
pub proof fn lemma_detection_order(ms: Seq<Message>, hook_api_error: bool, hook_tool: Seq<char>)
    ensures
        ({
            let r = recent_spec(ms);
            let s = detect_status_spec(ms, hook_api_error, hook_tool);
            &&& (r.len() > 0 && mentions_session_limit(r.last())) ==> s == Status::SessionLimit
            &&& hook_api_error && s != Status::SessionLimit ==> s == Status::ApiError
            &&& (forall|i: int| 0 <= i < r.len() ==> !(#[trigger] r[i]).is_api_error) && !hook_api_error
                && s == Status::Question ==> hook_tool == "AskUserQuestion"@
        }),
{
    let r = recent_spec(ms);
    let l3 = if r.len() > 3 {
        r.len() - 3
    } else {
        0
    };
    if r.len() > 0 && mentions_session_limit(r.last()) {
        assert(l3 <= r.len() - 1 < r.len());
        assert(mentions_session_limit(r[r.len() - 1]));
        assert(session_limit_in(r));
    }
    if forall|i: int| 0 <= i < r.len() ==> !(#[trigger] r[i]).is_api_error {
        lemma_no_api_error(r, 0);
    }
}

proof fn lemma_no_api_error(r: Seq<Message>, i: int)
    requires
        0 <= i <= r.len(),
        forall|k: int| 0 <= k < r.len() ==> !(#[trigger] r[k]).is_api_error,
    ensures
        api_error_from(r, i) == r.len(),
    decreases r.len() - i,
{
    if i < r.len() {
        lemma_no_api_error(r, i + 1);
    }
}


proof fn lemma_first_api_error(r: Seq<Message>, i: int, j: int)
    requires
        0 <= j <= i < r.len(),
        r[i].is_api_error,
        forall|k: int| 0 <= k < i ==> !(#[trigger] r[k]).is_api_error,
    ensures
        api_error_from(r, j) == i,
    decreases i - j,
{
    if j < i {
        lemma_first_api_error(r, i, j + 1);
    }
}

/// How an API error is classified: when no session limit is mentioned in
/// the last three recent messages and the hook raises no API-error flag,
/// the first recent message marked as an API error decides the status —
/// rate limiting (429) and overload (529) give `ApiOverloaded`, any other
/// status or none gives `ApiError` — whatever tool the hook names.
pub proof fn lemma_api_error_classification(ms: Seq<Message>, hook_tool: Seq<char>, i: int)
    requires
        ({
            let r = recent_spec(ms);
            &&& 0 <= i < r.len()
            &&& r[i].is_api_error
            &&& forall|k: int| 0 <= k < i ==> !(#[trigger] r[k]).is_api_error
            &&& forall|k: int| r.len() - 3 <= k < r.len() && 0 <= k ==> !mentions_session_limit(#[trigger] r[k])
        }),
    ensures
        ({
            let r = recent_spec(ms);
            let s = detect_status_spec(ms, false, hook_tool);
            &&& (r[i].error_status == Some(429u16) || r[i].error_status == Some(529u16)) ==> s == Status::ApiOverloaded
            &&& !(r[i].error_status == Some(429u16) || r[i].error_status == Some(529u16)) ==> s == Status::ApiError
        }),
{
    let r = recent_spec(ms);
    lemma_first_api_error(r, i, 0);
    assert(!session_limit_in(r));
}

} // verus!
