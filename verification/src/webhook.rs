//! Webhook notifications: the payload that each chat service expects, the
//! request settings, and the retry schedule of a failed delivery.
use vstd::prelude::*;

use crate::assoc::{find_key, key_index_from};
use crate::layer::{lemma_first_index, lemma_vkey_index_from, vkey_index_from, vlookup};
use crate::json::{json_parse, json_text, json_to_string, parse_json, Json};
use crate::text::{chars_of, lowercase, owned, push_decimal, push_str, replace_all, replace_str, str_eq, string_of, to_lowercase, decimal};

verus! {

/// The chat services whose payload format is built in.
#[derive(Debug, Clone, Copy, PartialEq, Eq, Structural)]
pub enum WebhookPreset {
    Slack,
    Discord,
    Telegram,
    Lark,
    Custom,
}

/// The preset that a (lower-cased) preset name selects.
pub open spec fn preset_named(l: Seq<char>) -> WebhookPreset {
    if l == "slack"@ {
        WebhookPreset::Slack
    } else if l == "discord"@ {
        WebhookPreset::Discord
    } else if l == "telegram"@ {
        WebhookPreset::Telegram
    } else if l == "lark"@ {
        WebhookPreset::Lark
    } else {
        WebhookPreset::Custom
    }
}

impl WebhookPreset {
    /// The preset named `s`, ignoring case; an unknown name selects
    /// `Custom`.
    pub fn parse(s: &str) -> (r: WebhookPreset)
        ensures
            r == preset_named(lowercase(s@)),
    {
        let l = to_lowercase(s);
        let l = l.as_str();
        if str_eq(l, "slack") {
            WebhookPreset::Slack
        } else if str_eq(l, "discord") {
            WebhookPreset::Discord
        } else if str_eq(l, "telegram") {
            WebhookPreset::Telegram
        } else if str_eq(l, "lark") {
            WebhookPreset::Lark
        } else {
            WebhookPreset::Custom
        }
    }
}

/// A webhook endpoint with its payload format and request settings.
#[derive(Debug, Clone)]
pub struct WebhookDispatcher {
    pub url: String,
    pub preset: WebhookPreset,
    /// Telegram's chat id.
    pub chat_id: Option<String>,
    /// Extra request headers, one entry per name.
    pub headers: Vec<(String, String)>,
    /// For `Custom`: a JSON text in which `{{title}}` and `{{body}}` are
    /// replaced.
    pub template: Option<String>,
    /// How many times a failed delivery is retried.
    pub retry_max: u32,
    /// Timeout of one request, in seconds.
    pub timeout_seconds: u64,
}

/// The header list as pairs of character sequences.
pub open spec fn headers_view(h: Seq<(String, String)>) -> Seq<(Seq<char>, Seq<char>)> {
    h.map_values(|e: (String, String)| (e.0@, e.1@))
}

/// The header list after setting `key` to `value`: the first entry with
/// that name gets the new value in its place; without one, the entry is
/// added at the end.
pub open spec fn header_set(
    h: Seq<(Seq<char>, Seq<char>)>,
    key: Seq<char>,
    value: Seq<char>,
) -> Seq<(Seq<char>, Seq<char>)> {
    let i = vkey_index_from(h, key, 0);
    if i < h.len() {
        h.update(i, (key, value))
    } else {
        h.push((key, value))
    }
}

/// Setting a header makes it hold the new value and leaves every other
/// header as it was.
pub proof fn lemma_header_set(
    h: Seq<(Seq<char>, Seq<char>)>,
    key: Seq<char>,
    value: Seq<char>,
    other: Seq<char>,
)
    requires
        other != key,
    ensures
        vlookup(header_set(h, key, value), key) == Some(value),
        vlookup(header_set(h, key, value), other) == vlookup(h, other),
{
    let r = header_set(h, key, value);
    lemma_vkey_index_from(h, key, 0);
    lemma_vkey_index_from(h, other, 0);
    let i = vkey_index_from(h, key, 0);
    let j = vkey_index_from(h, other, 0);
    if i < h.len() {
        assert(forall|m: int| 0 <= m < h.len() && m != i ==> #[trigger] r[m] == h[m]);
        lemma_first_index(r, key, i);
        lemma_first_index(r, other, j);
    } else {
        assert(forall|m: int| 0 <= m < h.len() ==> #[trigger] r[m] == h[m]);
        lemma_first_index(r, key, h.len() as int);
        if j < h.len() {
            lemma_first_index(r, other, j);
        } else {
            lemma_first_index(r, other, r.len() as int);
        }
    }
}

proof fn lemma_headers_index(h: Seq<(String, String)>, k: Seq<char>, i: int)
    requires
        0 <= i <= h.len(),
    ensures
        key_index_from(h, k, i) == vkey_index_from(headers_view(h), k, i),
    decreases h.len() - i,
{
    if i < h.len() {
        assert(headers_view(h)[i].0 == h[i].0@);
        lemma_headers_index(h, k, i + 1);
    }
}

impl WebhookDispatcher {
    /// An endpoint with the `Custom` format, no chat id, no headers, no
    /// template, 3 retries and a 10 second timeout.
    pub fn new(url: String) -> (r: WebhookDispatcher)
        ensures
            r.url == url,
            r.preset == WebhookPreset::Custom,
            r.chat_id is None,
            r.headers@.len() == 0,
            r.template is None,
            r.retry_max == 3,
            r.timeout_seconds == 10,
    {
        WebhookDispatcher {
            url,
            preset: WebhookPreset::Custom,
            chat_id: None,
            headers: Vec::new(),
            template: None,
            retry_max: 3,
            timeout_seconds: 10,
        }
    }

    /// Sets the payload format.
    pub fn with_preset(self, preset: WebhookPreset) -> (r: WebhookDispatcher)
        ensures
            r == (WebhookDispatcher { preset, ..self }),
    {
        WebhookDispatcher { preset, ..self }
    }

    /// Sets Telegram's chat id.
    pub fn with_chat_id(self, chat_id: String) -> (r: WebhookDispatcher)
        ensures
            r == (WebhookDispatcher { chat_id: Some(chat_id), ..self }),
    {
        WebhookDispatcher { chat_id: Some(chat_id), ..self }
    }

    /// Sets the header `key` to `value`, replacing an earlier value.
    pub fn with_header(self, key: String, value: String) -> (r: WebhookDispatcher)
        ensures
            headers_view(r.headers@) == header_set(headers_view(self.headers@), key@, value@),
            r.url == self.url,
            r.preset == self.preset,
            r.chat_id == self.chat_id,
            r.template == self.template,
            r.retry_max == self.retry_max,
            r.timeout_seconds == self.timeout_seconds,
    {
        let mut s = self;
        let i = find_key(&s.headers, key.as_str());
        let ghost h = s.headers@;
        proof {
            lemma_headers_index(h, key@, 0);
            crate::assoc::lemma_key_index_from(h, key@, 0);
        }
        if i < s.headers.len() {
            s.headers.set(i, (key, value));
        } else {
            s.headers.push((key, value));
        }
        assert(headers_view(s.headers@) =~= header_set(headers_view(h), key@, value@));
        s
    }

    /// Sets how many times a failed delivery is retried.
    pub fn with_retry_max(self, retry_max: u32) -> (r: WebhookDispatcher)
        ensures
            r == (WebhookDispatcher { retry_max, ..self }),
    {
        WebhookDispatcher { retry_max, ..self }
    }

    /// Sets the timeout of one request.
    pub fn with_timeout_seconds(self, timeout_seconds: u64) -> (r: WebhookDispatcher)
        ensures
            r == (WebhookDispatcher { timeout_seconds, ..self }),
    {
        WebhookDispatcher { timeout_seconds, ..self }
    }
}


// ─── Payloads ────────────────────────────────────────────────────────────────

/// `j` is the JSON string `s`.
pub open spec fn is_json_str(j: Json, s: Seq<char>) -> bool {
    j matches Json::Str(x) && x@ == s
}

/// `j` is an object whose members carry exactly the names `keys`, in
/// that order.
pub open spec fn object_keys(j: Json, keys: Seq<Seq<char>>) -> bool {
    j matches Json::Object(m) && m@.len() == keys.len() && forall|i: int|
        0 <= i < keys.len() ==> (#[trigger] m@[i]).0@ == keys[i]
}

/// The value of the `i`-th member of an object.
pub open spec fn member(j: Json, i: int) -> Json {
    match j {
        Json::Object(m) => m@[i].1,
        _ => Json::Null,
    }
}

/// `{"title": title, "body": body}`.
pub open spec fn plain_payload(r: Json, title: Seq<char>, body: Seq<char>) -> bool {
    &&& object_keys(r, seq!["title"@, "body"@])
    &&& is_json_str(member(r, 0), title)
    &&& is_json_str(member(r, 1), body)
}

/// A custom template with `{{title}}` and then `{{body}}` replaced.
pub open spec fn rendered_template(t: Seq<char>, title: Seq<char>, body: Seq<char>) -> Seq<char> {
    replace_all(replace_all(t, "{{title}}"@, title), "{{body}}"@, body)
}

/// The payload that `d` sends for a notification.
pub open spec fn payload_spec(d: WebhookDispatcher, title: Seq<char>, body: Seq<char>, r: Json) -> bool {
    match d.preset {
        WebhookPreset::Slack => {
            &&& object_keys(r, seq!["text"@])
            &&& is_json_str(member(r, 0), "*"@ + title + "*\n"@ + body)
        },
        WebhookPreset::Discord => {
            &&& object_keys(r, seq!["embeds"@])
            &&& member(r, 0) matches Json::Array(a)
            &&& a@.len() == 1
            &&& object_keys(a@[0], seq!["title"@, "description"@])
            &&& is_json_str(member(a@[0], 0), title)
            &&& is_json_str(member(a@[0], 1), body)
        },
        WebhookPreset::Telegram => {
            &&& object_keys(r, seq!["chat_id"@, "text"@, "parse_mode"@])
            &&& is_json_str(
                member(r, 0),
                match d.chat_id {
                    Some(c) => c@,
                    None => Seq::empty(),
                },
            )
            &&& is_json_str(member(r, 1), "*"@ + title + "*\n"@ + body)
            &&& is_json_str(member(r, 2), "Markdown"@)
        },
        WebhookPreset::Lark => {
            &&& object_keys(r, seq!["msg_type"@, "content"@])
            &&& is_json_str(member(r, 0), "text"@)
            &&& object_keys(member(r, 1), seq!["text"@])
            &&& is_json_str(member(member(r, 1), 0), title + "\n"@ + body)
        },
        WebhookPreset::Custom => match d.template {
            Some(t) => match json_parse(rendered_template(t@, title, body)) {
                Some(v) => r == v,
                None => plain_payload(r, title, body),
            },
            None => plain_payload(r, title, body),
        },
    }
}

fn str_json(s: &str) -> (r: Json)
    ensures
        is_json_str(r, s@),
{
    Json::Str(owned(s))
}

fn text_json(v: &Vec<char>) -> (r: Json)
    ensures
        is_json_str(r, v@),
{
    Json::Str(string_of(v))
}

fn joined(a: &str, x: &str, b: &str, y: &str) -> (r: Vec<char>)
    ensures
        r@ == a@ + x@ + b@ + y@,
{
    let mut v = chars_of(a);
    push_str(&mut v, x);
    push_str(&mut v, b);
    push_str(&mut v, y);
    v
}

fn plain(title: &str, body: &str) -> (r: Json)
    ensures
        plain_payload(r, title@, body@),
{
    let r = Json::Object(vec![(owned("title"), str_json(title)), (owned("body"), str_json(body))]);
    assert(object_keys(r, seq!["title"@, "body"@]));
    r
}

impl WebhookDispatcher {
    /// The JSON payload for a notification, in the format of the preset.
    /// A custom template that does not render to valid JSON falls back to
    /// `{"title": .., "body": ..}`.
    pub fn format_payload(&self, title: &str, body: &str) -> (r: Json)
        ensures
            payload_spec(*self, title@, body@, r),
    {
        match self.preset {
            WebhookPreset::Slack => {
                let t = joined("*", title, "*\n", body);
                assert(t@ =~= "*"@ + title@ + "*\n"@ + body@);
                let r = Json::Object(vec![(owned("text"), text_json(&t))]);
                assert(object_keys(r, seq!["text"@]));
                r
            },
            WebhookPreset::Discord => {
                let e = Json::Object(
                    vec![(owned("title"), str_json(title)), (owned("description"), str_json(body))],
                );
                assert(object_keys(e, seq!["title"@, "description"@]));
                let r = Json::Object(vec![(owned("embeds"), Json::Array(vec![e]))]);
                assert(object_keys(r, seq!["embeds"@]));
                r
            },
            WebhookPreset::Telegram => {
                let chat = match &self.chat_id {
                    Some(c) => str_json(c.as_str()),
                    None => str_json(""),
                };
                proof {
                    reveal_strlit("");
                    assert(""@ =~= Seq::<char>::empty());
                }
                assert(is_json_str(
                    chat,
                    match self.chat_id {
                        Some(c) => c@,
                        None => Seq::empty(),
                    },
                ));
                let t = joined("*", title, "*\n", body);
                assert(t@ =~= "*"@ + title@ + "*\n"@ + body@);
                let r = Json::Object(
                    vec![
                        (owned("chat_id"), chat),
                        (owned("text"), text_json(&t)),
                        (owned("parse_mode"), str_json("Markdown")),
                    ],
                );
                assert(object_keys(r, seq!["chat_id"@, "text"@, "parse_mode"@]));
                r
            },
            WebhookPreset::Lark => {
                let mut t = chars_of(title);
                push_str(&mut t, "\n");
                push_str(&mut t, body);
                let content = Json::Object(vec![(owned("text"), text_json(&t))]);
                assert(object_keys(content, seq!["text"@]));
                let r = Json::Object(vec![(owned("msg_type"), str_json("text")), (owned("content"), content)]);
                assert(object_keys(r, seq!["msg_type"@, "content"@]));
                r
            },
            WebhookPreset::Custom => match &self.template {
                Some(tmpl) => {
                    proof {
                        reveal_strlit("{{title}}");
                        reveal_strlit("{{body}}");
                    }
                    let a = replace_str(tmpl.as_str(), "{{title}}", title);
                    let b = replace_str(a.as_str(), "{{body}}", body);
                    match parse_json(b.as_str()) {
                        Some(v) => v,
                        None => plain(title, body),
                    }
                },
                None => plain(title, body),
            },
        }
    }
}


// ─── Retries ─────────────────────────────────────────────────────────────────

/// What follows a failed delivery.
#[derive(Debug, Clone, PartialEq, Eq)]
pub enum RetryStep {
    /// Wait `backoff_seconds`, then try again; `failures` deliveries have
    /// failed so far.
    Retry { failures: u32, backoff_seconds: u64 },
    /// Give up, with this error.
    GiveUp(String),
}

/// The error of a delivery that failed after all its retries.
pub open spec fn give_up_message(retry_max: u32, e: Seq<char>) -> Seq<char> {
    "Webhook failed after "@ + decimal(retry_max as nat) + " retries: "@ + e
}

impl WebhookDispatcher {
    /// The step after a delivery failed with `error`, when `failures`
    /// deliveries had failed before it: retry after 1, 2, 4, ... seconds
    /// while the number of failures does not exceed `retry_max`, else give
    /// up. A retry after 64 failures would need a backoff of 2^64 seconds,
    /// which does not fit: it is left out.
    pub fn after_failure(&self, failures: u32, error: &str) -> (r: RetryStep)
        requires
            failures < u32::MAX,
            failures + 1 <= self.retry_max ==> failures < 64,
        ensures
            failures + 1 > self.retry_max ==> (r matches RetryStep::GiveUp(m) && m@
                == give_up_message(self.retry_max, error@)),
            failures + 1 <= self.retry_max ==> r == (RetryStep::Retry {
                failures: (failures + 1) as u32,
                backoff_seconds: vstd::arithmetic::power2::pow2(failures as nat) as u64,
            }),
    {
        let attempt = failures + 1;
        if attempt > self.retry_max {
            let mut m = chars_of("Webhook failed after ");
            push_decimal(&mut m, self.retry_max as u64);
            push_str(&mut m, " retries: ");
            push_str(&mut m, error);
            RetryStep::GiveUp(string_of(&m))
        } else {
            let shift = failures as u64;
            proof {
                vstd::bits::lemma_u64_pow2_no_overflow(shift as nat);
                vstd::bits::lemma_u64_shl_is_mul(1, shift);
            }
            RetryStep::Retry { failures: attempt, backoff_seconds: 1u64 << shift }
        }
    }
}


impl WebhookDispatcher {
    /// The request body for a notification: the payload as compact JSON
    /// text.
    pub fn payload_text(&self, title: &str, body: &str) -> (r: String)
        ensures
            exists|p: Json| payload_spec(*self, title@, body@, p) && r@ == json_text(p),
    {
        let p = self.format_payload(title, body);
        json_to_string(&p)
    }
}

} // verus!
