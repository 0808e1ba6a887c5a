//! What the library asks of the desktop: a way to show a notification and a
//! way to tell whether the user is at the terminal; the no-op fallbacks; and
//! the text handling of the platform back-ends (the commands they run and
//! the output they read).
use vstd::prelude::*;

use crate::listing::last_index_before;
use crate::summary::{find_from, lemma_find_from};
use crate::text::{
    slice_chars,
    all_ascii, ascii_lower, chars_of, contains_chars, contains_seq, lowercase, owned, parse_u64, parse_u64_spec, push_str,
    replace_all, replace_chars, string_of, str_eq, to_lowercase, trim, trim_chars,
};

verus! {

/// Shows desktop notifications.
pub trait DesktopNotifier {
    /// Shows a notification. `subtitle` and `icon` (a file path) may be
    /// ignored where the platform has no use for them; `timeout` is in
    /// seconds.
    fn send(
        &self,
        title: &str,
        body: &str,
        subtitle: Option<&str>,
        icon: Option<&str>,
        timeout: Option<u64>,
    ) -> Result<(), String>;

    /// Whether a click on the notification can run an action; unless a
    /// notifier says otherwise, it cannot.
    fn supports_click_action(&self) -> (r: bool)
        default_ensures
            !r,
    {
        false
    }
}

/// Tells how present the user is.
pub trait UserActivityDetector {
    /// Seconds since the last keyboard or mouse input.
    fn idle_seconds(&self) -> u64;

    /// Whether a terminal emulator is the focused window.
    fn is_terminal_focused(&self) -> bool;
}

/// The fallback detector: never idle, terminal never focused.
pub struct NoopActivityDetector;

impl UserActivityDetector for NoopActivityDetector {
    fn idle_seconds(&self) -> (r: u64)
        ensures
            r == 0,
    {
        0
    }

    fn is_terminal_focused(&self) -> (r: bool)
        ensures
            !r,
    {
        false
    }
}

/// The fallback notifier: discards every notification.
pub struct NoopNotifier;

impl DesktopNotifier for NoopNotifier {
    fn send(
        &self,
        title: &str,
        body: &str,
        subtitle: Option<&str>,
        icon: Option<&str>,
        timeout: Option<u64>,
    ) -> (r: Result<(), String>)
        ensures
            r is Ok,
    {
        Ok(())
    }
}

// ─── AppleScript ─────────────────────────────────────────────────────────────

/// A string escaped for an AppleScript string literal: each `\` doubled,
/// then each `"` preceded by `\`.
pub open spec fn applescript_escaped(s: Seq<char>) -> Seq<char> {
    replace_all(replace_all(s, seq!['\\'], seq!['\\', '\\']), seq!['"'], seq!['\\', '"'])
}

/// Escapes a string for an AppleScript string literal.
pub fn escape_applescript(s: &str) -> (r: String)
    ensures
        r@ == applescript_escaped(s@),
{
    let v = chars_of(s);
    let bs = vec!['\\'];
    let bs2 = vec!['\\', '\\'];
    let q = vec!['"'];
    let bq = vec!['\\', '"'];
    let a = replace_chars(&v, &bs, &bs2);
    let b = replace_chars(&a, &q, &bq);
    assert(bs@ =~= seq!['\\']);
    assert(bs2@ =~= seq!['\\', '\\']);
    assert(q@ =~= seq!['"']);
    assert(bq@ =~= seq!['\\', '"']);
    string_of(&b)
}

/// The AppleScript that shows a notification.
pub open spec fn notification_script(
    title: Seq<char>,
    body: Seq<char>,
    subtitle: Option<Seq<char>>,
) -> Seq<char> {
    "display notification \""@ + applescript_escaped(body) + "\" with title \""@
        + applescript_escaped(title) + "\""@ + match subtitle {
        Some(s) => " subtitle \""@ + applescript_escaped(s) + "\""@,
        None => Seq::empty(),
    }
}

/// The AppleScript that shows a notification with the given title, body
/// and subtitle.
pub fn applescript_notification(title: &str, body: &str, subtitle: Option<&str>) -> (r: String)
    ensures
        r@ == notification_script(
            title@,
            body@,
            match subtitle {
                Some(s) => Some(s@),
                None => None,
            },
        ),
{
    let mut v = chars_of("display notification \"");
    let eb = escape_applescript(body);
    push_str(&mut v, eb.as_str());
    push_str(&mut v, "\" with title \"");
    let et = escape_applescript(title);
    push_str(&mut v, et.as_str());
    push_str(&mut v, "\"");
    let ghost before = v@;
    match subtitle {
        Some(s) => {
            push_str(&mut v, " subtitle \"");
            let es = escape_applescript(s);
            push_str(&mut v, es.as_str());
            push_str(&mut v, "\"");
        },
        None => {
            assert(v@ =~= before + Seq::empty());
        },
    }
    string_of(&v)
}

/// Whether the name of the frontmost macOS application (as `osascript`
/// prints it) is a terminal emulator.
pub open spec fn is_mac_terminal_name(n: Seq<char>) -> bool {
    let t = trim(lowercase(n));
    ||| t == "terminal"@
    ||| t == "iterm2"@
    ||| t == "iterm"@
    ||| t == "alacritty"@
    ||| t == "kitty"@
    ||| t == "warp"@
    ||| t == "hyper"@
    ||| t == "ghostty"@
}

/// Whether the frontmost macOS application is a terminal emulator, given
/// the name that `osascript` printed for it. On an ASCII name this is
/// exactly: in any case and with any surrounding white space, the name is
/// one of terminal, iterm2, iterm, alacritty, kitty, warp, hyper, ghostty.
pub fn mac_terminal_focused(output: &str) -> (r: bool)
    ensures
        r == is_mac_terminal_name(output@),
        all_ascii(output@) ==> (r <==> ({
            let name = trim(output@.map_values(|c: char| ascii_lower(c)));
            name == "terminal"@ || name == "iterm2"@ || name == "iterm"@ || name == "alacritty"@
                || name == "kitty"@ || name == "warp"@ || name == "hyper"@ || name == "ghostty"@
        })),
{
    let l = to_lowercase(output);
    let v = chars_of(l.as_str());
    let t = string_of(&trim_chars(&v));
    let t = t.as_str();
    str_eq(t, "terminal") || str_eq(t, "iterm2") || str_eq(t, "iterm") || str_eq(t, "alacritty")
        || str_eq(t, "kitty") || str_eq(t, "warp") || str_eq(t, "hyper") || str_eq(t, "ghostty")
}

// ─── Linux ───────────────────────────────────────────────────────────────────

/// The body of a Linux notification: the subtitle, when there is one, on a
/// line of its own above the body.
pub open spec fn linux_body_spec(body: Seq<char>, subtitle: Option<Seq<char>>) -> Seq<char> {
    match subtitle {
        Some(s) => s + "\n"@ + body,
        None => body,
    }
}

/// The body of a Linux notification.
pub fn linux_notification_body(body: &str, subtitle: Option<&str>) -> (r: String)
    ensures
        r@ == linux_body_spec(
            body@,
            match subtitle {
                Some(s) => Some(s@),
                None => None,
            },
        ),
{
    match subtitle {
        Some(s) => {
            let mut v = chars_of(s);
            push_str(&mut v, "\n");
            push_str(&mut v, body);
            string_of(&v)
        },
        None => owned(body),
    }
}

/// A notification timeout in seconds as the milliseconds that the
/// notification server takes, cut to 32 bits as `as u32` does.
pub fn timeout_millis(secs: u64) -> (r: u32)
    requires
        secs * 1000 <= u64::MAX,
    ensures
        r == (secs * 1000) as u32,
{
    (secs * 1000) as u32
}

/// Idle seconds from the milliseconds that `xprintidle` prints (0 when
/// the output is not a number).
pub open spec fn xprintidle_seconds(output: Seq<char>) -> u64 {
    match parse_u64_spec(trim(output)) {
        Some(ms) => ms / 1000,
        None => 0,
    }
}

/// Idle seconds from the output of `xprintidle`.
pub fn idle_seconds_from_xprintidle(output: &str) -> (r: u64)
    ensures
        r == xprintidle_seconds(output@),
{
    let v = chars_of(output);
    let t = string_of(&trim_chars(&v));
    match parse_u64(t.as_str()) {
        Some(ms) => ms / 1000,
        None => 0,
    }
}

/// Whether the title of the active X window (as `xdotool` prints it) names
/// a terminal emulator.
pub open spec fn is_linux_terminal_title(n: Seq<char>) -> bool {
    let t = trim(lowercase(n));
    ||| contains_seq(t, "terminal"@)
    ||| contains_seq(t, "konsole"@)
    ||| contains_seq(t, "gnome-terminal"@)
    ||| contains_seq(t, "xterm"@)
    ||| contains_seq(t, "alacritty"@)
    ||| contains_seq(t, "kitty"@)
    ||| contains_seq(t, "tilix"@)
}

/// Whether the active X window is a terminal emulator, given the title that
/// `xdotool getactivewindow getwindowname` printed.
pub fn linux_terminal_focused(output: &str) -> (r: bool)
    ensures
        r == is_linux_terminal_title(output@),
{
    let l = to_lowercase(output);
    let v = chars_of(l.as_str());
    let t = trim_chars(&v);
    contains_chars(&t, &chars_of("terminal")) || contains_chars(&t, &chars_of("konsole"))
        || contains_chars(&t, &chars_of("gnome-terminal")) || contains_chars(&t, &chars_of("xterm"))
        || contains_chars(&t, &chars_of("alacritty")) || contains_chars(&t, &chars_of("kitty"))
        || contains_chars(&t, &chars_of("tilix"))
}


// ─── macOS idle time ─────────────────────────────────────────────────────────

/// The idle time that one line of `ioreg` output reports, in whole
/// seconds: on a line that mentions `HIDIdleTime`, the number of
/// nanoseconds after its last `=`.
pub open spec fn ioreg_line_idle(l: Seq<char>) -> Option<u64> {
    let e = last_index_before(l, '=', l.len() as int);
    if contains_seq(l, "HIDIdleTime"@) && e >= 0 {
        match parse_u64_spec(trim(l.subrange(e + 1, l.len() as int))) {
            Some(n) => Some(n / 1_000_000_000),
            None => None,
        }
    } else {
        None
    }
}

/// The idle time reported by the first line, from index `i` on, that
/// reports one (0 when none does).
pub open spec fn ioreg_idle_from(s: Seq<char>, i: int) -> u64
    decreases s.len() + 1 - i,
{
    if i < 0 || i >= s.len() {
        0
    } else {
        let e = find_from(s, '\n', i);
        match ioreg_line_idle(s.subrange(i, e)) {
            Some(v) => v,
            None => {
                proof {
                    lemma_find_from(s, '\n', i);
                }
                ioreg_idle_from(s, e + 1)
            },
        }
    }
}

fn line_idle(l: &Vec<char>) -> (r: Option<u64>)
    ensures
        r == ioreg_line_idle(l@),
{
    proof {
        reveal_strlit("HIDIdleTime");
    }
    let key = chars_of("HIDIdleTime");
    if !contains_chars(l, &key) {
        return None;
    }
    let mut e = l.len();
    while e > 0
        invariant
            e <= l.len(),
            last_index_before(l@, '=', l.len() as int) == last_index_before(l@, '=', e as int),
        ensures
            e <= l.len(),
            last_index_before(l@, '=', l.len() as int) == last_index_before(l@, '=', e as int),
            e > 0 ==> l@[e - 1] == '=',
        decreases e,
    {
        if l[e - 1] == '=' {
            break;
        }
        e = e - 1;
    }
    if e == 0 {
        return None;
    }
    let rest = slice_chars(l, e, l.len());
    let t = string_of(&trim_chars(&rest));
    match parse_u64(t.as_str()) {
        Some(n) => Some(n / 1_000_000_000),
        None => None,
    }
}

/// Idle seconds from the output of `ioreg -c IOHIDSystem -d 4`: the first
/// line that mentions `HIDIdleTime` and ends in `= <nanoseconds>` gives
/// them; 0 when no line does.
pub fn idle_seconds_from_ioreg(output: &str) -> (r: u64)
    ensures
        r == ioreg_idle_from(output@, 0),
{
    let s = chars_of(output);
    let mut i: usize = 0;
    while i < s.len()
        invariant
            i <= s.len(),
            s@ == output@,
            ioreg_idle_from(s@, 0) == ioreg_idle_from(s@, i as int),
        decreases s.len() - i,
    {
        let mut e = i;
        while e < s.len() && s[e] != '\n'
            invariant
                i <= e <= s.len(),
                find_from(s@, '\n', i as int) == find_from(s@, '\n', e as int),
            decreases s.len() - e,
        {
            e = e + 1;
        }
        assert(find_from(s@, '\n', i as int) == e);
        let line = slice_chars(&s, i, e);
        match line_idle(&line) {
            Some(v) => {
                return v;
            },
            None => {},
        }
        if e >= s.len() {
            assert(ioreg_idle_from(s@, e + 1) == 0);
            return 0;
        }
        i = e + 1;
    }
    0
}

} // verus!
