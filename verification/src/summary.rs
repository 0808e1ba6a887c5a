//! Summary extraction: turns transcript messages into a short, plain-text
//! notification body.
//!
//! The Markdown clean-up is a pipeline of character-level passes; each pass
//! is specified by a spec function over `Seq<char>` and implemented by a
//! loop proved against it.
use vstd::prelude::*;

use crate::analyzer::Message;
use crate::json::{json_get, json_str, Json};
use crate::types::Status;
use crate::text::{
    chars_of, decimal, lowercase, push_decimal, push_str, to_lowercase, ends_with, is_whitespace, is_ws, keep_until, push_all, replace_all, replace_chars,
    skip_ws, slice_chars, starts_with, string_of, trim, trim_chars, trim_end, trim_end_chars,
    trim_start, trim_start_chars,
};

verus! {

// ─── Specification of the clean-up passes ────────────────────────────────────

/// A Markdown code fence (three backticks) starts at index `i`.
pub open spec fn fence_at(s: Seq<char>, i: int) -> bool {
    0 <= i && i + 3 <= s.len() && s[i] == '`' && s[i + 1] == '`' && s[i + 2] == '`'
}

/// The first index at or after `j` holding `c` (`s.len()` when there is none).
pub open spec fn find_from(s: Seq<char>, c: char, j: int) -> int
    decreases s.len() - j,
{
    if 0 <= j < s.len() && s[j] != c {
        find_from(s, c, j + 1)
    } else {
        j
    }
}

/// The first index at or after `j` where a fence starts (`s.len()` when none).
pub open spec fn next_fence(s: Seq<char>, j: int) -> int
    decreases s.len() - j,
{
    if 0 <= j < s.len() && !fence_at(s, j) {
        next_fence(s, j + 1)
    } else {
        j
    }
}

/// Where scanning resumes after a fenced block that opens at `i`: past the
/// rest of the opening line and its newline, past the closing fence and one
/// newline after it, or at the end of the text when the block is unclosed.
pub open spec fn block_end(s: Seq<char>, i: int) -> int {
    let a = find_from(s, '\n', i + 3);
    let b = if a < s.len() {
        a + 1
    } else {
        a
    };
    let k = next_fence(s, b);
    if k < s.len() {
        let e = k + 3;
        if e < s.len() && s[e] == '\n' {
            e + 1
        } else {
            e
        }
    } else {
        k
    }
}

/// Fenced code blocks from index `i` on, each replaced by one space.
pub open spec fn code_from(s: Seq<char>, i: int) -> Seq<char>
    decreases s.len() - i,
{
    if i < 0 || i >= s.len() {
        Seq::empty()
    } else if fence_at(s, i) {
        let e = block_end(s, i);
        if i < e <= s.len() {
            seq![' '] + code_from(s, e)
        } else {
            Seq::empty()
        }
    } else {
        seq![s[i]] + code_from(s, i + 1)
    }
}

/// Inline code: every backtick is dropped, and so is every character
/// between an odd-numbered backtick and the next one.
pub open spec fn ticks_from(s: Seq<char>, i: int, inside: bool) -> Seq<char>
    decreases s.len() - i,
{
    if i < 0 || i >= s.len() {
        Seq::empty()
    } else if s[i] == '`' {
        ticks_from(s, i + 1, !inside)
    } else if inside {
        ticks_from(s, i + 1, inside)
    } else {
        seq![s[i]] + ticks_from(s, i + 1, inside)
    }
}

/// A link `[text](url)` opens at `i`: a `]` follows, right after it a `(`,
/// and a `)` closes the url.
pub open spec fn link_at(s: Seq<char>, i: int) -> bool {
    let j = find_from(s, ']', i + 1);
    &&& 0 <= i < s.len()
    &&& s[i] == '['
    &&& j + 1 < s.len()
    &&& s[j + 1] == '('
    &&& find_from(s, ')', j + 2) < s.len()
}

/// Links from index `i` on, each replaced by its text.
pub open spec fn links_from(s: Seq<char>, i: int) -> Seq<char>
    decreases s.len() - i,
{
    if i < 0 || i >= s.len() {
        Seq::empty()
    } else if link_at(s, i) {
        let j = find_from(s, ']', i + 1);
        let k = find_from(s, ')', j + 2);
        if k >= i {
            s.subrange(i + 1, j) + links_from(s, k + 1)
        } else {
            Seq::empty()
        }
    } else {
        seq![s[i]] + links_from(s, i + 1)
    }
}

/// The line that starts at `i` (`str::lines`): up to the next newline, with
/// one carriage return before that newline removed.
pub open spec fn line_at(s: Seq<char>, i: int) -> Seq<char> {
    let e = find_from(s, '\n', i);
    let l = s.subrange(i, e);
    if e < s.len() && l.len() > 0 && l.last() == '\r' {
        l.drop_last()
    } else {
        l
    }
}

/// Where the line after the one starting at `i` starts.
pub open spec fn next_line(s: Seq<char>, i: int) -> int {
    find_from(s, '\n', i) + 1
}

/// The first index at or after `j` whose character is not `c`.
pub open spec fn skip_char(s: Seq<char>, c: char, j: int) -> int
    decreases s.len() - j,
{
    if 0 <= j < s.len() && s[j] == c {
        skip_char(s, c, j + 1)
    } else {
        j
    }
}

/// A line with its leading `#` marks and the white space after them removed.
pub open spec fn header_line(l: Seq<char>) -> Seq<char> {
    trim_start(l.subrange(skip_char(l, '#', 0), l.len() as int))
}

/// A line with a leading bullet marker (`- ` or `* ` after indentation)
/// removed; other lines are kept as they are.
pub open spec fn bullet_line(l: Seq<char>) -> Seq<char> {
    let t = trim_start(l);
    if starts_with(t, seq!['-', ' ']) || starts_with(t, seq!['*', ' ']) {
        t.subrange(2, t.len() as int)
    } else {
        l
    }
}

/// Lines from index `i` on, each passed through `header_line` and followed by a newline.
pub open spec fn headers_from(s: Seq<char>, i: int) -> Seq<char>
    decreases s.len() + 1 - i,
{
    if i < 0 || i >= s.len() {
        Seq::empty()
    } else if i < next_line(s, i) <= s.len() + 1 {
        header_line(line_at(s, i)) + seq!['\n'] + headers_from(s, next_line(s, i))
    } else {
        Seq::empty()
    }
}

/// Lines from index `i` on, each passed through `bullet_line` and followed by a newline.
pub open spec fn bullets_from(s: Seq<char>, i: int) -> Seq<char>
    decreases s.len() + 1 - i,
{
    if i < 0 || i >= s.len() {
        Seq::empty()
    } else if i < next_line(s, i) <= s.len() + 1 {
        bullet_line(line_at(s, i)) + seq!['\n'] + bullets_from(s, next_line(s, i))
    } else {
        Seq::empty()
    }
}

/// The per-line output with its last newline dropped unless the input ended
/// with a newline.
pub open spec fn lines_result(s: Seq<char>, r: Seq<char>) -> Seq<char> {
    if s.len() > 0 && s.last() == '\n' {
        r
    } else if r.len() > 0 {
        r.drop_last()
    } else {
        r
    }
}

/// Header marks removed from every line.
pub open spec fn remove_headers_spec(s: Seq<char>) -> Seq<char> {
    lines_result(s, headers_from(s, 0))
}

/// Bullet markers removed from every line.
pub open spec fn remove_bullets_spec(s: Seq<char>) -> Seq<char> {
    lines_result(s, bullets_from(s, 0))
}

/// `**`, then `__`, then every `*` removed.
pub open spec fn remove_emphasis_spec(s: Seq<char>) -> Seq<char> {
    replace_all(
        replace_all(replace_all(s, seq!['*', '*'], Seq::empty()), seq!['_', '_'], Seq::empty()),
        seq!['*'],
        Seq::empty(),
    )
}

/// White-space runs from index `i` on, each turned into one space; `prev`
/// says whether the output so far ends in a space (or is still empty).
pub open spec fn collapse_from(s: Seq<char>, i: int, prev: bool) -> Seq<char>
    decreases s.len() - i,
{
    if i < 0 || i >= s.len() {
        Seq::empty()
    } else if is_ws(s[i]) {
        if prev {
            collapse_from(s, i + 1, true)
        } else {
            seq![' '] + collapse_from(s, i + 1, true)
        }
    } else {
        seq![s[i]] + collapse_from(s, i + 1, false)
    }
}

/// Every white-space run turned into one space, with none at either end.
pub open spec fn collapse_spec(s: Seq<char>) -> Seq<char> {
    let r = collapse_from(s, 0, true);
    if r.len() > 0 && r.last() == ' ' {
        r.drop_last()
    } else {
        r
    }
}

/// The Markdown clean-up pipeline.
pub open spec fn clean_markdown_spec(s: Seq<char>) -> Seq<char> {
    trim(
        collapse_spec(
            remove_bullets_spec(
                remove_emphasis_spec(
                    remove_headers_spec(links_from(ticks_from(code_from(s, 0), 0, false), 0)),
                ),
            ),
        ),
    )
}

/// The largest index `c <= j` with a space at `s[c]`, or 0.
pub open spec fn space_back(s: Seq<char>, j: int) -> int
    decreases j,
{
    if j > 0 && s[j] != ' ' {
        space_back(s, j - 1)
    } else {
        j
    }
}

/// Truncation to at most `max` characters: text that fits stays; longer
/// text is cut at a word boundary with `...` appended; where `max` leaves no
/// room for text before the `...`, the result is the first `max`
/// characters of `...`.
pub open spec fn truncate_spec(t: Seq<char>, max: nat) -> Seq<char> {
    if t.len() <= max {
        t
    } else if max < 3 {
        seq!['.', '.', '.'].take(max as int)
    } else {
        let target: int = max - 3;
        let c = space_back(t, target);
        let cut = if c == 0 {
            target
        } else {
            c
        };
        trim_end(t.subrange(0, cut)) + seq!['.', '.', '.']
    }
}

/// Text in which white space is normalised: no white space but single
/// spaces, and none at either end.
pub open spec fn normalised_ws(s: Seq<char>) -> bool {
    &&& forall|i: int| 0 <= i < s.len() && is_ws(#[trigger] s[i]) ==> s[i] == ' '
    &&& forall|i: int| 0 <= i < s.len() - 1 && #[trigger] s[i] == ' ' ==> s[i + 1] != ' '
    &&& s.len() > 0 ==> !is_ws(s[0]) && !is_ws(s.last())
}

// ─── Lemmas ──────────────────────────────────────────────────────────────────

pub proof fn lemma_find_from(s: Seq<char>, c: char, j: int)
    requires
        0 <= j <= s.len(),
    ensures
        j <= find_from(s, c, j) <= s.len(),
        find_from(s, c, j) < s.len() ==> s[find_from(s, c, j)] == c,
        forall|k: int| j <= k < find_from(s, c, j) ==> s[k] != c,
    decreases s.len() - j,
{
    if j < s.len() && s[j] != c {
        lemma_find_from(s, c, j + 1);
    }
}

proof fn lemma_next_fence(s: Seq<char>, j: int)
    requires
        0 <= j <= s.len(),
    ensures
        j <= next_fence(s, j) <= s.len(),
        next_fence(s, j) < s.len() ==> fence_at(s, next_fence(s, j)),
    decreases s.len() - j,
{
    if j < s.len() && !fence_at(s, j) {
        lemma_next_fence(s, j + 1);
    }
}

proof fn lemma_skip_char(s: Seq<char>, c: char, j: int)
    requires
        0 <= j <= s.len(),
    ensures
        j <= skip_char(s, c, j) <= s.len(),
    decreases s.len() - j,
{
    if j < s.len() && s[j] == c {
        lemma_skip_char(s, c, j + 1);
    }
}

proof fn lemma_block_end(s: Seq<char>, i: int)
    requires
        fence_at(s, i),
    ensures
        i + 3 <= block_end(s, i) <= s.len(),
{
    lemma_find_from(s, '\n', i + 3);
    let a = find_from(s, '\n', i + 3);
    let b = if a < s.len() {
        a + 1
    } else {
        a
    };
    lemma_next_fence(s, b);
}

/// The output of `collapse_from` normalises white space, and it starts with
/// a space only when `prev` is false.
proof fn lemma_collapse_from(s: Seq<char>, i: int, prev: bool)
    requires
        0 <= i <= s.len(),
    ensures
        ({
            let r = collapse_from(s, i, prev);
            &&& forall|k: int| 0 <= k < r.len() && is_ws(#[trigger] r[k]) ==> r[k] == ' '
            &&& forall|k: int| 0 <= k < r.len() - 1 && #[trigger] r[k] == ' ' ==> r[k + 1] != ' '
            &&& r.len() > 0 && r[0] == ' ' ==> !prev
        }),
    decreases s.len() - i,
{
    if i < s.len() {
        lemma_collapse_from(s, i + 1, true);
        lemma_collapse_from(s, i + 1, false);
        let r = collapse_from(s, i, prev);
        if is_ws(s[i]) {
            if !prev {
                let t = collapse_from(s, i + 1, true);
                assert(r == seq![' '] + t);
                assert forall|k: int| 0 <= k < r.len() - 1 && #[trigger] r[k] == ' ' implies r[k
                    + 1] != ' ' by {
                    if k > 0 {
                        assert(r[k] == t[k - 1]);
                        assert(r[k + 1] == t[k]);
                    } else {
                        assert(r[1] == t[0]);
                    }
                }
                assert forall|k: int| 0 <= k < r.len() && is_ws(#[trigger] r[k]) implies r[k]
                    == ' ' by {
                    if k > 0 {
                        assert(r[k] == t[k - 1]);
                    }
                }
            }
        } else {
            let t = collapse_from(s, i + 1, false);
            assert(r == seq![s[i]] + t);
            assert forall|k: int| 0 <= k < r.len() - 1 && #[trigger] r[k] == ' ' implies r[k + 1]
                != ' ' by {
                if k > 0 {
                    assert(r[k] == t[k - 1]);
                    assert(r[k + 1] == t[k]);
                }
            }
            assert forall|k: int| 0 <= k < r.len() && is_ws(#[trigger] r[k]) implies r[k] == ' ' by {
                if k > 0 {
                    assert(r[k] == t[k - 1]);
                }
            }
        }
    }
}

/// The collapse pass normalises white space.
proof fn lemma_collapse_normalised(s: Seq<char>)
    ensures
        normalised_ws(collapse_spec(s)),
{
    lemma_collapse_from(s, 0, true);
    let r = collapse_from(s, 0, true);
    let c = collapse_spec(s);
    if r.len() > 0 && r.last() == ' ' {
        assert(c == r.drop_last());
        assert forall|k: int| 0 <= k < c.len() && is_ws(#[trigger] c[k]) implies c[k] == ' ' by {
            assert(c[k] == r[k]);
        }
        assert forall|k: int| 0 <= k < c.len() - 1 && #[trigger] c[k] == ' ' implies c[k + 1]
            != ' ' by {
            assert(c[k] == r[k]);
            assert(c[k + 1] == r[k + 1]);
        }
        if c.len() > 0 {
            assert(c[0] == r[0]);
            assert(c.last() == r[c.len() - 1]);
            if c.last() == ' ' {
                assert(r[r.len() - 2] == ' ');
            }
        }
    } else {
        assert(c == r);
    }
}

/// Trimming text with normalised white space changes nothing.
proof fn lemma_trim_normalised(s: Seq<char>)
    requires
        normalised_ws(s),
    ensures
        trim(s) == s,
{
    if s.len() > 0 {
        assert(skip_ws(s, 0) == 0);
        assert(trim_start(s) =~= s);
        assert(keep_until(s, s.len() as int) == s.len());
        assert(trim_end(s) =~= s);
    } else {
        assert(trim_start(s) =~= s);
        assert(trim_end(s) =~= s);
    }
}

proof fn lemma_space_back(s: Seq<char>, j: int)
    requires
        0 <= j < s.len(),
    ensures
        0 <= space_back(s, j) <= j,
    decreases j,
{
    if j > 0 && s[j] != ' ' {
        lemma_space_back(s, j - 1);
    }
}

proof fn lemma_keep_until_le(s: Seq<char>, j: int)
    requires
        0 <= j <= s.len(),
    ensures
        0 <= keep_until(s, j) <= j,
    decreases j,
{
    if 0 < j && is_ws(s[j - 1]) {
        lemma_keep_until_le(s, j - 1);
    }
}

/// Truncation never yields more than `max` characters, text that fits is
/// returned unchanged, and text that does not fit ends in `...` when `max`
/// leaves room for it.
pub proof fn lemma_truncate_bounds(t: Seq<char>, max: nat)
    ensures
        truncate_spec(t, max).len() <= max,
        t.len() <= max ==> truncate_spec(t, max) == t,
        t.len() > max && max >= 3 ==> ends_with(truncate_spec(t, max), seq!['.', '.', '.']),
{
    if t.len() > max && max >= 3 {
        let target: int = max - 3;
        lemma_space_back(t, target);
        let c = space_back(t, target);
        let cut = if c == 0 {
            target
        } else {
            c
        };
        let u = t.subrange(0, cut);
        lemma_keep_until_le(u, u.len() as int);
        let r = truncate_spec(t, max);
        assert(r.subrange(r.len() - 3, r.len() as int) =~= seq!['.', '.', '.']);
    }
}

// ─── Executable passes ───────────────────────────────────────────────────────

fn find_char(s: &Vec<char>, c: char, j: usize) -> (r: usize)
    requires
        j <= s.len(),
    ensures
        r == find_from(s@, c, j as int),
        j <= r <= s.len(),
{
    proof {
        lemma_find_from(s@, c, j as int);
    }
    let mut k = j;
    while k < s.len() && s[k] != c
        invariant
            j <= k <= s.len(),
            find_from(s@, c, k as int) == find_from(s@, c, j as int),
        decreases s.len() - k,
    {
        k = k + 1;
    }
    k
}

fn is_fence(s: &Vec<char>, i: usize) -> (r: bool)
    ensures
        r == fence_at(s@, i as int),
{
    i < s.len() && s.len() - i >= 3 && s[i] == '`' && s[i + 1] == '`' && s[i + 2] == '`'
}

fn find_fence(s: &Vec<char>, j: usize) -> (r: usize)
    requires
        j <= s.len(),
    ensures
        r == next_fence(s@, j as int),
        j <= r <= s.len(),
{
    proof {
        lemma_next_fence(s@, j as int);
    }
    let mut k = j;
    while k < s.len() && !is_fence(s, k)
        invariant
            j <= k <= s.len(),
            next_fence(s@, k as int) == next_fence(s@, j as int),
        decreases s.len() - k,
    {
        k = k + 1;
    }
    k
}

fn skip_block(s: &Vec<char>, i: usize) -> (r: usize)
    requires
        fence_at(s@, i as int),
    ensures
        r == block_end(s@, i as int),
{
    proof {
        lemma_block_end(s@, i as int);
    }
    assert(i + 3 <= s.len());
    let a = find_char(s, '\n', i + 3);
    let b = if a < s.len() {
        a + 1
    } else {
        a
    };
    let k = find_fence(s, b);
    if k < s.len() {
        let e = k + 3;
        if e < s.len() && s[e] == '\n' {
            e + 1
        } else {
            e
        }
    } else {
        k
    }
}

fn remove_code_blocks(s: &Vec<char>) -> (r: Vec<char>)
    ensures
        r@ == code_from(s@, 0),
{
    let mut out: Vec<char> = Vec::new();
    let mut i: usize = 0;
    while i < s.len()
        invariant
            i <= s.len(),
            code_from(s@, 0) == out@ + code_from(s@, i as int),
        decreases s.len() - i,
    {
        if is_fence(s, i) {
            let e = skip_block(s, i);
            proof {
                lemma_block_end(s@, i as int);
            }
            out.push(' ');
            i = e;
        } else {
            out.push(s[i]);
            i = i + 1;
        }
    }
    out
}

fn remove_inline_backticks(s: &Vec<char>) -> (r: Vec<char>)
    ensures
        r@ == ticks_from(s@, 0, false),
{
    let mut out: Vec<char> = Vec::new();
    let mut inside = false;
    let mut i: usize = 0;
    while i < s.len()
        invariant
            i <= s.len(),
            ticks_from(s@, 0, false) == out@ + ticks_from(s@, i as int, inside),
        decreases s.len() - i,
    {
        let c = s[i];
        if c == '`' {
            inside = !inside;
        } else if !inside {
            out.push(c);
        }
        i = i + 1;
    }
    out
}

fn remove_markdown_links(s: &Vec<char>) -> (r: Vec<char>)
    ensures
        r@ == links_from(s@, 0),
{
    let mut out: Vec<char> = Vec::new();
    let n = s.len();
    let mut i: usize = 0;
    while i < n
        invariant
            n == s.len(),
            i <= n,
            links_from(s@, 0) == out@ + links_from(s@, i as int),
        decreases n - i,
    {
        if s[i] == '[' {
            let j = find_char(s, ']', i + 1);
            if j < n && n - j > 1 && s[j + 1] == '(' {
                let k = find_char(s, ')', j + 2);
                if k < n {
                    let text = slice_chars(s, i + 1, j);
                    push_all(&mut out, &text);
                    i = k + 1;
                    continue ;
                }
            }
        }
        out.push(s[i]);
        i = i + 1;
    }
    out
}

/// The line starting at `i` and where it ends.
fn line_from(s: &Vec<char>, i: usize) -> (r: (Vec<char>, usize))
    requires
        i <= s.len(),
    ensures
        r.0@ == line_at(s@, i as int),
        r.1 == find_from(s@, '\n', i as int),
        i <= r.1 <= s.len(),
{
    let e = find_char(s, '\n', i);
    let l = slice_chars(s, i, e);
    if e < s.len() && l.len() > 0 && l[l.len() - 1] == '\r' {
        let m = slice_chars(&l, 0, l.len() - 1);
        assert(m@ == l@.drop_last());
        (m, e)
    } else {
        (l, e)
    }
}

fn strip_header_line(l: &Vec<char>) -> (r: Vec<char>)
    ensures
        r@ == header_line(l@),
{
    proof {
        lemma_skip_char(l@, '#', 0);
    }
    let mut k: usize = 0;
    while k < l.len() && l[k] == '#'
        invariant
            k <= l.len(),
            skip_char(l@, '#', k as int) == skip_char(l@, '#', 0),
        decreases l.len() - k,
    {
        k = k + 1;
    }
    let rest = slice_chars(l, k, l.len());
    trim_start_chars(&rest)
}

fn strip_bullet_line(l: &Vec<char>) -> (r: Vec<char>)
    ensures
        r@ == bullet_line(l@),
{
    let t = trim_start_chars(l);
    let dash = t.len() >= 2 && t[0] == '-' && t[1] == ' ';
    let star = t.len() >= 2 && t[0] == '*' && t[1] == ' ';
    proof {
        if t.len() >= 2 {
            assert(starts_with(t@, seq!['-', ' ']) == (t@[0] == '-' && t@[1] == ' ')) by {
                if t@[0] == '-' && t@[1] == ' ' {
                    assert(t@.subrange(0, 2) =~= seq!['-', ' ']);
                }
            }
            assert(starts_with(t@, seq!['*', ' ']) == (t@[0] == '*' && t@[1] == ' ')) by {
                if t@[0] == '*' && t@[1] == ' ' {
                    assert(t@.subrange(0, 2) =~= seq!['*', ' ']);
                }
            }
        }
    }
    if dash || star {
        slice_chars(&t, 2, t.len())
    } else {
        slice_chars(l, 0, l.len())
    }
}

fn finish_lines(s: &Vec<char>, out: Vec<char>) -> (r: Vec<char>)
    ensures
        r@ == lines_result(s@, out@),
{
    if s.len() > 0 && s[s.len() - 1] == '\n' {
        out
    } else if out.len() > 0 {
        let r = slice_chars(&out, 0, out.len() - 1);
        assert(r@ == out@.drop_last());
        r
    } else {
        out
    }
}

fn remove_headers(s: &Vec<char>) -> (r: Vec<char>)
    ensures
        r@ == remove_headers_spec(s@),
{
    let mut out: Vec<char> = Vec::new();
    let mut i: usize = 0;
    while i < s.len()
        invariant
            i <= s.len(),
            headers_from(s@, 0) == out@ + headers_from(s@, i as int),
        decreases s.len() - i,
    {
        let (line, e) = line_from(s, i);
        let h = strip_header_line(&line);
        push_all(&mut out, &h);
        out.push('\n');
        proof {
            assert(headers_from(s@, i as int) == header_line(line_at(s@, i as int)) + seq!['\n']
                + headers_from(s@, next_line(s@, i as int)));
        }
        if e < s.len() {
            i = e + 1;
        } else {
            i = s.len();
        }
    }
    finish_lines(s, out)
}

fn remove_bullets(s: &Vec<char>) -> (r: Vec<char>)
    ensures
        r@ == remove_bullets_spec(s@),
{
    let mut out: Vec<char> = Vec::new();
    let mut i: usize = 0;
    while i < s.len()
        invariant
            i <= s.len(),
            bullets_from(s@, 0) == out@ + bullets_from(s@, i as int),
        decreases s.len() - i,
    {
        let (line, e) = line_from(s, i);
        let b = strip_bullet_line(&line);
        push_all(&mut out, &b);
        out.push('\n');
        proof {
            assert(bullets_from(s@, i as int) == bullet_line(line_at(s@, i as int)) + seq!['\n']
                + bullets_from(s@, next_line(s@, i as int)));
        }
        if e < s.len() {
            i = e + 1;
        } else {
            i = s.len();
        }
    }
    finish_lines(s, out)
}

fn remove_emphasis(s: &Vec<char>) -> (r: Vec<char>)
    ensures
        r@ == remove_emphasis_spec(s@),
{
    let empty: Vec<char> = Vec::new();
    let mut two_stars: Vec<char> = Vec::new();
    two_stars.push('*');
    two_stars.push('*');
    let mut two_unders: Vec<char> = Vec::new();
    two_unders.push('_');
    two_unders.push('_');
    let mut star: Vec<char> = Vec::new();
    star.push('*');
    assert(two_stars@ =~= seq!['*', '*']);
    assert(two_unders@ =~= seq!['_', '_']);
    assert(star@ =~= seq!['*']);
    assert(empty@ =~= Seq::<char>::empty());
    let a = replace_chars(s, &two_stars, &empty);
    let b = replace_chars(&a, &two_unders, &empty);
    replace_chars(&b, &star, &empty)
}

fn collapse_whitespace(s: &Vec<char>) -> (r: Vec<char>)
    ensures
        r@ == collapse_spec(s@),
{
    let mut out: Vec<char> = Vec::new();
    let mut prev = true;
    let mut i: usize = 0;
    while i < s.len()
        invariant
            i <= s.len(),
            collapse_from(s@, 0, true) == out@ + collapse_from(s@, i as int, prev),
        decreases s.len() - i,
    {
        let c = s[i];
        if is_whitespace(c) {
            if !prev {
                out.push(' ');
                prev = true;
            }
        } else {
            out.push(c);
            prev = false;
        }
        i = i + 1;
    }
    if out.len() > 0 && out[out.len() - 1] == ' ' {
        let r = slice_chars(&out, 0, out.len() - 1);
        assert(r@ == out@.drop_last());
        r
    } else {
        out
    }
}

// ─── Public text utilities ───────────────────────────────────────────────────

/// Removes common Markdown formatting: fenced code blocks (with their
/// contents), inline backticks, link targets, header marks, emphasis
/// markers and bullets; then collapses white space.
///
/// The result never holds white space other than single spaces between
/// words.
pub fn clean_markdown(text: &str) -> (r: String)
    ensures
        r@ == clean_markdown_spec(text@),
        normalised_ws(r@),
{
    let s = chars_of(text);
    let a = remove_code_blocks(&s);
    let b = remove_inline_backticks(&a);
    let c = remove_markdown_links(&b);
    let d = remove_headers(&c);
    let e = remove_emphasis(&d);
    let f = remove_bullets(&e);
    let g = collapse_whitespace(&f);
    let h = trim_chars(&g);
    proof {
        lemma_collapse_normalised(f@);
        lemma_trim_normalised(g@);
    }
    string_of(&h)
}

/// Truncates `text` to at most `max_len` characters, breaking at a word
/// boundary and appending `...`; text that fits is returned unchanged.
pub fn truncate(text: &str, max_len: usize) -> (r: String)
    ensures
        r@ == truncate_spec(text@, max_len as nat),
        r@.len() <= max_len,
        text@.len() <= max_len ==> r@ == text@,
{
    proof {
        lemma_truncate_bounds(text@, max_len as nat);
    }
    let chars = chars_of(text);
    if chars.len() <= max_len {
        return string_of(&chars);
    }
    if max_len < 3 {
        let mut dots: Vec<char> = Vec::new();
        while dots.len() < max_len
            invariant
                max_len < 3,
                dots@ == seq!['.', '.', '.'].take(dots.len() as int),
                dots.len() <= max_len,
            decreases max_len - dots.len(),
        {
            dots.push('.');
            assert(dots@ =~= seq!['.', '.', '.'].take(dots.len() as int));
        }
        return string_of(&dots);
    }
    let target: usize = max_len - 3;
    let mut cut = target;
    while cut > 0 && chars[cut] != ' '
        invariant
            cut <= target < chars.len(),
            space_back(chars@, cut as int) == space_back(chars@, target as int),
        decreases cut,
    {
        cut = cut - 1;
    }
    if cut == 0 {
        cut = target;
    }
    let head = slice_chars(&chars, 0, cut);
    let mut out = trim_end_chars(&head);
    out.push('.');
    out.push('.');
    out.push('.');
    assert(out@ =~= trim_end(chars@.subrange(0, cut as int)) + seq!['.', '.', '.']);
    string_of(&out)
}

/// Cleans Markdown, then truncates to 150 characters.
pub fn clean_and_truncate(text: &str) -> (r: String)
    ensures
        r@ == truncate_spec(clean_markdown_spec(text@), 150),
        r@.len() <= 150,
{
    let cleaned = clean_markdown(text);
    truncate(cleaned.as_str(), 150)
}


// ─── Per-status extraction ───────────────────────────────────────────────────

/// Index of the last message before `j` that satisfies `p`, or -1.
pub open spec fn last_match(ms: Seq<Message>, p: spec_fn(Message) -> bool, j: int) -> int
    decreases j,
{
    if j <= 0 || j > ms.len() {
        -1
    } else if p(ms[j - 1]) {
        j - 1
    } else {
        last_match(ms, p, j - 1)
    }
}

proof fn lemma_last_match(ms: Seq<Message>, p: spec_fn(Message) -> bool, j: int)
    requires
        0 <= j <= ms.len(),
    ensures
        -1 <= last_match(ms, p, j) < j,
        last_match(ms, p, j) >= 0 ==> p(ms[last_match(ms, p, j)]),
    decreases j,
{
    if j > 0 && !p(ms[j - 1]) {
        lemma_last_match(ms, p, j - 1);
    }
}

/// `clean_and_truncate` as a spec.
pub open spec fn cleaned(t: Seq<char>) -> Seq<char> {
    truncate_spec(clean_markdown_spec(t), 150)
}

/// The non-blank string that a message's tool input holds under `key`,
/// when the message used the tool `tool`.
pub open spec fn tool_text(m: Message, tool: Seq<char>, key: Seq<char>) -> Option<Seq<char>> {
    if crate::types::opt_view(m.tool_name) == Some(tool) {
        match json_str_of(json_get(m.tool_input, key)) {
            Some(q) => if trim(q).len() > 0 {
                Some(q)
            } else {
                None
            },
            None => None,
        }
    } else {
        None
    }
}

/// `as_str` of an optional member.
pub open spec fn json_str_of(j: Option<Json>) -> Option<Seq<char>> {
    match j {
        Some(v) => json_str(v),
        None => None,
    }
}

/// The message asked a question through `AskUserQuestion`.
pub open spec fn asks_question(m: Message) -> bool {
    tool_text(m, "AskUserQuestion"@, "question"@) is Some
}

/// The message's text contains a question mark.
pub open spec fn has_question_mark(m: Message) -> bool {
    m.text_content@.contains('?') && m.text_content@.len() > 0
}

/// The message presented a plan through `ExitPlanMode`.
pub open spec fn presents_plan(m: Message) -> bool {
    tool_text(m, "ExitPlanMode"@, "plan"@) is Some
}

/// The message has some text.
pub open spec fn has_text(m: Message) -> bool {
    m.text_content@.len() > 0
}

/// The message has some text and used no tool.
pub open spec fn is_plain_text(m: Message) -> bool {
    m.text_content@.len() > 0 && m.tool_name is None
}

/// The message reports an API error.
pub open spec fn is_api_error_message(m: Message) -> bool {
    m.is_api_error
}

/// The message's text mentions an error or a failure (ignoring case).
pub open spec fn mentions_error(m: Message) -> bool {
    crate::text::contains_seq(lowercase(m.text_content@), "error"@) || crate::text::contains_seq(
        lowercase(m.text_content@),
        "failed"@,
    )
}

/// `asks_question` as a predicate value.
pub open spec fn asks_question_pred() -> spec_fn(Message) -> bool {
    |m: Message| asks_question(m)
}

/// `has_question_mark` as a predicate value.
pub open spec fn has_question_mark_pred() -> spec_fn(Message) -> bool {
    |m: Message| has_question_mark(m)
}

/// `presents_plan` as a predicate value.
pub open spec fn presents_plan_pred() -> spec_fn(Message) -> bool {
    |m: Message| presents_plan(m)
}

/// `has_text` as a predicate value.
pub open spec fn has_text_pred() -> spec_fn(Message) -> bool {
    |m: Message| has_text(m)
}

/// `is_plain_text` as a predicate value.
pub open spec fn is_plain_text_pred() -> spec_fn(Message) -> bool {
    |m: Message| is_plain_text(m)
}

/// `is_api_error_message` as a predicate value.
pub open spec fn is_api_error_message_pred() -> spec_fn(Message) -> bool {
    |m: Message| is_api_error_message(m)
}

/// `mentions_error` as a predicate value.
pub open spec fn mentions_error_pred() -> spec_fn(Message) -> bool {
    |m: Message| mentions_error(m)
}

/// The question: from the last `AskUserQuestion` with a non-blank
/// question, else the last text with a question mark, else empty.
pub open spec fn question_spec(ms: Seq<Message>) -> Seq<char> {
    let k = last_match(ms, asks_question_pred(), ms.len() as int);
    let k2 = last_match(ms, has_question_mark_pred(), ms.len() as int);
    if k >= 0 {
        cleaned(tool_text(ms[k], "AskUserQuestion"@, "question"@)->0)
    } else if k2 >= 0 {
        cleaned(ms[k2].text_content@)
    } else {
        Seq::empty()
    }
}

/// The plan: from the last `ExitPlanMode` with a non-blank plan, else the
/// last non-empty text, else empty.
pub open spec fn plan_spec(ms: Seq<Message>) -> Seq<char> {
    let k = last_match(ms, presents_plan_pred(), ms.len() as int);
    let k2 = last_match(ms, has_text_pred(), ms.len() as int);
    if k >= 0 {
        cleaned(tool_text(ms[k], "ExitPlanMode"@, "plan"@)->0)
    } else if k2 >= 0 {
        cleaned(ms[k2].text_content@)
    } else {
        Seq::empty()
    }
}

/// `[<status>] ` for an error status, empty without one.
pub open spec fn status_prefix(code: Option<u16>) -> Seq<char> {
    match code {
        Some(c) => "["@ + decimal(c as nat) + "] "@,
        None => Seq::empty(),
    }
}

/// The error: from the last API-error message, its status and cleaned text
/// (or `API error occurred`) truncated together to 150 characters; else the
/// last text mentioning an error or a failure; else `An error occurred`.
pub open spec fn error_info_spec(ms: Seq<Message>) -> Seq<char> {
    let k = last_match(ms, is_api_error_message_pred(), ms.len() as int);
    let k2 = last_match(ms, mentions_error_pred(), ms.len() as int);
    if k >= 0 {
        truncate_spec(
            status_prefix(ms[k].error_status) + clean_markdown_spec(
                if ms[k].text_content@.len() == 0 {
                    "API error occurred"@
                } else {
                    ms[k].text_content@
                },
            ),
            150,
        )
    } else if k2 >= 0 {
        cleaned(ms[k2].text_content@)
    } else {
        "An error occurred"@
    }
}

/// The work summary: the last text of a message that used no tool.
pub open spec fn work_summary_spec(ms: Seq<Message>) -> Seq<char> {
    let k = last_match(ms, is_plain_text_pred(), ms.len() as int);
    if k >= 0 {
        cleaned(ms[k].text_content@)
    } else {
        Seq::empty()
    }
}

/// The summary of a status.
pub open spec fn summary_spec(s: Status, ms: Seq<Message>) -> Seq<char> {
    match s {
        Status::Question => question_spec(ms),
        Status::PlanReady => plan_spec(ms),
        Status::ApiError | Status::ApiOverloaded => error_info_spec(ms),
        Status::SessionLimit => "Session limit reached. Please start a new session."@,
        Status::TaskComplete | Status::ReviewComplete => work_summary_spec(ms),
    }
}

/// The non-blank string under `key` in the tool input of a message that
/// used `tool`.
fn tool_text_of<'a>(m: &'a Message, tool: &str, key: &str) -> (r: Option<&'a String>)
    ensures
        crate::types::opt_view(match r {
            Some(s) => Some(*s),
            None => None,
        }) == tool_text(*m, tool@, key@),
{
    match &m.tool_name {
        Some(n) => {
            if !crate::text::str_eq(n.as_str(), tool) {
                return None;
            }
        },
        None => return None,
    }
    match m.tool_input.get(key) {
        Some(v) => match v.as_str() {
            Some(q) => {
                if crate::text::is_blank(q.as_str()) {
                    None
                } else {
                    Some(q)
                }
            },
            None => None,
        },
        None => None,
    }
}

/// Extracts the question from an `AskUserQuestion` tool input, or falls
/// back to the last text that contains a question mark.
pub fn extract_question(messages: &[Message]) -> (r: String)
    ensures
        r@ == question_spec(messages@),
{
    let n = messages.len();
    let ghost ms = messages@;
    let ghost p = asks_question_pred();
    let mut j = n;
    while j > 0
        invariant
            j <= n == ms.len(),
            ms == messages@,
            p == asks_question_pred(),
            last_match(ms, p, n as int) == last_match(ms, p, j as int),
        decreases j,
    {
        let m = &messages[j - 1];
        if let Some(q) = tool_text_of(m, "AskUserQuestion", "question") {
            return clean_and_truncate(q.as_str());
        }
        j = j - 1;
    }
    let ghost p2 = has_question_mark_pred();
    let mut j = n;
    while j > 0
        invariant
            j <= n == ms.len(),
            ms == messages@,
            p == asks_question_pred(),
            p2 == has_question_mark_pred(),
            last_match(ms, p, n as int) == -1,
            last_match(ms, p2, n as int) == last_match(ms, p2, j as int),
        decreases j,
    {
        let m = &messages[j - 1];
        let t = chars_of(m.text_content.as_str());
        if crate::text::has_char(&t, '?') && t.len() > 0 {
            return clean_and_truncate(m.text_content.as_str());
        }
        j = j - 1;
    }
    String::new()
}

/// Extracts the plan from an `ExitPlanMode` tool input, or falls back to
/// the last non-empty text.
pub fn extract_plan_summary(messages: &[Message]) -> (r: String)
    ensures
        r@ == plan_spec(messages@),
{
    let n = messages.len();
    let ghost ms = messages@;
    let ghost p = presents_plan_pred();
    let mut j = n;
    while j > 0
        invariant
            j <= n == ms.len(),
            ms == messages@,
            p == presents_plan_pred(),
            last_match(ms, p, n as int) == last_match(ms, p, j as int),
        decreases j,
    {
        let m = &messages[j - 1];
        if let Some(q) = tool_text_of(m, "ExitPlanMode", "plan") {
            return clean_and_truncate(q.as_str());
        }
        j = j - 1;
    }
    let ghost p2 = has_text_pred();
    let mut j = n;
    while j > 0
        invariant
            j <= n == ms.len(),
            ms == messages@,
            p == presents_plan_pred(),
            p2 == has_text_pred(),
            last_match(ms, p, n as int) == -1,
            last_match(ms, p2, n as int) == last_match(ms, p2, j as int),
        decreases j,
    {
        let m = &messages[j - 1];
        if !m.text_content.as_str().is_empty() {
            return clean_and_truncate(m.text_content.as_str());
        }
        j = j - 1;
    }
    String::new()
}

/// Extracts error information from API-error messages.
pub fn extract_error_info(messages: &[Message]) -> (r: String)
    ensures
        r@ == error_info_spec(messages@),
        r@.len() <= 150,
{
    proof {
        lemma_summary_bounded(Status::ApiError, messages@);
    }
    let n = messages.len();
    let ghost ms = messages@;
    let ghost p = is_api_error_message_pred();
    let mut j = n;
    while j > 0
        invariant
            j <= n == ms.len(),
            ms == messages@,
            p == is_api_error_message_pred(),
            last_match(ms, p, n as int) == last_match(ms, p, j as int),
        decreases j,
    {
        let m = &messages[j - 1];
        if m.is_api_error {
            let mut out: Vec<char> = Vec::new();
            match m.error_status {
                Some(c) => {
                    push_str(&mut out, "[");
                    push_decimal(&mut out, c as u64);
                    push_str(&mut out, "] ");
                },
                None => {},
            }
            let body = if m.text_content.as_str().is_empty() {
                clean_markdown("API error occurred")
            } else {
                clean_markdown(m.text_content.as_str())
            };
            push_str(&mut out, body.as_str());
            let whole = string_of(&out);
            return truncate(whole.as_str(), 150);
        }
        j = j - 1;
    }
    let ghost p2 = mentions_error_pred();
    let err = chars_of("error");
    let failed = chars_of("failed");
    let mut j = n;
    while j > 0
        invariant
            j <= n == ms.len(),
            ms == messages@,
            p == is_api_error_message_pred(),
            p2 == mentions_error_pred(),
            err@ == "error"@,
            failed@ == "failed"@,
            last_match(ms, p, n as int) == -1,
            last_match(ms, p2, n as int) == last_match(ms, p2, j as int),
        decreases j,
    {
        let m = &messages[j - 1];
        let lower = to_lowercase(m.text_content.as_str());
        let lv = chars_of(lower.as_str());
        if crate::text::contains_chars(&lv, &err) || crate::text::contains_chars(&lv, &failed) {
            return clean_and_truncate(m.text_content.as_str());
        }
        j = j - 1;
    }
    crate::text::owned("An error occurred")
}

/// The last text of a message that used no tool, cleaned and truncated.
pub fn extract_work_summary(messages: &[Message]) -> (r: String)
    ensures
        r@ == work_summary_spec(messages@),
{
    let n = messages.len();
    let ghost ms = messages@;
    let ghost p = is_plain_text_pred();
    let mut j = n;
    while j > 0
        invariant
            j <= n == ms.len(),
            ms == messages@,
            p == is_plain_text_pred(),
            last_match(ms, p, n as int) == last_match(ms, p, j as int),
        decreases j,
    {
        let m = &messages[j - 1];
        if !m.text_content.as_str().is_empty() && m.tool_name.is_none() {
            return clean_and_truncate(m.text_content.as_str());
        }
        j = j - 1;
    }
    String::new()
}

/// The summary for a status, by the extractor that fits it.
pub fn extract_summary(status: &Status, messages: &[Message]) -> (r: String)
    ensures
        r@ == summary_spec(*status, messages@),
        r@.len() <= 150,
{
    proof {
        lemma_summary_bounded(*status, messages@);
    }
    match status {
        Status::Question => extract_question(messages),
        Status::PlanReady => extract_plan_summary(messages),
        Status::ApiError | Status::ApiOverloaded => extract_error_info(messages),
        Status::SessionLimit => crate::text::owned(
            "Session limit reached. Please start a new session.",
        ),
        Status::TaskComplete | Status::ReviewComplete => extract_work_summary(messages),
    }
}


/// Every summary has at most 150 characters.
pub proof fn lemma_summary_bounded(s: Status, ms: Seq<Message>)
    ensures
        summary_spec(s, ms).len() <= 150,
{
    reveal_strlit("Session limit reached. Please start a new session.");
    reveal_strlit("An error occurred");
    let n = ms.len() as int;
    let kq = last_match(ms, asks_question_pred(), n);
    let kq2 = last_match(ms, has_question_mark_pred(), n);
    let kp = last_match(ms, presents_plan_pred(), n);
    let kp2 = last_match(ms, has_text_pred(), n);
    let ke = last_match(ms, is_api_error_message_pred(), n);
    let ke2 = last_match(ms, mentions_error_pred(), n);
    let kw = last_match(ms, is_plain_text_pred(), n);
    if kq >= 0 {
        lemma_truncate_bounds(clean_markdown_spec(tool_text(ms[kq], "AskUserQuestion"@, "question"@)->0), 150);
    }
    if kq2 >= 0 {
        lemma_truncate_bounds(clean_markdown_spec(ms[kq2].text_content@), 150);
    }
    if kp >= 0 {
        lemma_truncate_bounds(clean_markdown_spec(tool_text(ms[kp], "ExitPlanMode"@, "plan"@)->0), 150);
    }
    if kp2 >= 0 {
        lemma_truncate_bounds(clean_markdown_spec(ms[kp2].text_content@), 150);
    }
    if ke >= 0 {
        lemma_truncate_bounds(
            status_prefix(ms[ke].error_status) + clean_markdown_spec(
                if ms[ke].text_content@.len() == 0 {
                    "API error occurred"@
                } else {
                    ms[ke].text_content@
                },
            ),
            150,
        );
    }
    if ke2 >= 0 {
        lemma_truncate_bounds(clean_markdown_spec(ms[ke2].text_content@), 150);
    }
    if kw >= 0 {
        lemma_truncate_bounds(clean_markdown_spec(ms[kw].text_content@), 150);
    }
}


proof fn lemma_space_back_last(s: Seq<char>, j: int)
    requires
        0 <= j < s.len(),
    ensures
        0 <= space_back(s, j) <= j,
        space_back(s, j) > 0 ==> s[space_back(s, j)] == ' ',
        forall|k: int| space_back(s, j) < k <= j ==> s[k] != ' ',
    decreases j,
{
    if j > 0 && s[j] != ' ' {
        lemma_space_back_last(s, j - 1);
    }
}

/// Where text that does not fit is cut. When the text is longer than `max`
/// (and `max` leaves room for `...`), the result is the text up to the cut,
/// without trailing white space, followed by `...`; the cut is the last
/// space among positions 1 to `max - 3`, so no word is split and no shorter
/// prefix is chosen while a longer one fits, or `max - 3` itself when there
/// is no such space.
pub proof fn lemma_truncate_cut(t: Seq<char>, max: nat)
    requires
        t.len() > max,
        max >= 3,
    ensures
        exists|cut: int|
            {
                let target = max - 3;
                &&& 0 <= cut <= target
                &&& ((0 < cut && t[cut] == ' ' && forall|k: int| cut < k <= target ==> t[k] != ' ')
                    || (cut == target && forall|k: int| 0 < k <= target ==> t[k] != ' '))
                &&& truncate_spec(t, max) == trim_end(#[trigger] t.subrange(0, cut)) + seq!['.', '.', '.']
            },
{
    let target: int = max - 3;
    lemma_space_back_last(t, target);
    let c = space_back(t, target);
    let cut = if c == 0 {
        target
    } else {
        c
    };
    assert(truncate_spec(t, max) == trim_end(t.subrange(0, cut)) + seq!['.', '.', '.']);
}

} // verus!
