//! Width-aware single-line text helpers: newline folding, truncation to a
//! column budget from either end, and removal of tool-error hints.

use vstd::prelude::*;
use crate::chars::str_chars;
use crate::width::{cells, char_cells, str_width, str_width_spec};

verus! {

/// How many leading characters of `s` fit in `limit` cells, taking them one
/// at a time until the next one would overflow.
pub open spec fn fit_count(s: Seq<char>, limit: int) -> nat
    decreases s.len(),
{
    if s.len() == 0 {
        0
    } else if cells(s[0]) > limit {
        0
    } else {
        1 + fit_count(s.skip(1), limit - cells(s[0]))
    }
}

/// How many trailing characters of `s` fit in `limit` cells, taking them
/// from the end one at a time until the next one would overflow.
pub open spec fn fit_count_back(s: Seq<char>, limit: int) -> nat
    decreases s.len(),
{
    if s.len() == 0 {
        0
    } else if cells(s.last()) > limit {
        0
    } else {
        1 + fit_count_back(s.drop_last(), limit - cells(s.last()))
    }
}

proof fn fit_count_le(s: Seq<char>, limit: int)
    ensures
        fit_count(s, limit) <= s.len(),
    decreases s.len(),
{
    if s.len() > 0 && cells(s[0]) <= limit {
        fit_count_le(s.skip(1), limit - cells(s[0]));
    }
}

proof fn fit_count_back_le(s: Seq<char>, limit: int)
    ensures
        fit_count_back(s, limit) <= s.len(),
    decreases s.len(),
{
    if s.len() > 0 && cells(s.last()) <= limit {
        fit_count_back_le(s.drop_last(), limit - cells(s.last()));
    }
}

/// Scans `chars` from the front and returns how many fit in `limit` cells.
fn fit_prefix(chars: &Vec<char>, limit: usize) -> (k: usize)
    ensures
        k == fit_count(chars@, limit as int),
        k <= chars@.len(),
{
    let mut i: usize = 0;
    let mut used: usize = 0;
    proof {
        assert(chars@.skip(0) =~= chars@);
        fit_count_le(chars@, limit as int);
    }
    while i < chars.len()
        invariant
            i <= chars@.len(),
            used <= limit,
            fit_count(chars@, limit as int) == i + fit_count(chars@.skip(i as int), limit - used),
        decreases chars@.len() - i,
    {
        let w = char_cells(chars[i]);
        let ghost rest = chars@.skip(i as int);
        proof {
            assert(rest[0] == chars@[i as int]);
        }
        if w > limit - used {
            return i;
        }
        proof {
            assert(rest.skip(1) =~= chars@.skip(i + 1));
        }
        used = used + w;
        i = i + 1;
    }
    proof {
        assert(chars@.skip(i as int) =~= Seq::<char>::empty());
    }
    i
}

/// Scans `chars` from the back and returns how many fit in `limit` cells.
fn fit_suffix(chars: &Vec<char>, limit: usize) -> (k: usize)
    ensures
        k == fit_count_back(chars@, limit as int),
        k <= chars@.len(),
{
    let n = chars.len();
    let mut k: usize = 0;
    let mut used: usize = 0;
    proof {
        assert(chars@.take(n as int) =~= chars@);
        fit_count_back_le(chars@, limit as int);
    }
    while k < n
        invariant
            n == chars@.len(),
            k <= n,
            used <= limit,
            fit_count_back(chars@, limit as int) == k + fit_count_back(chars@.take(n - k), limit - used),
        decreases n - k,
    {
        let w = char_cells(chars[n - 1 - k]);
        let ghost rest = chars@.take(n - k);
        proof {
            assert(rest.last() == chars@[n - 1 - k]);
        }
        if w > limit - used {
            return k;
        }
        proof {
            assert(rest.drop_last() =~= chars@.take(n - (k + 1)));
        }
        used = used + w;
        k = k + 1;
    }
    proof {
        assert(chars@.take(0) =~= Seq::<char>::empty());
    }
    k
}

/// Appends `chars[from..to]` to `out`.
fn push_range(out: &mut String, chars: &Vec<char>, from: usize, to: usize)
    requires
        from <= to <= chars@.len(),
    ensures
        final(out)@ == old(out)@ + chars@.subrange(from as int, to as int),
{
    let mut k: usize = from;
    while k < to
        invariant
            from <= k <= to,
            to <= chars@.len(),
            out@ == old(out)@ + chars@.subrange(from as int, k as int),
        decreases to - k,
    {
        out.push(chars[k]);
        proof {
            assert(chars@.subrange(from as int, k + 1) =~= chars@.subrange(from as int, k as int).push(
                chars@[k as int],
            ));
        }
        k = k + 1;
    }
}

/// The string of a character vector.
pub(crate) fn chars_to_string(chars: &Vec<char>) -> (s: String)
    ensures
        s@ == chars@,
{
    let mut s = String::new();
    push_range(&mut s, chars, 0, chars.len());
    proof {
        assert(chars@.subrange(0, chars@.len() as int) =~= chars@);
    }
    s
}

/// `x - 1`, or zero.
pub open spec fn pred_sat(x: int) -> int {
    if x > 0 { x - 1 } else { 0 }
}

/// `text` if it fits in `max_width` columns; otherwise the characters that
/// fit in one column less, followed by `…` when some character was cut.
pub open spec fn truncate_to_width_spec(text: Seq<char>, max_width: int) -> Seq<char> {
    if str_width_spec(text) <= max_width {
        text
    } else {
        let k = fit_count(text, pred_sat(max_width));
        if k < text.len() {
            text.take(k as int).push('…')
        } else {
            text
        }
    }
}

/// Truncates `text` to `max_width` columns (see `truncate_to_width_spec`).
pub fn truncate_to_display_width(text: &str, max_width: usize) -> (s: String)
    ensures
        s@ == truncate_to_width_spec(text@, max_width as int),
{
    let chars = str_chars(text);
    if str_width(text) <= max_width {
        return chars_to_string(&chars);
    }
    let limit = if max_width > 0 { max_width - 1 } else { 0 };
    let k = fit_prefix(&chars, limit);
    let mut s = String::new();
    push_range(&mut s, &chars, 0, k);
    if k < chars.len() {
        s.push('…');
    }
    proof {
        assert(chars@.subrange(0, k as int) =~= chars@.take(k as int));
        assert(chars@.take(chars@.len() as int) =~= chars@);
    }
    s
}

/// `s` with every occurrence of `from` replaced by `to`.
pub open spec fn replace_char(s: Seq<char>, from: char, to: char) -> Seq<char> {
    s.map_values(|c: char| if c == from { to } else { c })
}

fn replace_newlines(chars: &Vec<char>) -> (v: Vec<char>)
    ensures
        v@ == replace_char(chars@, '\n', ' '),
{
    let mut v: Vec<char> = Vec::new();
    let mut i: usize = 0;
    while i < chars.len()
        invariant
            i <= chars@.len(),
            v@ == replace_char(chars@.take(i as int), '\n', ' '),
        decreases chars@.len() - i,
    {
        let c = chars[i];
        v.push(if c == '\n' { ' ' } else { c });
        proof {
            assert(replace_char(chars@.take(i + 1), '\n', ' ') =~= replace_char(chars@.take(i as int), '\n', ' ').push(
                if c == '\n' { ' ' } else { c },
            ));
        }
        i = i + 1;
    }
    proof {
        assert(chars@.take(chars@.len() as int) =~= chars@);
    }
    v
}

/// `value` on one line (newlines become spaces) if that fits in
/// `max_width` columns; otherwise nothing for a zero budget, else the
/// characters that fit in one column less followed by `…`.
pub open spec fn truncate_one_line_spec(value: Seq<char>, max_width: int) -> Seq<char> {
    let single = replace_char(value, '\n', ' ');
    if str_width_spec(single) <= max_width {
        single
    } else if max_width == 0 {
        Seq::empty()
    } else {
        single.take(fit_count(single, max_width - 1) as int).push('…')
    }
}

/// Folds `value` onto one line and truncates it (see
/// `truncate_one_line_spec`).
pub fn truncate_one_line(value: &str, max_width: usize) -> (s: String)
    ensures
        s@ == truncate_one_line_spec(value@, max_width as int),
{
    let single = replace_newlines(&str_chars(value));
    let single_text = chars_to_string(&single);
    if str_width(single_text.as_str()) <= max_width {
        return single_text;
    }
    if max_width == 0 {
        return String::new();
    }
    let k = fit_prefix(&single, max_width - 1);
    let mut s = String::new();
    push_range(&mut s, &single, 0, k);
    s.push('…');
    proof {
        assert(single@.subrange(0, k as int) =~= single@.take(k as int));
    }
    s
}

/// Nothing for a zero budget; `s` if it fits in `max_len` columns;
/// otherwise the characters that fit in one column less followed by `…`.
pub open spec fn truncate_str_spec(s: Seq<char>, max_len: int) -> Seq<char> {
    if max_len == 0 {
        Seq::empty()
    } else if str_width_spec(s) <= max_len {
        s
    } else {
        s.take(fit_count(s, max_len - 1) as int).push('…')
    }
}

/// Truncates `s` for the status bar (see `truncate_str_spec`).
pub fn truncate_str(s: &str, max_len: usize) -> (r: String)
    ensures
        r@ == truncate_str_spec(s@, max_len as int),
{
    if max_len == 0 {
        return String::new();
    }
    let chars = str_chars(s);
    if str_width(s) <= max_len {
        return chars_to_string(&chars);
    }
    let k = fit_prefix(&chars, max_len - 1);
    let mut r = String::new();
    push_range(&mut r, &chars, 0, k);
    r.push('…');
    proof {
        assert(chars@.subrange(0, k as int) =~= chars@.take(k as int));
    }
    r
}

/// `s` if it fits in `max_width` columns, otherwise its longest suffix
/// that does (taking characters from the end).
pub open spec fn truncate_end_spec(s: Seq<char>, max_width: int) -> Seq<char> {
    if str_width_spec(s) <= max_width {
        s
    } else {
        s.skip(s.len() - fit_count_back(s, max_width))
    }
}

/// Keeps the end of `s` within `max_width` columns (see
/// `truncate_end_spec`).
pub fn truncate_end_to_width(s: &str, max_width: u16) -> (r: String)
    ensures
        r@ == truncate_end_spec(s@, max_width as int),
{
    let chars = str_chars(s);
    if str_width(s) <= max_width as usize {
        return chars_to_string(&chars);
    }
    let k = fit_suffix(&chars, max_width as usize);
    let mut r = String::new();
    push_range(&mut r, &chars, chars.len() - k, chars.len());
    proof {
        assert(chars@.subrange(chars@.len() - k, chars@.len() as int) =~= chars@.skip(chars@.len() - k));
    }
    r
}

/// Each `\r` removed and each `\n` shown as ` ⏎ `.
pub open spec fn single_line_spec(s: Seq<char>) -> Seq<char>
    decreases s.len(),
{
    if s.len() == 0 {
        Seq::empty()
    } else {
        let c = s.last();
        single_line_spec(s.drop_last()) + if c == '\r' {
            Seq::empty()
        } else if c == '\n' {
            seq![' ', '⏎', ' ']
        } else {
            seq![c]
        }
    }
}

/// Shows multi-line text on one line (see `single_line_spec`).
pub fn normalize_single_line(text: &str) -> (s: String)
    ensures
        s@ == single_line_spec(text@),
{
    let chars = str_chars(text);
    let mut s = String::new();
    let mut i: usize = 0;
    while i < chars.len()
        invariant
            i <= chars@.len(),
            s@ == single_line_spec(chars@.take(i as int)),
        decreases chars@.len() - i,
    {
        let c = chars[i];
        let ghost before = s@;
        if c == '\n' {
            s.push(' ');
            s.push('⏎');
            s.push(' ');
        } else if c != '\r' {
            s.push(c);
        }
        proof {
            let t = chars@.take(i + 1);
            assert(t.drop_last() =~= chars@.take(i as int));
            assert(t.last() == c);
            assert(s@ =~= single_line_spec(t));
        }
        i = i + 1;
    }
    proof {
        assert(chars@.take(chars@.len() as int) =~= text@);
    }
    s
}

/// The hint appended to tool errors for the model.
pub open spec fn llm_hint() -> Seq<char> {
    "\n\n[Analyze the error above and try a different approach.]"@
}

/// `s` with every trailing repetition of `suffix` removed.
pub open spec fn trim_end_matches_spec(s: Seq<char>, suffix: Seq<char>) -> Seq<char>
    decreases s.len(),
{
    if suffix.len() > 0 && suffix.len() <= s.len() && s.skip(s.len() - suffix.len()) == suffix {
        trim_end_matches_spec(s.take(s.len() - suffix.len()), suffix)
    } else {
        s
    }
}

/// Whether `chars[..end]` ends with `suffix`.
fn ends_with_at(chars: &Vec<char>, end: usize, suffix: &Vec<char>) -> (b: bool)
    requires
        end <= chars@.len(),
    ensures
        b == (suffix@.len() <= end && chars@.take(end as int).skip(end - suffix@.len()) == suffix@),
{
    let n = suffix.len();
    if n > end {
        return false;
    }
    let start = end - n;
    let mut j: usize = 0;
    while j < n
        invariant
            n == suffix@.len(),
            start + n == end,
            end <= chars@.len(),
            j <= n,
            forall|t: int| 0 <= t < j ==> chars@[start + t] == suffix@[t],
        decreases n - j,
    {
        if chars[start + j] != suffix[j] {
            proof {
                assert(chars@.take(end as int).skip(start as int)[j as int] != suffix@[j as int]);
            }
            return false;
        }
        j = j + 1;
    }
    proof {
        assert(chars@.take(end as int).skip(start as int) =~= suffix@);
    }
    true
}

/// Removes the tool-error hint (every trailing repetition of it) from a
/// message.
pub fn strip_llm_hints(content: &str) -> (s: String)
    ensures
        s@ == trim_end_matches_spec(content@, llm_hint()),
{
    let chars = str_chars(content);
    let hint = str_chars("\n\n[Analyze the error above and try a different approach.]");
    let mut end = chars.len();
    proof {
        reveal_strlit("\n\n[Analyze the error above and try a different approach.]");
        assert(chars@.take(end as int) =~= chars@);
    }
    while ends_with_at(&chars, end, &hint)
        invariant
            end <= chars@.len(),
            hint@ == llm_hint(),
            hint@.len() > 0,
            trim_end_matches_spec(content@, llm_hint()) == trim_end_matches_spec(chars@.take(end as int), llm_hint()),
            chars@ == content@,
        decreases end,
    {
        proof {
            let t = chars@.take(end as int);
            assert(t.take(t.len() - hint@.len()) =~= chars@.take(end - hint@.len()));
        }
        end = end - hint.len();
    }
    let mut s = String::new();
    push_range(&mut s, &chars, 0, end);
    proof {
        assert(chars@.subrange(0, end as int) =~= chars@.take(end as int));
    }
    s
}

/// Unicode `White_Space` (what `char::is_whitespace` tests).
pub open spec fn is_ws(c: char) -> bool {
    let u = c as u32;
    (0x09 <= u && u <= 0x0d) || u == 0x20 || u == 0x85 || u == 0xa0 || u == 0x1680 || (0x2000 <= u
        && u <= 0x200a) || u == 0x2028 || u == 0x2029 || u == 0x202f || u == 0x205f || u == 0x3000
}

/// Whether `c` is Unicode whitespace.
pub fn char_is_ws(c: char) -> (b: bool)
    ensures
        b == is_ws(c),
{
    let u = c as u32;
    (0x09 <= u && u <= 0x0d) || u == 0x20 || u == 0x85 || u == 0xa0 || u == 0x1680 || (0x2000 <= u
        && u <= 0x200a) || u == 0x2028 || u == 0x2029 || u == 0x202f || u == 0x205f || u == 0x3000
}

/// Number of leading whitespace characters.
pub open spec fn lead_ws(s: Seq<char>) -> nat
    decreases s.len(),
{
    if s.len() > 0 && is_ws(s[0]) {
        1 + lead_ws(s.skip(1))
    } else {
        0
    }
}

/// Number of trailing whitespace characters.
pub open spec fn trail_ws(s: Seq<char>) -> nat
    decreases s.len(),
{
    if s.len() > 0 && is_ws(s.last()) {
        1 + trail_ws(s.drop_last())
    } else {
        0
    }
}

/// `s` without leading and trailing whitespace (`str::trim`).
pub open spec fn trim_spec(s: Seq<char>) -> Seq<char> {
    if lead_ws(s) >= s.len() {
        Seq::empty()
    } else {
        s.subrange(lead_ws(s) as int, s.len() - trail_ws(s))
    }
}

pub proof fn lead_ws_le(s: Seq<char>)
    ensures
        lead_ws(s) <= s.len(),
    decreases s.len(),
{
    if s.len() > 0 && is_ws(s[0]) {
        lead_ws_le(s.skip(1));
    }
}

/// When some character is not whitespace, leading and trailing whitespace
/// do not overlap.
pub proof fn ws_ends_disjoint(s: Seq<char>)
    requires
        lead_ws(s) < s.len(),
    ensures
        lead_ws(s) + trail_ws(s) < s.len(),
        !is_ws(s[lead_ws(s) as int]),
    decreases s.len(),
{
    if is_ws(s[0]) {
        let t = s.skip(1);
        ws_ends_disjoint(t);
        assert(t[lead_ws(t) as int] == s[lead_ws(s) as int]);
        if is_ws(s.last()) {
            assert(t.last() == s.last());
            assert(t.drop_last() =~= s.drop_last().skip(1));
            trail_skip(s);
        } else {
            assert(t.last() == s.last());
        }
    } else {
        if s.len() > 0 && is_ws(s.last()) {
            trail_lt(s);
        }
    }
}

proof fn trail_lt(s: Seq<char>)
    requires
        s.len() > 0,
        !is_ws(s[0]),
    ensures
        trail_ws(s) < s.len(),
    decreases s.len(),
{
    if s.len() > 1 && is_ws(s.last()) {
        assert(s.drop_last()[0] == s[0]);
        trail_lt(s.drop_last());
    }
}

proof fn trail_skip(s: Seq<char>)
    requires
        s.len() > 0,
        is_ws(s[0]),
        lead_ws(s) < s.len(),
    ensures
        trail_ws(s.skip(1)) == trail_ws(s),
    decreases s.len(),
{
    let t = s.skip(1);
    lead_ws_le(t);
    if is_ws(s.last()) {
        assert(t.last() == s.last());
        assert(t.drop_last() =~= s.drop_last().skip(1));
        assert(s.drop_last()[0] == s[0]);
        // the last character is not the first non-whitespace one
        if s.drop_last().len() > 0 && lead_ws(s.drop_last()) < s.drop_last().len() {
            lead_prefix(s);
            trail_skip(s.drop_last());
        } else {
            lead_prefix(s);
        }
    }
}

proof fn lead_prefix(s: Seq<char>)
    requires
        s.len() > 0,
        is_ws(s.last()),
        lead_ws(s) < s.len(),
    ensures
        lead_ws(s.drop_last()) == lead_ws(s),
        lead_ws(s) < s.drop_last().len(),
    decreases s.len(),
{
    if s.len() > 1 && is_ws(s[0]) {
        let t = s.skip(1);
        assert(t.last() == s.last());
        assert(t.drop_last() =~= s.drop_last().skip(1));
        lead_prefix(t);
    } else if s.len() == 1 {
    } else {
        assert(s.drop_last()[0] == s[0]);
    }
}

/// `text` without leading and trailing whitespace.
pub fn trim(text: &str) -> (r: String)
    ensures
        r@ == trim_spec(text@),
{
    let chars = str_chars(text);
    let n = chars.len();
    let mut a: usize = 0;
    proof {
        assert(chars@.skip(0) =~= chars@);
    }
    while a < n && char_is_ws(chars[a])
        invariant
            n == chars@.len(),
            a <= n,
            lead_ws(chars@) == a + lead_ws(chars@.skip(a as int)),
        decreases n - a,
    {
        proof {
            assert(chars@.skip(a as int)[0] == chars@[a as int]);
            assert(chars@.skip(a as int).skip(1) =~= chars@.skip(a + 1));
        }
        a = a + 1;
    }
    proof {
        if a == n {
            assert(chars@.skip(a as int) =~= Seq::<char>::empty());
        } else {
            assert(chars@.skip(a as int)[0] == chars@[a as int]);
        }
    }
    if a == n {
        return String::new();
    }
    proof {
        ws_ends_disjoint(chars@);
    }
    let mut b: usize = n;
    proof {
        assert(chars@.take(n as int) =~= chars@);
    }
    while b > a && char_is_ws(chars[b - 1])
        invariant
            n == chars@.len(),
            a < n,
            a == lead_ws(chars@),
            a <= b <= n,
            !is_ws(chars@[a as int]),
            trail_ws(chars@) == (n - b) + trail_ws(chars@.take(b as int)),
        decreases b,
    {
        proof {
            assert(chars@.take(b as int).last() == chars@[b - 1]);
            assert(chars@.take(b as int).drop_last() =~= chars@.take(b - 1));
        }
        b = b - 1;
    }
    proof {
        assert(b > a);
        assert(chars@.take(b as int).last() == chars@[b - 1]);
    }
    let mut r = String::new();
    push_range(&mut r, &chars, a, b);
    r
}

/// The number of whitespace characters at the start of `chars[from..]`.
pub fn leading_ws(chars: &Vec<char>, from: usize) -> (k: usize)
    requires
        from <= chars@.len(),
    ensures
        k == lead_ws(chars@.skip(from as int)),
        from + k <= chars@.len(),
{
    let n = chars.len();
    let mut a: usize = from;
    proof {
        lead_ws_le(chars@.skip(from as int));
        assert(chars@.skip(from as int).skip(0) =~= chars@.skip(from as int));
    }
    while a < n && char_is_ws(chars[a])
        invariant
            n == chars@.len(),
            from <= a <= n,
            lead_ws(chars@.skip(from as int)) == (a - from) + lead_ws(chars@.skip(a as int)),
        decreases n - a,
    {
        proof {
            assert(chars@.skip(a as int)[0] == chars@[a as int]);
            assert(chars@.skip(a as int).skip(1) =~= chars@.skip(a + 1));
        }
        a = a + 1;
    }
    proof {
        if a == n {
            assert(chars@.skip(a as int) =~= Seq::<char>::empty());
        } else {
            assert(chars@.skip(a as int)[0] == chars@[a as int]);
        }
    }
    a - from
}

/// A sequence trims to nothing exactly when it is all whitespace.
pub proof fn trim_empty_iff(s: Seq<char>)
    ensures
        (trim_spec(s).len() == 0) <==> lead_ws(s) >= s.len(),
{
    if lead_ws(s) < s.len() {
        ws_ends_disjoint(s);
    }
}

/// Greedy wrapping of `s` at `max` cells: `(finished lines, current line,
/// cells of the current line)`. A character that would overflow a non-empty
/// line starts a new one.
pub open spec fn wrap_scan(s: Seq<char>, max: int) -> (Seq<Seq<char>>, Seq<char>, int)
    decreases s.len(),
{
    if s.len() == 0 {
        (Seq::empty(), Seq::empty(), 0)
    } else {
        let (lines, cur, w) = wrap_scan(s.drop_last(), max);
        let c = s.last();
        if w + cells(c) > max && cur.len() > 0 {
            (lines.push(cur), seq![c], cells(c) as int)
        } else {
            (lines, cur.push(c), w + cells(c))
        }
    }
}

/// All wrapped lines of `s`.
pub open spec fn wrap_all(s: Seq<char>, max: int) -> Seq<Seq<char>> {
    let (lines, cur, _) = wrap_scan(s, max);
    if cur.len() > 0 {
        lines.push(cur)
    } else {
        lines
    }
}

/// `line` with characters removed from its end while it is at least
/// `max` columns wide.
pub open spec fn shrink_line(line: Seq<char>, max: int) -> Seq<char>
    decreases line.len(),
{
    if line.len() > 0 && str_width_spec(line) >= max {
        shrink_line(line.drop_last(), max)
    } else {
        line
    }
}

/// `text` (newlines as spaces) wrapped at `max_width` cells; at most
/// `max_lines` lines, the last of them shortened below `max_width` columns
/// and marked with `…` when lines were dropped.
pub open spec fn wrap_text_spec(text: Seq<char>, max_width: int, max_lines: int) -> Seq<Seq<char>> {
    if max_width == 0 || max_lines == 0 {
        Seq::empty()
    } else {
        let all = wrap_all(replace_char(text, '\n', ' '), max_width);
        if all.len() <= max_lines {
            all
        } else {
            let r = all.take(max_lines);
            r.update(max_lines - 1, shrink_line(r[max_lines - 1], max_width).push('…'))
        }
    }
}

/// Wraps `text` into at most `max_lines` lines of `max_width` cells (see
/// `wrap_text_spec`).
pub fn wrap_text_to_lines(text: &str, max_width: usize, max_lines: usize) -> (r: Vec<String>)
    ensures
        r@.len() == wrap_text_spec(text@, max_width as int, max_lines as int).len(),
        forall|i: int| 0 <= i < r@.len() ==> (#[trigger] r@[i])@ == wrap_text_spec(text@, max_width as int, max_lines as int)[i],
{
    if max_width == 0 || max_lines == 0 {
        return Vec::new();
    }
    let flat = replace_newlines(&str_chars(text));
    let mut lines: Vec<Vec<char>> = Vec::new();
    let mut current: Vec<char> = Vec::new();
    let mut current_w: usize = 0;
    let mut i: usize = 0;
    while i < flat.len()
        invariant
            i <= flat@.len(),
            max_width > 0,
            lines@.len() == wrap_scan(flat@.take(i as int), max_width as int).0.len(),
            forall|t: int| 0 <= t < lines@.len() ==> (#[trigger] lines@[t])@ == wrap_scan(flat@.take(i as int), max_width as int).0[t],
            current@ == wrap_scan(flat@.take(i as int), max_width as int).1,
            current_w == wrap_scan(flat@.take(i as int), max_width as int).2,
            current_w <= (if max_width > 3 { max_width } else { 3 }),
            current@.len() == 0 ==> current_w == 0,
        decreases flat@.len() - i,
    {
        let c = flat[i];
        let cw = char_cells(c);
        proof {
            let t = flat@.take(i + 1);
            assert(t.drop_last() =~= flat@.take(i as int));
            assert(t.last() == c);
        }
        let overflow = current_w > max_width || cw > max_width - current_w;
        if overflow && current.len() > 0 {
            let done = current;
            lines.push(done);
            current = Vec::new();
            current.push(c);
            current_w = cw;
            proof {
                assert(current@ =~= seq![c]);
            }
        } else {
            current.push(c);
            current_w = current_w + cw;
        }
        i = i + 1;
    }
    proof {
        assert(flat@.take(flat@.len() as int) =~= flat@);
    }
    if current.len() > 0 {
        lines.push(current);
    }
    let ghost all = wrap_all(flat@, max_width as int);
    if lines.len() == 0 {
        return Vec::new();
    }
    let keep = if lines.len() <= max_lines { lines.len() } else { max_lines };
    let mut result: Vec<String> = Vec::new();
    let mut k: usize = 0;
    while k < keep
        invariant
            keep <= lines@.len(),
            lines@.len() == all.len(),
            forall|t: int| 0 <= t < lines@.len() ==> (#[trigger] lines@[t])@ == all[t],
            k <= keep,
            result@.len() == k,
            forall|t: int| 0 <= t < k ==> (#[trigger] result@[t])@ == all[t],
        decreases keep - k,
    {
        result.push(chars_to_string(&lines[k]));
        k = k + 1;
    }
    if lines.len() <= max_lines {
        return result;
    }
    let mut last: Vec<char> = lines[max_lines - 1].clone();
    proof {
        assert(last@ == all[max_lines - 1]);
    }
    let mut end = last.len();
    proof {
        assert(last@.take(end as int) =~= last@);
    }
    loop
        invariant
            end <= last@.len(),
            max_width > 0,
            shrink_line(last@, max_width as int) == shrink_line(last@.take(end as int), max_width as int),
        ensures
            end <= last@.len(),
            shrink_line(last@, max_width as int) == shrink_line(last@.take(end as int), max_width as int),
            end == 0 || str_width_spec(last@.take(end as int)) < max_width,
        decreases end,
    {
        if end == 0 {
            break;
        }
        let mut probe = String::new();
        push_range(&mut probe, &last, 0, end);
        proof {
            assert(last@.subrange(0, end as int) =~= last@.take(end as int));
        }
        if str_width(probe.as_str()) < max_width {
            break;
        }
        proof {
            assert(last@.take(end as int).drop_last() =~= last@.take(end - 1));
        }
        end = end - 1;
    }
    proof {
        if end == 0 {
            assert(last@.take(0) =~= Seq::<char>::empty());
        }
        assert(shrink_line(last@.take(end as int), max_width as int) == last@.take(end as int));
    }
    let mut tail = String::new();
    push_range(&mut tail, &last, 0, end);
    tail.push('…');
    proof {
        assert(last@.subrange(0, end as int) =~= last@.take(end as int));
    }
    result.set(max_lines - 1, tail);
    result
}

/// Rows of the approval panel: six, plus up to two wrapped argument rows on
/// a terminal narrower than sixty columns when there are arguments.
pub open spec fn approval_height_spec(width: int, arguments: Seq<char>) -> int {
    if width >= 60 || trim_spec(arguments).len() == 0 {
        6
    } else {
        let arg_w = if width - 4 > 1 { width - 4 } else { 1 };
        6 + wrap_text_spec(arguments, arg_w, 2).len() as int
    }
}

/// The natural height of the approval panel (see `approval_height_spec`).
pub fn approval_natural_height(width: u16, arguments: &str) -> (h: u16)
    ensures
        h == approval_height_spec(width as int, arguments@),
{
    if width >= 60 || trim(arguments).as_str().is_empty() {
        return 6;
    }
    let w = width as usize;
    let arg_w: usize = if w > 5 { w - 4 } else { 1 };
    let wrapped = wrap_text_to_lines(arguments, arg_w, 2);
    proof {
        wrap_text_at_most(arguments@, arg_w as int, 2);
    }
    6 + wrapped.len() as u16
}

proof fn wrap_text_at_most(text: Seq<char>, max_width: int, max_lines: int)
    requires
        max_lines >= 0,
    ensures
        wrap_text_spec(text, max_width, max_lines).len() <= max_lines,
{
}

/// A line that is exactly `**title**`, with a non-empty title free of
/// `*`: the title.
pub open spec fn standalone_bold_spec(line: Seq<char>) -> Option<Seq<char>> {
    if line.len() >= 4 && line[0] == '*' && line[1] == '*' && line[line.len() - 2] == '*' && line[line.len()
        - 1] == '*' {
        let title = line.subrange(2, line.len() - 2);
        if title.len() > 0 && !title.contains('*') {
            Some(title)
        } else {
            None
        }
    } else {
        None
    }
}

/// The title of a standalone bold line (see `standalone_bold_spec`).
pub fn parse_standalone_bold(line: &Vec<char>) -> (r: Option<Vec<char>>)
    ensures
        match r {
            Some(t) => standalone_bold_spec(line@) == Some(t@),
            None => standalone_bold_spec(line@) is None,
        },
{
    let n = line.len();
    if n < 4 || line[0] != '*' || line[1] != '*' || line[n - 2] != '*' || line[n - 1] != '*' {
        return None;
    }
    let mut title: Vec<char> = Vec::new();
    let mut k: usize = 2;
    while k < n - 2
        invariant
            n == line@.len(),
            n >= 4,
            2 <= k <= n - 2,
            title@ == line@.subrange(2, k as int),
            !title@.contains('*'),
        decreases n - 2 - k,
    {
        if line[k] == '*' {
            proof {
                assert(line@.subrange(2, n - 2)[k - 2] == '*');
            }
            return None;
        }
        title.push(line[k]);
        proof {
            assert(line@.subrange(2, k + 1) =~= line@.subrange(2, k as int).push(line@[k as int]));
            assert forall|c: char| title@.contains(c) implies c != '*' by {
                let j = choose|j: int| 0 <= j < title@.len() && title@[j] == c;
                if j < title@.len() - 1 {
                    assert(line@.subrange(2, k as int)[j] == c);
                }
            }
        }
        k = k + 1;
    }
    if title.len() == 0 {
        return None;
    }
    Some(title)
}

/// The lines of `s` as split at each newline (`str::split('\n')`).
pub open spec fn split_lines(s: Seq<char>) -> Seq<Seq<char>>
    decreases s.len(),
{
    if s.len() == 0 {
        seq![Seq::empty()]
    } else {
        let parts = split_lines(s.drop_last());
        if s.last() == '\n' {
            parts.push(Seq::empty())
        } else {
            parts.update(parts.len() - 1, parts.last().push(s.last()))
        }
    }
}

pub(crate) proof fn split_lines_nonempty(s: Seq<char>)
    ensures
        split_lines(s).len() >= 1,
    decreases s.len(),
{
    if s.len() > 0 {
        split_lines_nonempty(s.drop_last());
    }
}

/// The title line `i` offers: a standalone bold title followed by a blank
/// line or the end of the text.
pub open spec fn title_at(lines: Seq<Seq<char>>, i: int) -> Option<Seq<char>> {
    if i + 1 == lines.len() || trim_spec(lines[i + 1]).len() == 0 {
        standalone_bold_spec(trim_spec(lines[i]))
    } else {
        None
    }
}

/// The title offered by the last of the first `k` lines that offers one.
pub open spec fn last_title(lines: Seq<Seq<char>>, k: int) -> Option<Seq<char>>
    decreases k,
{
    if k <= 0 {
        None
    } else {
        match title_at(lines, k - 1) {
            Some(t) => Some(t),
            None => last_title(lines, k - 1),
        }
    }
}

pub(crate) fn split_text(chars: &Vec<char>) -> (lines: Vec<Vec<char>>)
    ensures
        lines@.len() == split_lines(chars@).len(),
        forall|i: int| 0 <= i < lines@.len() ==> (#[trigger] lines@[i])@ == split_lines(chars@)[i],
{
    let mut done: Vec<Vec<char>> = Vec::new();
    let mut cur: Vec<char> = Vec::new();
    let mut i: usize = 0;
    proof {
        assert(chars@.take(0) =~= Seq::<char>::empty());
    }
    while i < chars.len()
        invariant
            i <= chars@.len(),
            done@.len() + 1 == split_lines(chars@.take(i as int)).len(),
            forall|t: int| 0 <= t < done@.len() ==> (#[trigger] done@[t])@ == split_lines(chars@.take(i as int))[t],
            cur@ == split_lines(chars@.take(i as int)).last(),
        decreases chars@.len() - i,
    {
        let c = chars[i];
        proof {
            let t = chars@.take(i + 1);
            assert(t.drop_last() =~= chars@.take(i as int));
            assert(t.last() == c);
            split_lines_nonempty(chars@.take(i as int));
        }
        if c == '\n' {
            let finished = cur;
            done.push(finished);
            cur = Vec::new();
            proof {
                assert(cur@ =~= Seq::<char>::empty());
            }
        } else {
            cur.push(c);
        }
        i = i + 1;
    }
    proof {
        assert(chars@.take(chars@.len() as int) =~= chars@);
    }
    done.push(cur);
    done
}

fn trimmed_chars(line: &Vec<char>) -> (r: Vec<char>)
    ensures
        r@ == trim_spec(line@),
{
    let s = chars_to_string(line);
    str_chars(trim(s.as_str()).as_str())
}

/// The last standalone bold title of a reasoning text that is followed by
/// a blank line or ends the text.
pub fn extract_thinking_title(text: &str) -> (r: Option<String>)
    ensures
        match r {
            Some(t) => last_title(split_lines(text@), split_lines(text@).len() as int) == Some(t@),
            None => last_title(split_lines(text@), split_lines(text@).len() as int) is None,
        },
{
    let lines = split_text(&str_chars(text));
    let ghost ls = split_lines(text@);
    let n = lines.len();
    let mut found: Option<Vec<char>> = None;
    let mut i: usize = 0;
    while i < n
        invariant
            n == lines@.len(),
            n == ls.len(),
            forall|t: int| 0 <= t < n ==> (#[trigger] lines@[t])@ == ls[t],
            i <= n,
            match found {
                Some(t) => last_title(ls, i as int) == Some(t@),
                None => last_title(ls, i as int) is None,
            },
        decreases n - i,
    {
        let trimmed = trimmed_chars(&lines[i]);
        let followed = if i + 1 == n {
            true
        } else {
            trimmed_chars(&lines[i + 1]).len() == 0
        };
        if followed {
            match parse_standalone_bold(&trimmed) {
                Some(t) => {
                    found = Some(t);
                },
                None => {},
            }
        }
        i = i + 1;
    }
    match found {
        Some(t) => Some(chars_to_string(&t)),
        None => None,
    }
}

} // verus!
