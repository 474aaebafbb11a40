//! Flat `key=value` configuration.
//!
//! One entry per line; a line whose first non-blank character is `#` is a
//! comment; a malformed line (no `=`, more than one `=`, or an empty key) is
//! skipped; the key is trimmed, the value is taken verbatim. The first
//! successful interpretation of the value among integer, float literal and
//! plain string wins, each kind in its own namespace. Lookups return the
//! entry written last. Blanks here are the ASCII kind: space, tab, carriage
//! return and newline.

use vstd::prelude::*;

verus! {

/// The configuration store. Floating-point values cannot be carried here, so
/// the float namespace keeps the verbatim text of every value that is a
/// float literal; entries that are neither integers nor float literals land
/// in the string namespace.
pub struct Config {
    pub ints: Vec<(String, i64)>,
    pub floats: Vec<(String, String)>,
    pub strings: Vec<(String, String)>,
}

/// The mathematical contents of a [`Config`]: each namespace as a sequence
/// of key/value pairs in insertion order.
pub struct ConfigModel {
    pub ints: Seq<(Seq<char>, i64)>,
    pub floats: Seq<(Seq<char>, Seq<char>)>,
    pub strings: Seq<(Seq<char>, Seq<char>)>,
}

impl View for Config {
    type V = ConfigModel;

    open spec fn view(&self) -> ConfigModel {
        ConfigModel {
            ints: self.ints@.map_values(|p: (String, i64)| (p.0@, p.1)),
            floats: self.floats@.map_values(|p: (String, String)| (p.0@, p.1@)),
            strings: self.strings@.map_values(|p: (String, String)| (p.0@, p.1@)),
        }
    }
}

/// The empty contents.
pub open spec fn empty_model() -> ConfigModel {
    ConfigModel { ints: Seq::empty(), floats: Seq::empty(), strings: Seq::empty() }
}

/// Looking a key up returns the value of the last pair that bears it.
pub open spec fn spec_lookup<V>(entries: Seq<(Seq<char>, V)>, key: Seq<char>) -> Option<V>
    decreases entries.len(),
{
    if entries.len() == 0 {
        None
    } else if entries.last().0 == key {
        Some(entries.last().1)
    } else {
        spec_lookup(entries.drop_last(), key)
    }
}

/// ASCII blank, as the parser trims it.
pub open spec fn is_cfg_space(c: char) -> bool {
    c == ' ' || c == '\t' || c == '\r' || c == '\n'
}

/// ASCII decimal digit.
pub open spec fn is_digit_char(c: char) -> bool {
    '0' <= c && c <= '9'
}

pub open spec fn all_digits(s: Seq<char>) -> bool {
    forall|k: int| 0 <= k < s.len() ==> is_digit_char(s[k])
}

/// Index of the first occurrence of `c1` or `c2`, or the length if neither
/// occurs.
pub open spec fn first_idx2(s: Seq<char>, c1: char, c2: char) -> int
    decreases s.len(),
{
    if s.len() == 0 {
        0
    } else if s[0] == c1 || s[0] == c2 {
        0
    } else {
        1 + first_idx2(s.subrange(1, s.len() as int), c1, c2)
    }
}

/// Index of the first non-blank character, or the length if all are blank.
pub open spec fn first_non_space(s: Seq<char>) -> int
    decreases s.len(),
{
    if s.len() == 0 {
        0
    } else if !is_cfg_space(s[0]) {
        0
    } else {
        1 + first_non_space(s.subrange(1, s.len() as int))
    }
}

/// One past the last non-blank character, or zero if all are blank.
pub open spec fn last_non_space_end(s: Seq<char>) -> int
    decreases s.len(),
{
    if s.len() == 0 {
        0
    } else if !is_cfg_space(s.last()) {
        s.len() as int
    } else {
        last_non_space_end(s.drop_last())
    }
}

pub open spec fn trim_start_seq(s: Seq<char>) -> Seq<char> {
    s.subrange(first_non_space(s), s.len() as int)
}

pub open spec fn trim_seq(s: Seq<char>) -> Seq<char> {
    let t = trim_start_seq(s);
    t.subrange(0, last_non_space_end(t))
}

pub open spec fn count_char(s: Seq<char>, c: char) -> nat
    decreases s.len(),
{
    if s.len() == 0 {
        0
    } else {
        count_char(s.drop_last(), c) + if s.last() == c {
            1nat
        } else {
            0nat
        }
    }
}

/// The numeric value of a digit string.
pub open spec fn digits_value(s: Seq<char>) -> nat
    decreases s.len(),
{
    if s.len() == 0 {
        0
    } else {
        digits_value(s.drop_last()) * 10 + (s.last() as u32 - '0' as u32) as nat
    }
}

/// What parsing the text as a signed 64-bit integer yields: an optional
/// sign, then one or more digits, no blanks and nothing else, value in
/// range; exactly the inputs the standard decimal parse accepts.
pub open spec fn parse_i64(s: Seq<char>) -> Option<i64> {
    let neg = s.len() >= 1 && s[0] == '-';
    let rest = if s.len() >= 1 && (s[0] == '-' || s[0] == '+') {
        s.subrange(1, s.len() as int)
    } else {
        s
    };
    if rest.len() == 0 || !all_digits(rest) {
        None
    } else {
        let v: int = if neg {
            -(digits_value(rest) as int)
        } else {
            digits_value(rest) as int
        };
        if i64::MIN <= v <= i64::MAX {
            Some(v as i64)
        } else {
            None
        }
    }
}

/// Case-insensitive match against a lowercase ASCII letter.
pub open spec fn ci_is(c: char, lower: char) -> bool {
    c == lower || c as u32 + 32 == lower as u32
}

pub open spec fn is_inf_seq(b: Seq<char>) -> bool {
    b.len() == 3 && ci_is(b[0], 'i') && ci_is(b[1], 'n') && ci_is(b[2], 'f')
}

pub open spec fn is_nan_seq(b: Seq<char>) -> bool {
    b.len() == 3 && ci_is(b[0], 'n') && ci_is(b[1], 'a') && ci_is(b[2], 'n')
}

pub open spec fn is_infinity_seq(b: Seq<char>) -> bool {
    b.len() == 8 && ci_is(b[0], 'i') && ci_is(b[1], 'n') && ci_is(b[2], 'f') && ci_is(b[3], 'i')
        && ci_is(b[4], 'n') && ci_is(b[5], 'i') && ci_is(b[6], 't') && ci_is(b[7], 'y')
}

/// Digits with at most one point and at least one digit: `1`, `1.`, `.5`,
/// `1.5`, but not `.` or text.
pub open spec fn is_mantissa(m: Seq<char>) -> bool {
    let d = first_idx2(m, '.', '.');
    if d == m.len() {
        m.len() >= 1 && all_digits(m)
    } else {
        all_digits(m.subrange(0, d)) && all_digits(m.subrange(d + 1, m.len() as int)) && m.len()
            >= 2
    }
}

/// An exponent after the `e`: optional sign, then one or more digits.
pub open spec fn is_exp_tail(t: Seq<char>) -> bool {
    let t2 = if t.len() >= 1 && (t[0] == '-' || t[0] == '+') {
        t.subrange(1, t.len() as int)
    } else {
        t
    };
    t2.len() >= 1 && all_digits(t2)
}

pub open spec fn is_float_number(b: Seq<char>) -> bool {
    let j = first_idx2(b, 'e', 'E');
    if j == b.len() {
        is_mantissa(b)
    } else {
        is_mantissa(b.subrange(0, j)) && is_exp_tail(b.subrange(j + 1, b.len() as int))
    }
}

/// The grammar of the standard 64-bit float parse: an optional sign, then
/// `inf`, `infinity` or `nan` in any case, or a mantissa with an optional
/// exponent.
pub open spec fn is_float_lit(s: Seq<char>) -> bool {
    let body = if s.len() >= 1 && (s[0] == '-' || s[0] == '+') {
        s.subrange(1, s.len() as int)
    } else {
        s
    };
    is_inf_seq(body) || is_infinity_seq(body) || is_nan_seq(body) || is_float_number(body)
}

/// A terminated line loses one trailing carriage return.
pub open spec fn strip_cr(s: Seq<char>) -> Seq<char> {
    if s.len() >= 1 && s.last() == '\r' {
        s.drop_last()
    } else {
        s
    }
}

/// The lines of `s` from position `i` on, with `cur` the partial line read
/// so far: split at newlines, a carriage return before each newline
/// stripped, an unterminated final line kept as written, no empty line after
/// a final newline.
pub open spec fn split_lines_from(s: Seq<char>, i: int, cur: Seq<char>) -> Seq<Seq<char>>
    decreases s.len() - i,
{
    if i < 0 || i >= s.len() {
        if cur.len() > 0 {
            seq![cur]
        } else {
            Seq::empty()
        }
    } else if s[i] == '\n' {
        seq![strip_cr(cur)] + split_lines_from(s, i + 1, Seq::empty())
    } else {
        split_lines_from(s, i + 1, cur.push(s[i]))
    }
}

pub open spec fn split_lines(s: Seq<char>) -> Seq<Seq<char>> {
    split_lines_from(s, 0, Seq::empty())
}

/// What one line contributes: comments and malformed lines nothing; an entry
/// goes to the first namespace that accepts its verbatim value — integer,
/// then float literal, then string.
pub open spec fn process_line(m: ConfigModel, line: Seq<char>) -> ConfigModel {
    let t = trim_start_seq(line);
    if t.len() >= 1 && t[0] == '#' {
        m
    } else if count_char(t, '=') != 1nat {
        m
    } else {
        let e = first_idx2(t, '=', '=');
        let key = trim_seq(t.subrange(0, e));
        if key.len() == 0 {
            m
        } else {
            let value = t.subrange(e + 1, t.len() as int);
            if parse_i64(value) is Some {
                ConfigModel { ints: m.ints.push((key, parse_i64(value)->Some_0)), ..m }
            } else if is_float_lit(value) {
                ConfigModel { floats: m.floats.push((key, value)), ..m }
            } else {
                ConfigModel { strings: m.strings.push((key, value)), ..m }
            }
        }
    }
}

pub open spec fn spec_parse_lines(lines: Seq<Seq<char>>, m: ConfigModel) -> ConfigModel
    decreases lines.len(),
{
    if lines.len() == 0 {
        m
    } else {
        spec_parse_lines(lines.subrange(1, lines.len() as int), process_line(m, lines[0]))
    }
}

/// The contents that parsing the whole text yields.
pub open spec fn spec_parse_config(s: Seq<char>) -> ConfigModel {
    spec_parse_lines(split_lines(s), empty_model())
}

/// A line the parser skips with a diagnostic: not a comment, and either
/// without exactly one `=` or with an empty key.
pub open spec fn line_is_malformed(line: Seq<char>) -> bool {
    let t = trim_start_seq(line);
    &&& !(t.len() >= 1 && t[0] == '#')
    &&& (count_char(t, '=') != 1nat || trim_seq(t.subrange(0, first_idx2(t, '=', '='))).len()
        == 0)
}

/// The numbers of the malformed lines among `lines`, counting from `base`,
/// in order.
pub open spec fn spec_skipped_from(lines: Seq<Seq<char>>, base: int) -> Seq<int>
    decreases lines.len(),
{
    if lines.len() == 0 {
        Seq::empty()
    } else {
        (if line_is_malformed(lines[0]) {
            seq![base]
        } else {
            Seq::empty()
        }) + spec_skipped_from(lines.subrange(1, lines.len() as int), base + 1)
    }
}

/// The zero-based numbers of the lines the whole text's parse skips as
/// malformed.
pub open spec fn spec_skipped_lines(s: Seq<char>) -> Seq<int> {
    spec_skipped_from(split_lines(s), 0)
}

/// Any index below every occurrence, at an occurrence or the end, is the
/// first occurrence index.
proof fn lemma_first_idx2_char(s: Seq<char>, c1: char, c2: char, j: int)
    requires
        0 <= j <= s.len(),
        forall|k: int| 0 <= k < j ==> s[k] != c1 && s[k] != c2,
        j < s.len() ==> (s[j] == c1 || s[j] == c2),
    ensures
        first_idx2(s, c1, c2) == j,
    decreases s.len(),
{
    if s.len() == 0 {
    } else if s[0] == c1 || s[0] == c2 {
        assert(j == 0);
    } else {
        assert(j >= 1);
        let sub = s.subrange(1, s.len() as int);
        assert(forall|k: int| 0 <= k < j - 1 ==> sub[k] != c1 && sub[k] != c2);
        lemma_first_idx2_char(sub, c1, c2, j - 1);
    }
}

proof fn lemma_first_non_space_char(s: Seq<char>, j: int)
    requires
        0 <= j <= s.len(),
        forall|k: int| 0 <= k < j ==> is_cfg_space(s[k]),
        j < s.len() ==> !is_cfg_space(s[j]),
    ensures
        first_non_space(s) == j,
    decreases s.len(),
{
    if s.len() == 0 {
    } else if !is_cfg_space(s[0]) {
        assert(j == 0);
    } else {
        assert(j >= 1);
        let sub = s.subrange(1, s.len() as int);
        assert(forall|k: int| 0 <= k < j - 1 ==> is_cfg_space(sub[k]));
        lemma_first_non_space_char(sub, j - 1);
    }
}

proof fn lemma_last_non_space_char(s: Seq<char>, j: int)
    requires
        0 <= j <= s.len(),
        forall|k: int| j <= k < s.len() ==> is_cfg_space(s[k]),
        j > 0 ==> !is_cfg_space(s[j - 1]),
    ensures
        last_non_space_end(s) == j,
    decreases s.len(),
{
    if s.len() == 0 {
    } else if !is_cfg_space(s.last()) {
        assert(j == s.len());
    } else {
        assert(j < s.len());
        let sub = s.drop_last();
        assert(forall|k: int| j <= k < sub.len() ==> is_cfg_space(sub[k]));
        lemma_last_non_space_char(sub, j);
    }
}

/// A character count is zero exactly when no position holds the character.
proof fn lemma_count_zero(s: Seq<char>, c: char)
    ensures
        (count_char(s, c) == 0) <==> (forall|k: int| 0 <= k < s.len() ==> s[k] != c),
    decreases s.len(),
{
    if s.len() == 0 {
    } else {
        lemma_count_zero(s.drop_last(), c);
        assert(forall|k: int| 0 <= k < s.len() - 1 ==> s[k] == s.drop_last()[k]);
    }
}

/// Skipping a newline-free run only grows the partial line.
proof fn lemma_split_run(s: Seq<char>, a: int, b: int, cur: Seq<char>)
    requires
        0 <= a <= b <= s.len(),
        forall|k: int| a <= k < b ==> s[k] != '\n',
    ensures
        split_lines_from(s, a, cur) == split_lines_from(s, b, cur + s.subrange(a, b)),
    decreases b - a,
{
    if a == b {
        assert(cur + s.subrange(a, b) =~= cur);
    } else {
        lemma_split_run(s, a + 1, b, cur.push(s[a]));
        assert(cur.push(s[a]) + s.subrange(a + 1, b) =~= cur + s.subrange(a, b));
    }
}

proof fn lemma_parse_lines_cons(a: Seq<char>, rest: Seq<Seq<char>>, m: ConfigModel)
    ensures
        spec_parse_lines(seq![a] + rest, m) == spec_parse_lines(rest, process_line(m, a)),
{
    let lines = seq![a] + rest;
    assert(lines[0] == a);
    assert(lines.subrange(1, lines.len() as int) =~= rest);
}

proof fn lemma_skipped_cons(a: Seq<char>, rest: Seq<Seq<char>>, base: int)
    ensures
        spec_skipped_from(seq![a] + rest, base) == (if line_is_malformed(a) {
            seq![base]
        } else {
            Seq::<int>::empty()
        }) + spec_skipped_from(rest, base + 1),
{
    let lines = seq![a] + rest;
    assert(lines[0] == a);
    assert(lines.subrange(1, lines.len() as int) =~= rest);
}

/// Index of the first occurrence of `c1` or `c2` within `[from, to)` of
/// `s`, or `to` if neither occurs there.
fn find_range(s: &str, from: usize, to: usize, c1: char, c2: char) -> (j: usize)
    requires
        from <= to <= s@.len(),
    ensures
        from <= j <= to,
        forall|k: int| from <= k < j ==> s@[k] != c1 && s@[k] != c2,
        j < to ==> (s@[j as int] == c1 || s@[j as int] == c2),
    decreases to - from,
{
    let mut i = from;
    while i < to
        invariant
            from <= i <= to <= s@.len(),
            forall|k: int| from <= k < i ==> s@[k] != c1 && s@[k] != c2,
        decreases to - i,
    {
        let c = s.get_char(i);
        if c == c1 || c == c2 {
            return i;
        }
        i = i + 1;
    }
    to
}

/// Whether `[from, to)` of `s` is all ASCII digits.
fn all_digits_range(s: &str, from: usize, to: usize) -> (r: bool)
    requires
        from <= to <= s@.len(),
    ensures
        r == all_digits(s@.subrange(from as int, to as int)),
{
    let ghost sub = s@.subrange(from as int, to as int);
    let mut i = from;
    while i < to
        invariant
            from <= i <= to <= s@.len(),
            sub == s@.subrange(from as int, to as int),
            forall|k: int| from <= k < i ==> is_digit_char(s@[k]),
        decreases to - i,
    {
        let c = s.get_char(i);
        if !('0' <= c && c <= '9') {
            proof {
                assert(sub[i - from] == s@[i as int]);
            }
            return false;
        }
        i = i + 1;
    }
    proof {
        assert(forall|k: int| 0 <= k < sub.len() ==> sub[k] == s@[from + k]);
    }
    true
}

/// Char-by-char string equality.
fn str_eq(a: &str, b: &str) -> (r: bool)
    ensures
        r == (a@ == b@),
{
    let alen = a.unicode_len();
    let blen = b.unicode_len();
    if alen != blen {
        return false;
    }
    let mut i: usize = 0;
    while i < alen
        invariant
            i <= alen,
            alen == a@.len(),
            blen == b@.len(),
            alen == blen,
            forall|j: int| 0 <= j < i ==> a@[j] == b@[j],
        decreases alen - i,
    {
        if a.get_char(i) != b.get_char(i) {
            return false;
        }
        i = i + 1;
    }
    proof {
        assert(a@ =~= b@);
    }
    true
}

/// Whether the text is a float literal of the standard grammar.
fn is_float_lit_str(s: &str) -> (r: bool)
    ensures
        r == is_float_lit(s@),
{
    let len = s.unicode_len();
    let mut start: usize = 0;
    if len >= 1 {
        let c0 = s.get_char(0);
        if c0 == '-' || c0 == '+' {
            start = 1;
        }
    }
    let body = s.substring_char(start, len);
    proof {
        if !(s@.len() >= 1 && (s@[0] == '-' || s@[0] == '+')) {
            assert(body@ =~= s@);
        }
    }
    let blen = len - start;
    if blen == 3 {
        let inf_m = is_ci_at(body, 0, 'i') && is_ci_at(body, 1, 'n') && is_ci_at(body, 2, 'f');
        let nan_m = is_ci_at(body, 0, 'n') && is_ci_at(body, 1, 'a') && is_ci_at(body, 2, 'n');
        if inf_m || nan_m {
            return true;
        }
    }
    if blen == 8 {
        let ok = (is_ci_at(body, 0, 'i')) && (is_ci_at(body, 1, 'n')) && (is_ci_at(body, 2, 'f'))
            && (is_ci_at(body, 3, 'i')) && (is_ci_at(body, 4, 'n')) && (is_ci_at(body, 5, 'i'))
            && (is_ci_at(body, 6, 't')) && (is_ci_at(body, 7, 'y'));
        if ok {
            return true;
        }
    }
    let j = find_range(body, 0, blen, 'e', 'E');
    proof {
        lemma_first_idx2_char(body@, 'e', 'E', j as int);
    }
    proof {
        assert(body@.subrange(0, blen as int) =~= body@);
    }
    if j == blen {
        let r = is_mantissa_range(body, 0, blen);
        r
    } else {
        let m_ok = is_mantissa_range(body, 0, j);
        if !m_ok {
            return false;
        }
        let r = is_exp_tail_range(body, j + 1, blen);
        r
    }
}

/// Case-insensitive test of one character against a lowercase letter.
fn is_ci_at(s: &str, i: usize, lower: char) -> (r: bool)
    requires
        i < s@.len(),
    ensures
        r == ci_is(s@[i as int], lower),
{
    let c = s.get_char(i);
    c == lower || (c as u32) + 32 == (lower as u32)
}

fn is_mantissa_range(s: &str, from: usize, to: usize) -> (r: bool)
    requires
        from <= to <= s@.len(),
    ensures
        r == is_mantissa(s@.subrange(from as int, to as int)),
{
    let ghost sub = s@.subrange(from as int, to as int);
    let d = find_range(s, from, to, '.', '.');
    proof {
        assert(forall|k: int| 0 <= k < d - from ==> sub[k] == s@[from + k]);
        lemma_first_idx2_char(sub, '.', '.', d - from);
    }
    if d == to {
        if to - from >= 1 {
            let r = all_digits_range(s, from, to);
            r
        } else {
            false
        }
    } else {
        let before = all_digits_range(s, from, d);
        proof {
            assert(s@.subrange(from as int, d as int) =~= sub.subrange(0, d - from));
        }
        if !before {
            return false;
        }
        let after = all_digits_range(s, d + 1, to);
        proof {
            assert(s@.subrange(d + 1, to as int) =~= sub.subrange(d - from + 1, sub.len() as int));
        }
        after && to - from >= 2
    }
}

fn is_exp_tail_range(s: &str, from: usize, to: usize) -> (r: bool)
    requires
        from <= to <= s@.len(),
    ensures
        r == is_exp_tail(s@.subrange(from as int, to as int)),
{
    let ghost sub = s@.subrange(from as int, to as int);
    let mut a = from;
    if from < to {
        let c = s.get_char(from);
        if c == '-' || c == '+' {
            a = from + 1;
        }
    }
    proof {
        if !(sub.len() >= 1 && (sub[0] == '-' || sub[0] == '+')) {
            assert(sub =~= s@.subrange(a as int, to as int));
        } else {
            assert(sub.subrange(1, sub.len() as int) =~= s@.subrange(a as int, to as int));
        }
    }
    if to - a >= 1 {
        let r = all_digits_range(s, a, to);
        r
    } else {
        false
    }
}

/// Parses a signed 64-bit integer exactly as [`parse_i64`] describes.
fn parse_i64_str(s: &str) -> (r: Option<i64>)
    ensures
        r == parse_i64(s@),
{
    let len = s.unicode_len();
    if len == 0 {
        return None;
    }
    let c0 = s.get_char(0);
    let neg = c0 == '-';
    let start: usize = if c0 == '-' || c0 == '+' {
        1
    } else {
        0
    };
    let ghost rest = if s@.len() >= 1 && (s@[0] == '-' || s@[0] == '+') {
        s@.subrange(1, s@.len() as int)
    } else {
        s@
    };
    proof {
        assert(rest =~= s@.subrange(start as int, len as int));
    }
    if start >= len {
        return None;
    }
    let mut i = start;
    let mut m: u64 = 0;
    let mut overflow = false;
    while i < len
        invariant
            start <= i <= len,
            len == s@.len(),
            start <= 1,
            neg == (s@.len() >= 1 && s@[0] == '-'),
            (start == 1) == (s@.len() >= 1 && (s@[0] == '-' || s@[0] == '+')),
            rest == s@.subrange(start as int, len as int),
            forall|k: int| start <= k < i ==> is_digit_char(s@[k]),
            !overflow ==> m == digits_value(s@.subrange(start as int, i as int)) && m
                <= 0x8000_0000_0000_0000u64,
            overflow ==> digits_value(s@.subrange(start as int, i as int))
                > 0x8000_0000_0000_0000u64,
        decreases len - i,
    {
        let c = s.get_char(i);
        if !('0' <= c && c <= '9') {
            proof {
                assert(0 <= i - start < rest.len());
                assert(rest[i - start] == s@[i as int]);
                assert(!is_digit_char(rest[i - start]));
                assert(!all_digits(rest));
            }
            return None;
        }
        let d: u64 = (c as u32 - '0' as u32) as u64;
        proof {
            let p = s@.subrange(start as int, i + 1);
            assert(p.drop_last() =~= s@.subrange(start as int, i as int));
            assert(digits_value(p) == digits_value(p.drop_last()) * 10 + (p.last() as u32
                - '0' as u32));
        }
        if overflow {
            proof {
                vstd::arithmetic::mul::lemma_mul_inequality(
                    0x8000_0000_0000_0001,
                    digits_value(s@.subrange(start as int, i as int)) as int,
                    10,
                );
            }
        } else {
            let wide: u128 = (m as u128) * 10 + (d as u128);
            if wide > 0x8000_0000_0000_0000u128 {
                overflow = true;
            } else {
                m = wide as u64;
            }
        }
        i = i + 1;
    }
    proof {
        assert(s@.subrange(start as int, len as int) =~= rest);
        assert(all_digits(rest));
    }
    if overflow {
        return None;
    }
    if neg {
        if m == 0x8000_0000_0000_0000u64 {
            Some(i64::MIN)
        } else {
            Some(-(m as i64))
        }
    } else {
        if m <= 0x7fff_ffff_ffff_ffffu64 {
            Some(m as i64)
        } else {
            None
        }
    }
}

/// The trimmed span of `[from, to)`: first and one-past-last non-blank.
fn trim_range(s: &str, from: usize, to: usize) -> (r: (usize, usize))
    requires
        from <= to <= s@.len(),
    ensures
        from <= r.0 <= r.1 <= to,
        forall|k: int| from <= k < r.0 ==> is_cfg_space(s@[k]),
        r.0 < to ==> !is_cfg_space(s@[r.0 as int]),
        s@.subrange(r.0 as int, r.1 as int) == trim_seq(s@.subrange(from as int, to as int)),
{
    let ghost sub = s@.subrange(from as int, to as int);
    let mut a = from;
    loop
        invariant
            from <= a <= to <= s@.len(),
            forall|k: int| from <= k < a ==> is_cfg_space(s@[k]),
        ensures
            from <= a <= to,
            forall|k: int| from <= k < a ==> is_cfg_space(s@[k]),
            a == to || !is_cfg_space(s@[a as int]),
        decreases to - a,
    {
        if a == to {
            break ;
        }
        let c = s.get_char(a);
        if !(c == ' ' || c == '\t' || c == '\r' || c == '\n') {
            break ;
        }
        a = a + 1;
    }
    let mut b = to;
    loop
        invariant
            a <= b <= to <= s@.len(),
            a == to || !is_cfg_space(s@[a as int]),
            forall|k: int| b <= k < to ==> is_cfg_space(s@[k]),
        ensures
            a <= b <= to,
            forall|k: int| b <= k < to ==> is_cfg_space(s@[k]),
            b == a || !is_cfg_space(s@[b - 1]),
        decreases b,
    {
        if b == a {
            break ;
        }
        let c = s.get_char(b - 1);
        if !(c == ' ' || c == '\t' || c == '\r' || c == '\n') {
            break ;
        }
        b = b - 1;
    }
    proof {
        assert(forall|k: int| 0 <= k < sub.len() ==> sub[k] == s@[from + k]);
        lemma_first_non_space_char(sub, a - from);
        let t = trim_start_seq(sub);
        assert(t =~= s@.subrange(a as int, to as int));
        assert(forall|k: int| 0 <= k < t.len() ==> t[k] == s@[a + k]);
        lemma_last_non_space_char(t, b - a);
        assert(t.subrange(0, b - a) =~= s@.subrange(a as int, b as int));
    }
    (a, b)
}

fn count_char_range(s: &str, from: usize, to: usize, c: char) -> (r: usize)
    requires
        from <= to <= s@.len(),
    ensures
        r == count_char(s@.subrange(from as int, to as int), c),
{
    let mut i = from;
    let mut cnt: usize = 0;
    while i < to
        invariant
            from <= i <= to <= s@.len(),
            cnt <= i - from,
            cnt == count_char(s@.subrange(from as int, i as int), c),
        decreases to - i,
    {
        let ch = s.get_char(i);
        proof {
            let p = s@.subrange(from as int, i + 1);
            assert(p.drop_last() =~= s@.subrange(from as int, i as int));
        }
        if ch == c {
            cnt = cnt + 1;
        }
        i = i + 1;
    }
    cnt
}

impl Config {
    /// The empty configuration: every lookup misses.
    pub fn new() -> (c: Config)
        ensures
            c@ == empty_model(),
    {
        let c = Config { ints: Vec::new(), floats: Vec::new(), strings: Vec::new() };
        proof {
            assert(c@.ints =~= empty_model().ints);
            assert(c@.floats =~= empty_model().floats);
            assert(c@.strings =~= empty_model().strings);
        }
        c
    }

    /// Folds one line into the store, as [`process_line`] describes, and
    /// says whether the line was skipped as malformed.
    #[verifier::rlimit(100)]
    fn add_line(&mut self, line: &str) -> (skipped: bool)
        ensures
            final(self)@ == process_line(old(self)@, line@),
            skipped == line_is_malformed(line@),
    {
        let len = line.unicode_len();
        let (a, full_end) = trim_range(line, 0, len);
        proof {
            assert(line@.subrange(0, len as int) =~= line@);
            assert(forall|k: int| 0 <= k < a ==> is_cfg_space(line@[k]));
            lemma_first_non_space_char(line@, a as int);
        }
        let ghost t = trim_start_seq(line@);
        let tlen = len - a;
        proof {
            assert(t =~= line@.subrange(a as int, len as int));
        }
        if tlen >= 1 {
            let c0 = line.get_char(a);
            proof {
                assert(t[0] == line@[a as int]);
            }
            if c0 == '#' {
                return false;
            }
        }
        let cnt = count_char_range(line, a, len, '=');
        proof {
            assert(line@.subrange(a as int, len as int) =~= t);
        }
        if cnt != 1 {
            return true;
        }
        let e = find_range(line, a, len, '=', '=');
        proof {
            assert(forall|k: int| 0 <= k < e - a ==> t[k] == line@[a + k]);
            lemma_first_idx2_char(t, '=', '=', (e - a) as int);
            if e == len {
                lemma_count_zero(t, '=');
                assert(forall|k: int| 0 <= k < t.len() ==> t[k] == line@[a + k]);
                assert(forall|k: int| 0 <= k < t.len() ==> t[k] != '=');
                assert(false);
            }
        }
        let (k1, k2) = trim_range(line, a, e);
        proof {
            assert(line@.subrange(a as int, e as int) =~= t.subrange(0, e - a));
        }
        if k2 - k1 == 0 {
            proof {
                assert(trim_seq(t.subrange(0, e - a)).len() == 0);
            }
            return true;
        }
        let key: String = line.substring_char(k1, k2).to_owned();
        let ghost keyv = key@;
        proof {
            assert(keyv == trim_seq(t.subrange(0, e - a)));
        }
        let value_str = line.substring_char(e + 1, len);
        let ghost value = t.subrange(e - a + 1, t.len() as int);
        proof {
            assert(value_str@ =~= value);
        }
        match parse_i64_str(value_str) {
            Some(n) => {
                self.ints.push((key, n));
                proof {
                    assert(self@.ints =~= old(self)@.ints.push((keyv, n)));
                    assert(self@.floats =~= old(self)@.floats);
                    assert(self@.strings =~= old(self)@.strings);
                }
            },
            None => {
                if is_float_lit_str(value_str) {
                    let v = value_str.to_owned();
                    self.floats.push((key, v));
                    proof {
                        assert(self@.floats =~= old(self)@.floats.push((keyv, value)));
                        assert(self@.ints =~= old(self)@.ints);
                        assert(self@.strings =~= old(self)@.strings);
                    }
                } else {
                    let v = value_str.to_owned();
                    self.strings.push((key, v));
                    proof {
                        assert(self@.strings =~= old(self)@.strings.push((keyv, value)));
                        assert(self@.ints =~= old(self)@.ints);
                        assert(self@.floats =~= old(self)@.floats);
                    }
                }
            },
        }
        false
    }

    /// Parses a whole configuration text, line by line.
    pub fn new_from_config_string(s: &str) -> (c: Config)
        ensures
            c@ == spec_parse_config(s@),
    {
        let (c, _skipped) = Config::new_from_config_string_with_diagnostics(s);
        c
    }

    /// Parses a whole configuration text and also reports the zero-based
    /// numbers of the lines skipped as malformed, in order, so a caller can
    /// emit a diagnostic for each.
    pub fn new_from_config_string_with_diagnostics(s: &str) -> (r: (Config, Vec<usize>))
        ensures
            r.0@ == spec_parse_config(s@),
            r.1@.map_values(|x: usize| x as int) == spec_skipped_lines(s@),
    {
        let len = s.unicode_len();
        let mut c = Config::new();
        let mut skipped: Vec<usize> = Vec::new();
        let mut start: usize = 0;
        let mut line_no: usize = 0;
        proof {
            assert(skipped@.map_values(|x: usize| x as int) =~= Seq::<int>::empty());
        }
        while start < len
            invariant
                start <= len,
                line_no <= start,
                len == s@.len(),
                spec_parse_lines(split_lines_from(s@, start as int, Seq::empty()), c@)
                    == spec_parse_config(s@),
                skipped@.map_values(|x: usize| x as int) + spec_skipped_from(
                    split_lines_from(s@, start as int, Seq::empty()),
                    line_no as int,
                ) == spec_skipped_lines(s@),
            decreases len - start,
        {
            let j = find_range(s, start, len, '\n', '\n');
            proof {
                lemma_split_run(s@, start as int, j as int, Seq::empty());
                assert(Seq::<char>::empty() + s@.subrange(start as int, j as int) =~= s@.subrange(
                    start as int,
                    j as int,
                ));
            }
            if j == len {
                let line = s.substring_char(start, len);
                let ghost c_pre = c@;
                let ghost skipped_pre = skipped@;
                let was_skipped = c.add_line(line);
                if was_skipped {
                    skipped.push(line_no);
                }
                proof {
                    let cur = s@.subrange(start as int, len as int);
                    assert(cur.len() > 0);
                    assert(split_lines_from(s@, len as int, cur) =~= seq![cur]);
                    lemma_parse_lines_cons(cur, Seq::empty(), c_pre);
                    assert(seq![cur] + Seq::<Seq<char>>::empty() =~= seq![cur]);
                    lemma_skipped_cons(cur, Seq::empty(), line_no as int);
                    assert(spec_skipped_from(Seq::empty(), line_no + 1) =~= Seq::<int>::empty());
                    if was_skipped {
                        assert(skipped@.map_values(|x: usize| x as int) =~= skipped_pre.map_values(
                            |x: usize| x as int,
                        ) + seq![line_no as int]);
                    }
                    assert(skipped@.map_values(|x: usize| x as int) =~= spec_skipped_lines(s@));
                }
                start = len;
                line_no = line_no + 1;
                proof {
                    assert(split_lines_from(s@, start as int, Seq::<char>::empty())
                        =~= Seq::<Seq<char>>::empty());
                    assert(spec_skipped_from(
                        split_lines_from(s@, start as int, Seq::empty()),
                        line_no as int,
                    ) =~= Seq::<int>::empty());
                }
            } else {
                let mut line_end = j;
                if j > start {
                    let cl = s.get_char(j - 1);
                    if cl == '\r' {
                        line_end = j - 1;
                    }
                }
                let line = s.substring_char(start, line_end);
                proof {
                    let cur = s@.subrange(start as int, j as int);
                    assert(line@ =~= strip_cr(cur));
                }
                let ghost c_pre = c@;
                let ghost skipped_pre = skipped@;
                let was_skipped = c.add_line(line);
                if was_skipped {
                    skipped.push(line_no);
                }
                proof {
                    let cur = s@.subrange(start as int, j as int);
                    let rest = split_lines_from(s@, j + 1, Seq::<char>::empty());
                    assert(split_lines_from(s@, j as int, cur) == seq![strip_cr(cur)] + rest);
                    lemma_parse_lines_cons(strip_cr(cur), rest, c_pre);
                    lemma_skipped_cons(strip_cr(cur), rest, line_no as int);
                    if was_skipped {
                        assert(skipped@.map_values(|x: usize| x as int) =~= skipped_pre.map_values(
                            |x: usize| x as int,
                        ) + seq![line_no as int]);
                    }
                    assert(skipped@.map_values(|x: usize| x as int) + spec_skipped_from(
                        rest,
                        line_no + 1,
                    ) =~= spec_skipped_lines(s@));
                }
                start = j + 1;
                line_no = line_no + 1;
            }
        }
        proof {
            if start == 0 {
                assert(s@.len() == 0);
            }
            assert(split_lines_from(s@, start as int, Seq::empty()) =~= Seq::<Seq<char>>::empty());
            assert(spec_skipped_from(
                split_lines_from(s@, start as int, Seq::empty()),
                line_no as int,
            ) =~= Seq::<int>::empty());
            assert(skipped@.map_values(|x: usize| x as int) + Seq::<int>::empty()
                =~= skipped@.map_values(|x: usize| x as int));
        }
        (c, skipped)
    }

    /// The integer entry written last under `key`, if any.
    pub fn get_int(&self, key: &str) -> (r: Option<i64>)
        ensures
            r == spec_lookup(self@.ints, key@),
    {
        let mut i: usize = self.ints.len();
        proof {
            assert(self@.ints.subrange(0, i as int) =~= self@.ints);
        }
        while i > 0
            invariant
                i <= self.ints.len(),
                spec_lookup(self@.ints, key@) == spec_lookup(
                    self@.ints.subrange(0, i as int),
                    key@,
                ),
            decreases i,
        {
            i = i - 1;
            proof {
                let p = self@.ints.subrange(0, i + 1);
                assert(p.drop_last() =~= self@.ints.subrange(0, i as int));
                assert(p.last() == self@.ints[i as int]);
            }
            if str_eq(self.ints[i].0.as_str(), key) {
                return Some(self.ints[i].1);
            }
        }
        proof {
            assert(self@.ints.subrange(0, 0) =~= Seq::<(Seq<char>, i64)>::empty());
        }
        None
    }

    /// The string entry written last under `key`, if any, as an owned copy.
    pub fn get_string(&self, key: &str) -> (r: Option<String>)
        ensures
            r is Some <==> spec_lookup(self@.strings, key@) is Some,
            r matches Some(v) ==> v@ == spec_lookup(self@.strings, key@)->Some_0,
    {
        let mut i: usize = self.strings.len();
        proof {
            assert(self@.strings.subrange(0, i as int) =~= self@.strings);
        }
        while i > 0
            invariant
                i <= self.strings.len(),
                spec_lookup(self@.strings, key@) == spec_lookup(
                    self@.strings.subrange(0, i as int),
                    key@,
                ),
            decreases i,
        {
            i = i - 1;
            proof {
                let p = self@.strings.subrange(0, i + 1);
                assert(p.drop_last() =~= self@.strings.subrange(0, i as int));
                assert(p.last() == self@.strings[i as int]);
            }
            if str_eq(self.strings[i].0.as_str(), key) {
                return Some(self.strings[i].1.clone());
            }
        }
        proof {
            assert(self@.strings.subrange(0, 0) =~= Seq::<(Seq<char>, Seq<char>)>::empty());
        }
        None
    }
}

} // verus!
