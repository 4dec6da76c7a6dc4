//! Character-level text rules shared by every contract module: identifier
//! shapes, repository-relative paths, bounded prefixes and lexicographic
//! order, all stated over the Unicode scalars of a string.
use vstd::prelude::*;
use vstd::string::StringSliceAdditionalSpecFns;

verus! {

/// `char::is_control`: the Unicode general category Cc (C0 and C1 controls).
pub open spec fn is_control(c: char) -> bool {
    (c as u32) <= 0x1f || (0x7f <= (c as u32) && (c as u32) <= 0x9f)
}

/// A lowercase hexadecimal digit (`0-9`, `a-f`).
pub open spec fn is_lower_hex(c: char) -> bool {
    ('0' <= c && c <= '9') || ('a' <= c && c <= 'f')
}

/// An ASCII decimal digit.
pub open spec fn is_ascii_digit(c: char) -> bool {
    '0' <= c && c <= '9'
}

/// Number of bytes of the UTF-8 encoding of one scalar.
pub open spec fn utf8_width(c: char) -> nat {
    if (c as u32) < 0x80 {
        1
    } else if (c as u32) < 0x800 {
        2
    } else if (c as u32) < 0x10000 {
        3
    } else {
        4
    }
}

/// Number of bytes of the UTF-8 encoding of a scalar sequence (`str::len`).
pub open spec fn utf8_len(s: Seq<char>) -> nat
    decreases s.len(),
{
    if s.len() == 0 {
        0
    } else {
        utf8_len(s.drop_last()) + utf8_width(s.last())
    }
}

/// Every scalar is a lowercase hexadecimal digit.
pub open spec fn all_lower_hex(s: Seq<char>) -> bool {
    forall|i: int| 0 <= i < s.len() ==> is_lower_hex(#[trigger] s[i])
}

/// Every scalar is an ASCII decimal digit.
pub open spec fn all_digits(s: Seq<char>) -> bool {
    forall|i: int| 0 <= i < s.len() ==> is_ascii_digit(#[trigger] s[i])
}

/// The sequence holds scalar `c`.
pub open spec fn has_char(s: Seq<char>, c: char) -> bool {
    exists|i: int| 0 <= i < s.len() && s[i] == c
}

/// Some scalar is a control character.
pub open spec fn has_control(s: Seq<char>) -> bool {
    exists|i: int| 0 <= i < s.len() && is_control(#[trigger] s[i])
}

/// `p` is a prefix of `s`.
pub open spec fn starts_with(s: Seq<char>, p: Seq<char>) -> bool {
    p.len() <= s.len() && s.take(p.len() as int) =~= p
}

/// `p` is a suffix of `s`.
pub open spec fn ends_with(s: Seq<char>, p: Seq<char>) -> bool {
    p.len() <= s.len() && s.skip(s.len() - p.len()) =~= p
}

/// `p` occurs in `s` at position `i`.
pub open spec fn occurs_at(s: Seq<char>, p: Seq<char>, i: int) -> bool {
    0 <= i && i + p.len() <= s.len() && s.subrange(i, i + p.len()) =~= p
}

/// `p` occurs somewhere in `s` (`str::contains`).
pub open spec fn contains(s: Seq<char>, p: Seq<char>) -> bool {
    exists|i: int| occurs_at(s, p, i)
}

/// Strict lexicographic order by Unicode scalar value, which is the order of
/// `str` (byte order of UTF-8 preserves scalar order).
pub open spec fn text_lt(a: Seq<char>, b: Seq<char>) -> bool
    decreases a.len(),
{
    if a.len() == 0 {
        b.len() > 0
    } else if b.len() == 0 {
        false
    } else if a[0] != b[0] {
        a[0] < b[0]
    } else {
        text_lt(a.drop_first(), b.drop_first())
    }
}

/// Consecutive elements are strictly increasing in [`text_lt`].
pub open spec fn strictly_increasing(values: Seq<Seq<char>>) -> bool {
    forall|i: int| 0 <= i < values.len() - 1 ==> text_lt(#[trigger] values[i], values[i + 1])
}

/// The first `n` scalars of `s` (`s.chars().take(n)`).
pub open spec fn take_scalars(s: Seq<char>, n: nat) -> Seq<char> {
    if n < s.len() {
        s.take(n as int)
    } else {
        s
    }
}

/// The scalars of a string, in order.
pub fn chars_of(s: &str) -> (r: Vec<char>)
    ensures
        r@ == s@,
{
    let mut out: Vec<char> = Vec::new();
    for c in it: s.chars()
        invariant
            out@ == it.seq().take(it.index() as int),
            it.seq() == s@,
    {
        out.push(c);
    }
    out
}

/// Appends one scalar (`String::push`).
#[verifier::external_body]
pub(crate) fn push_char(s: &mut String, c: char)
    ensures
        final(s)@ == old(s)@.push(c),
{
    s.push(c);
}

/// A string holding exactly the given scalars.
pub fn string_from_chars(cs: &[char]) -> (r: String)
    ensures
        r@ == cs@,
{
    let mut out = String::new();
    let mut i: usize = 0;
    while i < cs.len()
        invariant
            i <= cs.len(),
            out@ == cs@.take(i as int),
        decreases cs.len() - i,
    {
        push_char(&mut out, cs[i]);
        i += 1;
        assert(cs@.take(i as int) =~= cs@.take(i - 1).push(cs@[i - 1]));
    }
    assert(cs@.take(cs.len() as int) =~= cs@);
    out
}

/// Scalar-wise equality of two strings.
pub fn text_eq(a: &str, b: &str) -> (r: bool)
    ensures
        r == (a@ == b@),
{
    let x = chars_of(a);
    let y = chars_of(b);
    chars_eq(x.as_slice(), y.as_slice())
}

/// Equality of two scalar slices.
pub fn chars_eq(a: &[char], b: &[char]) -> (r: bool)
    ensures
        r == (a@ == b@),
{
    if a.len() != b.len() {
        return false;
    }
    let mut i: usize = 0;
    while i < a.len()
        invariant
            a.len() == b.len(),
            i <= a.len(),
            forall|j: int| 0 <= j < i ==> a@[j] == b@[j],
        decreases a.len() - i,
    {
        if a[i] != b[i] {
            return false;
        }
        i += 1;
    }
    assert(a@ =~= b@);
    true
}

/// Whether `c` is a control character.
pub fn char_is_control(c: char) -> (r: bool)
    ensures
        r == is_control(c),
{
    let v = c as u32;
    v <= 0x1f || (0x7f <= v && v <= 0x9f)
}

/// Whether `c` is a lowercase hexadecimal digit.
pub fn char_is_lower_hex(c: char) -> (r: bool)
    ensures
        r == is_lower_hex(c),
{
    ('0' <= c && c <= '9') || ('a' <= c && c <= 'f')
}

/// Byte width of one scalar in UTF-8.
pub fn char_utf8_width(c: char) -> (r: usize)
    ensures
        r == utf8_width(c),
        1 <= r <= 4,
{
    let v = c as u32;
    if v < 0x80 {
        1
    } else if v < 0x800 {
        2
    } else if v < 0x10000 {
        3
    } else {
        4
    }
}

/// Whether the UTF-8 encoding of `cs` takes at most `limit` bytes.
pub fn utf8_len_at_most(cs: &[char], limit: usize) -> (r: bool)
    ensures
        r == (utf8_len(cs@) <= limit),
{
    let mut total: usize = 0;
    let mut i: usize = 0;
    while i < cs.len()
        invariant
            i <= cs.len(),
            total == utf8_len(cs@.take(i as int)),
            total <= limit,
        decreases cs.len() - i,
    {
        let w = char_utf8_width(cs[i]);
        assert(cs@.take(i + 1).drop_last() =~= cs@.take(i as int));
        if w > limit - total {
            proof {
                lemma_utf8_len_prefix_monotone(cs@, i + 1, cs.len() as int);
                assert(cs@.take(cs.len() as int) =~= cs@);
            }
            return false;
        }
        total = total + w;
        i += 1;
    }
    assert(cs@.take(cs.len() as int) =~= cs@);
    true
}

/// A longer prefix never encodes to fewer bytes.
pub proof fn lemma_utf8_len_prefix_monotone(s: Seq<char>, i: int, j: int)
    requires
        0 <= i <= j <= s.len(),
    ensures
        utf8_len(s.take(i)) <= utf8_len(s.take(j)),
    decreases j - i,
{
    if i < j {
        lemma_utf8_len_prefix_monotone(s, i, j - 1);
        assert(s.take(j).drop_last() =~= s.take(j - 1));
    }
}

/// Whether every scalar is a lowercase hexadecimal digit.
pub fn chars_all_lower_hex(cs: &[char]) -> (r: bool)
    ensures
        r == all_lower_hex(cs@),
{
    let mut i: usize = 0;
    while i < cs.len()
        invariant
            i <= cs.len(),
            forall|j: int| 0 <= j < i ==> is_lower_hex(#[trigger] cs@[j]),
        decreases cs.len() - i,
    {
        if !char_is_lower_hex(cs[i]) {
            return false;
        }
        i += 1;
    }
    true
}

/// Whether every scalar is an ASCII digit.
pub fn chars_all_digits(cs: &[char]) -> (r: bool)
    ensures
        r == all_digits(cs@),
{
    let mut i: usize = 0;
    while i < cs.len()
        invariant
            i <= cs.len(),
            forall|j: int| 0 <= j < i ==> is_ascii_digit(#[trigger] cs@[j]),
        decreases cs.len() - i,
    {
        if !('0' <= cs[i] && cs[i] <= '9') {
            return false;
        }
        i += 1;
    }
    true
}

/// Whether `c` occurs in `cs`.
pub fn chars_has(cs: &[char], c: char) -> (r: bool)
    ensures
        r == has_char(cs@, c),
{
    let mut i: usize = 0;
    while i < cs.len()
        invariant
            i <= cs.len(),
            forall|j: int| 0 <= j < i ==> cs@[j] != c,
        decreases cs.len() - i,
    {
        if cs[i] == c {
            return true;
        }
        i += 1;
    }
    false
}

/// Whether some scalar is a control character.
pub fn chars_have_control(cs: &[char]) -> (r: bool)
    ensures
        r == has_control(cs@),
{
    let mut i: usize = 0;
    while i < cs.len()
        invariant
            i <= cs.len(),
            forall|j: int| 0 <= j < i ==> !is_control(#[trigger] cs@[j]),
        decreases cs.len() - i,
    {
        if char_is_control(cs[i]) {
            return true;
        }
        i += 1;
    }
    false
}

/// Whether `p` occurs at position `at` of `s`.
pub fn chars_occur_at(s: &[char], p: &[char], at: usize) -> (r: bool)
    ensures
        r == occurs_at(s@, p@, at as int),
{
    if at > s.len() || p.len() > s.len() - at {
        return false;
    }
    let mut k: usize = 0;
    while k < p.len()
        invariant
            at + p.len() <= s.len(),
            k <= p.len(),
            forall|j: int| 0 <= j < k ==> s@[at + j] == p@[j],
        decreases p.len() - k,
    {
        if s[at + k] != p[k] {
            assert(s@.subrange(at as int, at + p.len())[k as int] != p@[k as int]);
            return false;
        }
        k += 1;
    }
    assert(s@.subrange(at as int, at + p.len()) =~= p@);
    true
}

/// Whether `p` is a prefix of `s`.
pub fn chars_starts_with(s: &[char], p: &[char]) -> (r: bool)
    ensures
        r == starts_with(s@, p@),
{
    let r = chars_occur_at(s, p, 0);
    assert(s@.subrange(0, p@.len() as int) =~= s@.take(p@.len() as int));
    r
}

/// Whether `p` is a suffix of `s`.
pub fn chars_ends_with(s: &[char], p: &[char]) -> (r: bool)
    ensures
        r == ends_with(s@, p@),
{
    if p.len() > s.len() {
        return false;
    }
    let r = chars_occur_at(s, p, s.len() - p.len());
    assert(s@.subrange(s.len() - p.len(), s.len() as int) =~= s@.skip(s.len() - p.len()));
    r
}

/// Whether `p` occurs anywhere in `s`.
pub fn chars_contains(s: &[char], p: &[char]) -> (r: bool)
    ensures
        r == contains(s@, p@),
{
    if p.len() > s.len() {
        return false;
    }
    let mut i: usize = 0;
    while i <= s.len() - p.len()
        invariant
            p.len() <= s.len(),
            i <= s.len() - p.len() + 1,
            forall|j: int| 0 <= j < i ==> !occurs_at(s@, p@, j),
        decreases s.len() - p.len() + 1 - i,
    {
        if chars_occur_at(s, p, i) {
            return true;
        }
        i += 1;
    }
    assert forall|j: int| !occurs_at(s@, p@, j) by {
        if 0 <= j && j + p@.len() <= s@.len() {
            assert(j < i);
        }
    }
    false
}

/// Whether `text` contains the scalars of `pattern`.
pub fn text_contains(text: &str, pattern: &str) -> (r: bool)
    ensures
        r == contains(text@, pattern@),
{
    let t = chars_of(text);
    let p = chars_of(pattern);
    chars_contains(t.as_slice(), p.as_slice())
}

/// Whether `text` starts with the scalars of `pattern`.
pub fn text_starts_with(text: &str, pattern: &str) -> (r: bool)
    ensures
        r == starts_with(text@, pattern@),
{
    let t = chars_of(text);
    let p = chars_of(pattern);
    chars_starts_with(t.as_slice(), p.as_slice())
}

/// Strict lexicographic comparison of two scalar slices.
pub fn chars_lt(a: &[char], b: &[char]) -> (r: bool)
    ensures
        r == text_lt(a@, b@),
{
    let mut i: usize = 0;
    assert(a@.skip(0) =~= a@);
    assert(b@.skip(0) =~= b@);
    while i < a.len() && i < b.len()
        invariant
            i <= a.len(),
            i <= b.len(),
            a@.take(i as int) == b@.take(i as int),
            text_lt(a@, b@) == text_lt(a@.skip(i as int), b@.skip(i as int)),
        decreases a.len() - i,
    {
        assert(a@.skip(i as int)[0] == a@[i as int]);
        assert(b@.skip(i as int)[0] == b@[i as int]);
        if a[i] != b[i] {
            return a[i] < b[i];
        }
        assert(a@.skip(i as int).drop_first() =~= a@.skip(i + 1));
        assert(b@.skip(i as int).drop_first() =~= b@.skip(i + 1));
        assert(a@.take(i + 1) =~= a@.take(i as int).push(a@[i as int]));
        assert(b@.take(i + 1) =~= b@.take(i as int).push(b@[i as int]));
        i += 1;
    }
    i < b.len()
}

/// Strict lexicographic comparison of two strings.
pub fn text_less(a: &str, b: &str) -> (r: bool)
    ensures
        r == text_lt(a@, b@),
{
    let x = chars_of(a);
    let y = chars_of(b);
    chars_lt(x.as_slice(), y.as_slice())
}

/// The first `maximum` scalars of `value` (`value.chars().take(maximum)`).
pub fn bounded_text(value: &str, maximum: usize) -> (r: String)
    ensures
        r@ == take_scalars(value@, maximum as nat),
{
    let cs = chars_of(value);
    if maximum < cs.len() {
        let mut out: Vec<char> = Vec::new();
        let mut i: usize = 0;
        while i < maximum
            invariant
                maximum < cs.len(),
                i <= maximum,
                out@ == cs@.take(i as int),
            decreases maximum - i,
        {
            out.push(cs[i]);
            i += 1;
            assert(out@ =~= cs@.take(i as int));
        }
        string_from_chars(out.as_slice())
    } else {
        string_from_chars(cs.as_slice())
    }
}

/// `n` copies of `c`.
pub open spec fn repeat_char(c: char, n: nat) -> Seq<char> {
    Seq::new(n, |_i: int| c)
}

/// A string of `n` copies of `c` (`c.to_string().repeat(n)`).
pub fn repeated(c: char, n: usize) -> (r: String)
    ensures
        r@ == repeat_char(c, n as nat),
{
    let mut out = String::new();
    let mut i: usize = 0;
    while i < n
        invariant
            i <= n,
            out@ == repeat_char(c, i as nat),
        decreases n - i,
    {
        push_char(&mut out, c);
        i += 1;
        assert(out@ =~= repeat_char(c, i as nat));
    }
    out
}

/// Strings are strictly increasing in lexicographic order.
pub fn strings_strictly_increasing(values: &[String]) -> (r: bool)
    ensures
        r == strictly_increasing(values@.map_values(|v: String| v@)),
{
    let ghost vs = values@.map_values(|v: String| v@);
    if values.len() == 0 {
        return true;
    }
    let mut i: usize = 0;
    while i + 1 < values.len()
        invariant
            values.len() > 0,
            i < values.len(),
            vs == values@.map_values(|v: String| v@),
            forall|j: int| 0 <= j < i ==> text_lt(#[trigger] vs[j], vs[j + 1]),
        decreases values.len() - i,
    {
        if !text_less(values[i].as_str(), values[i + 1].as_str()) {
            assert(vs[i as int] == values@[i as int]@);
            return false;
        }
        i += 1;
    }
    true
}

/// Texts are strictly increasing in lexicographic order.
pub fn texts_strictly_increasing(values: &[&str]) -> (r: bool)
    ensures
        r == strictly_increasing(patterns_view(values@)),
{
    let ghost vs = patterns_view(values@);
    if values.len() == 0 {
        return true;
    }
    let mut i: usize = 0;
    while i + 1 < values.len()
        invariant
            values.len() > 0,
            i < values.len(),
            vs == patterns_view(values@),
            forall|j: int| 0 <= j < i ==> text_lt(#[trigger] vs[j], vs[j + 1]),
        decreases values.len() - i,
    {
        if !text_less(values[i], values[i + 1]) {
            assert(vs[i as int] == values@[i as int]@);
            return false;
        }
        i += 1;
    }
    true
}

/// The component `..`.
pub open spec fn dot_dot() -> Seq<char> {
    seq!['.', '.']
}

/// The component `.`.
pub open spec fn dot() -> Seq<char> {
    seq!['.']
}

/// Rule for one `/`-separated component: non-empty, at most `max_bytes`
/// UTF-8 bytes, never `..`, and `.` only where it is neither the first
/// component nor `reject_every_dot` holds.
pub open spec fn component_ok(c: Seq<char>, first: bool, max_bytes: nat, reject_every_dot: bool) -> bool {
    &&& c.len() > 0
    &&& utf8_len(c) <= max_bytes
    &&& c != dot_dot()
    &&& (first || reject_every_dot) ==> c != dot()
}

/// Every component of `rest`, where `current` is the part of the current
/// component already read, satisfies [`component_ok`]: the components of a
/// path are the pieces of `s.split('/')`, read left to right.
pub open spec fn components_ok_from(
    rest: Seq<char>,
    current: Seq<char>,
    first: bool,
    max_bytes: nat,
    reject_every_dot: bool,
) -> bool
    decreases rest.len(),
{
    if rest.len() == 0 {
        component_ok(current, first, max_bytes, reject_every_dot)
    } else if rest[0] == '/' {
        component_ok(current, first, max_bytes, reject_every_dot) && components_ok_from(
            rest.drop_first(),
            Seq::empty(),
            false,
            max_bytes,
            reject_every_dot,
        )
    } else {
        components_ok_from(rest.drop_first(), current.push(rest[0]), first, max_bytes, reject_every_dot)
    }
}

/// Every component of `s.split('/')` satisfies [`component_ok`].
pub open spec fn components_ok(s: Seq<char>, max_bytes: nat, reject_every_dot: bool) -> bool {
    components_ok_from(s, Seq::empty(), true, max_bytes, reject_every_dot)
}

fn component_ok_exec(cs: &[char], start: usize, end: usize, first: bool, max_bytes: usize, reject_every_dot: bool) -> (r: bool)
    requires
        start <= end <= cs.len(),
    ensures
        r == component_ok(cs@.subrange(start as int, end as int), first, max_bytes as nat, reject_every_dot),
{
    let ghost c = cs@.subrange(start as int, end as int);
    if start == end {
        return false;
    }
    let mut part: Vec<char> = Vec::new();
    let mut i = start;
    while i < end
        invariant
            start <= i <= end <= cs.len(),
            part@ == cs@.subrange(start as int, i as int),
        decreases end - i,
    {
        part.push(cs[i]);
        i += 1;
        assert(part@ =~= cs@.subrange(start as int, i as int));
    }
    assert(part@ == c);
    if !utf8_len_at_most(part.as_slice(), max_bytes) {
        return false;
    }
    let is_dot_dot = part.len() == 2 && part[0] == '.' && part[1] == '.';
    let is_dot = part.len() == 1 && part[0] == '.';
    assert(is_dot_dot == (c =~= dot_dot()));
    assert(is_dot == (c =~= dot()));
    if is_dot_dot {
        return false;
    }
    if (first || reject_every_dot) && is_dot {
        return false;
    }
    true
}

/// Whether every `/`-separated component of `cs` satisfies [`component_ok`].
pub fn chars_components_ok(cs: &[char], max_bytes: usize, reject_every_dot: bool) -> (r: bool)
    ensures
        r == components_ok(cs@, max_bytes as nat, reject_every_dot),
{
    let mut start: usize = 0;
    let mut first = true;
    let mut i: usize = 0;
    assert(cs@.skip(0) =~= cs@);
    assert(cs@.subrange(0, 0) =~= Seq::<char>::empty());
    while i < cs.len()
        invariant
            start <= i <= cs.len(),
            components_ok(cs@, max_bytes as nat, reject_every_dot) == components_ok_from(
                cs@.skip(i as int),
                cs@.subrange(start as int, i as int),
                first,
                max_bytes as nat,
                reject_every_dot,
            ),
        decreases cs.len() - i,
    {
        assert(cs@.skip(i as int)[0] == cs@[i as int]);
        assert(cs@.skip(i as int).drop_first() =~= cs@.skip(i + 1));
        if cs[i] == '/' {
            if !component_ok_exec(cs, start, i, first, max_bytes, reject_every_dot) {
                return false;
            }
            first = false;
            start = i + 1;
            i += 1;
            assert(cs@.subrange(start as int, i as int) =~= Seq::<char>::empty());
        } else {
            assert(cs@.subrange(start as int, i as int).push(cs@[i as int]) =~= cs@.subrange(start as int, i + 1));
            i += 1;
        }
    }
    component_ok_exec(cs, start, cs.len(), first, max_bytes, reject_every_dot)
}

/// `safe_relative_path` of the portable-graph profiles: a non-empty relative
/// path of at most 1024 UTF-8 bytes, not absolute, without `\` or control
/// characters, whose `/`-separated components are non-empty, at most 255
/// bytes each, never `..`, and not `.` at the start (an inner `.` is
/// normalised away as `Path::components` does).
pub open spec fn safe_relative_path_rule(s: Seq<char>) -> bool {
    &&& s.len() > 0
    &&& utf8_len(s) <= 1024
    &&& s[0] != '/'
    &&& !has_char(s, '\\')
    &&& !has_control(s)
    &&& components_ok(s, 255, false)
}

/// Evaluates [`safe_relative_path_rule`].
pub fn safe_relative_path_text(value: &str) -> (r: bool)
    ensures
        r == safe_relative_path_rule(value@),
{
    let cs = chars_of(value);
    cs.len() > 0 && utf8_len_at_most(cs.as_slice(), 1024) && cs[0] != '/' && !chars_has(
        cs.as_slice(),
        '\\',
    ) && !chars_have_control(cs.as_slice()) && chars_components_ok(cs.as_slice(), 255, false)
}

/// ASCII lowercase of one scalar (`char::to_ascii_lowercase`).
pub open spec fn ascii_lower(c: char) -> char {
    if 'A' <= c && c <= 'Z' {
        ((c as u32) + 32) as char
    } else {
        c
    }
}

/// ASCII lowercase of a text (`str::to_ascii_lowercase`).
pub open spec fn ascii_lower_text(s: Seq<char>) -> Seq<char> {
    s.map_values(|c: char| ascii_lower(c))
}

/// Number of non-overlapping occurrences of a non-empty `p` in `s`, found
/// left to right (`str::match_indices(p).count()`).
pub open spec fn count_matches(s: Seq<char>, p: Seq<char>) -> nat
    decreases s.len(),
{
    if p.len() == 0 || s.len() < p.len() {
        0
    } else if s.take(p.len() as int) =~= p {
        1 + count_matches(s.skip(p.len() as int), p)
    } else {
        count_matches(s.drop_first(), p)
    }
}

/// The ASCII lowercase of a text.
pub fn lower_ascii(cs: &[char]) -> (r: Vec<char>)
    ensures
        r@ == ascii_lower_text(cs@),
{
    let mut out: Vec<char> = Vec::new();
    let mut i: usize = 0;
    while i < cs.len()
        invariant
            i <= cs.len(),
            out@ == ascii_lower_text(cs@.take(i as int)),
        decreases cs.len() - i,
    {
        let c = cs[i];
        let l = if 'A' <= c && c <= 'Z' {
            ((c as u8) + 32) as char
        } else {
            c
        };
        out.push(l);
        i += 1;
        assert(out@ =~= ascii_lower_text(cs@.take(i as int)));
    }
    assert(cs@.take(cs.len() as int) =~= cs@);
    out
}

/// Counts the non-overlapping occurrences of `p` in `s` ([`count_matches`]).
pub fn chars_count_matches(s: &[char], p: &[char]) -> (r: usize)
    ensures
        r == count_matches(s@, p@),
{
    if p.len() == 0 {
        return 0;
    }
    let mut count: usize = 0;
    let mut i: usize = 0;
    assert(s@.skip(0) =~= s@);
    while p.len() <= s.len() - i
        invariant
            p.len() > 0,
            i <= s.len(),
            count <= i,
            count_matches(s@, p@) == count + count_matches(s@.skip(i as int), p@),
        decreases s.len() - i,
    {
        let here = chars_occur_at(s, p, i);
        assert(s@.subrange(i as int, i + p.len()) =~= s@.skip(i as int).take(p.len() as int));
        if here {
            assert(s@.skip(i as int).skip(p.len() as int) =~= s@.skip(i + p.len()));
            count += 1;
            i += p.len();
        } else {
            assert(s@.skip(i as int).drop_first() =~= s@.skip(i + 1));
            i += 1;
        }
    }
    count
}

/// `str::from_utf8(bytes)`: the text whose UTF-8 encoding is `bytes`, when
/// `bytes` is well-formed UTF-8.
#[verifier::external_body]
pub fn utf8_text(bytes: &[u8]) -> (r: Option<&str>)
    ensures
        r is Some <==> vstd::utf8::valid_utf8(bytes@),
        r matches Some(t) ==> t@ == vstd::utf8::decode_utf8(bytes@) && t.spec_bytes() == bytes@,
{
    std::str::from_utf8(bytes).ok()
}

/// `s.strip_prefix(p)`: the rest of `s` after the prefix `p`.
pub fn strip_prefix_chars(s: &[char], p: &[char]) -> (r: Option<Vec<char>>)
    ensures
        r is Some <==> starts_with(s@, p@),
        r matches Some(rest) ==> rest@ == s@.skip(p@.len() as int),
{
    if !chars_starts_with(s, p) {
        return None;
    }
    let mut out: Vec<char> = Vec::new();
    let mut i = p.len();
    while i < s.len()
        invariant
            p.len() <= i <= s.len(),
            out@ == s@.subrange(p.len() as int, i as int),
        decreases s.len() - i,
    {
        out.push(s[i]);
        i += 1;
        assert(out@ =~= s@.subrange(p.len() as int, i as int));
    }
    assert(out@ =~= s@.skip(p@.len() as int));
    Some(out)
}

/// `s.strip_prefix(p)` on strings.
pub fn strip_prefix_text(s: &str, p: &str) -> (r: Option<Vec<char>>)
    ensures
        r is Some <==> starts_with(s@, p@),
        r matches Some(rest) ==> rest@ == s@.skip(p@.len() as int),
{
    let a = chars_of(s);
    let b = chars_of(p);
    strip_prefix_chars(a.as_slice(), b.as_slice())
}

/// A lowercase hexadecimal digest of `n` scalars.
pub open spec fn lower_hex_digest(s: Seq<char>, n: nat) -> bool {
    s.len() == n && all_lower_hex(s)
}

/// Whether `cs` is a lowercase hexadecimal digest of `n` scalars.
pub fn chars_lower_hex_digest(cs: &[char], n: usize) -> (r: bool)
    ensures
        r == lower_hex_digest(cs@, n as nat),
{
    cs.len() == n && chars_all_lower_hex(cs)
}

/// The repository-path rule of trusted source retrieval: non-empty, at most
/// 1024 UTF-8 bytes, not absolute, without `\` or control characters, and
/// every `/`-separated component non-empty and neither `.` nor `..`.
pub open spec fn repository_path_rule(s: Seq<char>) -> bool {
    &&& s.len() > 0
    &&& utf8_len(s) <= 1024
    &&& s[0] != '/'
    &&& !has_char(s, '\\')
    &&& !has_control(s)
    &&& components_ok(s, 1024, true)
}

/// Evaluates [`repository_path_rule`].
pub fn repository_path_text(value: &str) -> (r: bool)
    ensures
        r == repository_path_rule(value@),
{
    let cs = chars_of(value);
    cs.len() > 0 && utf8_len_at_most(cs.as_slice(), 1024) && cs[0] != '/' && !chars_has(
        cs.as_slice(),
        '\\',
    ) && !chars_have_control(cs.as_slice()) && chars_components_ok(cs.as_slice(), 1024, true)
}

/// Equality of two byte slices.
pub fn bytes_eq(a: &[u8], b: &[u8]) -> (r: bool)
    ensures
        r == (a@ == b@),
{
    if a.len() != b.len() {
        return false;
    }
    let mut i: usize = 0;
    while i < a.len()
        invariant
            a.len() == b.len(),
            i <= a.len(),
            forall|j: int| 0 <= j < i ==> a@[j] == b@[j],
        decreases a.len() - i,
    {
        if a[i] != b[i] {
            return false;
        }
        i += 1;
    }
    assert(a@ =~= b@);
    true
}

/// None of `forbidden` occurs in `t`.
pub open spec fn contains_none(t: Seq<char>, forbidden: Seq<Seq<char>>) -> bool {
    forall|k: int| 0 <= k < forbidden.len() ==> !contains(t, #[trigger] forbidden[k])
}

/// The views of a list of patterns.
pub open spec fn patterns_view(list: Seq<&str>) -> Seq<Seq<char>> {
    list.map_values(|p: &str| p@)
}

/// Whether none of `forbidden` occurs in `t` ([`contains_none`]).
pub fn chars_contain_none(t: &[char], forbidden: &[&str]) -> (r: bool)
    ensures
        r == contains_none(t@, patterns_view(forbidden@)),
{
    let mut k: usize = 0;
    while k < forbidden.len()
        invariant
            k <= forbidden.len(),
            forall|m: int| 0 <= m < k ==> !contains(t@, #[trigger] patterns_view(forbidden@)[m]),
        decreases forbidden.len() - k,
    {
        let p = chars_of(forbidden[k]);
        assert(patterns_view(forbidden@)[k as int] == p@);
        if chars_contains(t, p.as_slice()) {
            return false;
        }
        k += 1;
    }
    true
}

/// The ASCII-lowercased text of UTF-8 bytes, when they are UTF-8.
pub open spec fn lowered_text(b: Seq<u8>) -> Seq<char> {
    ascii_lower_text(vstd::utf8::decode_utf8(b))
}

/// The bytes are UTF-8 and their lowercased text holds as many `</script>`
/// closings as `<script` openings, and at least one.
pub open spec fn balanced_scripts_rule(b: Seq<u8>) -> bool {
    vstd::utf8::valid_utf8(b) && count_matches(lowered_text(b), "<script"@) > 0 && count_matches(
        lowered_text(b),
        "<script"@,
    ) == count_matches(lowered_text(b), "</script>"@)
}

/// The lowercased scalars of UTF-8 bytes.
pub fn lowered_chars(bytes: &[u8]) -> (r: Option<Vec<char>>)
    ensures
        r is Some <==> vstd::utf8::valid_utf8(bytes@),
        r matches Some(t) ==> t@ == lowered_text(bytes@),
{
    match utf8_text(bytes) {
        Some(text) => {
            let cs = chars_of(text);
            Some(lower_ascii(cs.as_slice()))
        },
        None => None,
    }
}

/// Number of non-overlapping occurrences of `pattern` in `t`.
pub fn count_text(t: &[char], pattern: &str) -> (r: usize)
    ensures
        r == count_matches(t@, pattern@),
{
    let p = chars_of(pattern);
    chars_count_matches(t, p.as_slice())
}

/// Evaluates [`balanced_scripts_rule`].
pub fn balanced_scripts(bytes: &[u8]) -> (r: bool)
    ensures
        r == balanced_scripts_rule(bytes@),
{
    match lowered_chars(bytes) {
        Some(t) => {
            let openings = count_text(t.as_slice(), "<script");
            openings > 0 && openings == count_text(t.as_slice(), "</script>")
        },
        None => false,
    }
}

/// `value` is one of `options`.
pub open spec fn one_of(value: Seq<char>, options: Seq<Seq<char>>) -> bool {
    exists|k: int| 0 <= k < options.len() && options[k] == value
}

/// Whether `value` is one of `options` ([`one_of`]).
pub fn text_one_of(value: &str, options: &[&str]) -> (r: bool)
    ensures
        r == one_of(value@, patterns_view(options@)),
{
    let mut k: usize = 0;
    while k < options.len()
        invariant
            k <= options.len(),
            forall|m: int| 0 <= m < k ==> patterns_view(options@)[m] != value@,
        decreases options.len() - k,
    {
        if text_eq(options[k], value) {
            assert(patterns_view(options@)[k as int] == value@);
            return true;
        }
        k += 1;
    }
    false
}

/// `char::is_whitespace`: the scalars of the Unicode `White_Space` property.
pub open spec fn is_white_space(c: char) -> bool {
    ||| ('\t' <= c && c <= '\r')
    ||| c == ' '
    ||| c == '\u{85}'
    ||| c == '\u{a0}'
    ||| c == '\u{1680}'
    ||| ('\u{2000}' <= c && c <= '\u{200a}')
    ||| c == '\u{2028}'
    ||| c == '\u{2029}'
    ||| c == '\u{202f}'
    ||| c == '\u{205f}'
    ||| c == '\u{3000}'
}

/// Whether `c` is Unicode whitespace ([`is_white_space`]).
pub fn char_is_white_space(c: char) -> (r: bool)
    ensures
        r == is_white_space(c),
{
    ('\t' <= c && c <= '\r') || c == ' ' || c == '\u{85}' || c == '\u{a0}' || c == '\u{1680}' || (
    '\u{2000}' <= c && c <= '\u{200a}') || c == '\u{2028}' || c == '\u{2029}' || c == '\u{202f}'
        || c == '\u{205f}' || c == '\u{3000}'
}

/// Every scalar is whitespace: what `trim()` leaves empty.
pub open spec fn blank(s: Seq<char>) -> bool {
    forall|i: int| 0 <= i < s.len() ==> is_white_space(#[trigger] s[i])
}

/// Whether `value.trim().is_empty()` ([`blank`]).
pub fn text_is_blank(value: &str) -> (r: bool)
    ensures
        r == blank(value@),
{
    let cs = chars_of(value);
    let mut i: usize = 0;
    while i < cs.len()
        invariant
            i <= cs.len(),
            cs@ == value@,
            forall|k: int| 0 <= k < i ==> is_white_space(#[trigger] cs@[k]),
        decreases cs.len() - i,
    {
        if !char_is_white_space(cs[i]) {
            return false;
        }
        i += 1;
    }
    true
}

/// The words of `s` (maximal runs without whitespace) joined by single
/// spaces, given whether a word was already written (`started`) and whether
/// whitespace followed it (`gap`).
pub open spec fn collapse(s: Seq<char>, started: bool, gap: bool) -> Seq<char>
    decreases s.len(),
{
    if s.len() == 0 {
        Seq::empty()
    } else if is_white_space(s[0]) {
        collapse(s.drop_first(), started, started)
    } else {
        (if gap {
            seq![' ']
        } else {
            Seq::empty()
        }) + seq![s[0]] + collapse(s.drop_first(), true, false)
    }
}

/// `split_whitespace().collect::<Vec<_>>().join(" ")`.
pub open spec fn normalized(s: Seq<char>) -> Seq<char> {
    collapse(s, false, false)
}

/// The words of `value` joined by single spaces ([`normalized`]).
pub fn normalize_whitespace(value: &str) -> (r: String)
    ensures
        r@ == normalized(value@),
{
    let cs = chars_of(value);
    let mut out = String::new();
    let mut started = false;
    let mut gap = false;
    let mut i: usize = 0;
    assert(cs@.skip(0) =~= cs@);
    while i < cs.len()
        invariant
            i <= cs.len(),
            cs@ == value@,
            out@ + collapse(cs@.skip(i as int), started, gap) == normalized(value@),
        decreases cs.len() - i,
    {
        let ghost rest = cs@.skip(i as int);
        assert(rest[0] == cs@[i as int]);
        assert(rest.drop_first() =~= cs@.skip(i + 1));
        let c = cs[i];
        if char_is_white_space(c) {
            gap = started;
        } else {
            let ghost before = out@;
            if gap {
                push_char(&mut out, ' ');
            }
            push_char(&mut out, c);
            proof {
                let tail = collapse(cs@.skip(i + 1), true, false);
                let lead: Seq<char> = if gap {
                    seq![' ']
                } else {
                    Seq::empty()
                };
                assert(out@ =~= before + lead + seq![c]);
                assert(before + (lead + seq![c] + tail) =~= out@ + tail);
            }
            started = true;
            gap = false;
        }
        i += 1;
    }
    proof {
        assert(cs@.skip(i as int) =~= Seq::<char>::empty());
        assert(out@ + Seq::<char>::empty() =~= out@);
    }
    out
}

} // verus!
