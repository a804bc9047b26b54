//! Character-level string helpers shared by the rest of the library.
//!
//! Every helper works on the `Seq<char>` view of a string, so contracts
//! elsewhere can talk about trimming, case folding and joining directly.

use vstd::prelude::*;

verus! {

/// Appends one character to a string (`String::push`).
#[verifier::external_body]
pub(crate) fn push_char(s: &mut String, c: char)
    ensures
        final(s)@ == old(s)@.push(c),
{
    s.push(c);
}

/// The characters of an optional string.
pub open spec fn opt_view(o: Option<String>) -> Option<Seq<char>> {
    match o {
        Some(s) => Some(s@),
        None => None,
    }
}

/// The characters of an optional string slice.
pub open spec fn opt_str_view(o: Option<&str>) -> Option<Seq<char>> {
    match o {
        Some(s) => Some(s@),
        None => None,
    }
}

/// The characters of each string.
pub open spec fn strings_view(v: Seq<String>) -> Seq<Seq<char>> {
    v.map_values(|s: String| s@)
}

/// The characters of `s`, in order.
pub fn chars_of(s: &str) -> (v: Vec<char>)
    ensures
        v@ == s@,
{
    let n = s.unicode_len();
    let mut v: Vec<char> = Vec::new();
    for c in it: s.chars()
        invariant
            n == s@.len(),
            it.seq() == s@,
            v@ == s@.take(it.index() as int),
    {
        v.push(c);
    }
    assert(v@ =~= s@);
    v
}

/// Builds a string from a slice of characters.
pub fn from_chars(v: &[char]) -> (s: String)
    ensures
        s@ == v@,
{
    let mut s = String::new();
    let mut i: usize = 0;
    while i < v.len()
        invariant
            i <= v.len(),
            s@ == v@.take(i as int),
        decreases v.len() - i,
    {
        push_char(&mut s, v[i]);
        i = i + 1;
        assert(s@ =~= v@.take(i as int));
    }
    assert(v@.take(v.len() as int) =~= v@);
    s
}

/// Unicode `White_Space`, the set `char::is_whitespace` and `str::trim` use.
pub open spec fn is_whitespace(c: char) -> bool {
    ||| ('\t' <= c && c <= '\r')
    ||| c == ' '
    ||| c == '\u{85}'
    ||| c == '\u{A0}'
    ||| c == '\u{1680}'
    ||| ('\u{2000}' <= c && c <= '\u{200A}')
    ||| c == '\u{2028}'
    ||| c == '\u{2029}'
    ||| c == '\u{202F}'
    ||| c == '\u{205F}'
    ||| c == '\u{3000}'
}

pub fn char_is_whitespace(c: char) -> (b: bool)
    ensures
        b == is_whitespace(c),
{
    ('\t' <= c && c <= '\r') || c == ' ' || c == '\u{85}' || c == '\u{A0}' || c == '\u{1680}'
        || ('\u{2000}' <= c && c <= '\u{200A}') || c == '\u{2028}' || c == '\u{2029}'
        || c == '\u{202F}' || c == '\u{205F}' || c == '\u{3000}'
}

/// `s` with its leading trimmable characters removed.
pub open spec fn trim_start_by(s: Seq<char>, dash: bool) -> Seq<char>
    decreases s.len(),
{
    if s.len() > 0 && trimmable(s[0], dash) {
        trim_start_by(s.drop_first(), dash)
    } else {
        s
    }
}

/// `s` with its trailing trimmable characters removed.
pub open spec fn trim_end_by(s: Seq<char>, dash: bool) -> Seq<char>
    decreases s.len(),
{
    if s.len() > 0 && trimmable(s.last(), dash) {
        trim_end_by(s.drop_last(), dash)
    } else {
        s
    }
}

/// What a trim removes: whitespace, or `-` when trimming separators.
pub open spec fn trimmable(c: char, dash: bool) -> bool {
    if dash {
        c == '-'
    } else {
        is_whitespace(c)
    }
}

proof fn lemma_trim_start_shape(s: Seq<char>, dash: bool)
    ensures
        trim_start_by(s, dash).len() <= s.len(),
        trim_start_by(s, dash) == s.subrange(
            s.len() - trim_start_by(s, dash).len(),
            s.len() as int,
        ),
        trim_start_by(s, dash).len() == 0 || !trimmable(trim_start_by(s, dash)[0], dash),
    decreases s.len(),
{
    if s.len() > 0 && trimmable(s[0], dash) {
        lemma_trim_start_shape(s.drop_first(), dash);
        let r = trim_start_by(s.drop_first(), dash);
        assert(s.drop_first().subrange(s.len() - 1 - r.len(), s.len() - 1) =~= s.subrange(
            s.len() - r.len(),
            s.len() as int,
        ));
    } else {
        assert(s.subrange(0, s.len() as int) =~= s);
    }
}

proof fn lemma_trim_end_shape(s: Seq<char>, dash: bool)
    ensures
        trim_end_by(s, dash).len() <= s.len(),
        trim_end_by(s, dash) == s.subrange(0, trim_end_by(s, dash).len() as int),
        trim_end_by(s, dash).len() == 0 || !trimmable(trim_end_by(s, dash).last(), dash),
    decreases s.len(),
{
    if s.len() > 0 && trimmable(s.last(), dash) {
        lemma_trim_end_shape(s.drop_last(), dash);
        let r = trim_end_by(s.drop_last(), dash);
        assert(s.drop_last().subrange(0, r.len() as int) =~= s.subrange(0, r.len() as int));
    } else {
        assert(s.subrange(0, s.len() as int) =~= s);
    }
}

/// A string that starts and ends with something untrimmable is its own trim.
pub proof fn lemma_trim_fixed(s: Seq<char>, dash: bool)
    requires
        s.len() == 0 || (!trimmable(s[0], dash) && !trimmable(s.last(), dash)),
    ensures
        trim_end_by(trim_start_by(s, dash), dash) == s,
{
    if s.len() > 0 {
        assert(trim_start_by(s, dash) == s);
        assert(trim_end_by(s, dash) == s);
    }
}

/// A trim is a contiguous piece of its input that neither starts nor ends
/// with a trimmable character.
pub proof fn lemma_trim_shape(s: Seq<char>, dash: bool) -> (off: int)
    ensures
        ({
            let t = trim_end_by(trim_start_by(s, dash), dash);
            &&& 0 <= off && off + t.len() <= s.len()
            &&& t == s.subrange(off, off + t.len())
            &&& t.len() > 0 ==> !trimmable(t[0], dash) && !trimmable(t.last(), dash)
        }),
{
    let a = trim_start_by(s, dash);
    let t = trim_end_by(a, dash);
    lemma_trim_start_shape(s, dash);
    lemma_trim_end_shape(a, dash);
    let off = s.len() - a.len();
    assert(t == s.subrange(off, off + t.len()));
    if t.len() > 0 {
        assert(t[0] == a[0]);
    }
    off
}

/// Trimming twice is trimming once.
pub proof fn lemma_trim_idempotent(s: Seq<char>, dash: bool)
    ensures
        trim_end_by(trim_start_by(trim_end_by(trim_start_by(s, dash), dash), dash), dash)
            == trim_end_by(trim_start_by(s, dash), dash),
{
    let a = trim_start_by(s, dash);
    let t = trim_end_by(a, dash);
    lemma_trim_start_shape(s, dash);
    lemma_trim_end_shape(a, dash);
    if t.len() > 0 {
        assert(t[0] == a[0]);
    }
    lemma_trim_fixed(t, dash);
}

/// `str::trim`: leading and trailing whitespace removed.
pub open spec fn trimmed(s: Seq<char>) -> Seq<char> {
    trim_end_by(trim_start_by(s, false), false)
}

fn is_trimmable(c: char, dash: bool) -> (b: bool)
    ensures
        b == trimmable(c, dash),
{
    if dash {
        c == '-'
    } else {
        char_is_whitespace(c)
    }
}

proof fn lemma_trim_start_step(s: Seq<char>, i: int, dash: bool)
    requires
        0 <= i < s.len(),
        trimmable(s[i], dash),
    ensures
        trim_start_by(s.subrange(i, s.len() as int), dash) == trim_start_by(
            s.subrange(i + 1, s.len() as int),
            dash,
        ),
{
    assert(s.subrange(i, s.len() as int).drop_first() =~= s.subrange(i + 1, s.len() as int));
}

proof fn lemma_trim_end_step(s: Seq<char>, i: int, j: int, dash: bool)
    requires
        0 <= i < j <= s.len(),
        trimmable(s[j - 1], dash),
    ensures
        trim_end_by(s.subrange(i, j), dash) == trim_end_by(s.subrange(i, j - 1), dash),
{
    assert(s.subrange(i, j).drop_last() =~= s.subrange(i, j - 1));
}

/// Trims whitespace (or `-` when `dash`) from both ends of `v`.
pub fn trim_chars(v: &Vec<char>, dash: bool) -> (r: Vec<char>)
    ensures
        r@ == trim_end_by(trim_start_by(v@, dash), dash),
{
    let n = v.len();
    let mut i: usize = 0;
    assert(v@.subrange(0, n as int) =~= v@);
    while i < n && is_trimmable(v[i], dash)
        invariant
            n == v@.len(),
            i <= n,
            trim_start_by(v@, dash) == trim_start_by(v@.subrange(i as int, n as int), dash),
        decreases n - i,
    {
        proof {
            lemma_trim_start_step(v@, i as int, dash);
        }
        i = i + 1;
    }
    assert(trim_start_by(v@, dash) == v@.subrange(i as int, n as int));
    let mut j: usize = n;
    while j > i && is_trimmable(v[j - 1], dash)
        invariant
            n == v@.len(),
            i <= j <= n,
            trim_start_by(v@, dash) == v@.subrange(i as int, n as int),
            trim_end_by(trim_start_by(v@, dash), dash) == trim_end_by(
                v@.subrange(i as int, j as int),
                dash,
            ),
        decreases j - i,
    {
        proof {
            lemma_trim_end_step(v@, i as int, j as int, dash);
        }
        j = j - 1;
    }
    let mut r: Vec<char> = Vec::new();
    let mut k: usize = i;
    while k < j
        invariant
            n == v@.len(),
            i <= k <= j <= n,
            r@ == v@.subrange(i as int, k as int),
        decreases j - k,
    {
        r.push(v[k]);
        k = k + 1;
        assert(r@ =~= v@.subrange(i as int, k as int));
    }
    r
}

/// `s.trim().to_string()`.
pub fn trim(s: &str) -> (r: String)
    ensures
        r@ == trimmed(s@),
{
    let v = chars_of(s);
    let t = trim_chars(&v, false);
    from_chars(t.as_slice())
}

/// Whether two strings hold the same characters.
pub fn same(a: &str, b: &str) -> (r: bool)
    ensures
        r == (a@ == b@),
{
    let x = chars_of(a);
    let y = chars_of(b);
    if x.len() != y.len() {
        return false;
    }
    let mut i: usize = 0;
    while i < x.len()
        invariant
            x@ == a@,
            y@ == b@,
            x.len() == y.len(),
            i <= x.len(),
            forall|k: int| 0 <= k < i ==> x@[k] == y@[k],
        decreases x.len() - i,
    {
        if x[i] != y[i] {
            return false;
        }
        i = i + 1;
    }
    assert(x@ =~= y@);
    true
}

/// The code of `c` with ASCII upper case folded to lower case.
pub open spec fn ascii_fold(c: char) -> u32 {
    if 'A' <= c && c <= 'Z' {
        (c as u32 + 32) as u32
    } else {
        c as u32
    }
}

/// `str::eq_ignore_ascii_case`.
pub open spec fn eq_ignore_ascii_case(a: Seq<char>, b: Seq<char>) -> bool {
    &&& a.len() == b.len()
    &&& forall|k: int| 0 <= k < a.len() ==> ascii_fold(#[trigger] a[k]) == ascii_fold(b[k])
}

/// Whether `x` and `y` are one ASCII letter in its two cases, `x` upper.
pub open spec fn upper_and_lower(x: char, y: char) -> bool {
    'A' <= x && x <= 'Z' && y as u32 == x as u32 + 32
}

/// Ignoring ASCII case joins only the two cases of an ASCII letter: two
/// strings match exactly when they have the same length and, at every
/// position, the same character or one ASCII letter in its two cases.
/// Digits, punctuation and every other character must match exactly.
pub proof fn law_ignoring_case_joins_only_ascii_letters(a: Seq<char>, b: Seq<char>)
    ensures
        eq_ignore_ascii_case(a, b) <==> (a.len() == b.len() && forall|k: int|
            0 <= k < a.len() ==> #[trigger] a[k] == b[k] || upper_and_lower(a[k], b[k]) || upper_and_lower(
                b[k],
                a[k],
            )),
{
    assert forall|x: char, y: char| #[trigger] ascii_fold(x) == #[trigger] ascii_fold(y) <==> (x == y || upper_and_lower(x, y) || upper_and_lower(y, x)) by {
        vstd::utf8::char_u32_cast(x, x as u32);
        vstd::utf8::char_u32_cast(y, y as u32);
    }
    if a.len() == b.len() {
        if eq_ignore_ascii_case(a, b) {
            assert forall|k: int| 0 <= k < a.len() implies #[trigger] a[k] == b[k] || upper_and_lower(a[k], b[k]) || upper_and_lower(b[k], a[k]) by {
                assert(ascii_fold(a[k]) == ascii_fold(b[k]));
            }
        }
        if forall|k: int| 0 <= k < a.len() ==> #[trigger] a[k] == b[k] || upper_and_lower(a[k], b[k]) || upper_and_lower(b[k], a[k]) {
            assert forall|k: int| 0 <= k < a.len() implies ascii_fold(#[trigger] a[k]) == ascii_fold(b[k]) by {
                assert(a[k] == b[k] || upper_and_lower(a[k], b[k]) || upper_and_lower(b[k], a[k]));
            }
        }
    }
}

fn fold(c: char) -> (r: u32)
    ensures
        r == ascii_fold(c),
{
    if 'A' <= c && c <= 'Z' {
        c as u32 + 32
    } else {
        c as u32
    }
}

pub fn same_ignoring_ascii_case(a: &str, b: &str) -> (r: bool)
    ensures
        r == eq_ignore_ascii_case(a@, b@),
{
    let x = chars_of(a);
    let y = chars_of(b);
    if x.len() != y.len() {
        return false;
    }
    let mut i: usize = 0;
    while i < x.len()
        invariant
            x@ == a@,
            y@ == b@,
            x.len() == y.len(),
            i <= x.len(),
            forall|k: int| 0 <= k < i ==> ascii_fold(#[trigger] x@[k]) == ascii_fold(y@[k]),
        decreases x.len() - i,
    {
        if fold(x[i]) != fold(y[i]) {
            return false;
        }
        i = i + 1;
    }
    true
}

/// `a` sorts no later than `b` in the order of `str` and `String`:
/// character by character, a proper prefix first.
pub open spec fn lex_le(a: Seq<char>, b: Seq<char>) -> bool
    decreases a.len(),
{
    if a.len() == 0 {
        true
    } else if b.len() == 0 {
        false
    } else if a[0] != b[0] {
        a[0] < b[0]
    } else {
        lex_le(a.drop_first(), b.drop_first())
    }
}

/// The order of `str`, as a relation.
pub open spec fn str_order() -> spec_fn(Seq<char>, Seq<char>) -> bool {
    |a: Seq<char>, b: Seq<char>| lex_le(a, b)
}

proof fn lemma_lex_le_reflexive(a: Seq<char>)
    ensures
        lex_le(a, a),
    decreases a.len(),
{
    if a.len() > 0 {
        lemma_lex_le_reflexive(a.drop_first());
    }
}

proof fn lemma_lex_le_antisymmetric(a: Seq<char>, b: Seq<char>)
    requires
        lex_le(a, b),
        lex_le(b, a),
    ensures
        a == b,
    decreases a.len(),
{
    if a.len() > 0 && b.len() > 0 {
        assert(a[0] == b[0]);
        lemma_lex_le_antisymmetric(a.drop_first(), b.drop_first());
        assert(a.drop_first().len() == a.len() - 1 && b.drop_first().len() == b.len() - 1);
        assert(a.len() == b.len());
        assert forall|i: int| 0 <= i < a.len() implies a[i] == b[i] by {
            if i > 0 {
                assert(a[i] == a.drop_first()[i - 1]);
                assert(b[i] == b.drop_first()[i - 1]);
            }
        }
        assert(a =~= b);
    }
}

proof fn lemma_lex_le_transitive(a: Seq<char>, b: Seq<char>, c: Seq<char>)
    requires
        lex_le(a, b),
        lex_le(b, c),
    ensures
        lex_le(a, c),
    decreases a.len(),
{
    if a.len() > 0 && b.len() > 0 && c.len() > 0 && a[0] == b[0] && b[0] == c[0] {
        lemma_lex_le_transitive(a.drop_first(), b.drop_first(), c.drop_first());
    }
}

proof fn lemma_lex_le_total(a: Seq<char>, b: Seq<char>)
    ensures
        lex_le(a, b) || lex_le(b, a),
    decreases a.len(),
{
    if a.len() > 0 && b.len() > 0 && a[0] == b[0] {
        lemma_lex_le_total(a.drop_first(), b.drop_first());
    }
}

/// The order of `str` is a total order.
pub proof fn lemma_str_order_is_total()
    ensures
        vstd::relations::total_ordering(str_order()),
{
    let r = str_order();
    assert forall|a: Seq<char>| #[trigger] r(a, a) by {
        lemma_lex_le_reflexive(a);
    }
    assert forall|a: Seq<char>, b: Seq<char>| #[trigger] r(a, b) && #[trigger] r(b, a) implies a
        == b by {
        lemma_lex_le_antisymmetric(a, b);
    }
    assert forall|a: Seq<char>, b: Seq<char>, c: Seq<char>| #[trigger] r(a, b) && #[trigger] r(
        b,
        c,
    ) implies r(a, c) by {
        lemma_lex_le_transitive(a, b, c);
    }
    assert forall|a: Seq<char>, b: Seq<char>| #[trigger] r(a, b) || #[trigger] r(b, a) by {
        lemma_lex_le_total(a, b);
    }
}

/// Whether `a` sorts no later than `b` (`a <= b` on `str`).
pub fn str_le(a: &str, b: &str) -> (r: bool)
    ensures
        r == lex_le(a@, b@),
{
    let x = chars_of(a);
    let y = chars_of(b);
    let mut i: usize = 0;
    assert(x@.skip(0) =~= x@ && y@.skip(0) =~= y@);
    while i < x.len() && i < y.len() && x[i] == y[i]
        invariant
            x@ == a@,
            y@ == b@,
            i <= x.len(),
            i <= y.len(),
            lex_le(x@, y@) == lex_le(x@.skip(i as int), y@.skip(i as int)),
        decreases x.len() - i,
    {
        proof {
            assert(x@.skip(i as int).drop_first() =~= x@.skip(i + 1));
            assert(y@.skip(i as int).drop_first() =~= y@.skip(i + 1));
        }
        i = i + 1;
    }
    if i == x.len() {
        true
    } else if i == y.len() {
        false
    } else {
        x[i] < y[i]
    }
}

/// Whether `s` starts with `p` (`str::starts_with`).
pub fn has_prefix(s: &str, p: &str) -> (r: bool)
    ensures
        r == p@.is_prefix_of(s@),
{
    let x = chars_of(s);
    let y = chars_of(p);
    if y.len() > x.len() {
        return false;
    }
    let mut i: usize = 0;
    while i < y.len()
        invariant
            x@ == s@,
            y@ == p@,
            y.len() <= x.len(),
            i <= y.len(),
            forall|k: int| 0 <= k < i ==> x@[k] == y@[k],
        decreases y.len() - i,
    {
        if x[i] != y[i] {
            proof {
                assert(x@.subrange(0, y.len() as int)[i as int] == x@[i as int]);
            }
            return false;
        }
        i = i + 1;
    }
    assert(p@ =~= s@.subrange(0, p@.len() as int));
    true
}

/// Whether `s` ends with `p` (`str::ends_with`).
pub fn has_suffix(s: &str, p: &str) -> (r: bool)
    ensures
        r == p@.is_suffix_of(s@),
{
    let x = chars_of(s);
    let y = chars_of(p);
    if y.len() > x.len() {
        return false;
    }
    let off = x.len() - y.len();
    let mut i: usize = 0;
    while i < y.len()
        invariant
            x@ == s@,
            y@ == p@,
            off == x.len() - y.len(),
            i <= y.len(),
            forall|k: int| 0 <= k < i ==> x@[off + k] == y@[k],
        decreases y.len() - i,
    {
        if x[off + i] != y[i] {
            proof {
                assert(x@.subrange(off as int, x.len() as int)[i as int] == x@[off + i]);
            }
            return false;
        }
        i = i + 1;
    }
    assert(p@ =~= s@.subrange(off as int, s@.len() as int));
    true
}

/// ASCII letters and digits (`char::is_ascii_alphanumeric`).
pub open spec fn is_ascii_alnum(c: char) -> bool {
    ||| ('0' <= c && c <= '9')
    ||| ('A' <= c && c <= 'Z')
    ||| ('a' <= c && c <= 'z')
}

pub fn char_is_ascii_alnum(c: char) -> (b: bool)
    ensures
        b == is_ascii_alnum(c),
{
    ('0' <= c && c <= '9') || ('A' <= c && c <= 'Z') || ('a' <= c && c <= 'z')
}

/// `a` followed by `b`, as a new string.
pub fn concat(a: &str, b: &str) -> (r: String)
    ensures
        r@ == a@ + b@,
{
    let mut r = String::from_str(a);
    r.append(b);
    r
}

/// `a`, `b` and `c` joined end to end.
pub fn concat3(a: &str, b: &str, c: &str) -> (r: String)
    ensures
        r@ == a@ + b@ + c@,
{
    let mut r = String::from_str(a);
    r.append(b);
    r.append(c);
    r
}

/// The elements of `parts` separated by `sep`, as `[T]::join` does it.
pub open spec fn joined(parts: Seq<Seq<char>>, sep: Seq<char>) -> Seq<char>
    decreases parts.len(),
{
    if parts.len() == 0 {
        Seq::empty()
    } else if parts.len() == 1 {
        parts[0]
    } else {
        joined(parts.drop_last(), sep) + sep + parts.last()
    }
}

/// `parts.join(sep)`.
pub fn join(parts: &Vec<String>, sep: &str) -> (r: String)
    ensures
        r@ == joined(parts@.map_values(|p: String| p@), sep@),
{
    let ghost views = parts@.map_values(|p: String| p@);
    let mut r = String::new();
    let mut i: usize = 0;
    while i < parts.len()
        invariant
            i <= parts.len(),
            views == parts@.map_values(|p: String| p@),
            r@ == joined(views.take(i as int), sep@),
        decreases parts.len() - i,
    {
        if i != 0 {
            r.append(sep);
        }
        r.append(parts[i].as_str());
        assert(views.take(i + 1).drop_last() =~= views.take(i as int));
        i = i + 1;
    }
    assert(views.take(parts.len() as int) =~= views);
    r
}

/// The decimal digit for `d`.
pub open spec fn digit_char(d: nat) -> char {
    if d == 0 {
        '0'
    } else if d == 1 {
        '1'
    } else if d == 2 {
        '2'
    } else if d == 3 {
        '3'
    } else if d == 4 {
        '4'
    } else if d == 5 {
        '5'
    } else if d == 6 {
        '6'
    } else if d == 7 {
        '7'
    } else if d == 8 {
        '8'
    } else {
        '9'
    }
}

/// `n` written in decimal, as `Display` writes an unsigned integer.
pub open spec fn decimal(n: nat) -> Seq<char>
    decreases n,
{
    if n < 10 {
        seq![digit_char(n)]
    } else {
        decimal(n / 10).push(digit_char(n % 10))
    }
}

fn digit(d: usize) -> (c: char)
    requires
        d < 10,
    ensures
        c == digit_char(d as nat),
{
    if d == 0 {
        '0'
    } else if d == 1 {
        '1'
    } else if d == 2 {
        '2'
    } else if d == 3 {
        '3'
    } else if d == 4 {
        '4'
    } else if d == 5 {
        '5'
    } else if d == 6 {
        '6'
    } else if d == 7 {
        '7'
    } else if d == 8 {
        '8'
    } else {
        '9'
    }
}

/// `n.to_string()` for an unsigned integer.
pub fn decimal_string(n: usize) -> (s: String)
    ensures
        s@ == decimal(n as nat),
    decreases n,
{
    if n < 10 {
        let mut s = String::new();
        push_char(&mut s, digit(n));
        proof {
            assert(s@ =~= seq![digit_char(n as nat)]);
        }
        s
    } else {
        let mut s = decimal_string(n / 10);
        push_char(&mut s, digit(n % 10));
        s
    }
}

} // verus!
