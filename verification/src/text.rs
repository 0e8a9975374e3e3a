//! Character-level text utilities shared by the configuration, packaging and
//! pipeline modules. Strings are modelled by their `Seq<char>` view.
use vstd::prelude::*;

verus! {

/// Which characters a trimming operation removes.
#[derive(Clone, Copy, PartialEq, Eq, Debug)]
pub enum TrimClass {
    /// Characters with the Unicode `White_Space` property (what `str::trim` removes).
    Whitespace,
    /// Exactly the given character.
    Exactly(char),
}

/// The Unicode `White_Space` property, the set `char::is_whitespace` tests.
pub open spec fn is_unicode_whitespace(c: char) -> bool {
    let u = c as u32;
    ||| 0x09 <= u <= 0x0D
    ||| u == 0x20
    ||| u == 0x85
    ||| u == 0xA0
    ||| u == 0x1680
    ||| 0x2000 <= u <= 0x200A
    ||| u == 0x2028
    ||| u == 0x2029
    ||| u == 0x202F
    ||| u == 0x205F
    ||| u == 0x3000
}

pub open spec fn in_class(cls: TrimClass, c: char) -> bool {
    match cls {
        TrimClass::Whitespace => is_unicode_whitespace(c),
        TrimClass::Exactly(d) => c == d,
    }
}

/// Drop every leading character of the class.
pub open spec fn trim_front(s: Seq<char>, cls: TrimClass) -> Seq<char>
    decreases s.len(),
{
    if s.len() > 0 && in_class(cls, s[0]) {
        trim_front(s.drop_first(), cls)
    } else {
        s
    }
}

/// Drop every trailing character of the class.
pub open spec fn trim_back(s: Seq<char>, cls: TrimClass) -> Seq<char>
    decreases s.len(),
{
    if s.len() > 0 && in_class(cls, s.last()) {
        trim_back(s.drop_last(), cls)
    } else {
        s
    }
}

/// Drop leading and trailing characters of the class (`str::trim` / `trim_matches`).
pub open spec fn trim_both(s: Seq<char>, cls: TrimClass) -> Seq<char> {
    trim_back(trim_front(s, cls), cls)
}

/// `char::to_ascii_lowercase`.
pub open spec fn ascii_lower_char(c: char) -> char {
    if 'A' <= c && c <= 'Z' {
        ((c as u32) + 32) as char
    } else {
        c
    }
}

/// `str::to_ascii_lowercase`: every ASCII upper-case letter replaced by its lower-case form.
pub open spec fn ascii_lower(s: Seq<char>) -> Seq<char> {
    Seq::new(s.len(), |i: int| ascii_lower_char(s[i]))
}

pub open spec fn starts_with(s: Seq<char>, prefix: Seq<char>) -> bool {
    prefix.len() <= s.len() && s.subrange(0, prefix.len() as int) == prefix
}

/// A string starts with any of its prefixes.
pub proof fn lemma_starts_with_concat(a: Seq<char>, b: Seq<char>)
    ensures
        starts_with(a + b, a),
{
    assert((a + b).subrange(0, a.len() as int) =~= a);
}

pub open spec fn ends_with(s: Seq<char>, suffix: Seq<char>) -> bool {
    suffix.len() <= s.len() && s.subrange(s.len() - suffix.len(), s.len() as int) == suffix
}

/// `needle` occurs in `hay` starting at position `i`.
pub open spec fn occurs_at(hay: Seq<char>, needle: Seq<char>, i: int) -> bool {
    0 <= i && i + needle.len() <= hay.len() && hay.subrange(i, i + needle.len()) == needle
}

/// `str::contains` for a string pattern.
pub open spec fn contains_seq(hay: Seq<char>, needle: Seq<char>) -> bool {
    exists|i: int| occurs_at(hay, needle, i)
}

pub open spec fn is_ascii_alnum(c: char) -> bool {
    ('a' <= c && c <= 'z') || ('A' <= c && c <= 'Z') || ('0' <= c && c <= '9')
}

/// `String::push`.
#[verifier::external_body]
pub(crate) fn push_char(s: &mut String, c: char)
    ensures
        final(s)@ == old(s)@.push(c),
{
    s.push(c);
}

/// Append the characters of `t` to `s`.
pub fn append_str(s: &mut String, t: &str)
    ensures
        final(s)@ == old(s)@ + t@,
{
    let v = chars_of(t);
    let n = v.len();
    let mut i: usize = 0;
    while i < n
        invariant
            i <= n,
            n == v@.len(),
            v@ == t@,
            s@ == old(s)@ + t@.take(i as int),
        decreases n - i,
    {
        push_char(s, v[i]);
        assert(t@.take(i as int + 1) =~= t@.take(i as int).push(t@[i as int]));
        i = i + 1;
    }
    assert(t@.take(n as int) =~= t@);
}

/// A message made of `prefix` followed by `detail`.
pub fn join_message(prefix: &str, detail: &str) -> (r: String)
    ensures
        r@ == prefix@ + detail@,
{
    let mut r = string_of(prefix);
    append_str(&mut r, detail);
    r
}

/// The characters of `s`, in order.
pub fn chars_of(s: &str) -> (v: Vec<char>)
    ensures
        v@ == s@,
{
    let mut v: Vec<char> = Vec::new();
    for c in it: s.chars()
        invariant
            v@ == it.seq().take(it.index() as int),
            it.seq() == s@,
    {
        v.push(c);
    }
    v
}

/// The string made of the characters of `v`.
pub fn string_from_chars(v: &[char]) -> (s: String)
    ensures
        s@ == v@,
{
    let mut s = String::new();
    let n = v.len();
    let mut i: usize = 0;
    while i < n
        invariant
            i <= n,
            n == v@.len(),
            s@ == v@.take(i as int),
        decreases n - i,
    {
        push_char(&mut s, v[i]);
        assert(v@.take(i as int + 1) =~= v@.take(i as int).push(v@[i as int]));
        i = i + 1;
    }
    assert(v@.take(n as int) =~= v@);
    s
}

/// A copy of `s`.
pub fn copy_string(s: &String) -> (r: String)
    ensures
        r@ == s@,
{
    let v = chars_of(s.as_str());
    string_from_chars(v.as_slice())
}

/// The string whose characters are those of the literal `s`.
pub fn string_of(s: &str) -> (r: String)
    ensures
        r@ == s@,
{
    let v = chars_of(s);
    string_from_chars(v.as_slice())
}

pub fn is_whitespace_char(c: char) -> (r: bool)
    ensures
        r == is_unicode_whitespace(c),
{
    let u = c as u32;
    (0x09 <= u && u <= 0x0D) || u == 0x20 || u == 0x85 || u == 0xA0 || u == 0x1680 || (0x2000
        <= u && u <= 0x200A) || u == 0x2028 || u == 0x2029 || u == 0x202F || u == 0x205F || u
        == 0x3000
}

pub fn char_in_class(cls: TrimClass, c: char) -> (r: bool)
    ensures
        r == in_class(cls, c),
{
    match cls {
        TrimClass::Whitespace => is_whitespace_char(c),
        TrimClass::Exactly(d) => c == d,
    }
}

pub proof fn lemma_trim_front_step(s: Seq<char>, cls: TrimClass, i: int)
    requires
        0 <= i < s.len(),
        in_class(cls, s[i]),
    ensures
        trim_front(s.subrange(i, s.len() as int), cls) == trim_front(
            s.subrange(i + 1, s.len() as int),
            cls,
        ),
{
    assert(s.subrange(i, s.len() as int).drop_first() =~= s.subrange(i + 1, s.len() as int));
}

pub proof fn lemma_trim_back_step(s: Seq<char>, cls: TrimClass, j: int)
    requires
        0 < j <= s.len(),
        in_class(cls, s[j - 1]),
    ensures
        trim_back(s.subrange(0, j), cls) == trim_back(s.subrange(0, j - 1), cls),
{
    assert(s.subrange(0, j).drop_last() =~= s.subrange(0, j - 1));
}

/// Index of the first character not in the class (or the length).
fn front_index(v: &Vec<char>, cls: TrimClass) -> (i: usize)
    ensures
        i <= v@.len(),
        trim_front(v@, cls) == v@.subrange(i as int, v@.len() as int),
{
    let n = v.len();
    let mut i: usize = 0;
    assert(v@.subrange(0, n as int) =~= v@);
    while i < n && char_in_class(cls, v[i])
        invariant
            i <= n,
            n == v@.len(),
            trim_front(v@, cls) == trim_front(v@.subrange(i as int, n as int), cls),
        decreases n - i,
    {
        proof {
            lemma_trim_front_step(v@, cls, i as int);
        }
        i = i + 1;
    }
    i
}

/// Length of the longest prefix that does not end in a character of the class.
fn back_index(v: &Vec<char>, cls: TrimClass) -> (j: usize)
    ensures
        j <= v@.len(),
        trim_back(v@, cls) == v@.subrange(0, j as int),
{
    let n = v.len();
    let mut j: usize = n;
    assert(v@.subrange(0, n as int) =~= v@);
    while j > 0 && char_in_class(cls, v[j - 1])
        invariant
            j <= n,
            n == v@.len(),
            trim_back(v@, cls) == trim_back(v@.subrange(0, j as int), cls),
        decreases j,
    {
        proof {
            lemma_trim_back_step(v@, cls, j as int);
        }
        j = j - 1;
    }
    assert(trim_back(v@.subrange(0, j as int), cls) == v@.subrange(0, j as int));
    j
}

/// The characters of `v` with leading (if `front`) and trailing (if `back`)
/// characters of the class removed.
pub fn trim_vec(v: &Vec<char>, cls: TrimClass, front: bool, back: bool) -> (r: Vec<char>)
    ensures
        r@ == (if back {
            trim_back(if front { trim_front(v@, cls) } else { v@ }, cls)
        } else {
            if front { trim_front(v@, cls) } else { v@ }
        }),
{
    let mut w: Vec<char> = Vec::new();
    let start = if front { front_index(v, cls) } else { 0 };
    let n = v.len();
    let mut k = start;
    while k < n
        invariant
            start <= k <= n,
            n == v@.len(),
            w@ == v@.subrange(start as int, k as int),
        decreases n - k,
    {
        w.push(v[k]);
        assert(v@.subrange(start as int, k as int + 1) =~= v@.subrange(start as int, k as int).push(
            v@[k as int],
        ));
        k = k + 1;
    }
    assert(front ==> w@ == trim_front(v@, cls));
    assert(!front ==> w@ =~= v@);
    if back {
        let j = back_index(&w, cls);
        let mut r: Vec<char> = Vec::new();
        let mut k2: usize = 0;
        while k2 < j
            invariant
                k2 <= j <= w@.len(),
                r@ == w@.subrange(0, k2 as int),
            decreases j - k2,
        {
            r.push(w[k2]);
            assert(w@.subrange(0, k2 as int + 1) =~= w@.subrange(0, k2 as int).push(w@[k2 as int]));
            k2 = k2 + 1;
        }
        r
    } else {
        w
    }
}

/// What `trim_front` leaves does not start with a character of the class.
pub proof fn lemma_trim_front_clean(s: Seq<char>, cls: TrimClass)
    ensures
        trim_front(s, cls).len() > 0 ==> !in_class(cls, trim_front(s, cls)[0]),
        trim_front(s, cls).len() <= s.len(),
    decreases s.len(),
{
    if s.len() > 0 && in_class(cls, s[0]) {
        lemma_trim_front_clean(s.drop_first(), cls);
    }
}

/// What `trim_front` leaves is a suffix of its argument.
pub proof fn lemma_trim_front_suffix(s: Seq<char>, cls: TrimClass)
    ensures
        trim_front(s, cls).len() <= s.len(),
        trim_front(s, cls) == s.subrange(
            s.len() - trim_front(s, cls).len(),
            s.len() as int,
        ),
    decreases s.len(),
{
    if s.len() > 0 && in_class(cls, s[0]) {
        lemma_trim_front_suffix(s.drop_first(), cls);
        let t = trim_front(s.drop_first(), cls);
        assert(s.drop_first().subrange(s.len() - 1 - t.len(), s.len() - 1) =~= s.subrange(
            s.len() - t.len(),
            s.len() as int,
        ));
    } else {
        assert(s.subrange(0, s.len() as int) =~= s);
    }
}

/// What `trim_back` leaves is a prefix of its argument that does not end in a
/// character of the class.
pub proof fn lemma_trim_back_prefix(s: Seq<char>, cls: TrimClass)
    ensures
        trim_back(s, cls).len() <= s.len(),
        trim_back(s, cls) == s.subrange(0, trim_back(s, cls).len() as int),
        trim_back(s, cls).len() > 0 ==> !in_class(cls, trim_back(s, cls).last()),
    decreases s.len(),
{
    if s.len() > 0 && in_class(cls, s.last()) {
        lemma_trim_back_prefix(s.drop_last(), cls);
        let t = trim_back(s.drop_last(), cls);
        assert(s.drop_last().subrange(0, t.len() as int) =~= s.subrange(0, t.len() as int));
    } else {
        assert(s.subrange(0, s.len() as int) =~= s);
    }
}

/// Trimming what was already trimmed changes nothing.
pub proof fn lemma_trim_both_idempotent(s: Seq<char>, cls: TrimClass)
    ensures
        trim_both(trim_both(s, cls), cls) == trim_both(s, cls),
{
    let f = trim_front(s, cls);
    let t = trim_back(f, cls);
    lemma_trim_front_clean(s, cls);
    lemma_trim_back_prefix(f, cls);
    if t.len() > 0 {
        assert(t[0] == f[0]);
    }
    assert(trim_front(t, cls) == t);
    assert(trim_back(t, cls) == t);
}

pub fn lower_ascii_char(c: char) -> (r: char)
    ensures
        r == ascii_lower_char(c),
{
    if 'A' <= c && c <= 'Z' {
        let u = (c as u8) + 32;
        (u as char)
    } else {
        c
    }
}

/// `str::to_ascii_lowercase`, on characters.
pub fn lower_ascii_vec(v: &Vec<char>) -> (r: Vec<char>)
    ensures
        r@ == ascii_lower(v@),
{
    let mut r: Vec<char> = Vec::new();
    let n = v.len();
    let mut i: usize = 0;
    while i < n
        invariant
            i <= n,
            n == v@.len(),
            r@.len() == i,
            forall|k: int| 0 <= k < i ==> r@[k] == ascii_lower_char(v@[k]),
        decreases n - i,
    {
        r.push(lower_ascii_char(v[i]));
        i = i + 1;
    }
    assert(r@ =~= ascii_lower(v@));
    r
}

/// Whether `needle` occurs in `hay` at position `i`.
pub fn occurs_at_exec(hay: &Vec<char>, needle: &Vec<char>, i: usize) -> (r: bool)
    ensures
        r == occurs_at(hay@, needle@, i as int),
{
    if i > hay.len() || needle.len() > hay.len() - i {
        return false;
    }
    let m = needle.len();
    let mut k: usize = 0;
    while k < m
        invariant
            k <= m,
            m == needle@.len(),
            i + m <= hay@.len(),
            i + m <= hay.len(),
            forall|t: int| 0 <= t < k ==> hay@[i + t] == needle@[t],
        decreases m - k,
    {
        if hay[i + k] != needle[k] {
            assert(hay@.subrange(i as int, i + m)[k as int] != needle@[k as int]);
            return false;
        }
        k = k + 1;
    }
    assert(hay@.subrange(i as int, i + m) =~= needle@);
    true
}

/// Whether `needle` occurs anywhere in `hay`.
pub fn contains_vec(hay: &Vec<char>, needle: &Vec<char>) -> (r: bool)
    ensures
        r == contains_seq(hay@, needle@),
{
    if needle.len() > hay.len() {
        assert(forall|i: int| !occurs_at(hay@, needle@, i));
        return false;
    }
    if needle.len() == 0 {
        assert(hay@.subrange(0, 0) =~= needle@);
        assert(occurs_at(hay@, needle@, 0));
        return true;
    }
    let last = hay.len() - needle.len();
    let mut i: usize = 0;
    while i <= last
        invariant
            last + needle@.len() == hay@.len(),
            needle@.len() > 0,
            last < hay.len(),
            forall|t: int| 0 <= t < i ==> !occurs_at(hay@, needle@, t),
        decreases last + 1 - i,
    {
        if occurs_at_exec(hay, needle, i) {
            return true;
        }
        i = i + 1;
    }
    assert forall|t: int| !occurs_at(hay@, needle@, t) by {
        if 0 <= t && t <= last {
        }
    }
    false
}

/// `str::starts_with` for a string prefix.
pub fn starts_with_vec(s: &Vec<char>, prefix: &Vec<char>) -> (r: bool)
    ensures
        r == starts_with(s@, prefix@),
{
    occurs_at_exec(s, prefix, 0)
}

/// `str::ends_with` for a string suffix.
pub fn ends_with_vec(s: &Vec<char>, suffix: &Vec<char>) -> (r: bool)
    ensures
        r == ends_with(s@, suffix@),
{
    if suffix.len() > s.len() {
        return false;
    }
    occurs_at_exec(s, suffix, s.len() - suffix.len())
}

/// Equality of two character sequences.
pub fn chars_eq(a: &Vec<char>, b: &Vec<char>) -> (r: bool)
    ensures
        r == (a@ == b@),
{
    if a.len() != b.len() {
        return false;
    }
    let r = occurs_at_exec(a, b, 0);
    assert(a@ =~= a@.subrange(0, b@.len() as int));
    r
}

/// Equality of two strings by their characters.
pub fn str_eq(a: &str, b: &str) -> (r: bool)
    ensures
        r == (a@ == b@),
{
    let va = chars_of(a);
    let vb = chars_of(b);
    chars_eq(&va, &vb)
}

/// The decimal digit for `d` (below ten).
pub open spec fn digit_char(d: nat) -> char {
    if d == 0 {
        '0'
    } else if d == 1 {
        '1'
    } else if d == 2 {
        '2'
    } else if d == 3 {
        '3'
    } else if d == 4 {
        '4'
    } else if d == 5 {
        '5'
    } else if d == 6 {
        '6'
    } else if d == 7 {
        '7'
    } else if d == 8 {
        '8'
    } else {
        '9'
    }
}

/// The decimal notation of `n`, as `Display` writes an unsigned integer.
pub open spec fn decimal(n: nat) -> Seq<char>
    decreases n,
{
    if n < 10 {
        seq![digit_char(n)]
    } else {
        decimal(n / 10).push(digit_char(n % 10))
    }
}

fn digit_char_exec(d: u64) -> (c: char)
    requires
        d < 10,
    ensures
        c == digit_char(d as nat),
{
    if d == 0 {
        '0'
    } else if d == 1 {
        '1'
    } else if d == 2 {
        '2'
    } else if d == 3 {
        '3'
    } else if d == 4 {
        '4'
    } else if d == 5 {
        '5'
    } else if d == 6 {
        '6'
    } else if d == 7 {
        '7'
    } else if d == 8 {
        '8'
    } else {
        '9'
    }
}

/// Append the decimal notation of `n` to `s`.
pub fn push_decimal(s: &mut String, n: u64)
    ensures
        final(s)@ == old(s)@ + decimal(n as nat),
    decreases n,
{
    if n < 10 {
        push_char(s, digit_char_exec(n));
        assert(old(s)@.push(digit_char(n as nat)) =~= old(s)@ + decimal(n as nat));
    } else {
        push_decimal(s, n / 10);
        push_char(s, digit_char_exec(n % 10));
        assert(old(s)@ + decimal((n / 10) as nat) + seq![digit_char((n % 10) as nat)] =~= old(s)@
            + decimal(n as nat));
    }
}

} // verus!
