//! Text primitives over `Seq<char>` used throughout the library.

use vstd::prelude::*;

verus! {

/// The characters of a string, in order.
pub fn chars_of(s: &str) -> (res: Vec<char>)
    ensures
        res@ == s@,
{
    let mut out: Vec<char> = Vec::new();
    for c in it: s.chars()
        invariant
            out@ == it.seq().take(it.index()),
    {
        out.push(c);
    }
    out
}

/// Appends one character to a string (`String::push`).
#[verifier::external_body]
pub(crate) fn push_char(s: &mut String, c: char)
    ensures
        final(s)@ == old(s)@.push(c),
{
    s.push(c);
}

/// Appends a string slice.
pub fn push_str(s: &mut String, t: &str)
    ensures
        final(s)@ == old(s)@ + t@,
{
    s.append(t);
}

/// A fresh string holding exactly the given characters.
pub fn from_chars(v: &[char]) -> (res: String)
    ensures
        res@ == v@,
{
    let mut out = String::new();
    let mut i: usize = 0;
    while i < v.len()
        invariant
            i <= v.len(),
            out@ == v@.take(i as int),
        decreases v.len() - i,
    {
        push_char(&mut out, v[i]);
        i = i + 1;
        assert(v@.take(i as int) =~= v@.take((i - 1) as int).push(v@[i - 1]));
    }
    assert(v@.take(v.len() as int) =~= v@);
    out
}

pub fn copy_string(s: &str) -> (res: String)
    ensures
        res@ == s@,
{
    let mut out = String::new();
    push_str(&mut out, s);
    out
}

/// Concatenation of two strings.
pub fn concat2(a: &str, b: &str) -> (res: String)
    ensures
        res@ == a@ + b@,
{
    let mut out = String::new();
    push_str(&mut out, a);
    push_str(&mut out, b);
    out
}

pub fn concat3(a: &str, b: &str, c: &str) -> (res: String)
    ensures
        res@ == a@ + b@ + c@,
{
    let mut out = String::new();
    push_str(&mut out, a);
    push_str(&mut out, b);
    push_str(&mut out, c);
    out
}


/// Unicode `White_Space`, as `char::is_whitespace` documents it.
pub open spec fn is_ws(c: char) -> bool {
    ||| ('\u{9}' <= c && c <= '\u{d}')
    ||| c == ' '
    ||| c == '\u{85}'
    ||| c == '\u{a0}'
    ||| c == '\u{1680}'
    ||| ('\u{2000}' <= c && c <= '\u{200a}')
    ||| c == '\u{2028}'
    ||| c == '\u{2029}'
    ||| c == '\u{202f}'
    ||| c == '\u{205f}'
    ||| c == '\u{3000}'
}

pub fn is_whitespace(c: char) -> (r: bool)
    ensures
        r == is_ws(c),
{
    ('\u{9}' <= c && c <= '\u{d}') || c == ' ' || c == '\u{85}' || c == '\u{a0}' || c
        == '\u{1680}' || ('\u{2000}' <= c && c <= '\u{200a}') || c == '\u{2028}' || c
        == '\u{2029}' || c == '\u{202f}' || c == '\u{205f}' || c == '\u{3000}'
}

/// `s` without its leading white space.
pub open spec fn trim_start(s: Seq<char>) -> Seq<char>
    decreases s.len(),
{
    if s.len() > 0 && is_ws(s[0]) {
        trim_start(s.drop_first())
    } else {
        s
    }
}

/// `s` without its trailing white space.
pub open spec fn trim_end(s: Seq<char>) -> Seq<char>
    decreases s.len(),
{
    if s.len() > 0 && is_ws(s.last()) {
        trim_end(s.drop_last())
    } else {
        s
    }
}

/// `str::trim`: both ends stripped of white space.
pub open spec fn trim(s: Seq<char>) -> Seq<char> {
    trim_end(trim_start(s))
}

/// Whether a string holds nothing but white space.
pub open spec fn is_blank(s: Seq<char>) -> bool {
    trim(s).len() == 0
}

proof fn lemma_trim_start_len(s: Seq<char>)
    ensures
        trim_start(s).len() <= s.len(),
    decreases s.len(),
{
    if s.len() > 0 && is_ws(s[0]) {
        lemma_trim_start_len(s.drop_first());
    }
}

pub proof fn lemma_trim_end_empty(s: Seq<char>)
    ensures
        trim_end(s).len() == 0 <==> (forall|i: int| 0 <= i < s.len() ==> is_ws(#[trigger] s[i])),
    decreases s.len(),
{
    if s.len() > 0 && is_ws(s.last()) {
        lemma_trim_end_empty(s.drop_last());
        if trim_end(s).len() == 0 {
            assert forall|i: int| 0 <= i < s.len() implies is_ws(#[trigger] s[i]) by {
                if i < s.len() - 1 {
                    assert(s.drop_last()[i] == s[i]);
                }
            }
        }
    }
}

pub proof fn lemma_trim_start_empty(s: Seq<char>)
    ensures
        trim_start(s).len() == 0 <==> (forall|i: int| 0 <= i < s.len() ==> is_ws(#[trigger] s[i])),
    decreases s.len(),
{
    if s.len() > 0 && is_ws(s[0]) {
        lemma_trim_start_empty(s.drop_first());
        if trim_start(s).len() == 0 {
            assert forall|i: int| 0 <= i < s.len() implies is_ws(#[trigger] s[i]) by {
                if i > 0 {
                    assert(s.drop_first()[i - 1] == s[i]);
                }
            }
        }
    }
}

pub proof fn lemma_trim_start_suffix(s: Seq<char>)
    ensures
        trim_start(s).len() <= s.len(),
        trim_start(s) == s.subrange(s.len() - trim_start(s).len(), s.len() as int),
        trim_start(s).len() > 0 ==> !is_ws(trim_start(s)[0]),
    decreases s.len(),
{
    if s.len() > 0 && is_ws(s[0]) {
        lemma_trim_start_suffix(s.drop_first());
        let t = s.drop_first();
        assert(t.subrange(t.len() - trim_start(t).len(), t.len() as int) =~= s.subrange(
            s.len() - trim_start(t).len(),
            s.len() as int,
        ));
    } else {
        assert(s.subrange(0, s.len() as int) =~= s);
    }
}

pub proof fn lemma_trim_end_prefix(s: Seq<char>)
    ensures
        trim_end(s).len() <= s.len(),
        trim_end(s) == s.subrange(0, trim_end(s).len() as int),
        trim_end(s).len() > 0 ==> !is_ws(trim_end(s).last()),
    decreases s.len(),
{
    if s.len() > 0 && is_ws(s.last()) {
        lemma_trim_end_prefix(s.drop_last());
        let t = s.drop_last();
        assert(t.subrange(0, trim_end(t).len() as int) =~= s.subrange(0, trim_end(t).len() as int));
    } else {
        assert(s.subrange(0, s.len() as int) =~= s);
    }
}

/// A text neither starting nor ending with white space is its own trim.
pub proof fn lemma_trim_of_unpadded(s: Seq<char>)
    requires
        s.len() > 0,
        !is_ws(s[0]),
        !is_ws(s.last()),
    ensures
        trim(s) == s,
{
    assert(trim_start(s) == s);
}

/// Trimming twice is trimming once.
pub proof fn lemma_trim_idempotent(s: Seq<char>)
    ensures
        trim(trim(s)) == trim(s),
{
    let a = trim_start(s);
    let t = trim_end(a);
    lemma_trim_start_suffix(s);
    lemma_trim_end_prefix(a);
    if t.len() > 0 {
        assert(t[0] == a[0]);
        lemma_trim_of_unpadded(t);
    }
}

/// Index of the first character that is not white space (or the length).
fn first_non_ws(s: &Vec<char>) -> (i: usize)
    ensures
        i <= s.len(),
        trim_start(s@) == s@.subrange(i as int, s.len() as int),
{
    let mut i: usize = 0;
    assert(s@.subrange(0, s.len() as int) =~= s@);
    while i < s.len() && is_whitespace(s[i])
        invariant
            i <= s.len(),
            trim_start(s@) == trim_start(s@.subrange(i as int, s.len() as int)),
        decreases s.len() - i,
    {
        let ghost t = s@.subrange(i as int, s.len() as int);
        assert(t.drop_first() =~= s@.subrange(i + 1, s.len() as int));
        i = i + 1;
    }
    i
}

/// End (exclusive) of `s[from..]` once trailing white space is dropped.
fn last_non_ws(s: &Vec<char>, from: usize) -> (j: usize)
    requires
        from <= s.len(),
    ensures
        from <= j <= s.len(),
        trim_end(s@.subrange(from as int, s.len() as int)) == s@.subrange(from as int, j as int),
{
    let mut j: usize = s.len();
    while j > from && is_whitespace(s[j - 1])
        invariant
            from <= j <= s.len(),
            trim_end(s@.subrange(from as int, s.len() as int)) == trim_end(
                s@.subrange(from as int, j as int),
            ),
        decreases j,
    {
        let ghost t = s@.subrange(from as int, j as int);
        assert(t.drop_last() =~= s@.subrange(from as int, j - 1));
        j = j - 1;
    }
    j
}

/// `str::trim`.
pub fn trim_chars(s: &Vec<char>) -> (res: Vec<char>)
    ensures
        res@ == trim(s@),
{
    let i = first_non_ws(s);
    let j = last_non_ws(s, i);
    let mut out: Vec<char> = Vec::new();
    let mut k = i;
    while k < j
        invariant
            i <= k <= j <= s.len(),
            out@ == s@.subrange(i as int, k as int),
        decreases j - k,
    {
        out.push(s[k]);
        k = k + 1;
        assert(out@ =~= s@.subrange(i as int, k as int));
    }
    out
}

/// `str::trim`, as an owned string.
pub fn trim_str(s: &str) -> (res: String)
    ensures
        res@ == trim(s@),
{
    let v = chars_of(s);
    let t = trim_chars(&v);
    from_chars(t.as_slice())
}

/// `str::trim_end`, as an owned string.
pub fn trim_end_str(s: &str) -> (res: String)
    ensures
        res@ == trim_end(s@),
{
    let v = chars_of(s);
    let j = last_non_ws(&v, 0);
    assert(v@.subrange(0, v@.len() as int) =~= v@);
    let t = slice_chars(&v, 0, j);
    from_chars(t.as_slice())
}

/// Whether `trim(s)` is empty.
pub fn is_blank_str(s: &str) -> (r: bool)
    ensures
        r == is_blank(s@),
{
    let v = chars_of(s);
    let i = first_non_ws(&v);
    let j = last_non_ws(&v, i);
    i == j
}

/// Decimal digit character for `d < 10`.
pub open spec fn digit_char(d: nat) -> char {
    ((d + 48) as u32) as char
}

/// Decimal rendering of a natural number, as `to_string` prints it.
pub open spec fn dec(n: nat) -> Seq<char>
    decreases n,
{
    if n < 10 {
        seq![digit_char(n)]
    } else {
        dec(n / 10).push(digit_char(n % 10))
    }
}

/// Decimal rendering of a signed integer.
pub open spec fn dec_int(n: int) -> Seq<char> {
    if n < 0 {
        seq!['-'] + dec((-n) as nat)
    } else {
        dec(n as nat)
    }
}

fn push_dec(out: &mut String, n: u128)
    ensures
        final(out)@ == old(out)@ + dec(n as nat),
    decreases n,
{
    if n >= 10 {
        push_dec(out, n / 10);
    }
    let d = (n % 10) as u32;
    let c = ((d + 48) as u8) as char;
    assert(c == digit_char((n % 10) as nat));
    push_char(out, c);
    proof {
        if n >= 10 {
            assert(dec(n as nat) == dec((n / 10) as nat).push(digit_char((n % 10) as nat)));
        }
    }
}

/// `u64::to_string`.
pub fn u64_to_string(n: u64) -> (res: String)
    ensures
        res@ == dec(n as nat),
{
    let mut out = String::new();
    push_dec(&mut out, n as u128);
    out
}

/// `u128::to_string`.
pub fn u128_to_string(n: u128) -> (res: String)
    ensures
        res@ == dec(n as nat),
{
    let mut out = String::new();
    push_dec(&mut out, n);
    out
}

/// `i64::to_string`.
pub fn i64_to_string(n: i64) -> (res: String)
    ensures
        res@ == dec_int(n as int),
{
    let mut out = String::new();
    if n < 0 {
        push_char(&mut out, '-');
        let m: u64 = (0i128 - (n as i128)) as u64;
        push_dec(&mut out, m as u128);
    } else {
        push_dec(&mut out, n as u128);
    }
    out
}


/// `str::replace` for a non-empty pattern: every non-overlapping occurrence,
/// scanning left to right, is replaced.
pub open spec fn replace_all(s: Seq<char>, p: Seq<char>, r: Seq<char>) -> Seq<char>
    decreases s.len(),
{
    if s.len() == 0 || p.len() == 0 {
        s
    } else if p.is_prefix_of(s) {
        r + replace_all(s.subrange(p.len() as int, s.len() as int), p, r)
    } else {
        seq![s[0]] + replace_all(s.subrange(1, s.len() as int), p, r)
    }
}

/// Whether `p` occurs in `s` starting at `i`.
pub fn matches_at(s: &Vec<char>, i: usize, p: &Vec<char>) -> (r: bool)
    requires
        i <= s.len(),
    ensures
        r == p@.is_prefix_of(s@.subrange(i as int, s.len() as int)),
{
    if p.len() > s.len() - i {
        return false;
    }
    let mut k: usize = 0;
    while k < p.len()
        invariant
            k <= p.len(),
            p.len() <= s.len() - i,
            forall|m: int| 0 <= m < k ==> p@[m] == s@[i + m],
        decreases p.len() - k,
    {
        if p[k] != s[i + k] {
            assert(s@.subrange(i as int, s.len() as int)[k as int] == s@[i + k]);
            return false;
        }
        k = k + 1;
    }
    assert(p@ =~= s@.subrange(i as int, s.len() as int).subrange(0, p.len() as int));
    true
}

/// `str::replace` with a non-empty pattern.
pub fn replace_all_str(s: &str, pat: &str, rep: &str) -> (res: String)
    requires
        pat@.len() > 0,
    ensures
        res@ == replace_all(s@, pat@, rep@),
{
    let sv = chars_of(s);
    let pv = chars_of(pat);
    let mut out = String::new();
    let mut i: usize = 0;
    assert(sv@.subrange(0, sv.len() as int) =~= sv@);
    while i < sv.len()
        invariant
            i <= sv.len(),
            sv@ == s@,
            pv@ == pat@,
            pat@.len() > 0,
            replace_all(s@, pat@, rep@) == out@ + replace_all(
                sv@.subrange(i as int, sv.len() as int),
                pat@,
                rep@,
            ),
        decreases sv.len() - i,
    {
        let ghost t = sv@.subrange(i as int, sv.len() as int);
        if matches_at(&sv, i, &pv) {
            push_str(&mut out, rep);
            assert(t.subrange(pv.len() as int, t.len() as int) =~= sv@.subrange(
                i + pv.len(),
                sv.len() as int,
            ));
            i = i + pv.len();
        } else {
            push_char(&mut out, sv[i]);
            assert(t.subrange(1, t.len() as int) =~= sv@.subrange(i + 1, sv.len() as int));
            i = i + 1;
        }
    }
    assert(sv@.subrange(sv.len() as int, sv.len() as int) =~= Seq::<char>::empty());
    out
}

/// Each `from` character replaced by `to` (`str::replace` with one-char patterns).
pub open spec fn replace_char(s: Seq<char>, from: char, to: char) -> Seq<char> {
    s.map_values(|c: char| if c == from { to } else { c })
}

pub fn replace_char_str(s: &str, from: char, to: char) -> (res: String)
    ensures
        res@ == replace_char(s@, from, to),
{
    let v = chars_of(s);
    let mut out = String::new();
    let mut i: usize = 0;
    while i < v.len()
        invariant
            i <= v.len(),
            v@ == s@,
            out@ == replace_char(s@.take(i as int), from, to),
        decreases v.len() - i,
    {
        let c = v[i];
        push_char(&mut out, if c == from { to } else { c });
        i = i + 1;
        assert(replace_char(s@.take(i as int), from, to) =~= replace_char(
            s@.take((i - 1) as int),
            from,
            to,
        ).push(if c == from { to } else { c }));
    }
    assert(s@.take(v.len() as int) =~= s@);
    out
}

/// String equality by characters.
pub fn str_eq(a: &str, b: &str) -> (r: bool)
    ensures
        r == (a@ == b@),
{
    let av = chars_of(a);
    let bv = chars_of(b);
    if av.len() != bv.len() {
        return false;
    }
    let mut i: usize = 0;
    while i < av.len()
        invariant
            i <= av.len(),
            av.len() == bv.len(),
            av@ == a@,
            bv@ == b@,
            forall|j: int| 0 <= j < i ==> a@[j] == b@[j],
        decreases av.len() - i,
    {
        if av[i] != bv[i] {
            return false;
        }
        i = i + 1;
    }
    assert(a@ =~= b@);
    true
}

/// `str::starts_with`.
pub fn starts_with(s: &str, p: &str) -> (r: bool)
    ensures
        r == p@.is_prefix_of(s@),
{
    let sv = chars_of(s);
    let pv = chars_of(p);
    let r = matches_at(&sv, 0, &pv);
    assert(sv@.subrange(0, sv.len() as int) =~= sv@);
    r
}

/// `str::ends_with`.
pub open spec fn is_suffix(p: Seq<char>, s: Seq<char>) -> bool {
    p.len() <= s.len() && s.subrange(s.len() - p.len(), s.len() as int) == p
}

pub fn ends_with(s: &str, p: &str) -> (r: bool)
    ensures
        r == is_suffix(p@, s@),
{
    let sv = chars_of(s);
    let pv = chars_of(p);
    if pv.len() > sv.len() {
        return false;
    }
    let r = matches_at(&sv, sv.len() - pv.len(), &pv);
    proof {
        let t = sv@.subrange(sv.len() - pv.len(), sv.len() as int);
        assert(t.subrange(0, pv.len() as int) =~= t);
    }
    r
}

/// `str::strip_prefix`.
pub fn strip_prefix(s: &str, p: &str) -> (r: Option<String>)
    ensures
        r is Some <==> p@.is_prefix_of(s@),
        r matches Some(t) ==> t@ == s@.subrange(p@.len() as int, s@.len() as int),
{
    let sv = chars_of(s);
    let pv = chars_of(p);
    assert(sv@.subrange(0, sv.len() as int) =~= sv@);
    if matches_at(&sv, 0, &pv) {
        let tail = slice_chars(&sv, pv.len(), sv.len());
        Some(from_chars(tail.as_slice()))
    } else {
        None
    }
}

/// The characters `v[from..to]`.
pub fn slice_chars(v: &Vec<char>, from: usize, to: usize) -> (res: Vec<char>)
    requires
        from <= to <= v.len(),
    ensures
        res@ == v@.subrange(from as int, to as int),
{
    let mut out: Vec<char> = Vec::new();
    let mut k = from;
    while k < to
        invariant
            from <= k <= to <= v.len(),
            out@ == v@.subrange(from as int, k as int),
        decreases to - k,
    {
        out.push(v[k]);
        k = k + 1;
        assert(out@ =~= v@.subrange(from as int, k as int));
    }
    out
}

/// Whether `p` occurs somewhere in `s` (`str::contains`).
pub open spec fn contains_seq(s: Seq<char>, p: Seq<char>) -> bool {
    exists|i: int| 0 <= i <= s.len() - p.len() && #[trigger] s.subrange(i, i + p.len()) == p
}

pub fn contains_str(s: &str, p: &str) -> (r: bool)
    ensures
        r == contains_seq(s@, p@),
{
    let sv = chars_of(s);
    let pv = chars_of(p);
    if pv.len() > sv.len() {
        return false;
    }
    let mut i: usize = 0;
    while i <= sv.len() - pv.len()
        invariant
            pv.len() <= sv.len(),
            i <= sv.len() - pv.len() + 1,
            sv@ == s@,
            pv@ == p@,
            forall|j: int| 0 <= j < i ==> #[trigger] s@.subrange(j, j + p@.len()) != p@,
        decreases sv.len() - pv.len() + 1 - i,
    {
        if matches_at(&sv, i, &pv) {
            assert(sv@.subrange(i as int, sv.len() as int).subrange(0, pv.len() as int)
                =~= sv@.subrange(i as int, i + pv.len()));
            return true;
        }
        assert(sv@.subrange(i as int, sv.len() as int).subrange(0, pv.len() as int)
            =~= sv@.subrange(i as int, i + pv.len()));
        i = i + 1;
    }
    false
}

/// Whether the character occurs in the string.
pub fn contains_char(s: &str, c: char) -> (r: bool)
    ensures
        r == s@.contains(c),
{
    let v = chars_of(s);
    let mut i: usize = 0;
    while i < v.len()
        invariant
            i <= v.len(),
            v@ == s@,
            forall|j: int| 0 <= j < i ==> s@[j] != c,
        decreases v.len() - i,
    {
        if v[i] == c {
            return true;
        }
        i = i + 1;
    }
    false
}

/// ASCII lower-casing of one character.
pub open spec fn ascii_lower(c: char) -> char {
    if 'A' <= c && c <= 'Z' {
        ((c as u32) + 32) as char
    } else {
        c
    }
}

pub fn to_ascii_lower_char(c: char) -> (r: char)
    ensures
        r == ascii_lower(c),
{
    if 'A' <= c && c <= 'Z' {
        ((c as u8) + 32) as char
    } else {
        c
    }
}

/// ASCII upper-casing of one character.
pub open spec fn ascii_upper(c: char) -> char {
    if 'a' <= c && c <= 'z' {
        ((c as u32) - 32) as char
    } else {
        c
    }
}

pub open spec fn lower_seq(s: Seq<char>) -> Seq<char> {
    s.map_values(|c: char| ascii_lower(c))
}

pub open spec fn upper_seq(s: Seq<char>) -> Seq<char> {
    s.map_values(|c: char| ascii_upper(c))
}

pub fn to_ascii_upper_char(c: char) -> (r: char)
    ensures
        r == ascii_upper(c),
{
    if 'a' <= c && c <= 'z' {
        ((c as u8) - 32) as char
    } else {
        c
    }
}

/// `str::to_ascii_lowercase`.
pub fn to_ascii_lowercase(s: &str) -> (res: String)
    ensures
        res@ == lower_seq(s@),
{
    let v = chars_of(s);
    let mut out = String::new();
    let mut i: usize = 0;
    while i < v.len()
        invariant
            i <= v.len(),
            v@ == s@,
            out@ == lower_seq(s@.take(i as int)),
        decreases v.len() - i,
    {
        let c = to_ascii_lower_char(v[i]);
        push_char(&mut out, c);
        i = i + 1;
        assert(lower_seq(s@.take(i as int)) =~= lower_seq(s@.take((i - 1) as int)).push(c));
    }
    assert(s@.take(v.len() as int) =~= s@);
    out
}

/// `str::to_ascii_uppercase`.
pub fn to_ascii_uppercase(s: &str) -> (res: String)
    ensures
        res@ == upper_seq(s@),
{
    let v = chars_of(s);
    let mut out = String::new();
    let mut i: usize = 0;
    while i < v.len()
        invariant
            i <= v.len(),
            v@ == s@,
            out@ == upper_seq(s@.take(i as int)),
        decreases v.len() - i,
    {
        let c = to_ascii_upper_char(v[i]);
        push_char(&mut out, c);
        i = i + 1;
        assert(upper_seq(s@.take(i as int)) =~= upper_seq(s@.take((i - 1) as int)).push(c));
    }
    assert(s@.take(v.len() as int) =~= s@);
    out
}

/// `str::eq_ignore_ascii_case`.
pub open spec fn eq_ignore_case(a: Seq<char>, b: Seq<char>) -> bool {
    lower_seq(a) == lower_seq(b)
}

pub fn eq_ignore_ascii_case(a: &str, b: &str) -> (r: bool)
    ensures
        r == eq_ignore_case(a@, b@),
{
    let av = chars_of(a);
    let bv = chars_of(b);
    if av.len() != bv.len() {
        assert(lower_seq(a@).len() != lower_seq(b@).len());
        return false;
    }
    let mut i: usize = 0;
    while i < av.len()
        invariant
            i <= av.len(),
            av.len() == bv.len(),
            av@ == a@,
            bv@ == b@,
            forall|j: int| 0 <= j < i ==> ascii_lower(a@[j]) == ascii_lower(b@[j]),
        decreases av.len() - i,
    {
        if to_ascii_lower_char(av[i]) != to_ascii_lower_char(bv[i]) {
            assert(lower_seq(a@)[i as int] != lower_seq(b@)[i as int]);
            return false;
        }
        i = i + 1;
    }
    assert(lower_seq(a@) =~= lower_seq(b@));
    true
}

/// What `str::to_lowercase` (full Unicode lower-casing) returns for a string.
pub uninterp spec fn spec_unicode_lowercase(s: Seq<char>) -> Seq<char>;

/// Calls `str::to_lowercase`. Claimed: the result is a function of the
/// characters of `s` alone; what that function is (Unicode case mapping) is
/// not stated.
#[verifier::external_body]
pub(crate) fn unicode_lowercase(s: &str) -> (res: String)
    ensures
        res@ == spec_unicode_lowercase(s@),
{
    s.to_lowercase()
}

} // verus!

verus! {

pub open spec fn is_digit_char(c: char) -> bool {
    '0' <= c && c <= '9'
}

/// The value of a string of decimal digits.
pub open spec fn digits_value(s: Seq<char>) -> nat
    decreases s.len(),
{
    if s.len() == 0 {
        0
    } else {
        digits_value(s.drop_last()) * 10 + ((s.last() as int - '0' as int) as nat)
    }
}

/// Whether `s` opens with a `+` or `-` sign.
pub open spec fn has_sign(s: Seq<char>) -> bool {
    s.len() > 0 && (s[0] == '+' || s[0] == '-')
}

/// `s` without its sign.
pub open spec fn unsigned_part(s: Seq<char>) -> Seq<char> {
    if has_sign(s) { s.skip(1) } else { s }
}

pub open spec fn all_digits(s: Seq<char>) -> bool {
    forall|i: int| 0 <= i < s.len() ==> is_digit_char(#[trigger] s[i])
}

/// What `str::parse::<i64>` accepts and gives: an optional `+` or `-`, then
/// one or more ASCII digits, whose value fits `i64`.
pub open spec fn parse_i64_spec(s: Seq<char>) -> Option<int> {
    let ds = unsigned_part(s);
    let v = if has_sign(s) && s[0] == '-' { -(digits_value(ds) as int) } else { digits_value(ds) as int };
    if ds.len() == 0 || !all_digits(ds) {
        None
    } else if i64::MIN <= v && v <= i64::MAX {
        Some(v)
    } else {
        None
    }
}

/// `str::parse::<i64>`.
pub fn parse_i64(s: &str) -> (r: Option<i64>)
    ensures
        match parse_i64_spec(s@) {
            Some(v) => r == Some(v as i64),
            None => r is None,
        },
{
    let cs = chars_of(s);
    let n = cs.len();
    let signed = n > 0 && (cs[0] == '+' || cs[0] == '-');
    let neg = signed && cs[0] == '-';
    let start: usize = if signed { 1 } else { 0 };
    let ghost ds = unsigned_part(s@);
    if start == n {
        return None;
    }
    let bound: u128 = 9223372036854775808;
    let mut acc: u128 = 0;
    let mut over = false;
    let mut i = start;
    assert(ds.take(0) =~= Seq::<char>::empty());
    while i < n
        invariant
            start <= i <= n,
            n == cs@.len(),
            cs@ == s@,
            start == (if signed { 1usize } else { 0usize }),
            signed ==> n > 0,
            ds == unsigned_part(s@),
            ds.len() == n - start,
            forall|k: int| 0 <= k < ds.len() ==> ds[k] == s@[k + start],
            forall|k: int| 0 <= k < i - start ==> is_digit_char(#[trigger] ds[k]),
            over <==> digits_value(ds.take(i - start)) > bound,
            !over ==> acc == digits_value(ds.take(i - start)),
            acc <= bound,
            bound == 9223372036854775808u128,
            neg == (signed && s@[0] == '-'),
            signed == (s@.len() > 0 && (s@[0] == '+' || s@[0] == '-')),
        decreases n - i,
    {
        let c = cs[i];
        if !('0' <= c && c <= '9') {
            proof {
                assert(ds[i - start] == c);
                assert(!is_digit_char(ds[i - start]));
            }
            return None;
        }
        let ghost pre = ds.take(i - start);
        let ghost nxt = ds.take(i - start + 1);
        assert(nxt.drop_last() =~= pre);
        assert(nxt.last() == c);
        let d = (c as u32 - 48) as u128;
        if !over {
            let next = acc * 10 + d;
            if next > bound {
                over = true;
            } else {
                acc = next;
            }
        }
        i = i + 1;
    }
    assert(ds.take(n - start) =~= ds);
    assert(forall|k: int| 0 <= k < ds.len() ==> is_digit_char(#[trigger] ds[k]));
    if over {
        return None;
    }
    if neg {
        Some((0i128 - (acc as i128)) as i64)
    } else if acc < bound {
        Some(acc as i64)
    } else {
        None
    }
}

} // verus!

verus! {

/// The text of each string.
pub open spec fn views(v: Seq<String>) -> Seq<Seq<char>> {
    v.map_values(|s: String| s@)
}

/// Pieces joined with a separator between each two (`[T]::join`).
pub open spec fn joined(cs: Seq<Seq<char>>, sep: Seq<char>) -> Seq<char>
    decreases cs.len(),
{
    if cs.len() == 0 {
        Seq::empty()
    } else if cs.len() == 1 {
        cs[0]
    } else {
        joined(cs.drop_last(), sep) + sep + cs.last()
    }
}

/// `parts.join(sep)`.
pub fn join_strings(parts: &Vec<String>, sep: &str) -> (r: String)
    ensures
        r@ == joined(views(parts@), sep@),
{
    let mut out = String::new();
    let mut i: usize = 0;
    assert(views(parts@).take(0) =~= Seq::<Seq<char>>::empty());
    while i < parts.len()
        invariant
            i <= parts@.len(),
            out@ == joined(views(parts@).take(i as int), sep@),
        decreases parts.len() - i,
    {
        let ghost pre = views(parts@).take(i as int);
        let ghost nxt = views(parts@).take(i + 1);
        assert(nxt.drop_last() =~= pre);
        assert(nxt.last() == parts@[i as int]@);
        if i > 0 {
            push_str(&mut out, sep);
        }
        push_str(&mut out, parts[i].as_str());
        proof {
            if i == 0 {
                assert(nxt =~= seq![parts@[0]@]);
            } else {
                assert(out@ =~= joined(pre, sep@) + sep@ + nxt.last());
            }
        }
        i = i + 1;
    }
    assert(views(parts@).take(parts@.len() as int) =~= views(parts@));
    out
}

} // verus!

verus! {

pub proof fn lemma_dec_len(n: nat)
    ensures
        dec(n).len() >= 1,
        n >= 10 ==> dec(n).len() >= 2,
    decreases n,
{
    if n >= 10 {
        lemma_dec_len(n / 10);
    }
}

/// Different numbers print differently.
pub proof fn lemma_dec_injective(a: nat, b: nat)
    requires
        dec(a) == dec(b),
    ensures
        a == b,
    decreases a,
{
    lemma_dec_len(a);
    lemma_dec_len(b);
    if a < 10 && b < 10 {
        assert(dec(a)[0] == digit_char(a));
        assert(dec(b)[0] == digit_char(b));
        assert(((a + 48) as u32) == ((b + 48) as u32));
    } else if a >= 10 && b >= 10 {
        assert(dec(a).last() == digit_char(a % 10));
        assert(dec(b).last() == digit_char(b % 10));
        assert((((a % 10) + 48) as u32) == (((b % 10) + 48) as u32));
        assert(dec(a).drop_last() == dec(a / 10));
        assert(dec(b).drop_last() == dec(b / 10));
        lemma_dec_injective(a / 10, b / 10);
    } else {
        assert(dec(a).len() != dec(b).len());
    }
}

} // verus!

verus! {

/// `head`, the decimal number `k`, then `tail`.
pub open spec fn numbered(head: Seq<char>, k: nat, tail: Seq<char>) -> Seq<char> {
    head + dec(k) + tail
}

pub proof fn lemma_numbered_injective(head: Seq<char>, tail: Seq<char>, a: nat, b: nat)
    requires
        numbered(head, a, tail) == numbered(head, b, tail),
    ensures
        a == b,
{
    let x = numbered(head, a, tail);
    let y = numbered(head, b, tail);
    assert(dec(a) =~= x.subrange(head.len() as int, x.len() - tail.len()));
    assert(dec(b) =~= y.subrange(head.len() as int, y.len() - tail.len()));
    lemma_dec_injective(a, b);
}

/// The numbered texts for `lo <= k < lo + n`.
pub open spec fn numbered_set(head: Seq<char>, tail: Seq<char>, lo: nat, n: nat) -> Set<Seq<char>>
    decreases n,
{
    if n == 0 {
        Set::empty()
    } else {
        numbered_set(head, tail, lo, (n - 1) as nat).insert(numbered(head, (lo + n - 1) as nat, tail))
    }
}

pub proof fn lemma_numbered_set(head: Seq<char>, tail: Seq<char>, lo: nat, n: nat)
    ensures
        numbered_set(head, tail, lo, n).finite(),
        numbered_set(head, tail, lo, n).len() == n,
        forall|x: Seq<char>| #[trigger] numbered_set(head, tail, lo, n).contains(x) ==> exists|j: nat| lo <= j < lo + n && x == numbered(head, j, tail),
    decreases n,
{
    if n > 0 {
        let m = (n - 1) as nat;
        lemma_numbered_set(head, tail, lo, m);
        let x = numbered(head, (lo + n - 1) as nat, tail);
        if numbered_set(head, tail, lo, m).contains(x) {
            let j = choose|j: nat| lo <= j < lo + m && x == numbered(head, j, tail);
            lemma_numbered_injective(head, tail, j, (lo + n - 1) as nat);
        }
        assert forall|y: Seq<char>| #[trigger] numbered_set(head, tail, lo, n).contains(y) implies exists|j: nat| lo <= j < lo + n && y == numbered(head, j, tail) by {
            if y != x {
                assert(numbered_set(head, tail, lo, m).contains(y));
            } else {
                let k: nat = (lo + n - 1) as nat;
                assert(lo <= k && k < lo + n && y == numbered(head, k, tail));
            }
        }
    }
}

/// When names hold every numbered text for `lo <= k < lo + n`, there are at least `n` names.
pub proof fn lemma_numbered_all_taken(head: Seq<char>, tail: Seq<char>, names: Seq<Seq<char>>, lo: nat, n: nat)
    requires
        forall|j: nat| lo <= j < lo + n ==> names.contains(#[trigger] numbered(head, j, tail)),
    ensures
        n <= names.len(),
{
    lemma_numbered_set(head, tail, lo, n);
    assert(numbered_set(head, tail, lo, n).subset_of(names.to_set())) by {
        assert forall|x: Seq<char>| #[trigger] numbered_set(head, tail, lo, n).contains(x) implies names.to_set().contains(x) by {
            let j = choose|j: nat| lo <= j < lo + n && x == numbered(head, j, tail);
            assert(names.contains(numbered(head, j, tail)));
        }
    }
    vstd::set_lib::lemma_len_subset(numbered_set(head, tail, lo, n), names.to_set());
    names.lemma_cardinality_of_set();
}

} // verus!
