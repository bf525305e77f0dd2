//! Generated identifiers: random ones, and short ones made from the time
//! and a counter.

use vstd::prelude::*;
use crate::text::{dec, lemma_trim_of_unpadded, lemma_trim_idempotent, lemma_numbered_all_taken, numbered, push_char, push_str, trim, trim_str, u64_to_string, views, str_eq, copy_string};
use crate::params::contains_string;

verus! {

/// Lower-case hexadecimal digit.
pub open spec fn is_lower_hex(c: char) -> bool {
    ('0' <= c && c <= '9') || ('a' <= c && c <= 'f')
}

/// Calls `uuid::Uuid::new_v4().simple().to_string()`. Claimed: 32 lower-case
/// hexadecimal digits; which ones is left open (they are random).
#[verifier::external_body]
pub(crate) fn new_uuid_simple() -> (s: String)
    ensures
        s@.len() == 32,
        forall|i: int| 0 <= i < 32 ==> is_lower_hex(#[trigger] s@[i]),
{
    uuid::Uuid::new_v4().simple().to_string()
}

/// `<prefix>_<32 hex digits>`, the shape of a generated identifier.
pub open spec fn is_generated_id(s: Seq<char>, prefix: Seq<char>) -> bool {
    &&& s.len() == prefix.len() + 32
    &&& s.subrange(0, prefix.len() as int) == prefix
    &&& forall|i: int| prefix.len() <= i < s.len() ==> is_lower_hex(#[trigger] s[i])
}

/// A fresh identifier `<prefix><uuid>`.
pub fn generated_id(prefix: &str) -> (s: String)
    ensures
        is_generated_id(s@, prefix@),
{
    let u = new_uuid_simple();
    let s = crate::text::concat2(prefix, u.as_str());
    assert(s@.subrange(0, prefix@.len() as int) =~= prefix@);
    assert forall|i: int| prefix@.len() <= i < s@.len() implies is_lower_hex(#[trigger] s@[i]) by {
        assert(s@[i] == u@[i - prefix@.len()]);
    }
    s
}


/// Lower-case hexadecimal digit of `d < 16`.
pub open spec fn hex_digit(d: nat) -> char {
    if d < 10 { ((d + 48) as u32) as char } else { ((d + 87) as u32) as char }
}

/// Lower-case hexadecimal rendering (`{:x}`).
pub open spec fn hex(n: nat) -> Seq<char>
    decreases n,
{
    if n < 16 {
        seq![hex_digit(n)]
    } else {
        hex(n / 16).push(hex_digit(n % 16))
    }
}

fn push_hex(out: &mut String, n: u128)
    ensures
        final(out)@ == old(out)@ + hex(n as nat),
    decreases n,
{
    if n >= 16 {
        push_hex(out, n / 16);
    }
    let d = (n % 16) as u32;
    let c = if d < 10 { ((d + 48) as u8) as char } else { ((d + 87) as u8) as char };
    assert(c == hex_digit((n % 16) as nat));
    push_char(out, c);
    proof {
        if n >= 16 {
            assert(hex(n as nat) == hex((n / 16) as nat).push(hex_digit((n % 16) as nat)));
        }
    }
}

/// The last 12 characters of a text, or all of it when shorter.
pub open spec fn last12(s: Seq<char>) -> Seq<char> {
    if s.len() <= 12 { s } else { s.subrange(s.len() - 12, s.len() as int) }
}

/// A short identifier: the time and the counter in hexadecimal, its last 12 characters.
pub open spec fn short_id_text(nanos: nat, counter: nat) -> Seq<char> {
    last12(hex(nanos) + hex(counter))
}

pub fn short_internal_id(nanos: u128, counter: u64) -> (r: String)
    ensures
        r@ == short_id_text(nanos as nat, counter as nat),
{
    let mut raw = String::new();
    push_hex(&mut raw, nanos);
    push_hex(&mut raw, counter as u128);
    let cs = crate::text::chars_of(raw.as_str());
    if cs.len() <= 12 {
        raw
    } else {
        let tail = crate::text::slice_chars(&cs, cs.len() - 12, cs.len());
        crate::text::from_chars(tail.as_slice())
    }
}

/// The system clock's time, as std declares it.
#[verifier::external_type_specification]
#[verifier::external_body]
pub struct ExSystemTime(std::time::SystemTime);

/// Calls `std::time::SystemTime::now()`. Nothing is claimed of the time.
#[verifier::external_body]
fn system_time_now() -> (t: std::time::SystemTime) {
    std::time::SystemTime::now()
}

/// Calls `SystemTime::duration_since(UNIX_EPOCH)` on the time: how long after
/// the Unix epoch it is, `None` for a time before it. Nothing is claimed of
/// the value (it depends on the clock).
#[verifier::external_body]
fn since_unix_epoch(t: &std::time::SystemTime) -> (d: Option<core::time::Duration>) {
    t.duration_since(std::time::UNIX_EPOCH).ok()
}

/// Calls `Duration::as_nanos`. Nothing is claimed of the value, as nothing
/// here states what a `Duration` holds.
#[verifier::external_body]
fn duration_nanos(d: &core::time::Duration) -> (n: u128) {
    d.as_nanos()
}

/// The nanoseconds since the Unix epoch by the system clock, 0 for a time
/// before it.
fn now_unix_nanos() -> (r: u128) {
    let now = system_time_now();
    match since_unix_epoch(&now) {
        Some(d) => duration_nanos(&d),
        None => 0,
    }
}

/// The counter that makes short identifiers made in the same instant differ.
pub struct IdCounter {
    pub next: u64,
}

impl IdCounter {
    pub fn new() -> (r: IdCounter)
        ensures
            r.next == 0,
    {
        IdCounter { next: 0 }
    }

    /// A short identifier from the current time and the counter, which then
    /// moves on (wrapping).
    pub fn generate_short_internal_id(&mut self) -> (r: String)
        ensures
            exists|n: nat| r@ == #[trigger] short_id_text(n, old(self).next as nat),
            final(self).next == (if old(self).next == u64::MAX { 0 } else { (old(self).next + 1) as u64 }),
    {
        let counter = self.next;
        self.next = if counter == u64::MAX { 0 } else { counter + 1 };
        let nanos = now_unix_nanos();
        let r = short_internal_id(nanos, counter);
        assert(r@ == short_id_text(nanos as nat, counter as nat));
        r
    }
}

/// The text with `_` and a number after it.
pub open spec fn with_suffix(c: Seq<char>, k: nat) -> Seq<char> {
    numbered(c + "_"@, k, Seq::empty())
}

/// `candidate` itself when not in use, else the first `candidate_<k>`
/// (from 1 on) not in use.
pub open spec fn fresh_from(candidate: Seq<char>, used: Seq<Seq<char>>, r: Seq<char>) -> bool {
    if !used.contains(candidate) {
        r == candidate
    } else {
        exists|k: nat|
            #![trigger with_suffix(candidate, k)]
            k >= 1 && r == with_suffix(candidate, k) && !used.contains(r) && (forall|j: nat|
                1 <= j < k ==> used.contains(#[trigger] with_suffix(candidate, j)))
    }
}

/// A text not in use made from a candidate (see `fresh_from`).
pub fn fresh_text(candidate: String, used: &Vec<String>) -> (r: String)
    ensures
        fresh_from(candidate@, views(used@), r@),
        !views(used@).contains(r@),
{
    proof { reveal_strlit("_"); }
    if !contains_string(used, candidate.as_str()) {
        return candidate;
    }
    let ghost names = views(used@);
    let ghost c = candidate@;
    let count = used.len();
    assert(used@.len() == count);
    let mut k: u128 = 1;
    loop
        invariant
            1 <= k <= used@.len() + 1,
            used@.len() <= usize::MAX,
            names == views(used@),
            c == candidate@,
            names.contains(c),
            forall|j: nat| 1 <= j < k ==> names.contains(#[trigger] with_suffix(c, j)),
        decreases used@.len() + 1 - k,
    {
        let mut next = copy_string(candidate.as_str());
        push_str(&mut next, "_");
        let d = crate::text::u128_to_string(k);
        push_str(&mut next, d.as_str());
        assert(next@ =~= with_suffix(c, k as nat));
        if !contains_string(used, next.as_str()) {
            return next;
        }
        proof {
            assert forall|j: nat| 1 <= j < 1 + k as nat implies names.contains(#[trigger] numbered(c + "_"@, j, Seq::empty())) by {
                assert(names.contains(with_suffix(c, j)));
            }
            lemma_numbered_all_taken(c + "_"@, Seq::empty(), names, 1, k as nat);
        }
        k = k + 1;
    }
}

/// Whether a text is one of the short identifiers (`short_id_text`).
pub open spec fn is_short_id(s: Seq<char>) -> bool {
    exists|n: nat, c: nat| s == #[trigger] short_id_text(n, c)
}

/// What a fresh project field is: a short identifier, or, once more than
/// `u64::MAX` identifiers in a row were all taken, the last of them made
/// unique by `fresh_from`.
pub open spec fn is_fresh_field_value(r: Seq<char>, used: Seq<Seq<char>>) -> bool {
    ||| is_short_id(r)
    ||| exists|n: nat, c: nat| #[trigger] fresh_from(short_id_text(n, c), used, r)
}

/// Short identifiers are drawn from the counter, one after another, until one
/// is not in use. A loop must end, so after `u64::MAX` taken draws the last
/// one is made unique with a suffix instead.
fn draw_fresh_short_id(used: &Vec<String>, counter: &mut IdCounter) -> (r: String)
    ensures
        !views(used@).contains(r@),
        is_fresh_field_value(r@, views(used@)),
        r@.len() > 0,
        trim(r@) == r@,
{
    let mut attempts: u64 = 0;
    loop
        decreases u64::MAX - attempts,
    {
        let candidate = counter.generate_short_internal_id();
        let ghost c = candidate@;
        proof {
            let (n, k) = choose|n: nat, k: nat| c == #[trigger] short_id_text(n, k);
            lemma_short_id_trimmed(n, k);
        }
        if !contains_string(used, candidate.as_str()) {
            return candidate;
        }
        if attempts == u64::MAX {
            let r = fresh_text(candidate, used);
            proof {
                let (n, k) = choose|n: nat, k: nat| c == #[trigger] short_id_text(n, k);
                assert(fresh_from(short_id_text(n, k), views(used@), r@));
                let j = choose|j: nat|
                    #![trigger with_suffix(c, j)]
                    j >= 1 && r@ == with_suffix(c, j) && !views(used@).contains(r@) && (forall|i: nat|
                        1 <= i < j ==> views(used@).contains(#[trigger] with_suffix(c, i)));
                lemma_suffixed_trimmed(c, j);
            }
            return r;
        }
        attempts = attempts + 1;
    }
}

/// A field of a project that must be unique (its id, its workspace key):
/// its trimmed value when that is given and not taken, else a new short
/// identifier not taken (see `draw_fresh_short_id`). The result is recorded
/// as taken.
pub fn normalize_project_field(raw: &str, used: &mut Vec<String>, counter: &mut IdCounter) -> (r: String)
    ensures
        views(final(used)@) == views(old(used)@).push(r@),
        !views(old(used)@).contains(r@),
        r@.len() > 0,
        trim(r@) == r@,
        (trim(raw@).len() > 0 && !views(old(used)@).contains(trim(raw@))) ==> r@ == trim(raw@),
        !(trim(raw@).len() > 0 && !views(old(used)@).contains(trim(raw@))) ==> is_fresh_field_value(r@, views(old(used)@)),
{
    let t = trim_str(raw);
    if !t.as_str().is_empty() && !contains_string(used, t.as_str()) {
        let ghost before = used@;
        used.push(copy_string(t.as_str()));
        assert(views(used@) =~= views(before).push(t@));
        proof { lemma_trim_idempotent(raw@); }
        return t;
    }
    let r = draw_fresh_short_id(used, counter);
    let ghost before = used@;
    used.push(copy_string(r.as_str()));
    assert(views(used@) =~= views(before).push(r@));
    r
}

proof fn lemma_hex_all_hex(n: nat)
    ensures
        forall|i: int| 0 <= i < hex(n).len() ==> is_lower_hex(#[trigger] hex(n)[i]),
    decreases n,
{
    if n >= 16 {
        lemma_hex_all_hex(n / 16);
        let d = n % 16;
        assert(is_lower_hex(hex_digit(d)));
        let h = hex(n / 16);
        assert(hex(n) == h.push(hex_digit(d)));
        assert forall|i: int| 0 <= i < hex(n).len() implies is_lower_hex(#[trigger] hex(n)[i]) by {
            if i < h.len() {
                assert(hex(n)[i] == h[i]);
            }
        }
    } else {
        assert(is_lower_hex(hex_digit(n)));
    }
}

proof fn lemma_short_id_trimmed(n: nat, c: nat)
    ensures
        short_id_text(n, c).len() > 0,
        is_lower_hex(short_id_text(n, c)[0]),
        trim(short_id_text(n, c)) == short_id_text(n, c),
{
    lemma_hex_len(n);
    lemma_hex_all_hex(n);
    lemma_hex_all_hex(c);
    let raw = hex(n) + hex(c);
    assert forall|i: int| 0 <= i < raw.len() implies is_lower_hex(#[trigger] raw[i]) by {
        if i < hex(n).len() {
            assert(raw[i] == hex(n)[i]);
        } else {
            assert(raw[i] == hex(c)[i - hex(n).len()]);
        }
    }
    let s = short_id_text(n, c);
    assert(forall|i: int| 0 <= i < s.len() ==> is_lower_hex(#[trigger] s[i])) by {
        if raw.len() > 12 {
            assert forall|i: int| 0 <= i < s.len() implies is_lower_hex(#[trigger] s[i]) by {
                assert(s[i] == raw[raw.len() - 12 + i]);
            }
        }
    }
    assert(is_lower_hex(s[0]));
    assert(is_lower_hex(s[s.len() - 1]));
    lemma_trim_of_unpadded(s);
}

proof fn lemma_dec_last_digit(k: nat)
    ensures
        dec(k).len() > 0,
        '0' <= dec(k).last() <= '9',
    decreases k,
{
    crate::text::lemma_dec_len(k);
}

proof fn lemma_suffixed_trimmed(c: Seq<char>, k: nat)
    requires
        c.len() > 0,
        is_lower_hex(c[0]),
    ensures
        with_suffix(c, k).len() > 0,
        trim(with_suffix(c, k)) == with_suffix(c, k),
{
    lemma_dec_last_digit(k);
    let s = with_suffix(c, k);
    assert(s == c + "_"@ + dec(k));
    assert(s[0] == c[0]);
    assert(s.last() == dec(k).last());
    lemma_trim_of_unpadded(s);
}

pub proof fn lemma_hex_len(n: nat)
    ensures
        hex(n).len() >= 1,
    decreases n,
{
    if n >= 16 {
        lemma_hex_len(n / 16);
    }
}

/// `{:04x}`: hexadecimal, padded with `0` to at least four digits.
pub open spec fn hex4(n: nat) -> Seq<char> {
    let h = hex(n);
    if h.len() >= 4 { h } else { Seq::new((4 - h.len()) as nat, |i: int| '0') + h }
}

pub fn hex4_string(n: u16) -> (r: String)
    ensures
        r@ == hex4(n as nat),
{
    let mut h = String::new();
    push_hex(&mut h, n as u128);
    let len = crate::text::chars_of(h.as_str()).len();
    if len >= 4 {
        return h;
    }
    let mut out = String::new();
    let mut k: usize = 0;
    while k < 4 - len
        invariant
            len < 4,
            k <= 4 - len,
            out@ =~= Seq::new(k as nat, |i: int| '0'),
        decreases 4 - len - k,
    {
        push_char(&mut out, '0');
        k = k + 1;
    }
    push_str(&mut out, h.as_str());
    out
}

} // verus!
