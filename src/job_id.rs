//! Job identifiers: ULIDs rendered in Crockford's base 32.

use vstd::prelude::*;

verus! {

/// Number of characters of a ULID's text.
pub const ULID_TEXT_LEN: usize = 26;

/// Code point of the base-32 digit `d` in Crockford's alphabet
/// `0123456789ABCDEFGHJKMNPQRSTVWXYZ` (the letters I, L, O and U are left out).
pub open spec fn crockford_code(d: int) -> u32 {
    if d < 10 {
        (48 + d) as u32
    } else if d < 18 {
        (65 + (d - 10)) as u32
    } else if d < 20 {
        (74 + (d - 18)) as u32
    } else if d < 22 {
        (77 + (d - 20)) as u32
    } else if d < 27 {
        (80 + (d - 22)) as u32
    } else {
        (86 + (d - 27)) as u32
    }
}

/// The last `n` base-32 digits of `v`, most significant first, as characters.
pub open spec fn crockford_digits(v: nat, n: nat) -> Seq<char>
    decreases n,
{
    if n == 0 {
        Seq::empty()
    } else {
        crockford_digits(v / 32, (n - 1) as nat).push(crockford_code((v % 32) as int) as char)
    }
}

/// The text of the ULID whose 128-bit value is `v`.
pub open spec fn ulid_text(v: u128) -> Seq<char> {
    crockford_digits(v as nat, ULID_TEXT_LEN as nat)
}

/// The millisecond timestamp of a ULID: its upper 48 bits.
pub open spec fn ulid_time(v: u128) -> nat {
    v as nat / 0x1_0000_0000_0000_0000_0000
}

/// Strict lexicographic order on texts, comparing characters by code point
/// (the order of `str`'s comparison operators).
pub open spec fn text_lt(a: Seq<char>, b: Seq<char>) -> bool {
    exists|k: int|
        0 <= k <= a.len() && k <= b.len() && a.subrange(0, k) == b.subrange(0, k) && (
        (k < a.len() && k < b.len() && (a[k] as u32) < (b[k] as u32)) || (k == a.len() && k
            < b.len()))
}

/// `32` to the power `n`.
pub open spec fn pow32(n: nat) -> nat
    decreases n,
{
    if n == 0 {
        1
    } else {
        32 * pow32((n - 1) as nat)
    }
}

proof fn lemma_digits_len(v: nat, n: nat)
    ensures
        crockford_digits(v, n).len() == n,
    decreases n,
{
    if n > 0 {
        lemma_digits_len(v / 32, (n - 1) as nat);
    }
}

proof fn lemma_code_ordered(d: int, e: int)
    requires
        0 <= d < e < 32,
    ensures
        ((crockford_code(d) as char) as u32) < ((crockford_code(e) as char) as u32),
{
    assert((crockford_code(d) as char) as u32 == crockford_code(d));
    assert((crockford_code(e) as char) as u32 == crockford_code(e));
}

proof fn lemma_push_keeps_lt(a: Seq<char>, b: Seq<char>, x: char, y: char)
    requires
        a.len() == b.len(),
        text_lt(a, b),
    ensures
        text_lt(a.push(x), b.push(y)),
{
    let k = choose|k: int|
        0 <= k <= a.len() && k <= b.len() && a.subrange(0, k) == b.subrange(0, k) && (
        (k < a.len() && k < b.len() && (a[k] as u32) < (b[k] as u32)) || (k == a.len() && k
            < b.len()));
    assert(a.push(x).subrange(0, k) =~= a.subrange(0, k));
    assert(b.push(y).subrange(0, k) =~= b.subrange(0, k));
    assert(a.push(x)[k] == a[k]);
    assert(b.push(y)[k] == b[k]);
}

/// Fixed-width base-32 texts order as the numbers they write.
proof fn lemma_digits_ordered(v: nat, w: nat, n: nat)
    requires
        v < w < pow32(n),
    ensures
        text_lt(crockford_digits(v, n), crockford_digits(w, n)),
    decreases n,
{
    let m = (n - 1) as nat;
    let a = crockford_digits(v / 32, m);
    let b = crockford_digits(w / 32, m);
    lemma_digits_len(v / 32, m);
    lemma_digits_len(w / 32, m);
    assert(v / 32 <= w / 32) by (nonlinear_arith)
        requires
            v < w,
    ;
    if v / 32 < w / 32 {
        assert(w / 32 < pow32(m)) by (nonlinear_arith)
            requires
                w < 32 * pow32(m),
        ;
        lemma_digits_ordered(v / 32, w / 32, m);
        lemma_push_keeps_lt(
            a,
            b,
            crockford_code((v % 32) as int) as char,
            crockford_code((w % 32) as int) as char,
        );
    } else {
        assert(v % 32 < w % 32) by (nonlinear_arith)
            requires
                v / 32 == w / 32,
                v < w,
        ;
        lemma_code_ordered((v % 32) as int, (w % 32) as int);
        let sa = crockford_digits(v, n);
        let sb = crockford_digits(w, n);
        assert(sa.subrange(0, m as int) =~= a);
        assert(sb.subrange(0, m as int) =~= b);
        assert(0 <= m <= sa.len() && m <= sb.len() && sa.subrange(0, m as int) == sb.subrange(
            0,
            m as int,
        ) && (m < sa.len() && m < sb.len() && (sa[m as int] as u32) < (sb[m as int] as u32)));
    }
}

/// The texts of ULIDs order as their values.
pub proof fn lemma_ulid_text_ordered(a: u128, b: u128)
    requires
        a < b,
    ensures
        text_lt(ulid_text(a), ulid_text(b)),
{
    reveal_with_fuel(pow32, 27);
    assert(pow32(26) == 0x4_0000_0000_0000_0000_0000_0000_0000_0000);
    lemma_digits_ordered(a as nat, b as nat, 26);
}

/// An identifier made at a later millisecond sorts after one made earlier:
/// where the timestamp of `a` is before that of `b`, the text of `a` is
/// lexicographically less than the text of `b`.
pub proof fn lemma_ids_follow_time(a: u128, b: u128)
    requires
        ulid_time(a) < ulid_time(b),
    ensures
        text_lt(ulid_text(a), ulid_text(b)),
{
    assert(a < b) by (nonlinear_arith)
        requires
            a as nat / 0x1_0000_0000_0000_0000_0000 < b as nat / 0x1_0000_0000_0000_0000_0000,
    ;
    lemma_ulid_text_ordered(a, b);
}

/// Every ULID text has 26 characters, each a digit of Crockford's alphabet.
pub proof fn lemma_ulid_text_shape(v: u128)
    ensures
        ulid_text(v).len() == ULID_TEXT_LEN,
        forall|i: int|
            0 <= i < ULID_TEXT_LEN ==> exists|d: int|
                0 <= d < 32 && #[trigger] ulid_text(v)[i] == crockford_code(d) as char,
{
    lemma_digits_shape(v as nat, ULID_TEXT_LEN as nat);
}

proof fn lemma_digits_shape(v: nat, n: nat)
    ensures
        crockford_digits(v, n).len() == n,
        forall|i: int|
            0 <= i < n ==> exists|d: int|
                0 <= d < 32 && #[trigger] crockford_digits(v, n)[i] == crockford_code(d) as char,
    decreases n,
{
    if n > 0 {
        let m = (n - 1) as nat;
        lemma_digits_shape(v / 32, m);
        let s = crockford_digits(v, n);
        assert forall|i: int| 0 <= i < n implies exists|d: int|
            0 <= d < 32 && #[trigger] s[i] == crockford_code(d) as char by {
            if i < m {
                assert(s[i] == crockford_digits(v / 32, m)[i]);
            } else {
                assert(s[i] == crockford_code((v % 32) as int) as char);
            }
        }
    }
}

/// Relies on ulid::Ulid::new: a fresh ULID from the clock and a random source.
/// Nothing is promised of its value.
#[verifier::external_body]
fn fresh_ulid() -> (r: u128) {
    ulid::Ulid::new().0
}

/// Relies on ulid::Ulid::to_string: the value's 26 base-32 digits, most
/// significant first.
#[verifier::external_body]
fn ulid_to_text(v: u128) -> (r: String)
    ensures
        r@ == ulid_text(v),
{
    ulid::Ulid(v).to_string()
}

/// Identifier of a job; its text is also the name of the job's directory.
pub struct JobId {
    text: String,
}

impl View for JobId {
    type V = Seq<char>;

    closed spec fn view(&self) -> Seq<char> {
        self.text@
    }
}

impl JobId {
    /// A fresh identifier: the text of a ULID taken from the clock and a
    /// random source.
    pub fn new() -> (r: JobId)
        ensures
            exists|v: u128| r@ == ulid_text(v),
            r@.len() == ULID_TEXT_LEN,
    {
        let v = fresh_ulid();
        proof {
            lemma_ulid_text_shape(v);
        }
        JobId::from_ulid(v)
    }

    /// The identifier whose text is that of the ULID `v`.
    pub fn from_ulid(v: u128) -> (r: JobId)
        ensures
            r@ == ulid_text(v),
    {
        JobId { text: ulid_to_text(v) }
    }

    /// The identifier with the given text, taken verbatim.
    pub fn parse(text: String) -> (r: JobId)
        ensures
            r@ == text@,
    {
        JobId { text }
    }

    /// The text of the identifier.
    pub fn to_string(&self) -> (r: String)
        ensures
            r@ == self@,
    {
        self.text.clone()
    }

    /// The text of the identifier, borrowed.
    pub fn as_str(&self) -> (r: &str)
        ensures
            r@ == self@,
    {
        self.text.as_str()
    }
}

impl Clone for JobId {
    fn clone(&self) -> (r: JobId)
        ensures
            r@ == self@,
    {
        JobId { text: self.text.clone() }
    }
}

impl From<String> for JobId {
    fn from(text: String) -> (r: JobId) {
        JobId { text }
    }
}

impl vstd::std_specs::convert::FromSpecImpl<String> for JobId {
    open spec fn obeys_from_spec() -> bool {
        true
    }

    closed spec fn from_spec(v: String) -> JobId {
        JobId { text: v }
    }
}

} // verus!
