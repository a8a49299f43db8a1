//! Small string helpers: decimal rendering of counters, prefix and
//! substring tests for row filtering and colour classification, and
//! whitespace trimming.

use vstd::prelude::*;
use vstd::string::StringExecFns;

verus! {

/// `s` without leading and trailing whitespace, as `str::trim` produces
/// it: a pure function of the characters alone.
pub uninterp spec fn trim_of(s: Seq<char>) -> Seq<char>;

/// Relies on str::trim: removes leading and trailing whitespace, a result
/// that depends on the characters alone.
#[verifier::external_body]
pub fn trim_str(s: &str) -> (r: &str)
    ensures
        r@ == trim_of(s@),
{
    s.trim()
}

/// Whether the trimmed text is empty.
pub fn trimmed_empty(s: &str) -> (r: bool)
    ensures
        r == (trim_of(s@).len() == 0),
{
    trim_str(s).unicode_len() == 0
}

/// The character for one decimal digit.
pub open spec fn dec_digit(d: nat) -> char
    recommends
        d < 10,
{
    ((48 + d) as u8) as char
}

/// Decimal rendering of a number, most significant digit first, no sign
/// and no leading zeros (a single zero for zero itself).
pub open spec fn dec_seq(n: nat) -> Seq<char>
    decreases n,
{
    if n < 10 {
        seq![dec_digit(n)]
    } else {
        dec_seq(n / 10).push(dec_digit(n % 10))
    }
}

fn push_digit(s: &mut String, d: u8)
    requires
        d < 10,
    ensures
        final(s)@ == old(s)@.push(dec_digit(d as nat)),
{
    let t: &str = match d {
        0 => "0",
        1 => "1",
        2 => "2",
        3 => "3",
        4 => "4",
        5 => "5",
        6 => "6",
        7 => "7",
        8 => "8",
        _ => "9",
    };
    proof {
        reveal_strlit("0");
        reveal_strlit("1");
        reveal_strlit("2");
        reveal_strlit("3");
        reveal_strlit("4");
        reveal_strlit("5");
        reveal_strlit("6");
        reveal_strlit("7");
        reveal_strlit("8");
        reveal_strlit("9");
    }
    s.append(t);
    proof {
        assert(final(s)@ =~= old(s)@.push(dec_digit(d as nat)));
    }
}

/// The digits of a least-significant-first digit buffer, read back most
/// significant first.
spec fn digits_chars(ds: Seq<u8>) -> Seq<char> {
    Seq::new(ds.len(), |i: int| dec_digit(ds[ds.len() - 1 - i] as nat))
}

/// Decimal rendering of `n`.
pub fn u64_to_dec(n: u64) -> (s: String)
    ensures
        s@ == dec_seq(n as nat),
{
    let mut digits: Vec<u8> = Vec::new();
    let mut m: u64 = n;
    proof {
        assert(dec_seq(n as nat) =~= dec_seq(m as nat) + digits_chars(digits@));
    }
    while m >= 10
        invariant
            dec_seq(n as nat) == dec_seq(m as nat) + digits_chars(digits@),
            forall|i: int| 0 <= i < digits@.len() ==> (#[trigger] digits@[i]) < 10,
        decreases m,
    {
        let ghost pre = digits@;
        let ghost mpre = m as nat;
        digits.push((m % 10) as u8);
        m = m / 10;
        proof {
            assert(digits_chars(digits@) =~= seq![dec_digit(mpre % 10)] + digits_chars(pre));
            assert(dec_seq(mpre) == dec_seq(mpre / 10).push(dec_digit(mpre % 10)));
            assert(dec_seq(m as nat) + digits_chars(digits@) =~= dec_seq(mpre) + digits_chars(
                pre,
            ));
        }
    }
    let mut s = String::new();
    push_digit(&mut s, m as u8);
    proof {
        assert(s@ =~= dec_seq(m as nat));
        assert(s@ =~= dec_seq(m as nat) + digits_chars(digits@).subrange(0, 0));
    }
    let total = digits.len();
    let mut j: usize = 0;
    while j < total
        invariant
            total == digits@.len(),
            j <= total,
            forall|i: int| 0 <= i < digits@.len() ==> (#[trigger] digits@[i]) < 10,
            dec_seq(n as nat) == dec_seq(m as nat) + digits_chars(digits@),
            s@ == dec_seq(m as nat) + digits_chars(digits@).subrange(0, j as int),
        decreases total - j,
    {
        push_digit(&mut s, digits[total - 1 - j]);
        j += 1;
        proof {
            assert(digits_chars(digits@)[j - 1] == dec_digit(
                digits@[total - (j - 1) - 1] as nat,
            ));
            assert(s@ =~= dec_seq(m as nat) + digits_chars(digits@).subrange(0, j as int));
        }
    }
    proof {
        assert(digits_chars(digits@).subrange(0, digits@.len() as int) =~= digits_chars(
            digits@,
        ));
    }
    s
}

/// Byte-wise lexicographic order, the order `str` comparisons use.
pub open spec fn lex_le_bytes(a: Seq<u8>, b: Seq<u8>) -> bool
    decreases a.len(),
{
    if a.len() == 0 {
        true
    } else if b.len() == 0 {
        false
    } else if a.first() < b.first() {
        true
    } else if a.first() > b.first() {
        false
    } else {
        lex_le_bytes(a.drop_first(), b.drop_first())
    }
}

/// Lexicographic order on texts, over their UTF-8 bytes.
pub open spec fn text_le(a: Seq<char>, b: Seq<char>) -> bool {
    lex_le_bytes(vstd::utf8::encode_utf8(a), vstd::utf8::encode_utf8(b))
}

/// The order is total.
pub proof fn lemma_lex_total(a: Seq<u8>, b: Seq<u8>)
    ensures
        lex_le_bytes(a, b) || lex_le_bytes(b, a),
    decreases a.len(),
{
    if a.len() != 0 && b.len() != 0 && a.first() == b.first() {
        lemma_lex_total(a.drop_first(), b.drop_first());
    }
}

fn bytes_le_from(a: &[u8], b: &[u8], i: usize) -> (r: bool)
    requires
        i <= a@.len(),
        i <= b@.len(),
    ensures
        r == lex_le_bytes(a@.skip(i as int), b@.skip(i as int)),
    decreases a@.len() - i,
{
    if i == a.len() {
        true
    } else if i == b.len() {
        false
    } else {
        proof {
            assert(a@.skip(i as int).first() == a@[i as int]);
            assert(b@.skip(i as int).first() == b@[i as int]);
        }
        if a[i] < b[i] {
            true
        } else if a[i] > b[i] {
            false
        } else {
            proof {
                assert(a@.skip(i as int).drop_first() =~= a@.skip(i + 1));
                assert(b@.skip(i as int).drop_first() =~= b@.skip(i + 1));
            }
            bytes_le_from(a, b, i + 1)
        }
    }
}

/// Whether `a` sorts at or before `b`, byte-wise.
pub fn str_le(a: &str, b: &str) -> (r: bool)
    ensures
        r == text_le(a@, b@),
{
    let ab = a.as_bytes();
    let bb = b.as_bytes();
    proof {
        assert(ab@.skip(0) =~= ab@);
        assert(bb@.skip(0) =~= bb@);
    }
    bytes_le_from(ab, bb, 0)
}

/// Character-wise equality of two strings.
pub fn str_eq(a: &str, b: &str) -> (r: bool)
    ensures
        r == (a@ == b@),
{
    let x = a.to_owned();
    let y = b.to_owned();
    x == y
}

/// Whether `p` is a prefix of `s`.
pub open spec fn is_prefix_of(p: Seq<char>, s: Seq<char>) -> bool {
    p.len() <= s.len() && s.subrange(0, p.len() as int) == p
}

/// Prefix test, character by character.
pub fn has_prefix(s: &str, p: &str) -> (r: bool)
    ensures
        r == is_prefix_of(p@, s@),
{
    let sn = s.unicode_len();
    let pn = p.unicode_len();
    if pn > sn {
        proof {
            assert(!is_prefix_of(p@, s@));
        }
        return false;
    }
    let mut i: usize = 0;
    while i < pn
        invariant
            i <= pn,
            pn == p@.len(),
            pn <= sn,
            sn == s@.len(),
            forall|k: int| 0 <= k < i ==> s@[k] == p@[k],
        decreases pn - i,
    {
        if s.get_char(i) != p.get_char(i) {
            proof {
                assert(s@.subrange(0, pn as int)[i as int] != p@[i as int]);
            }
            return false;
        }
        i += 1;
    }
    proof {
        assert(s@.subrange(0, pn as int) =~= p@);
    }
    true
}

/// Whether `needle` occurs contiguously inside `hay`.
pub open spec fn contains_sub(hay: Seq<char>, needle: Seq<char>) -> bool {
    exists|i: int|
        0 <= i <= hay.len() - needle.len() && #[trigger] hay.subrange(i, i + needle.len())
            == needle
}

/// Whether `needle` matches `hay` at position `at`.
fn matches_at(hay: &str, needle: &str, at: usize) -> (r: bool)
    requires
        at + needle@.len() <= hay@.len(),
        hay@.len() <= usize::MAX,
    ensures
        r == (hay@.subrange(at as int, at + needle@.len()) == needle@),
{
    let n = needle.unicode_len();
    let mut k: usize = 0;
    while k < n
        invariant
            k <= n,
            n == needle@.len(),
            at + n <= hay@.len(),
            hay@.len() <= usize::MAX,
            forall|t: int| 0 <= t < k ==> hay@[at + t] == needle@[t],
        decreases n - k,
    {
        if hay.get_char(at + k) != needle.get_char(k) {
            proof {
                assert(hay@.subrange(at as int, at + needle@.len())[k as int] != needle@[k as int]);
            }
            return false;
        }
        k += 1;
    }
    proof {
        assert(hay@.subrange(at as int, at + needle@.len()) =~= needle@);
    }
    true
}

/// Naive substring search.
pub fn contains_str(hay: &str, needle: &str) -> (r: bool)
    ensures
        r == contains_sub(hay@, needle@),
{
    let hn = hay.unicode_len();
    let nn = needle.unicode_len();
    if nn > hn {
        proof {
            assert(!contains_sub(hay@, needle@));
        }
        return false;
    }
    if nn == 0 {
        proof {
            assert(hay@.subrange(0, 0 + needle@.len() as int) =~= needle@);
        }
        return true;
    }
    let last = hn - nn;
    let mut i: usize = 0;
    while i <= last
        invariant
            i <= last + 1,
            nn >= 1,
            last < hn,
            last == hay@.len() - needle@.len(),
            hn == hay@.len(),
            nn == needle@.len(),
            forall|t: int|
                0 <= t < i ==> #[trigger] hay@.subrange(t, t + needle@.len()) != needle@,
        decreases last + 1 - i,
    {
        if matches_at(hay, needle, i) {
            proof {
                assert(contains_sub(hay@, needle@));
            }
            return true;
        }
        i += 1;
    }
    false
}

} // verus!
