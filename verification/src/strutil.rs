//! Verified string helpers the core builds on: exact equality, prefix
//! tests, whitespace trimming, and decimal formatting.

use vstd::prelude::*;

verus! {

use vstd::string::StrSliceExecFns;
use vstd::string::StringExecFns;
use vstd::string::StringSliceAdditionalSpecFns;
use vstd::utf8::encode_utf8_decode_utf8;

/// Exact string equality, decided over the byte encodings.
pub fn str_eq(a: &str, b: &str) -> (r: bool)
    ensures
        r == (a@ == b@),
{
    let ab: &[u8] = a.as_bytes();
    let bb: &[u8] = b.as_bytes();
    if ab.len() != bb.len() {
        return false;
    }
    let n: usize = ab.len();
    let mut i: usize = 0;
    while i < n
        invariant
            ab@ == a.spec_bytes(),
            bb@ == b.spec_bytes(),
            n == ab@.len(),
            n == bb@.len(),
            i <= n,
            forall|k: int| 0 <= k < i ==> ab@[k] == bb@[k],
        decreases n - i,
    {
        if ab[i] != bb[i] {
            return false;
        }
        i = i + 1;
    }
    proof {
        assert(a.spec_bytes() =~= b.spec_bytes());
        encode_utf8_decode_utf8(a@);
        encode_utf8_decode_utf8(b@);
    }
    true
}

/// Whether `p` is a prefix of `s`, character by character.
pub fn str_has_prefix(s: &str, p: &str) -> (r: bool)
    ensures
        r == p@.is_prefix_of(s@),
{
    let sn: usize = s.unicode_len();
    let pn: usize = p.unicode_len();
    if pn > sn {
        return false;
    }
    let mut i: usize = 0;
    while i < pn
        invariant
            sn == s@.len(),
            pn == p@.len(),
            pn <= sn,
            i <= pn,
            forall|k: int| 0 <= k < i ==> s@[k] == p@[k],
        decreases pn - i,
    {
        if s.get_char(i) != p.get_char(i) {
            return false;
        }
        i = i + 1;
    }
    proof {
        assert(p@ =~= s@.subrange(0, p@.len() as int));
    }
    true
}

/// The whitespace characters trimming strips: the ASCII set.
pub open spec fn is_space(c: char) -> bool {
    c == ' ' || c == '\t' || c == '\n' || c == '\r'
}

/// First index at or after `i` holding a non-space character, or the
/// length if none does.
pub open spec fn first_non_space(s: Seq<char>, i: int) -> int
    decreases s.len() - i,
{
    if i < 0 || i >= s.len() {
        s.len() as int
    } else if !is_space(s[i]) {
        i
    } else {
        first_non_space(s, i + 1)
    }
}

/// Largest index at or below `j` such that everything from it up to `j`
/// is space; equivalently, one past the last non-space character below `j`.
pub open spec fn last_non_space_end(s: Seq<char>, j: int) -> int
    decreases j,
{
    if j <= 0 || j > s.len() {
        0
    } else if !is_space(s[j - 1]) {
        j
    } else {
        last_non_space_end(s, j - 1)
    }
}

/// What trimming leaves: the slice between the first and the last
/// non-space character, or the empty string if there is none.
pub open spec fn trim_spec(s: Seq<char>) -> Seq<char> {
    let a = first_non_space(s, 0);
    let b = last_non_space_end(s, s.len() as int);
    if a >= b {
        Seq::empty()
    } else {
        s.subrange(a, b)
    }
}

proof fn lemma_first_non_space_bounds(s: Seq<char>, i: int)
    requires
        0 <= i <= s.len(),
    ensures
        i <= first_non_space(s, i) <= s.len(),
        first_non_space(s, i) < s.len() ==> !is_space(s[first_non_space(s, i)]),
        forall|k: int| i <= k < first_non_space(s, i) ==> is_space(s[k]),
    decreases s.len() - i,
{
    if i < s.len() && is_space(s[i]) {
        lemma_first_non_space_bounds(s, i + 1);
    }
}

proof fn lemma_last_non_space_end_bounds(s: Seq<char>, j: int)
    requires
        0 <= j <= s.len(),
    ensures
        0 <= last_non_space_end(s, j) <= j,
        last_non_space_end(s, j) > 0 ==> !is_space(s[last_non_space_end(s, j) - 1]),
        forall|k: int| last_non_space_end(s, j) <= k < j ==> is_space(s[k]),
    decreases j,
{
    if j > 0 && is_space(s[j - 1]) {
        lemma_last_non_space_end_bounds(s, j - 1);
    }
}

/// Strip leading and trailing ASCII whitespace.
pub fn str_trim<'a>(s: &'a str) -> (r: &'a str)
    ensures
        r@ == trim_spec(s@),
{
    let n: usize = s.unicode_len();
    let mut a: usize = 0;
    while a < n && is_space_char(s.get_char(a))
        invariant
            n == s@.len(),
            a <= n,
            first_non_space(s@, 0) == first_non_space(s@, a as int),
        decreases n - a,
    {
        a = a + 1;
    }
    proof {
        lemma_first_non_space_bounds(s@, a as int);
        assert(first_non_space(s@, a as int) == a);
    }
    let mut b: usize = n;
    while b > a && is_space_char(s.get_char(b - 1))
        invariant
            n == s@.len(),
            a <= b <= n,
            a == first_non_space(s@, 0),
            last_non_space_end(s@, n as int) == last_non_space_end(s@, b as int),
        decreases b,
    {
        b = b - 1;
    }
    if a >= b {
        proof {
            lemma_last_non_space_end_bounds(s@, b as int);
            reveal_strlit("");
            assert(""@ =~= trim_spec(s@));
        }
        ""
    } else {
        proof {
            assert(!is_space(s@[b - 1]));
            assert(last_non_space_end(s@, b as int) == b);
        }
        s.substring_char(a, b)
    }
}

/// Executable form of [`is_space`].
pub fn is_space_char(c: char) -> (r: bool)
    ensures
        r == is_space(c),
{
    c == ' ' || c == '\t' || c == '\n' || c == '\r'
}

/// The decimal digit character for a value below ten.
pub open spec fn dec_digit(d: int) -> char {
    if d == 0 {
        '0'
    } else if d == 1 {
        '1'
    } else if d == 2 {
        '2'
    } else if d == 3 {
        '3'
    } else if d == 4 {
        '4'
    } else if d == 5 {
        '5'
    } else if d == 6 {
        '6'
    } else if d == 7 {
        '7'
    } else if d == 8 {
        '8'
    } else {
        '9'
    }
}

/// Decimal rendering of a non-negative number, most significant digit
/// first, with no leading zeros (a lone zero for zero itself).
pub open spec fn dec_str(n: int) -> Seq<char>
    decreases n,
{
    if n < 10 {
        seq![dec_digit(n)]
    } else {
        dec_str(n / 10).push(dec_digit(n % 10))
    }
}

fn digit_str(d: u32) -> (r: &'static str)
    requires
        d < 10,
    ensures
        r@ == seq![dec_digit(d as int)],
{
    let r: &'static str = match d {
        0 => "0",
        1 => "1",
        2 => "2",
        3 => "3",
        4 => "4",
        5 => "5",
        6 => "6",
        7 => "7",
        8 => "8",
        _ => "9",
    };
    proof {
        reveal_strlit("0");
        reveal_strlit("1");
        reveal_strlit("2");
        reveal_strlit("3");
        reveal_strlit("4");
        reveal_strlit("5");
        reveal_strlit("6");
        reveal_strlit("7");
        reveal_strlit("8");
        reveal_strlit("9");
        assert(r@ =~= seq![dec_digit(d as int)]);
    }
    r
}

/// Render a number in decimal.
pub fn u32_to_string(n: u32) -> (r: String)
    ensures
        r@ == dec_str(n as int),
    decreases n,
{
    let mut s: String = if n >= 10 {
        u32_to_string(n / 10)
    } else {
        String::new()
    };
    let d: &'static str = digit_str(n % 10);
    s.append(d);
    proof {
        if n < 10 {
            assert(s@ =~= seq![dec_digit(n as int)]);
        } else {
            assert(s@ =~= dec_str(n as int / 10).push(dec_digit(n as int % 10)));
        }
    }
    s
}

/// ASCII lowercase of a byte: the folding the case-insensitive substring
/// test applies.
pub open spec fn lower_byte(b: u8) -> u8 {
    if 65 <= b <= 90 {
        (b + 32) as u8
    } else {
        b
    }
}

/// The needle occurs in the haystack at offset `p`, compared byte by byte
/// under ASCII case folding.
pub open spec fn match_at(hay: Seq<u8>, needle: Seq<u8>, p: int) -> bool {
    forall|k: int| 0 <= k < needle.len() ==> lower_byte(hay[p + k]) == lower_byte(needle[k])
}

/// The needle occurs somewhere in the haystack, under ASCII case folding.
pub open spec fn contains_ci(hay: Seq<u8>, needle: Seq<u8>) -> bool {
    exists|p: int| 0 <= p <= hay.len() - needle.len() && match_at(hay, needle, p)
}

fn lower_byte_exec(b: u8) -> (r: u8)
    ensures
        r == lower_byte(b),
{
    if b >= 65 && b <= 90 {
        b + 32
    } else {
        b
    }
}

fn match_at_exec(hay: &[u8], needle: &[u8], p: usize) -> (r: bool)
    requires
        p + needle@.len() <= hay@.len(),
    ensures
        r == match_at(hay@, needle@, p as int),
{
    let n: usize = needle.len();
    let hn: usize = hay.len();
    let mut k: usize = 0;
    while k < n
        invariant
            n == needle@.len(),
            hn == hay@.len(),
            p + n <= hn,
            k <= n,
            forall|j: int| 0 <= j < k ==> lower_byte(hay@[p + j]) == lower_byte(needle@[j]),
        decreases n - k,
    {
        if lower_byte_exec(hay[p + k]) != lower_byte_exec(needle[k]) {
            return false;
        }
        k = k + 1;
    }
    true
}

/// Case-insensitive substring test over the byte encodings: does the
/// haystack contain the needle under ASCII case folding?
pub fn str_contains_ci(hay: &str, needle: &str) -> (r: bool)
    ensures
        r == contains_ci(hay.spec_bytes(), needle.spec_bytes()),
{
    let hb: &[u8] = hay.as_bytes();
    let nb: &[u8] = needle.as_bytes();
    if nb.len() > hb.len() {
        return false;
    }
    let last: usize = hb.len() - nb.len();
    let mut p: usize = 0;
    while p < last
        invariant
            hb@ == hay.spec_bytes(),
            nb@ == needle.spec_bytes(),
            nb@.len() <= hb@.len(),
            last == hb@.len() - nb@.len(),
            p <= last,
            forall|q: int| 0 <= q < p ==> !match_at(hb@, nb@, q),
        decreases last - p,
    {
        if match_at_exec(hb, nb, p) {
            return true;
        }
        p = p + 1;
    }
    if match_at_exec(hb, nb, last) {
        return true;
    }
    false
}

/// The text a boolean renders to.
pub open spec fn bool_str(v: bool) -> Seq<char> {
    if v {
        seq!['t', 'r', 'u', 'e']
    } else {
        seq!['f', 'a', 'l', 's', 'e']
    }
}

/// Render a boolean as `true` or `false`.
pub fn bool_to_string(v: bool) -> (r: String)
    ensures
        r@ == bool_str(v),
{
    if v {
        let r = String::from_str("true");
        proof {
            reveal_strlit("true");
            assert(r@ =~= bool_str(v));
        }
        r
    } else {
        let r = String::from_str("false");
        proof {
            reveal_strlit("false");
            assert(r@ =~= bool_str(v));
        }
        r
    }
}

} // verus!
