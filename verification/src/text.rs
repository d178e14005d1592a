//! Byte-level text helpers: ASCII whitespace trimming, substring search,
//! decimal rendering, and conversion of ASCII bytes to `String`.

use vstd::prelude::*;
use vstd::string::StringSliceAdditionalSpecFns;

verus! {

/// ASCII whitespace, as `char::is_whitespace` behaves on the ASCII range.
pub open spec fn is_ws(b: u8) -> bool {
    b == 0x20 || b == 0x09 || b == 0x0a || b == 0x0b || b == 0x0c || b == 0x0d
}

/// `s` with its leading ASCII whitespace removed.
pub open spec fn trim_front(s: Seq<u8>) -> Seq<u8>
    decreases s.len(),
{
    if s.len() > 0 && is_ws(s[0]) {
        trim_front(s.drop_first())
    } else {
        s
    }
}

/// `s` with its trailing ASCII whitespace removed.
pub open spec fn trim_back(s: Seq<u8>) -> Seq<u8>
    decreases s.len(),
{
    if s.len() > 0 && is_ws(s.last()) {
        trim_back(s.drop_last())
    } else {
        s
    }
}

/// `s` with leading and trailing ASCII whitespace removed.
pub open spec fn trimmed(s: Seq<u8>) -> Seq<u8> {
    trim_back(trim_front(s))
}

/// The UTF-8 bytes of a sequence of ASCII characters.
pub open spec fn ascii_bytes(s: Seq<char>) -> Seq<u8> {
    Seq::new(s.len(), |i: int| s[i] as u8)
}

/// The characters denoted by a sequence of ASCII bytes.
pub open spec fn bytes_chars(b: Seq<u8>) -> Seq<char> {
    Seq::new(b.len(), |i: int| b[i] as char)
}

pub open spec fn all_ascii(b: Seq<u8>) -> bool {
    forall|i: int| 0 <= i < b.len() ==> b[i] < 0x80
}

/// The decimal digits of `n`, most significant first.
pub open spec fn dec_rep(n: nat) -> Seq<u8>
    decreases n,
{
    if n < 10 {
        seq![(n + 0x30) as u8]
    } else {
        dec_rep(n / 10) + seq![(n % 10 + 0x30) as u8]
    }
}

/// Every byte of a decimal rendering is an ASCII digit.
pub proof fn lemma_dec_rep_digits(n: nat)
    ensures
        forall|i: int| 0 <= i < dec_rep(n).len() ==> 0x30 <= #[trigger] dec_rep(n)[i] <= 0x39,
    decreases n,
{
    if n < 10 {
        assert(dec_rep(n) =~= seq![(n + 0x30) as u8]);
    } else {
        lemma_dec_rep_digits(n / 10);
        assert forall|i: int| 0 <= i < dec_rep(n).len() implies 0x30 <= #[trigger] dec_rep(n)[i]
            <= 0x39 by {
            if i < dec_rep((n / 10) as nat).len() {
                assert(dec_rep(n)[i] == dec_rep((n / 10) as nat)[i]);
            } else {
                assert(dec_rep(n)[i] == (n % 10 + 0x30) as u8);
            }
        }
    }
}

pub fn ws(b: u8) -> (r: bool)
    ensures
        r == is_ws(b),
{
    b == 0x20 || b == 0x09 || b == 0x0a || b == 0x0b || b == 0x0c || b == 0x0d
}

proof fn lemma_trim_front_ws_prefix(s: Seq<u8>, j: int)
    requires
        0 <= j <= s.len(),
        forall|k: int| 0 <= k < j ==> is_ws(s[k]),
    ensures
        trim_front(s) == trim_front(s.subrange(j, s.len() as int)),
    decreases j,
{
    if j > 0 {
        assert(trim_front(s) == trim_front(s.drop_first()));
        lemma_trim_front_ws_prefix(s.drop_first(), j - 1);
        assert(s.drop_first().subrange(j - 1, s.drop_first().len() as int) =~= s.subrange(
            j,
            s.len() as int,
        ));
    } else {
        assert(s.subrange(0, s.len() as int) =~= s);
    }
}

proof fn lemma_trim_back_ws_suffix(s: Seq<u8>, j: int)
    requires
        0 <= j <= s.len(),
        forall|k: int| j <= k < s.len() ==> is_ws(s[k]),
    ensures
        trim_back(s) == trim_back(s.subrange(0, j)),
    decreases s.len() - j,
{
    if j < s.len() {
        assert(is_ws(s.last()));
        assert(trim_back(s) == trim_back(s.drop_last()));
        lemma_trim_back_ws_suffix(s.drop_last(), j);
        assert(s.drop_last().subrange(0, j) =~= s.subrange(0, j));
    } else {
        assert(s.subrange(0, s.len() as int) =~= s);
    }
}

/// Copies `line[start..]` with surrounding ASCII whitespace removed.
pub fn trimmed_copy(line: &Vec<u8>, start: usize) -> (r: Vec<u8>)
    requires
        start <= line@.len(),
    ensures
        r@ == trimmed(line@.subrange(start as int, line@.len() as int)),
{
    let ghost s = line@.subrange(start as int, line@.len() as int);
    let mut lo: usize = start;
    while lo < line.len() && ws(line[lo])
        invariant
            start <= lo <= line@.len(),
            s == line@.subrange(start as int, line@.len() as int),
            forall|k: int| start <= k < lo ==> is_ws(line@[k]),
        decreases line@.len() - lo,
    {
        lo = lo + 1;
    }
    proof {
        lemma_trim_front_ws_prefix(s, lo - start);
        assert(s.subrange(lo - start, s.len() as int) =~= line@.subrange(
            lo as int,
            line@.len() as int,
        ));
        if lo < line@.len() {
            assert(!is_ws(line@.subrange(lo as int, line@.len() as int)[0]));
        }
        assert(trim_front(s) == line@.subrange(lo as int, line@.len() as int));
    }
    let ghost t = line@.subrange(lo as int, line@.len() as int);
    let mut hi: usize = line.len();
    while hi > lo && ws(line[hi - 1])
        invariant
            lo <= hi <= line@.len(),
            t == line@.subrange(lo as int, line@.len() as int),
            forall|k: int| hi <= k < line@.len() ==> is_ws(line@[k]),
        decreases hi,
    {
        hi = hi - 1;
    }
    proof {
        lemma_trim_back_ws_suffix(t, hi - lo);
        assert(t.subrange(0, hi - lo) =~= line@.subrange(lo as int, hi as int));
        if hi > lo {
            assert(!is_ws(line@.subrange(lo as int, hi as int).last()));
        }
        assert(trim_back(t) == line@.subrange(lo as int, hi as int));
    }
    let mut out: Vec<u8> = Vec::new();
    let mut i: usize = lo;
    while i < hi
        invariant
            lo <= i <= hi <= line@.len(),
            out@ == line@.subrange(lo as int, i as int),
        decreases hi - i,
    {
        out.push(line[i]);
        proof {
            assert(out@ =~= line@.subrange(lo as int, i + 1));
        }
        i = i + 1;
    }
    out
}

/// `pat` occurs in `s` at position `i`.
pub open spec fn matches_at(s: Seq<u8>, pat: Seq<u8>, i: int) -> bool {
    0 <= i && i + pat.len() <= s.len() && s.subrange(i, i + pat.len()) == pat
}

/// The position of the first occurrence of `pat` in `line`, if any.
pub fn find_first(line: &Vec<u8>, pat: &Vec<u8>) -> (r: Option<usize>)
    requires
        pat@.len() >= 1,
    ensures
        match r {
            Some(i) => matches_at(line@, pat@, i as int) && forall|j: int|
                0 <= j < i ==> !matches_at(line@, pat@, j),
            None => forall|j: int| !matches_at(line@, pat@, j),
        },
{
    if pat.len() > line.len() {
        return None;
    }
    let last_start: usize = line.len() - pat.len();
    let mut i: usize = 0;
    while i <= last_start
        invariant
            pat@.len() >= 1,
            line@.len() <= usize::MAX,
            last_start == line@.len() - pat@.len(),
            0 <= i <= last_start + 1,
            forall|j: int| 0 <= j < i ==> !matches_at(line@, pat@, j),
        decreases last_start + 1 - i,
    {
        let mut k: usize = 0;
        while k < pat.len() && line[i + k] == pat[k]
            invariant
                0 <= k <= pat@.len(),
                i + pat@.len() <= line@.len(),
                line@.len() <= usize::MAX,
                forall|t: int| 0 <= t < k ==> line@[i + t] == pat@[t],
            decreases pat@.len() - k,
        {
            k = k + 1;
        }
        if k == pat.len() {
            proof {
                assert(line@.subrange(i as int, i + pat@.len()) =~= pat@);
            }
            return Some(i);
        }
        proof {
            assert(line@.subrange(i as int, i + pat@.len())[k as int] == line@[i + k]);
            assert(!matches_at(line@, pat@, i as int));
        }
        i = i + 1;
    }
    proof {
        assert forall|j: int| !matches_at(line@, pat@, j) by {
            if 0 <= j && j + pat@.len() <= line@.len() {
                assert(j < i);
            }
        }
    }
    None
}

/// Appends the decimal digits of `n` to `out`.
pub fn push_dec(n: u32, out: &mut Vec<u8>)
    ensures
        final(out)@ == old(out)@ + dec_rep(n as nat),
    decreases n,
{
    if n >= 10 {
        push_dec(n / 10, out);
    }
    out.push((n % 10) as u8 + 0x30);
    proof {
        assert(out@ =~= old(out)@ + dec_rep(n as nat));
    }
}

/// Casting an ASCII byte to `char` and back is the identity.
pub proof fn lemma_ascii_roundtrip(s: Seq<char>)
    requires
        vstd::utf8::is_ascii_chars(s),
    ensures
        bytes_chars(ascii_bytes(s)) =~= s,
        all_ascii(ascii_bytes(s)),
{
    assert forall|i: int| 0 <= i < s.len() implies (s[i] as u8) as char == s[i] && (s[i] as u8)
        < 0x80 by {
        assert('\0' <= s[i] <= '\u{7f}');
    }
}

/// Copies the bytes of an ASCII string slice.
pub(crate) fn str_to_bytes(s: &str) -> (r: Vec<u8>)
    requires
        vstd::string::is_ascii(s),
    ensures
        r@ == ascii_bytes(s@),
        all_ascii(r@),
{
    proof {
        vstd::string::is_ascii_spec_bytes(s);
        lemma_ascii_roundtrip(s@);
        assert(s.spec_bytes() =~= ascii_bytes(s@));
    }
    let b: &[u8] = s.as_bytes();
    vstd::slice::slice_to_vec(b)
}

/// Relies on `String::from_utf8_lossy`: bytes that are valid UTF-8 decode to
/// the string they encode; in particular, ASCII bytes decode one to one.
#[verifier::external_body]
pub(crate) fn bytes_to_string(v: &Vec<u8>) -> (r: String)
    ensures
        all_ascii(v@) ==> r@ == bytes_chars(v@),
{
    String::from_utf8_lossy(v.as_slice()).into_owned()
}

/// `n` rendered in decimal.
pub fn dec_string(n: u32) -> (r: String)
    ensures
        r@ == bytes_chars(dec_rep(n as nat)),
{
    let mut v: Vec<u8> = Vec::new();
    push_dec(n, &mut v);
    proof {
        lemma_dec_rep_digits(n as nat);
    }
    bytes_to_string(&v)
}

/// The decimal digits of `v`, with a leading minus sign when `v` is negative.
pub open spec fn int_dec(v: int) -> Seq<u8> {
    if v < 0 {
        seq![0x2du8] + dec_rep((-v) as nat)
    } else {
        dec_rep(v as nat)
    }
}

/// `v` rendered in decimal, sign included.
pub fn int_string(v: i32) -> (r: String)
    ensures
        r@ == bytes_chars(int_dec(v as int)),
{
    let mut out: Vec<u8> = Vec::new();
    if v < 0 {
        out.push(0x2d);
        let mag: u32 = (-(v as i64)) as u32;
        push_dec(mag, &mut out);
        proof {
            lemma_dec_rep_digits(mag as nat);
            assert(out@ =~= int_dec(v as int));
        }
    } else {
        push_dec(v as u32, &mut out);
        proof {
            lemma_dec_rep_digits(v as nat);
            assert(out@ =~= int_dec(v as int));
        }
    }
    bytes_to_string(&out)
}

/// Copies a list of key-value string pairs.
pub fn clone_string_pairs(v: &Vec<(String, String)>) -> (r: Vec<(String, String)>)
    ensures
        r@ == v@,
{
    let mut out: Vec<(String, String)> = Vec::new();
    let mut i: usize = 0;
    while i < v.len()
        invariant
            0 <= i <= v@.len(),
            out@ == v@.subrange(0, i as int),
        decreases v@.len() - i,
    {
        let pair = &v[i];
        out.push((pair.0.clone(), pair.1.clone()));
        proof {
            assert(out@ =~= v@.subrange(0, i + 1));
        }
        i = i + 1;
    }
    proof {
        assert(v@.subrange(0, v@.len() as int) =~= v@);
    }
    out
}

} // verus!
