//! Character-level encodings: RFC 3986 percent-encoding, hexadecimal and
//! decimal renderings.
use vstd::prelude::*;

verus! {

/// Whether `c` is in the RFC 3986 unreserved set, which percent-encoding
/// leaves as is.
pub open spec fn is_unreserved(c: char) -> bool {
    ('a' <= c && c <= 'z') || ('A' <= c && c <= 'Z') || ('0' <= c && c <= '9') || c == '-'
        || c == '.' || c == '_' || c == '~'
}

/// Upper-case hexadecimal digit of `d` (for `d < 16`).
pub open spec fn hex_upper(d: int) -> char {
    seq!['0', '1', '2', '3', '4', '5', '6', '7', '8', '9', 'A', 'B', 'C', 'D', 'E', 'F'][d]
}

/// Lower-case hexadecimal digit of `d` (for `d < 16`).
pub open spec fn hex_lower(d: int) -> char {
    seq!['0', '1', '2', '3', '4', '5', '6', '7', '8', '9', 'a', 'b', 'c', 'd', 'e', 'f'][d]
}

/// Decimal digit of `d` (for `d < 10`).
pub open spec fn dec_digit(d: int) -> char {
    seq!['0', '1', '2', '3', '4', '5', '6', '7', '8', '9'][d]
}

/// `%XX` with `XX` the upper-case hexadecimal value of `b`.
pub open spec fn pct_triplet(b: u8) -> Seq<char> {
    seq!['%', hex_upper((b / 16) as int), hex_upper((b % 16) as int)]
}

/// The UTF-8 encoding of a character.
pub open spec fn utf8_of(c: char) -> Seq<u8> {
    let n = c as u32;
    if n < 0x80 {
        seq![n as u8]
    } else if n < 0x800 {
        seq![(0xC0 + n / 64) as u8, (0x80 + n % 64) as u8]
    } else if n < 0x10000 {
        seq![(0xE0 + n / 4096) as u8, (0x80 + (n / 64) % 64) as u8, (0x80 + n % 64) as u8]
    } else {
        seq![
            (0xF0 + n / 262144) as u8,
            (0x80 + (n / 4096) % 64) as u8,
            (0x80 + (n / 64) % 64) as u8,
            (0x80 + n % 64) as u8,
        ]
    }
}

/// Every byte of `bs` written as `%XX`.
pub open spec fn pct_bytes(bs: Seq<u8>) -> Seq<char>
    decreases bs.len(),
{
    if bs.len() == 0 {
        seq![]
    } else {
        pct_bytes(bs.drop_last()) + pct_triplet(bs.last())
    }
}

/// The percent-encoding of one character: itself when unreserved, else each
/// byte of its UTF-8 encoding as `%XX`.
pub open spec fn pct_char(c: char) -> Seq<char> {
    if is_unreserved(c) {
        seq![c]
    } else {
        pct_bytes(utf8_of(c))
    }
}

/// RFC 3986 percent-encoding of a string, character by character.
pub open spec fn pct_encoded(s: Seq<char>) -> Seq<char>
    decreases s.len(),
{
    if s.len() == 0 {
        seq![]
    } else {
        pct_encoded(s.drop_last()) + pct_char(s.last())
    }
}

/// Two lower-case hexadecimal digits for each byte.
pub open spec fn hex_of(bs: Seq<u8>) -> Seq<char>
    decreases bs.len(),
{
    if bs.len() == 0 {
        seq![]
    } else {
        hex_of(bs.drop_last()) + seq![hex_lower((bs.last() / 16) as int), hex_lower((bs.last() % 16) as int)]
    }
}

/// The decimal rendering of `n`, without leading zeros.
pub open spec fn decimal(n: nat) -> Seq<char>
    decreases n,
{
    if n < 10 {
        seq![dec_digit(n as int)]
    } else {
        decimal(n / 10) + seq![dec_digit((n % 10) as int)]
    }
}

/// Percent-encoding leaves a string of unreserved characters as it is.
pub proof fn lemma_unreserved_unchanged(s: Seq<char>)
    requires
        forall|i: int| 0 <= i < s.len() ==> is_unreserved(#[trigger] s[i]),
    ensures
        pct_encoded(s) == s,
    decreases s.len(),
{
    if s.len() > 0 {
        let t = s.drop_last();
        assert forall|i: int| 0 <= i < t.len() implies is_unreserved(#[trigger] t[i]) by {
            assert(t[i] == s[i]);
        }
        lemma_unreserved_unchanged(t);
        assert(is_unreserved(s[s.len() - 1]));
        assert(t.push(s.last()) =~= s);
    }
}

/// A character that percent-encoded text can hold: an unreserved one or `%`.
pub open spec fn is_encoded_char(c: char) -> bool {
    is_unreserved(c) || c == '%'
}

proof fn lemma_pct_bytes_chars(bs: Seq<u8>)
    ensures
        forall|i: int| 0 <= i < pct_bytes(bs).len() ==> is_encoded_char(#[trigger] pct_bytes(bs)[i]),
    decreases bs.len(),
{
    if bs.len() > 0 {
        lemma_pct_bytes_chars(bs.drop_last());
        let b = bs.last();
        let hi = (b / 16) as int;
        let lo = (b % 16) as int;
        let hex = seq!['0', '1', '2', '3', '4', '5', '6', '7', '8', '9', 'A', 'B', 'C', 'D', 'E', 'F'];
        assert forall|d: int| 0 <= d < 16 implies is_unreserved(#[trigger] hex[d]) by {
            assert(0 <= d < 16);
        }
        assert(is_unreserved(hex_upper(hi)));
        assert(is_unreserved(hex_upper(lo)));
        let a = pct_bytes(bs.drop_last());
        let t = pct_triplet(b);
        assert forall|i: int| 0 <= i < pct_bytes(bs).len() implies is_encoded_char(#[trigger] pct_bytes(bs)[i]) by {
            if i < a.len() {
                assert(pct_bytes(bs)[i] == a[i]);
            } else {
                assert(pct_bytes(bs)[i] == t[i - a.len()]);
            }
        }
    }
}

/// Percent-encoded text consists of unreserved characters and `%` alone.
pub proof fn lemma_encoded_chars(s: Seq<char>)
    ensures
        forall|i: int| 0 <= i < pct_encoded(s).len() ==> is_encoded_char(#[trigger] pct_encoded(s)[i]),
    decreases s.len(),
{
    if s.len() > 0 {
        lemma_encoded_chars(s.drop_last());
        let c = s.last();
        if !is_unreserved(c) {
            lemma_pct_bytes_chars(utf8_of(c));
        }
        let a = pct_encoded(s.drop_last());
        let t = pct_char(c);
        assert forall|i: int| 0 <= i < pct_encoded(s).len() implies is_encoded_char(#[trigger] pct_encoded(s)[i]) by {
            if i < a.len() {
                assert(pct_encoded(s)[i] == a[i]);
            } else {
                assert(pct_encoded(s)[i] == t[i - a.len()]);
            }
        }
    }
}

pub assume_specification[ percent_encoding::percent_encode_byte ](byte: u8) -> (r: &'static str)
    ensures
        r@ == pct_triplet(byte),
;

/// Whether `c` is unreserved.
pub fn is_unreserved_char(c: char) -> (r: bool)
    ensures
        r == is_unreserved(c),
{
    ('a' <= c && c <= 'z') || ('A' <= c && c <= 'Z') || ('0' <= c && c <= '9') || c == '-'
        || c == '.' || c == '_' || c == '~'
}

/// The UTF-8 encoding of `c`.
pub fn utf8_bytes(c: char) -> (r: Vec<u8>)
    ensures
        r@ == utf8_of(c),
{
    let n = c as u32;
    if n < 0x80 {
        vec![n as u8]
    } else if n < 0x800 {
        vec![(0xC0 + n / 64) as u8, (0x80 + n % 64) as u8]
    } else if n < 0x10000 {
        vec![(0xE0 + n / 4096) as u8, (0x80 + (n / 64) % 64) as u8, (0x80 + n % 64) as u8]
    } else {
        assert(n / 262144 <= 16384) by (nonlinear_arith)
            requires n <= 0xFFFF_FFFFu32;
        vec![
            (0xF0 + n / 262144) as u8,
            (0x80 + (n / 4096) % 64) as u8,
            (0x80 + (n / 64) % 64) as u8,
            (0x80 + n % 64) as u8,
        ]
    }
}

/// Percent-encodes `s` for OAuth: unreserved characters stay, every other
/// byte of the UTF-8 encoding becomes `%XX` with upper-case hex digits.
pub fn percent_encode(s: &str) -> (r: String)
    ensures
        r@ == pct_encoded(s@),
{
    let n = s.unicode_len();
    let mut out = String::new();
    let mut i: usize = 0;
    while i < n
        invariant
            n == s@.len(),
            i <= n,
            out@ == pct_encoded(s@.take(i as int)),
        decreases n - i,
    {
        let c = s.get_char(i);
        proof {
            assert(s@.take(i + 1).drop_last() =~= s@.take(i as int));
        }
        if is_unreserved_char(c) {
            out.append(s.substring_char(i, i + 1));
            assert(s@.subrange(i as int, i + 1) =~= seq![c]);
        } else {
            let bytes = utf8_bytes(c);
            let mut j: usize = 0;
            while j < bytes.len()
                invariant
                    j <= bytes@.len(),
                    out@ == pct_encoded(s@.take(i as int)) + pct_bytes(bytes@.take(j as int)),
                decreases bytes@.len() - j,
            {
                out.append(percent_encoding::percent_encode_byte(bytes[j]));
                proof {
                    assert(bytes@.take(j + 1).drop_last() =~= bytes@.take(j as int));
                }
                j += 1;
            }
            assert(bytes@.take(bytes@.len() as int) =~= bytes@);
        }
        i += 1;
    }
    assert(s@.take(n as int) =~= s@);
    out
}

/// One character of a literal, as a string.
fn char_at(lit: &str, k: usize) -> (r: String)
    requires
        k < lit@.len() <= 16,
    ensures
        r@ == seq![lit@[k as int]],
{
    let r = String::from_str(lit.substring_char(k, k + 1));
    assert(lit@.subrange(k as int, k + 1) =~= seq![lit@[k as int]]);
    r
}

/// Lower-case hexadecimal rendering, two digits per byte.
pub fn hex_encode(bytes: &[u8]) -> (r: String)
    ensures
        r@ == hex_of(bytes@),
{
    let digits = "0123456789abcdef";
    proof {
        reveal_strlit("0123456789abcdef");
        assert(digits@ =~= seq!['0', '1', '2', '3', '4', '5', '6', '7', '8', '9', 'a', 'b', 'c', 'd', 'e', 'f']);
    }
    let mut out = String::new();
    let mut i: usize = 0;
    while i < bytes.len()
        invariant
            i <= bytes@.len(),
            out@ == hex_of(bytes@.take(i as int)),
            digits@ == seq!['0', '1', '2', '3', '4', '5', '6', '7', '8', '9', 'a', 'b', 'c', 'd', 'e', 'f'],
        decreases bytes@.len() - i,
    {
        let b = bytes[i];
        let hi = char_at(digits, (b / 16) as usize);
        let lo = char_at(digits, (b % 16) as usize);
        out.append(hi.as_str());
        out.append(lo.as_str());
        proof {
            assert(bytes@.take(i + 1).drop_last() =~= bytes@.take(i as int));
        }
        i += 1;
    }
    assert(bytes@.take(bytes@.len() as int) =~= bytes@);
    out
}

/// Decimal rendering of `n`.
pub fn decimal_string(n: u64) -> (r: String)
    ensures
        r@ == decimal(n as nat),
{
    let digits = "0123456789";
    proof {
        reveal_strlit("0123456789");
        assert(digits@ =~= seq!['0', '1', '2', '3', '4', '5', '6', '7', '8', '9']);
    }
    let mut acc = char_at(digits, (n % 10) as usize);
    let mut cur: u64 = n / 10;
    while cur > 0
        invariant
            decimal(n as nat) == (if cur == 0 { acc@ } else { decimal(cur as nat) + acc@ }),
            digits@ == seq!['0', '1', '2', '3', '4', '5', '6', '7', '8', '9'],
        decreases cur,
    {
        let mut d = char_at(digits, (cur % 10) as usize);
        d.append(acc.as_str());
        proof {
            assert(decimal(cur as nat) + acc@ =~= (if cur / 10 == 0 { d@ } else { decimal((cur / 10) as nat) + d@ }));
        }
        acc = d;
        cur = cur / 10;
    }
    acc
}

} // verus!
