//! The shape of a signed `Authorization` header: every field name occurs
//! in it exactly once, whatever the credentials and the request.
use vstd::prelude::*;

use crate::auth::{header_text, oauth_header, oauth_signature};
use crate::encoding::{is_encoded_char, lemma_encoded_chars, pct_encoded};

verus! {

/// Whether `p` occurs in `s` starting at `i`.
pub open spec fn occurs_at(s: Seq<char>, p: Seq<char>, i: int) -> bool {
    0 <= i && i + p.len() <= s.len() && s.subrange(i, i + p.len()) == p
}

/// Whether `p` occurs in `s` at exactly one position.
pub open spec fn occurs_once(s: Seq<char>, p: Seq<char>) -> bool {
    exists|i: int| occurs_at(s, p, i) && forall|j: int| #[trigger] occurs_at(s, p, j) ==> j == i
}

/// Whether every character of `s` can stand in percent-encoded text.
pub open spec fn all_encoded(s: Seq<char>) -> bool {
    forall|i: int| 0 <= i < s.len() ==> is_encoded_char(#[trigger] s[i])
}

proof fn lemma_literals()
    ensures
        "OAuth oauth_consumer_key=\""@ == seq!['O', 'A', 'u', 't', 'h', ' ', 'o', 'a', 'u', 't', 'h', '_', 'c', 'o', 'n', 's', 'u', 'm', 'e', 'r', '_', 'k', 'e', 'y', '=', '"'],
        "\", oauth_nonce=\""@ == seq!['"', ',', ' ', 'o', 'a', 'u', 't', 'h', '_', 'n', 'o', 'n', 'c', 'e', '=', '"'],
        "\", oauth_signature=\""@ == seq!['"', ',', ' ', 'o', 'a', 'u', 't', 'h', '_', 's', 'i', 'g', 'n', 'a', 't', 'u', 'r', 'e', '=', '"'],
        "\", oauth_signature_method=\"HMAC-SHA1\", oauth_timestamp=\""@ == seq!['"', ',', ' ', 'o', 'a', 'u', 't', 'h', '_', 's', 'i', 'g', 'n', 'a', 't', 'u', 'r', 'e', '_', 'm', 'e', 't', 'h', 'o', 'd', '=', '"', 'H', 'M', 'A', 'C', '-', 'S', 'H', 'A', '1', '"', ',', ' ', 'o', 'a', 'u', 't', 'h', '_', 't', 'i', 'm', 'e', 's', 't', 'a', 'm', 'p', '=', '"'],
        "\", oauth_token=\""@ == seq!['"', ',', ' ', 'o', 'a', 'u', 't', 'h', '_', 't', 'o', 'k', 'e', 'n', '=', '"'],
        "\", oauth_version=\"1.0\""@ == seq!['"', ',', ' ', 'o', 'a', 'u', 't', 'h', '_', 'v', 'e', 'r', 's', 'i', 'o', 'n', '=', '"', '1', '.', '0', '"'],
        "oauth_consumer_key=\""@ == seq!['o', 'a', 'u', 't', 'h', '_', 'c', 'o', 'n', 's', 'u', 'm', 'e', 'r', '_', 'k', 'e', 'y', '=', '"'],
        "oauth_nonce=\""@ == seq!['o', 'a', 'u', 't', 'h', '_', 'n', 'o', 'n', 'c', 'e', '=', '"'],
        "oauth_signature=\""@ == seq!['o', 'a', 'u', 't', 'h', '_', 's', 'i', 'g', 'n', 'a', 't', 'u', 'r', 'e', '=', '"'],
        "oauth_signature_method=\"HMAC-SHA1\""@ == seq!['o', 'a', 'u', 't', 'h', '_', 's', 'i', 'g', 'n', 'a', 't', 'u', 'r', 'e', '_', 'm', 'e', 't', 'h', 'o', 'd', '=', '"', 'H', 'M', 'A', 'C', '-', 'S', 'H', 'A', '1', '"'],
        "oauth_timestamp=\""@ == seq!['o', 'a', 'u', 't', 'h', '_', 't', 'i', 'm', 'e', 's', 't', 'a', 'm', 'p', '=', '"'],
        "oauth_token=\""@ == seq!['o', 'a', 'u', 't', 'h', '_', 't', 'o', 'k', 'e', 'n', '=', '"'],
        "oauth_version=\"1.0\""@ == seq!['o', 'a', 'u', 't', 'h', '_', 'v', 'e', 'r', 's', 'i', 'o', 'n', '=', '"', '1', '.', '0', '"'],
{
    reveal_strlit("OAuth oauth_consumer_key=\"");
    reveal_strlit("\", oauth_nonce=\"");
    reveal_strlit("\", oauth_signature=\"");
    reveal_strlit("\", oauth_signature_method=\"HMAC-SHA1\", oauth_timestamp=\"");
    reveal_strlit("\", oauth_token=\"");
    reveal_strlit("\", oauth_version=\"1.0\"");
    reveal_strlit("oauth_consumer_key=\"");
    reveal_strlit("oauth_nonce=\"");
    reveal_strlit("oauth_signature=\"");
    reveal_strlit("oauth_signature_method=\"HMAC-SHA1\"");
    reveal_strlit("oauth_timestamp=\"");
    reveal_strlit("oauth_token=\"");
    reveal_strlit("oauth_version=\"1.0\"");
    assert("OAuth oauth_consumer_key=\""@ =~= seq!['O', 'A', 'u', 't', 'h', ' ', 'o', 'a', 'u', 't', 'h', '_', 'c', 'o', 'n', 's', 'u', 'm', 'e', 'r', '_', 'k', 'e', 'y', '=', '"']);
    assert("\", oauth_nonce=\""@ =~= seq!['"', ',', ' ', 'o', 'a', 'u', 't', 'h', '_', 'n', 'o', 'n', 'c', 'e', '=', '"']);
    assert("\", oauth_signature=\""@ =~= seq!['"', ',', ' ', 'o', 'a', 'u', 't', 'h', '_', 's', 'i', 'g', 'n', 'a', 't', 'u', 'r', 'e', '=', '"']);
    assert("\", oauth_signature_method=\"HMAC-SHA1\", oauth_timestamp=\""@ =~= seq!['"', ',', ' ', 'o', 'a', 'u', 't', 'h', '_', 's', 'i', 'g', 'n', 'a', 't', 'u', 'r', 'e', '_', 'm', 'e', 't', 'h', 'o', 'd', '=', '"', 'H', 'M', 'A', 'C', '-', 'S', 'H', 'A', '1', '"', ',', ' ', 'o', 'a', 'u', 't', 'h', '_', 't', 'i', 'm', 'e', 's', 't', 'a', 'm', 'p', '=', '"']);
    assert("\", oauth_token=\""@ =~= seq!['"', ',', ' ', 'o', 'a', 'u', 't', 'h', '_', 't', 'o', 'k', 'e', 'n', '=', '"']);
    assert("\", oauth_version=\"1.0\""@ =~= seq!['"', ',', ' ', 'o', 'a', 'u', 't', 'h', '_', 'v', 'e', 'r', 's', 'i', 'o', 'n', '=', '"', '1', '.', '0', '"']);
    assert("oauth_consumer_key=\""@ =~= seq!['o', 'a', 'u', 't', 'h', '_', 'c', 'o', 'n', 's', 'u', 'm', 'e', 'r', '_', 'k', 'e', 'y', '=', '"']);
    assert("oauth_nonce=\""@ =~= seq!['o', 'a', 'u', 't', 'h', '_', 'n', 'o', 'n', 'c', 'e', '=', '"']);
    assert("oauth_signature=\""@ =~= seq!['o', 'a', 'u', 't', 'h', '_', 's', 'i', 'g', 'n', 'a', 't', 'u', 'r', 'e', '=', '"']);
    assert("oauth_signature_method=\"HMAC-SHA1\""@ =~= seq!['o', 'a', 'u', 't', 'h', '_', 's', 'i', 'g', 'n', 'a', 't', 'u', 'r', 'e', '_', 'm', 'e', 't', 'h', 'o', 'd', '=', '"', 'H', 'M', 'A', 'C', '-', 'S', 'H', 'A', '1', '"']);
    assert("oauth_timestamp=\""@ =~= seq!['o', 'a', 'u', 't', 'h', '_', 't', 'i', 'm', 'e', 's', 't', 'a', 'm', 'p', '=', '"']);
    assert("oauth_token=\""@ =~= seq!['o', 'a', 'u', 't', 'h', '_', 't', 'o', 'k', 'e', 'n', '=', '"']);
    assert("oauth_version=\"1.0\""@ =~= seq!['o', 'a', 'u', 't', 'h', '_', 'v', 'e', 'r', 's', 'i', 'o', 'n', '=', '"', '1', '.', '0', '"']);
}

/// A `=` of the concatenation lies in one of the two parts.
proof fn lemma_cat_eq(p: Seq<char>, q: Seq<char>, x: int)
    requires
        0 <= x < p.len() + q.len(),
        (p + q)[x] == '=',
    ensures
        x < p.len() ==> p[x] == '=',
        x >= p.len() ==> q[x - p.len()] == '=',
{
}

/// The part of a concatenation that a range of its left part covers.
proof fn lemma_cat_sub(p: Seq<char>, q: Seq<char>, i: int, j: int)
    requires
        0 <= i <= j <= p.len(),
    ensures
        (p + q).subrange(i, j) == p.subrange(i, j),
{
    assert((p + q).subrange(i, j) =~= p.subrange(i, j));
}

/// The right part of a concatenation.
proof fn lemma_cat_right(p: Seq<char>, q: Seq<char>)
    ensures
        (p + q).subrange(p.len() as int, (p.len() + q.len()) as int) == q,
{
    assert((p + q).subrange(p.len() as int, (p.len() + q.len()) as int) =~= q);
}

proof fn lemma_lit0_eq(y: int)
    requires
        0 <= y < 26,
        seq!['O', 'A', 'u', 't', 'h', ' ', 'o', 'a', 'u', 't', 'h', '_', 'c', 'o', 'n', 's', 'u', 'm', 'e', 'r', '_', 'k', 'e', 'y', '=', '"'][y] == '=',
    ensures
        y == 24,
{
}

proof fn lemma_lit1_eq(y: int)
    requires
        0 <= y < 16,
        seq!['"', ',', ' ', 'o', 'a', 'u', 't', 'h', '_', 'n', 'o', 'n', 'c', 'e', '=', '"'][y] == '=',
    ensures
        y == 14,
{
}

proof fn lemma_lit2_eq(y: int)
    requires
        0 <= y < 20,
        seq!['"', ',', ' ', 'o', 'a', 'u', 't', 'h', '_', 's', 'i', 'g', 'n', 'a', 't', 'u', 'r', 'e', '=', '"'][y] == '=',
    ensures
        y == 18,
{
}

proof fn lemma_lit3_eq(y: int)
    requires
        0 <= y < 56,
        seq!['"', ',', ' ', 'o', 'a', 'u', 't', 'h', '_', 's', 'i', 'g', 'n', 'a', 't', 'u', 'r', 'e', '_', 'm', 'e', 't', 'h', 'o', 'd', '=', '"', 'H', 'M', 'A', 'C', '-', 'S', 'H', 'A', '1', '"', ',', ' ', 'o', 'a', 'u', 't', 'h', '_', 't', 'i', 'm', 'e', 's', 't', 'a', 'm', 'p', '=', '"'][y] == '=',
    ensures
        y == 25 || y == 54,
{
}

proof fn lemma_lit4_eq(y: int)
    requires
        0 <= y < 16,
        seq!['"', ',', ' ', 'o', 'a', 'u', 't', 'h', '_', 't', 'o', 'k', 'e', 'n', '=', '"'][y] == '=',
    ensures
        y == 14,
{
}

proof fn lemma_lit5_eq(y: int)
    requires
        0 <= y < 22,
        seq!['"', ',', ' ', 'o', 'a', 'u', 't', 'h', '_', 'v', 'e', 'r', 's', 'i', 'o', 'n', '=', '"', '1', '.', '0', '"'][y] == '=',
    ensures
        y == 16,
{
}

/// Start of each literal piece of the header, after the values before it.
pub open spec fn piece_starts(n1: int, n2: int, n3: int, n4: int, n5: int) -> Seq<int> {
    let a1 = 26 + n1;
    let a2 = a1 + 16 + n2;
    let a3 = a2 + 20 + n3;
    let a4 = a3 + 56 + n4;
    let a5 = a4 + 16 + n5;
    seq![0, a1, a2, a3, a4, a5]
}

proof fn lemma_no_eq(v: Seq<char>, y: int)
    requires
        all_encoded(v),
        0 <= y < v.len(),
    ensures
        v[y] != '=',
{
    assert(is_encoded_char(v[y]));
}

#[verifier::rlimit(40)]
proof fn lemma_layout(v1: Seq<char>, v2: Seq<char>, v3: Seq<char>, v4: Seq<char>, v5: Seq<char>)
    requires
        all_encoded(v1),
        all_encoded(v2),
        all_encoded(v3),
        all_encoded(v4),
        all_encoded(v5),
    ensures
        header_layout(
            header_text(v1, v2, v3, v4, v5),
            piece_starts(v1.len() as int, v2.len() as int, v3.len() as int, v4.len() as int, v5.len() as int),
        ),
{
    lemma_literals();
    let l0 = "OAuth oauth_consumer_key=\""@;
    let l1 = "\", oauth_nonce=\""@;
    let l2 = "\", oauth_signature=\""@;
    let l3 = "\", oauth_signature_method=\"HMAC-SHA1\", oauth_timestamp=\""@;
    let l4 = "\", oauth_token=\""@;
    let l5 = "\", oauth_version=\"1.0\""@;
    let h1 = l0 + v1;
    let h2 = h1 + l1;
    let h3 = h2 + v2;
    let h4 = h3 + l2;
    let h5 = h4 + v3;
    let h6 = h5 + l3;
    let h7 = h6 + v4;
    let h8 = h7 + l4;
    let h9 = h8 + v5;
    let h = h9 + l5;
    assert(h == header_text(v1, v2, v3, v4, v5));
    let a = piece_starts(v1.len() as int, v2.len() as int, v3.len() as int, v4.len() as int, v5.len() as int);
    assert(h1.len() == a[1]);
    assert(h3.len() == a[2]);
    assert(h5.len() == a[3]);
    assert(h7.len() == a[4]);
    assert(h9.len() == a[5]);

    lemma_cat_sub(l0, v1, 0, 26);
    assert(l0.subrange(0, 26) =~= l0);
    lemma_cat_sub(h1, l1, 0, 26);
    lemma_cat_sub(h2, v2, 0, 26);
    lemma_cat_sub(h3, l2, 0, 26);
    lemma_cat_sub(h4, v3, 0, 26);
    lemma_cat_sub(h5, l3, 0, 26);
    lemma_cat_sub(h6, v4, 0, 26);
    lemma_cat_sub(h7, l4, 0, 26);
    lemma_cat_sub(h8, v5, 0, 26);
    lemma_cat_sub(h9, l5, 0, 26);

    lemma_cat_right(h1, l1);
    lemma_cat_sub(h2, v2, a[1], a[1] + 16);
    lemma_cat_sub(h3, l2, a[1], a[1] + 16);
    lemma_cat_sub(h4, v3, a[1], a[1] + 16);
    lemma_cat_sub(h5, l3, a[1], a[1] + 16);
    lemma_cat_sub(h6, v4, a[1], a[1] + 16);
    lemma_cat_sub(h7, l4, a[1], a[1] + 16);
    lemma_cat_sub(h8, v5, a[1], a[1] + 16);
    lemma_cat_sub(h9, l5, a[1], a[1] + 16);

    lemma_cat_right(h3, l2);
    lemma_cat_sub(h4, v3, a[2], a[2] + 20);
    lemma_cat_sub(h5, l3, a[2], a[2] + 20);
    lemma_cat_sub(h6, v4, a[2], a[2] + 20);
    lemma_cat_sub(h7, l4, a[2], a[2] + 20);
    lemma_cat_sub(h8, v5, a[2], a[2] + 20);
    lemma_cat_sub(h9, l5, a[2], a[2] + 20);

    lemma_cat_right(h5, l3);
    lemma_cat_sub(h6, v4, a[3], a[3] + 56);
    lemma_cat_sub(h7, l4, a[3], a[3] + 56);
    lemma_cat_sub(h8, v5, a[3], a[3] + 56);
    lemma_cat_sub(h9, l5, a[3], a[3] + 56);

    lemma_cat_right(h7, l4);
    lemma_cat_sub(h8, v5, a[4], a[4] + 16);
    lemma_cat_sub(h9, l5, a[4], a[4] + 16);

    lemma_cat_right(h9, l5);

    assert forall|x: int| 0 <= x < h.len() && #[trigger] h[x] == '=' implies x == 24 || x == a[1] + 14
        || x == a[2] + 18 || x == a[3] + 25 || x == a[3] + 54 || x == a[4] + 14 || x == a[5] + 16 by {
        lemma_cat_eq(h9, l5, x);
        if x >= a[5] {
            lemma_lit5_eq(x - a[5]);
        } else {
            lemma_cat_eq(h8, v5, x);
            if x >= h8.len() {
                lemma_no_eq(v5, x - h8.len());
            } else {
                lemma_cat_eq(h7, l4, x);
                if x >= a[4] {
                    lemma_lit4_eq(x - a[4]);
                } else {
                    lemma_cat_eq(h6, v4, x);
                    if x >= h6.len() {
                        lemma_no_eq(v4, x - h6.len());
                    } else {
                        lemma_cat_eq(h5, l3, x);
                        if x >= a[3] {
                            lemma_lit3_eq(x - a[3]);
                        } else {
                            lemma_cat_eq(h4, v3, x);
                            if x >= h4.len() {
                                lemma_no_eq(v3, x - h4.len());
                            } else {
                                lemma_cat_eq(h3, l2, x);
                                if x >= a[2] {
                                    lemma_lit2_eq(x - a[2]);
                                } else {
                                    lemma_cat_eq(h2, v2, x);
                                    if x >= h2.len() {
                                        lemma_no_eq(v2, x - h2.len());
                                    } else {
                                        lemma_cat_eq(h1, l1, x);
                                        if x >= a[1] {
                                            lemma_lit1_eq(x - a[1]);
                                        } else {
                                            lemma_cat_eq(l0, v1, x);
                                            if x >= 26 {
                                                lemma_no_eq(v1, x - 26);
                                            } else {
                                                lemma_lit0_eq(x);
                                            }
                                        }
                                    }
                                }
                            }
                        }
                    }
                }
            }
        }
    }
}

/// How a header text is laid out: its literal pieces at the starts `a`, and
/// `=` nowhere but in them.
pub open spec fn header_layout(h: Seq<char>, a: Seq<int>) -> bool {
    &&& a.len() == 6
    &&& a[0] == 0
    &&& a[1] >= 26
    &&& a[2] >= a[1] + 16
    &&& a[3] >= a[2] + 20
    &&& a[4] >= a[3] + 56
    &&& a[5] >= a[4] + 16
    &&& h.len() == a[5] + 22
    &&& h.subrange(a[0], a[0] + 26) == seq!['O', 'A', 'u', 't', 'h', ' ', 'o', 'a', 'u', 't', 'h', '_', 'c', 'o', 'n', 's', 'u', 'm', 'e', 'r', '_', 'k', 'e', 'y', '=', '"']
    &&& h.subrange(a[1], a[1] + 16) == seq!['"', ',', ' ', 'o', 'a', 'u', 't', 'h', '_', 'n', 'o', 'n', 'c', 'e', '=', '"']
    &&& h.subrange(a[2], a[2] + 20) == seq!['"', ',', ' ', 'o', 'a', 'u', 't', 'h', '_', 's', 'i', 'g', 'n', 'a', 't', 'u', 'r', 'e', '=', '"']
    &&& h.subrange(a[3], a[3] + 56) == seq!['"', ',', ' ', 'o', 'a', 'u', 't', 'h', '_', 's', 'i', 'g', 'n', 'a', 't', 'u', 'r', 'e', '_', 'm', 'e', 't', 'h', 'o', 'd', '=', '"', 'H', 'M', 'A', 'C', '-', 'S', 'H', 'A', '1', '"', ',', ' ', 'o', 'a', 'u', 't', 'h', '_', 't', 'i', 'm', 'e', 's', 't', 'a', 'm', 'p', '=', '"']
    &&& h.subrange(a[4], a[4] + 16) == seq!['"', ',', ' ', 'o', 'a', 'u', 't', 'h', '_', 't', 'o', 'k', 'e', 'n', '=', '"']
    &&& h.subrange(a[5], a[5] + 22) == seq!['"', ',', ' ', 'o', 'a', 'u', 't', 'h', '_', 'v', 'e', 'r', 's', 'i', 'o', 'n', '=', '"', '1', '.', '0', '"']
    &&& forall|x: int| 0 <= x < h.len() && #[trigger] h[x] == '=' ==> x == 24 || x == a[1] + 14
        || x == a[2] + 18 || x == a[3] + 25 || x == a[3] + 54 || x == a[4] + 14 || x == a[5] + 16
}

proof fn lemma_once_consumer_key(h: Seq<char>, a: Seq<int>)
    requires
        header_layout(h, a),
    ensures
        occurs_once(h, seq!['o', 'a', 'u', 't', 'h', '_', 'c', 'o', 'n', 's', 'u', 'm', 'e', 'r', '_', 'k', 'e', 'y', '=', '"']),
{
    let p = seq!['o', 'a', 'u', 't', 'h', '_', 'c', 'o', 'n', 's', 'u', 'm', 'e', 'r', '_', 'k', 'e', 'y', '=', '"'];
    let pos = a[0] + 6;
    assert forall|t: int| 0 <= t < 20 implies h[pos + t] == p[t] by {
        assert(h[pos + t] == h.subrange(a[0], a[0] + 26)[6 + t]);
    }
    assert(h.subrange(pos, pos + 20) =~= p);
    assert(occurs_at(h, p, pos));
    assert(h[a[0] + 23] == h.subrange(a[0], a[0] + 26)[23]);
    assert(h[a[0] + 22] == h.subrange(a[0], a[0] + 26)[22]);
    assert(h[a[1] + 13] == h.subrange(a[1], a[1] + 16)[13]);
    assert(h[a[1] + 12] == h.subrange(a[1], a[1] + 16)[12]);
    assert(h[a[2] + 17] == h.subrange(a[2], a[2] + 20)[17]);
    assert(h[a[2] + 16] == h.subrange(a[2], a[2] + 20)[16]);
    assert(h[a[3] + 24] == h.subrange(a[3], a[3] + 56)[24]);
    assert(h[a[3] + 23] == h.subrange(a[3], a[3] + 56)[23]);
    assert(h[a[3] + 53] == h.subrange(a[3], a[3] + 56)[53]);
    assert(h[a[3] + 52] == h.subrange(a[3], a[3] + 56)[52]);
    assert(h[a[4] + 13] == h.subrange(a[4], a[4] + 16)[13]);
    assert(h[a[4] + 12] == h.subrange(a[4], a[4] + 16)[12]);
    assert(h[a[5] + 15] == h.subrange(a[5], a[5] + 22)[15]);
    assert(h[a[5] + 14] == h.subrange(a[5], a[5] + 22)[14]);
    assert forall|j: int| #[trigger] occurs_at(h, p, j) implies j == pos by {
        assert(h[j + 18] == h.subrange(j, j + 20)[18]);
        assert(h[j + 17] == h.subrange(j, j + 20)[17]);
        assert(h[j + 16] == h.subrange(j, j + 20)[16]);
    }
}

proof fn lemma_once_nonce(h: Seq<char>, a: Seq<int>)
    requires
        header_layout(h, a),
    ensures
        occurs_once(h, seq!['o', 'a', 'u', 't', 'h', '_', 'n', 'o', 'n', 'c', 'e', '=', '"']),
{
    let p = seq!['o', 'a', 'u', 't', 'h', '_', 'n', 'o', 'n', 'c', 'e', '=', '"'];
    let pos = a[1] + 3;
    assert forall|t: int| 0 <= t < 13 implies h[pos + t] == p[t] by {
        assert(h[pos + t] == h.subrange(a[1], a[1] + 16)[3 + t]);
    }
    assert(h.subrange(pos, pos + 13) =~= p);
    assert(occurs_at(h, p, pos));
    assert(h[a[0] + 23] == h.subrange(a[0], a[0] + 26)[23]);
    assert(h[a[0] + 22] == h.subrange(a[0], a[0] + 26)[22]);
    assert(h[a[1] + 13] == h.subrange(a[1], a[1] + 16)[13]);
    assert(h[a[1] + 12] == h.subrange(a[1], a[1] + 16)[12]);
    assert(h[a[2] + 17] == h.subrange(a[2], a[2] + 20)[17]);
    assert(h[a[2] + 16] == h.subrange(a[2], a[2] + 20)[16]);
    assert(h[a[3] + 24] == h.subrange(a[3], a[3] + 56)[24]);
    assert(h[a[3] + 23] == h.subrange(a[3], a[3] + 56)[23]);
    assert(h[a[3] + 53] == h.subrange(a[3], a[3] + 56)[53]);
    assert(h[a[3] + 52] == h.subrange(a[3], a[3] + 56)[52]);
    assert(h[a[4] + 13] == h.subrange(a[4], a[4] + 16)[13]);
    assert(h[a[4] + 12] == h.subrange(a[4], a[4] + 16)[12]);
    assert(h[a[5] + 15] == h.subrange(a[5], a[5] + 22)[15]);
    assert(h[a[5] + 14] == h.subrange(a[5], a[5] + 22)[14]);
    assert forall|j: int| #[trigger] occurs_at(h, p, j) implies j == pos by {
        assert(h[j + 11] == h.subrange(j, j + 13)[11]);
        assert(h[j + 10] == h.subrange(j, j + 13)[10]);
        assert(h[j + 9] == h.subrange(j, j + 13)[9]);
    }
}

proof fn lemma_once_signature(h: Seq<char>, a: Seq<int>)
    requires
        header_layout(h, a),
    ensures
        occurs_once(h, seq!['o', 'a', 'u', 't', 'h', '_', 's', 'i', 'g', 'n', 'a', 't', 'u', 'r', 'e', '=', '"']),
{
    let p = seq!['o', 'a', 'u', 't', 'h', '_', 's', 'i', 'g', 'n', 'a', 't', 'u', 'r', 'e', '=', '"'];
    let pos = a[2] + 3;
    assert forall|t: int| 0 <= t < 17 implies h[pos + t] == p[t] by {
        assert(h[pos + t] == h.subrange(a[2], a[2] + 20)[3 + t]);
    }
    assert(h.subrange(pos, pos + 17) =~= p);
    assert(occurs_at(h, p, pos));
    assert(h[a[0] + 23] == h.subrange(a[0], a[0] + 26)[23]);
    assert(h[a[0] + 22] == h.subrange(a[0], a[0] + 26)[22]);
    assert(h[a[1] + 13] == h.subrange(a[1], a[1] + 16)[13]);
    assert(h[a[1] + 12] == h.subrange(a[1], a[1] + 16)[12]);
    assert(h[a[2] + 17] == h.subrange(a[2], a[2] + 20)[17]);
    assert(h[a[2] + 16] == h.subrange(a[2], a[2] + 20)[16]);
    assert(h[a[3] + 24] == h.subrange(a[3], a[3] + 56)[24]);
    assert(h[a[3] + 23] == h.subrange(a[3], a[3] + 56)[23]);
    assert(h[a[3] + 53] == h.subrange(a[3], a[3] + 56)[53]);
    assert(h[a[3] + 52] == h.subrange(a[3], a[3] + 56)[52]);
    assert(h[a[4] + 13] == h.subrange(a[4], a[4] + 16)[13]);
    assert(h[a[4] + 12] == h.subrange(a[4], a[4] + 16)[12]);
    assert(h[a[5] + 15] == h.subrange(a[5], a[5] + 22)[15]);
    assert(h[a[5] + 14] == h.subrange(a[5], a[5] + 22)[14]);
    assert forall|j: int| #[trigger] occurs_at(h, p, j) implies j == pos by {
        assert(h[j + 15] == h.subrange(j, j + 17)[15]);
        assert(h[j + 14] == h.subrange(j, j + 17)[14]);
        assert(h[j + 13] == h.subrange(j, j + 17)[13]);
    }
}

proof fn lemma_once_signature_method(h: Seq<char>, a: Seq<int>)
    requires
        header_layout(h, a),
    ensures
        occurs_once(h, seq!['o', 'a', 'u', 't', 'h', '_', 's', 'i', 'g', 'n', 'a', 't', 'u', 'r', 'e', '_', 'm', 'e', 't', 'h', 'o', 'd', '=', '"', 'H', 'M', 'A', 'C', '-', 'S', 'H', 'A', '1', '"']),
{
    let p = seq!['o', 'a', 'u', 't', 'h', '_', 's', 'i', 'g', 'n', 'a', 't', 'u', 'r', 'e', '_', 'm', 'e', 't', 'h', 'o', 'd', '=', '"', 'H', 'M', 'A', 'C', '-', 'S', 'H', 'A', '1', '"'];
    let pos = a[3] + 3;
    assert forall|t: int| 0 <= t < 34 implies h[pos + t] == p[t] by {
        assert(h[pos + t] == h.subrange(a[3], a[3] + 56)[3 + t]);
    }
    assert(h.subrange(pos, pos + 34) =~= p);
    assert(occurs_at(h, p, pos));
    assert(h[a[0] + 23] == h.subrange(a[0], a[0] + 26)[23]);
    assert(h[a[0] + 22] == h.subrange(a[0], a[0] + 26)[22]);
    assert(h[a[1] + 13] == h.subrange(a[1], a[1] + 16)[13]);
    assert(h[a[1] + 12] == h.subrange(a[1], a[1] + 16)[12]);
    assert(h[a[2] + 17] == h.subrange(a[2], a[2] + 20)[17]);
    assert(h[a[2] + 16] == h.subrange(a[2], a[2] + 20)[16]);
    assert(h[a[3] + 24] == h.subrange(a[3], a[3] + 56)[24]);
    assert(h[a[3] + 23] == h.subrange(a[3], a[3] + 56)[23]);
    assert(h[a[3] + 53] == h.subrange(a[3], a[3] + 56)[53]);
    assert(h[a[3] + 52] == h.subrange(a[3], a[3] + 56)[52]);
    assert(h[a[4] + 13] == h.subrange(a[4], a[4] + 16)[13]);
    assert(h[a[4] + 12] == h.subrange(a[4], a[4] + 16)[12]);
    assert(h[a[5] + 15] == h.subrange(a[5], a[5] + 22)[15]);
    assert(h[a[5] + 14] == h.subrange(a[5], a[5] + 22)[14]);
    assert forall|j: int| #[trigger] occurs_at(h, p, j) implies j == pos by {
        assert(h[j + 22] == h.subrange(j, j + 34)[22]);
        assert(h[j + 21] == h.subrange(j, j + 34)[21]);
        assert(h[j + 20] == h.subrange(j, j + 34)[20]);
    }
}

proof fn lemma_once_timestamp(h: Seq<char>, a: Seq<int>)
    requires
        header_layout(h, a),
    ensures
        occurs_once(h, seq!['o', 'a', 'u', 't', 'h', '_', 't', 'i', 'm', 'e', 's', 't', 'a', 'm', 'p', '=', '"']),
{
    let p = seq!['o', 'a', 'u', 't', 'h', '_', 't', 'i', 'm', 'e', 's', 't', 'a', 'm', 'p', '=', '"'];
    let pos = a[3] + 39;
    assert forall|t: int| 0 <= t < 17 implies h[pos + t] == p[t] by {
        assert(h[pos + t] == h.subrange(a[3], a[3] + 56)[39 + t]);
    }
    assert(h.subrange(pos, pos + 17) =~= p);
    assert(occurs_at(h, p, pos));
    assert(h[a[0] + 23] == h.subrange(a[0], a[0] + 26)[23]);
    assert(h[a[0] + 22] == h.subrange(a[0], a[0] + 26)[22]);
    assert(h[a[1] + 13] == h.subrange(a[1], a[1] + 16)[13]);
    assert(h[a[1] + 12] == h.subrange(a[1], a[1] + 16)[12]);
    assert(h[a[2] + 17] == h.subrange(a[2], a[2] + 20)[17]);
    assert(h[a[2] + 16] == h.subrange(a[2], a[2] + 20)[16]);
    assert(h[a[3] + 24] == h.subrange(a[3], a[3] + 56)[24]);
    assert(h[a[3] + 23] == h.subrange(a[3], a[3] + 56)[23]);
    assert(h[a[3] + 53] == h.subrange(a[3], a[3] + 56)[53]);
    assert(h[a[3] + 52] == h.subrange(a[3], a[3] + 56)[52]);
    assert(h[a[4] + 13] == h.subrange(a[4], a[4] + 16)[13]);
    assert(h[a[4] + 12] == h.subrange(a[4], a[4] + 16)[12]);
    assert(h[a[5] + 15] == h.subrange(a[5], a[5] + 22)[15]);
    assert(h[a[5] + 14] == h.subrange(a[5], a[5] + 22)[14]);
    assert forall|j: int| #[trigger] occurs_at(h, p, j) implies j == pos by {
        assert(h[j + 15] == h.subrange(j, j + 17)[15]);
        assert(h[j + 14] == h.subrange(j, j + 17)[14]);
        assert(h[j + 13] == h.subrange(j, j + 17)[13]);
    }
}

proof fn lemma_once_token(h: Seq<char>, a: Seq<int>)
    requires
        header_layout(h, a),
    ensures
        occurs_once(h, seq!['o', 'a', 'u', 't', 'h', '_', 't', 'o', 'k', 'e', 'n', '=', '"']),
{
    let p = seq!['o', 'a', 'u', 't', 'h', '_', 't', 'o', 'k', 'e', 'n', '=', '"'];
    let pos = a[4] + 3;
    assert forall|t: int| 0 <= t < 13 implies h[pos + t] == p[t] by {
        assert(h[pos + t] == h.subrange(a[4], a[4] + 16)[3 + t]);
    }
    assert(h.subrange(pos, pos + 13) =~= p);
    assert(occurs_at(h, p, pos));
    assert(h[a[0] + 23] == h.subrange(a[0], a[0] + 26)[23]);
    assert(h[a[0] + 22] == h.subrange(a[0], a[0] + 26)[22]);
    assert(h[a[1] + 13] == h.subrange(a[1], a[1] + 16)[13]);
    assert(h[a[1] + 12] == h.subrange(a[1], a[1] + 16)[12]);
    assert(h[a[2] + 17] == h.subrange(a[2], a[2] + 20)[17]);
    assert(h[a[2] + 16] == h.subrange(a[2], a[2] + 20)[16]);
    assert(h[a[3] + 24] == h.subrange(a[3], a[3] + 56)[24]);
    assert(h[a[3] + 23] == h.subrange(a[3], a[3] + 56)[23]);
    assert(h[a[3] + 53] == h.subrange(a[3], a[3] + 56)[53]);
    assert(h[a[3] + 52] == h.subrange(a[3], a[3] + 56)[52]);
    assert(h[a[4] + 13] == h.subrange(a[4], a[4] + 16)[13]);
    assert(h[a[4] + 12] == h.subrange(a[4], a[4] + 16)[12]);
    assert(h[a[5] + 15] == h.subrange(a[5], a[5] + 22)[15]);
    assert(h[a[5] + 14] == h.subrange(a[5], a[5] + 22)[14]);
    assert forall|j: int| #[trigger] occurs_at(h, p, j) implies j == pos by {
        assert(h[j + 11] == h.subrange(j, j + 13)[11]);
        assert(h[j + 10] == h.subrange(j, j + 13)[10]);
        assert(h[j + 9] == h.subrange(j, j + 13)[9]);
    }
}

proof fn lemma_once_version(h: Seq<char>, a: Seq<int>)
    requires
        header_layout(h, a),
    ensures
        occurs_once(h, seq!['o', 'a', 'u', 't', 'h', '_', 'v', 'e', 'r', 's', 'i', 'o', 'n', '=', '"', '1', '.', '0', '"']),
{
    let p = seq!['o', 'a', 'u', 't', 'h', '_', 'v', 'e', 'r', 's', 'i', 'o', 'n', '=', '"', '1', '.', '0', '"'];
    let pos = a[5] + 3;
    assert forall|t: int| 0 <= t < 19 implies h[pos + t] == p[t] by {
        assert(h[pos + t] == h.subrange(a[5], a[5] + 22)[3 + t]);
    }
    assert(h.subrange(pos, pos + 19) =~= p);
    assert(occurs_at(h, p, pos));
    assert(h[a[0] + 23] == h.subrange(a[0], a[0] + 26)[23]);
    assert(h[a[0] + 22] == h.subrange(a[0], a[0] + 26)[22]);
    assert(h[a[1] + 13] == h.subrange(a[1], a[1] + 16)[13]);
    assert(h[a[1] + 12] == h.subrange(a[1], a[1] + 16)[12]);
    assert(h[a[2] + 17] == h.subrange(a[2], a[2] + 20)[17]);
    assert(h[a[2] + 16] == h.subrange(a[2], a[2] + 20)[16]);
    assert(h[a[3] + 24] == h.subrange(a[3], a[3] + 56)[24]);
    assert(h[a[3] + 23] == h.subrange(a[3], a[3] + 56)[23]);
    assert(h[a[3] + 53] == h.subrange(a[3], a[3] + 56)[53]);
    assert(h[a[3] + 52] == h.subrange(a[3], a[3] + 56)[52]);
    assert(h[a[4] + 13] == h.subrange(a[4], a[4] + 16)[13]);
    assert(h[a[4] + 12] == h.subrange(a[4], a[4] + 16)[12]);
    assert(h[a[5] + 15] == h.subrange(a[5], a[5] + 22)[15]);
    assert(h[a[5] + 14] == h.subrange(a[5], a[5] + 22)[14]);
    assert forall|j: int| #[trigger] occurs_at(h, p, j) implies j == pos by {
        assert(h[j + 13] == h.subrange(j, j + 19)[13]);
        assert(h[j + 12] == h.subrange(j, j + 19)[12]);
        assert(h[j + 11] == h.subrange(j, j + 19)[11]);
    }
}

/// A text with the header layout begins with `OAuth ` and holds each field
/// marker once.
proof fn lemma_layout_fields(h: Seq<char>, a: Seq<int>)
    requires
        header_layout(h, a),
    ensures
        h.len() >= 6,
        h.subrange(0, 6) == "OAuth "@,
        occurs_once(h, "oauth_consumer_key=\""@),
        occurs_once(h, "oauth_nonce=\""@),
        occurs_once(h, "oauth_signature=\""@),
        occurs_once(h, "oauth_signature_method=\"HMAC-SHA1\""@),
        occurs_once(h, "oauth_timestamp=\""@),
        occurs_once(h, "oauth_token=\""@),
        occurs_once(h, "oauth_version=\"1.0\""@),
{
    lemma_literals();
    reveal_strlit("OAuth ");
    assert(h.subrange(0, 6) =~= h.subrange(0, 26).subrange(0, 6));
    assert("OAuth "@ =~= seq!['O', 'A', 'u', 't', 'h', ' ']);
    lemma_once_consumer_key(h, a);
    lemma_once_nonce(h, a);
    lemma_once_signature(h, a);
    lemma_once_signature_method(h, a);
    lemma_once_timestamp(h, a);
    lemma_once_token(h, a);
    lemma_once_version(h, a);
}

/// A header text around percent-encoded values holds each field marker once.
proof fn lemma_header_text_fields(v1: Seq<char>, v2: Seq<char>, v3: Seq<char>, v4: Seq<char>, v5: Seq<char>)
    requires
        all_encoded(v1),
        all_encoded(v2),
        all_encoded(v3),
        all_encoded(v4),
        all_encoded(v5),
    ensures
        ({
            let h = header_text(v1, v2, v3, v4, v5);
            &&& h.len() >= 6
            &&& h.subrange(0, 6) == "OAuth "@
            &&& occurs_once(h, "oauth_consumer_key=\""@)
            &&& occurs_once(h, "oauth_nonce=\""@)
            &&& occurs_once(h, "oauth_signature=\""@)
            &&& occurs_once(h, "oauth_signature_method=\"HMAC-SHA1\""@)
            &&& occurs_once(h, "oauth_timestamp=\""@)
            &&& occurs_once(h, "oauth_token=\""@)
            &&& occurs_once(h, "oauth_version=\"1.0\""@)
        }),
{
    lemma_layout(v1, v2, v3, v4, v5);
    lemma_layout_fields(
        header_text(v1, v2, v3, v4, v5),
        piece_starts(v1.len() as int, v2.len() as int, v3.len() as int, v4.len() as int, v5.len() as int),
    );
}

/// A signed header begins with `OAuth ` and holds each of its seven field
/// markers exactly once, whatever the credentials, the request, the nonce and
/// the timestamp.
pub proof fn lemma_signed_header_fields(
    consumer_key: Seq<char>,
    consumer_secret: Seq<char>,
    token: Seq<char>,
    token_secret: Seq<char>,
    method: Seq<char>,
    url: Seq<char>,
    nonce: Seq<char>,
    timestamp: Seq<char>,
)
    ensures
        ({
            let h = oauth_header(consumer_key, consumer_secret, token, token_secret, method, url, nonce, timestamp);
            &&& h.len() >= 6
            &&& h.subrange(0, 6) == "OAuth "@
            &&& occurs_once(h, "oauth_consumer_key=\""@)
            &&& occurs_once(h, "oauth_nonce=\""@)
            &&& occurs_once(h, "oauth_signature=\""@)
            &&& occurs_once(h, "oauth_signature_method=\"HMAC-SHA1\""@)
            &&& occurs_once(h, "oauth_timestamp=\""@)
            &&& occurs_once(h, "oauth_token=\""@)
            &&& occurs_once(h, "oauth_version=\"1.0\""@)
        }),
{
    let sig = oauth_signature(consumer_key, consumer_secret, token, token_secret, method, url, nonce, timestamp);
    lemma_encoded_chars(consumer_key);
    lemma_encoded_chars(nonce);
    lemma_encoded_chars(sig);
    lemma_encoded_chars(timestamp);
    lemma_encoded_chars(token);
    lemma_header_text_fields(
        pct_encoded(consumer_key),
        pct_encoded(nonce),
        pct_encoded(sig),
        pct_encoded(timestamp),
        pct_encoded(token),
    );
}

} // verus!
