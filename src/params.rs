//! The OAuth parameter set: merging by name, encoding, ordering by encoded
//! name and joining into the normalized parameter string.
use vstd::prelude::*;

use crate::encoding::{pct_encoded, percent_encode};

verus! {

/// The character views of a list of owned pairs.
pub open spec fn spairs(ps: Seq<(String, String)>) -> Seq<(Seq<char>, Seq<char>)> {
    ps.map_values(|p: (String, String)| (p.0@, p.1@))
}

/// Position of the last pair named `k`, or -1.
pub open spec fn key_index(ps: Seq<(Seq<char>, Seq<char>)>, k: Seq<char>) -> int
    decreases ps.len(),
{
    if ps.len() == 0 {
        -1
    } else if ps.last().0 == k {
        ps.len() - 1
    } else {
        key_index(ps.drop_last(), k)
    }
}

/// Sets `k` to `v`: the pair named `k` takes the new value in its place, or
/// the pair is added at the end when there is none.
pub open spec fn upsert(ps: Seq<(Seq<char>, Seq<char>)>, k: Seq<char>, v: Seq<char>) -> Seq<(Seq<char>, Seq<char>)> {
    let i = key_index(ps, k);
    if i < 0 {
        ps.push((k, v))
    } else {
        ps.update(i, (k, v))
    }
}

/// `ps` with every pair of `qs` set in turn, so a later value wins.
pub open spec fn merged(ps: Seq<(Seq<char>, Seq<char>)>, qs: Seq<(Seq<char>, Seq<char>)>) -> Seq<(Seq<char>, Seq<char>)>
    decreases qs.len(),
{
    if qs.len() == 0 {
        ps
    } else {
        let m = merged(ps, qs.drop_last());
        upsert(m, qs.last().0, qs.last().1)
    }
}

/// Names and values percent-encoded.
pub open spec fn encoded_pairs(ps: Seq<(Seq<char>, Seq<char>)>) -> Seq<(Seq<char>, Seq<char>)> {
    ps.map_values(|p: (Seq<char>, Seq<char>)| (pct_encoded(p.0), pct_encoded(p.1)))
}

/// Lexicographic order of code points, which is the byte order of the UTF-8
/// encodings.
pub open spec fn lex_lt(a: Seq<char>, b: Seq<char>) -> bool
    decreases a.len(),
{
    if a.len() == 0 {
        b.len() > 0
    } else if b.len() == 0 {
        false
    } else if a[0] != b[0] {
        (a[0] as u32) < (b[0] as u32)
    } else {
        lex_lt(a.drop_first(), b.drop_first())
    }
}

/// `e` placed before the first pair whose name is greater than its own.
pub open spec fn sorted_insert(s: Seq<(Seq<char>, Seq<char>)>, e: (Seq<char>, Seq<char>)) -> Seq<(Seq<char>, Seq<char>)>
    decreases s.len(),
{
    if s.len() == 0 {
        seq![e]
    } else if lex_lt(e.0, s[0].0) {
        seq![e] + s
    } else {
        seq![s[0]] + sorted_insert(s.drop_first(), e)
    }
}

/// The pairs ordered by name; pairs with equal names keep their order.
pub open spec fn sorted_by_name(s: Seq<(Seq<char>, Seq<char>)>) -> Seq<(Seq<char>, Seq<char>)>
    decreases s.len(),
{
    if s.len() == 0 {
        seq![]
    } else {
        sorted_insert(sorted_by_name(s.drop_last()), s.last())
    }
}

/// `name=value`.
pub open spec fn field(p: (Seq<char>, Seq<char>)) -> Seq<char> {
    p.0 + "="@ + p.1
}

/// The fields joined by `&`.
pub open spec fn joined(s: Seq<(Seq<char>, Seq<char>)>) -> Seq<char>
    decreases s.len(),
{
    if s.len() == 0 {
        seq![]
    } else if s.len() == 1 {
        field(s[0])
    } else {
        joined(s.drop_last()) + "&"@ + field(s.last())
    }
}

/// The normalized parameter string: pairs encoded, ordered by encoded name,
/// and joined.
pub open spec fn param_string(ps: Seq<(Seq<char>, Seq<char>)>) -> Seq<char> {
    joined(sorted_by_name(encoded_pairs(ps)))
}

/// No pair's name comes before the name of the pair ahead of it.
pub open spec fn ordered_by_name(s: Seq<(Seq<char>, Seq<char>)>) -> bool {
    forall|i: int| 0 < i < s.len() ==> !lex_lt(#[trigger] s[i].0, s[i - 1].0)
}

proof fn lemma_lex_lt_asym(a: Seq<char>, b: Seq<char>)
    requires
        lex_lt(a, b),
    ensures
        !lex_lt(b, a),
    decreases a.len(),
{
    if a.len() > 0 && b.len() > 0 && a[0] == b[0] {
        lemma_lex_lt_asym(a.drop_first(), b.drop_first());
    }
}

proof fn lemma_sorted_insert_ordered(s: Seq<(Seq<char>, Seq<char>)>, e: (Seq<char>, Seq<char>))
    requires
        ordered_by_name(s),
    ensures
        ordered_by_name(sorted_insert(s, e)),
        sorted_insert(s, e).len() == s.len() + 1,
        sorted_insert(s, e)[0] == e || (s.len() > 0 && sorted_insert(s, e)[0] == s[0]),
    decreases s.len(),
{
    let r = sorted_insert(s, e);
    if s.len() == 0 {
    } else if lex_lt(e.0, s[0].0) {
        lemma_lex_lt_asym(e.0, s[0].0);
        assert(r =~= seq![e] + s);
        assert forall|i: int| 0 < i < r.len() implies !lex_lt(#[trigger] r[i].0, r[i - 1].0) by {
            assert(r[i] == s[i - 1]);
            if i > 1 {
                assert(r[i - 1] == s[i - 2]);
            }
        }
    } else {
        let t = s.drop_first();
        assert forall|i: int| 0 < i < t.len() implies !lex_lt(#[trigger] t[i].0, t[i - 1].0) by {
            assert(t[i] == s[i + 1]);
            assert(t[i - 1] == s[i]);
        }
        lemma_sorted_insert_ordered(t, e);
        let rt = sorted_insert(t, e);
        assert(r =~= seq![s[0]] + rt);
        if t.len() > 0 {
            assert(t[0] == s[1]);
        }
        assert forall|i: int| 0 < i < r.len() implies !lex_lt(#[trigger] r[i].0, r[i - 1].0) by {
            assert(r[i] == rt[i - 1]);
            if i > 1 {
                assert(r[i - 1] == rt[i - 2]);
            }
        }
    }
}

/// The normalized order is an order by name: stepping through the list, the
/// names never go down, and the list keeps its length.
pub proof fn lemma_sorted_by_name_ordered(s: Seq<(Seq<char>, Seq<char>)>)
    ensures
        ordered_by_name(sorted_by_name(s)),
        sorted_by_name(s).len() == s.len(),
    decreases s.len(),
{
    if s.len() > 0 {
        lemma_sorted_by_name_ordered(s.drop_last());
        lemma_sorted_insert_ordered(sorted_by_name(s.drop_last()), s.last());
    }
}

proof fn lemma_spairs_push(ps: Seq<(String, String)>, p: (String, String))
    ensures
        spairs(ps.push(p)) == spairs(ps).push((p.0@, p.1@)),
{
    assert(spairs(ps.push(p)) =~= spairs(ps).push((p.0@, p.1@)));
}

proof fn lemma_spairs_update(ps: Seq<(String, String)>, i: int, p: (String, String))
    requires
        0 <= i < ps.len(),
    ensures
        spairs(ps.update(i, p)) == spairs(ps).update(i, (p.0@, p.1@)),
{
    assert(spairs(ps.update(i, p)) =~= spairs(ps).update(i, (p.0@, p.1@)));
}

proof fn lemma_spairs_insert(ps: Seq<(String, String)>, i: int, p: (String, String))
    requires
        0 <= i <= ps.len(),
    ensures
        spairs(ps.insert(i, p)) == spairs(ps).insert(i, (p.0@, p.1@)),
{
    assert(spairs(ps.insert(i, p)) =~= spairs(ps).insert(i, (p.0@, p.1@)));
}

proof fn lemma_sorted_insert_at(s: Seq<(Seq<char>, Seq<char>)>, e: (Seq<char>, Seq<char>), j: int)
    requires
        0 <= j <= s.len(),
        forall|k: int| 0 <= k < j ==> !lex_lt(e.0, #[trigger] s[k].0),
        j < s.len() ==> lex_lt(e.0, s[j].0),
    ensures
        sorted_insert(s, e) == s.insert(j, e),
    decreases j,
{
    if s.len() == 0 {
        assert(s.insert(0, e) =~= seq![e]);
    } else if j == 0 {
        assert(s.insert(0, e) =~= seq![e] + s);
    } else {
        let t = s.drop_first();
        assert forall|k: int| 0 <= k < j - 1 implies !lex_lt(e.0, #[trigger] t[k].0) by {
            assert(t[k] == s[k + 1]);
        }
        if j < s.len() {
            assert(t[j - 1] == s[j]);
        }
        lemma_sorted_insert_at(t, e, j - 1);
        assert(s.insert(j, e) =~= seq![s[0]] + t.insert(j - 1, e));
    }
}

/// Whether `a` comes before `b` in code-point order.
pub fn lex_less(a: &str, b: &str) -> (r: bool)
    ensures
        r == lex_lt(a@, b@),
{
    let na = a.unicode_len();
    let nb = b.unicode_len();
    let mut i: usize = 0;
    assert(a@.skip(0) =~= a@);
    assert(b@.skip(0) =~= b@);
    while i < na && i < nb
        invariant
            na == a@.len(),
            nb == b@.len(),
            i <= na,
            i <= nb,
            lex_lt(a@, b@) == lex_lt(a@.skip(i as int), b@.skip(i as int)),
        decreases na - i,
    {
        let ca = a.get_char(i);
        let cb = b.get_char(i);
        assert(a@.skip(i as int)[0] == ca);
        assert(b@.skip(i as int)[0] == cb);
        if ca != cb {
            return (ca as u32) < (cb as u32);
        }
        assert(a@.skip(i as int).drop_first() =~= a@.skip(i + 1));
        assert(b@.skip(i as int).drop_first() =~= b@.skip(i + 1));
        i += 1;
    }
    assert(i == na ==> a@.skip(i as int).len() == 0);
    assert(i == nb ==> b@.skip(i as int).len() == 0);
    i < nb
}

/// Sets the pair named `k` to `v`, in its place, or adds it at the end.
pub fn upsert_param(ps: &mut Vec<(String, String)>, k: String, v: String)
    ensures
        spairs(final(ps)@) == upsert(spairs(old(ps)@), k@, v@),
{
    let ghost s = spairs(ps@);
    let mut found: Option<usize> = None;
    let mut i: usize = 0;
    while i < ps.len()
        invariant
            i <= ps@.len(),
            s == spairs(ps@),
            match found {
                Some(j) => key_index(s.take(i as int), k@) == j as int && j < i,
                None => key_index(s.take(i as int), k@) == -1,
            },
        decreases ps@.len() - i,
    {
        assert(s.take(i + 1).drop_last() =~= s.take(i as int));
        assert(s[i as int] == (ps@[i as int].0@, ps@[i as int].1@));
        if ps[i].0 == k {
            found = Some(i);
        }
        i += 1;
    }
    assert(s.take(ps@.len() as int) =~= s);
    match found {
        Some(j) => {
            proof {
                lemma_spairs_update(ps@, j as int, (k, v));
            }
            ps.set(j, (k, v));
        },
        None => {
            proof {
                lemma_spairs_push(ps@, (k, v));
            }
            ps.push((k, v));
        },
    }
}

/// Places `e` before the first pair whose name is greater than its own.
pub fn insert_sorted(ps: &mut Vec<(String, String)>, e: (String, String))
    ensures
        spairs(final(ps)@) == sorted_insert(spairs(old(ps)@), (e.0@, e.1@)),
{
    let ghost s = spairs(ps@);
    let n = ps.len();
    let mut j: usize = 0;
    let mut stop = false;
    while !stop && j < n
        invariant
            n == ps@.len(),
            s == spairs(ps@),
            j <= n,
            forall|k: int| 0 <= k < j ==> !lex_lt(e.0@, #[trigger] s[k].0),
            stop ==> j < n && lex_lt(e.0@, s[j as int].0),
        decreases n - j + (if stop { 0int } else { 1int }),
    {
        assert(s[j as int] == (ps@[j as int].0@, ps@[j as int].1@));
        if lex_less(e.0.as_str(), ps[j].0.as_str()) {
            stop = true;
        } else {
            j += 1;
        }
    }
    proof {
        lemma_sorted_insert_at(s, (e.0@, e.1@), j as int);
        lemma_spairs_insert(ps@, j as int, e);
    }
    ps.insert(j, e);
}

/// The pairs ordered by name, stably.
pub fn sort_by_name(ps: Vec<(String, String)>) -> (r: Vec<(String, String)>)
    ensures
        spairs(r@) == sorted_by_name(spairs(ps@)),
{
    let ghost s = spairs(ps@);
    let mut out: Vec<(String, String)> = Vec::new();
    let mut rest = ps;
    let mut taken: Vec<(String, String)> = Vec::new();
    let mut i: usize = 0;
    let n = rest.len();
    assert(spairs(out@) =~= sorted_by_name(s.take(0)));
    while i < n
        invariant
            n == s.len(),
            i <= n,
            spairs(out@) == sorted_by_name(s.take(i as int)),
            s == spairs(ps@),
            rest@ == ps@,
        decreases n - i,
    {
        let e = (rest[i].0.clone(), rest[i].1.clone());
        assert(s[i as int] == (e.0@, e.1@));
        assert(s.take(i + 1).drop_last() =~= s.take(i as int));
        insert_sorted(&mut out, e);
        i += 1;
    }
    assert(s.take(n as int) =~= s);
    out
}

/// Every name and value percent-encoded.
pub fn encode_pairs(ps: &Vec<(String, String)>) -> (r: Vec<(String, String)>)
    ensures
        spairs(r@) == encoded_pairs(spairs(ps@)),
{
    let ghost s = spairs(ps@);
    let mut out: Vec<(String, String)> = Vec::new();
    let mut i: usize = 0;
    while i < ps.len()
        invariant
            i <= ps@.len(),
            s == spairs(ps@),
            spairs(out@) == encoded_pairs(s.take(i as int)),
        decreases ps@.len() - i,
    {
        let k = percent_encode(ps[i].0.as_str());
        let v = percent_encode(ps[i].1.as_str());
        proof {
            lemma_spairs_push(out@, (k, v));
            assert(s[i as int] == (ps@[i as int].0@, ps@[i as int].1@));
            assert(encoded_pairs(s.take(i + 1)) =~= encoded_pairs(s.take(i as int)).push((k@, v@)));
        }
        out.push((k, v));
        i += 1;
    }
    assert(s.take(ps@.len() as int) =~= s);
    out
}

/// The pairs written as `name=value` and joined by `&`.
pub fn join_pairs(ps: &Vec<(String, String)>) -> (r: String)
    ensures
        r@ == joined(spairs(ps@)),
{
    let ghost s = spairs(ps@);
    let mut out = String::new();
    let mut i: usize = 0;
    while i < ps.len()
        invariant
            i <= ps@.len(),
            s == spairs(ps@),
            out@ == joined(s.take(i as int)),
        decreases ps@.len() - i,
    {
        assert(s.take(i + 1).drop_last() =~= s.take(i as int));
        assert(s[i as int] == (ps@[i as int].0@, ps@[i as int].1@));
        assert(s.take(i + 1).last() == s[i as int]);
        if i > 0 {
            out.append("&");
        }
        let ghost before = out@;
        out.append(ps[i].0.as_str());
        out.append("=");
        out.append(ps[i].1.as_str());
        proof {
            if i == 0 {
                assert(out@ =~= field(s[0]));
            } else {
                assert(out@ =~= before + field(s[i as int]));
            }
        }
        i += 1;
    }
    assert(s.take(ps@.len() as int) =~= s);
    out
}

/// The normalized parameter string of `ps`.
pub fn normalized_params(ps: &Vec<(String, String)>) -> (r: String)
    ensures
        r@ == param_string(spairs(ps@)),
{
    let enc = encode_pairs(ps);
    let sorted = sort_by_name(enc);
    join_pairs(&sorted)
}

} // verus!
