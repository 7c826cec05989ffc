//! Splitting a request URL into its base and its query parameters.
use vstd::prelude::*;

verus! {

/// Position of the first `c` in `s`, or -1 when `s` holds none.
pub open spec fn index_of(s: Seq<char>, c: char) -> int
    decreases s.len(),
{
    if s.len() == 0 {
        -1
    } else {
        let r = index_of(s.drop_last(), c);
        if r >= 0 {
            r
        } else if s.last() == c {
            s.len() - 1
        } else {
            -1
        }
    }
}

/// The pieces of `s` between the occurrences of `sep` (always at least one).
pub open spec fn split_on(s: Seq<char>, sep: char) -> Seq<Seq<char>>
    decreases s.len(),
{
    if s.len() == 0 {
        seq![seq![]]
    } else {
        let rest = split_on(s.drop_last(), sep);
        if s.last() == sep {
            rest.push(seq![])
        } else {
            rest.update(rest.len() - 1, rest.last().push(s.last()))
        }
    }
}

/// A `key=value` piece: the key runs up to the first `=`, the value is the
/// rest; with no `=` the value is empty.
pub open spec fn query_pair(seg: Seq<char>) -> (Seq<char>, Seq<char>) {
    let k = index_of(seg, '=');
    if k < 0 {
        (seg, seq![])
    } else {
        (seg.take(k), seg.skip(k + 1))
    }
}

/// The `&`-separated pairs of a query string, in order.
pub open spec fn query_pairs(query: Seq<char>) -> Seq<(Seq<char>, Seq<char>)> {
    split_on(query, '&').map_values(|seg: Seq<char>| query_pair(seg))
}

/// Everything before the first `?`.
pub open spec fn url_base(url: Seq<char>) -> Seq<char> {
    let q = index_of(url, '?');
    if q < 0 {
        url
    } else {
        url.take(q)
    }
}

/// The query pairs after the first `?`; none when there is no `?`.
pub open spec fn url_params(url: Seq<char>) -> Seq<(Seq<char>, Seq<char>)> {
    let q = index_of(url, '?');
    if q < 0 {
        seq![]
    } else {
        query_pairs(url.skip(q + 1))
    }
}

/// The character views of a list of borrowed-key pairs.
pub open spec fn pairs_view(ps: Seq<(&str, String)>) -> Seq<(Seq<char>, Seq<char>)> {
    ps.map_values(|p: (&str, String)| (p.0@, p.1@))
}

proof fn lemma_split_on_nonempty(s: Seq<char>, sep: char)
    ensures
        split_on(s, sep).len() >= 1,
    decreases s.len(),
{
    if s.len() > 0 {
        lemma_split_on_nonempty(s.drop_last(), sep);
    }
}

proof fn lemma_pairs_push(ps: Seq<(&str, String)>, p: (&str, String), done: Seq<Seq<char>>, seg: Seq<char>)
    requires
        pairs_view(ps) == done.map_values(|s: Seq<char>| query_pair(s)),
        (p.0@, p.1@) == query_pair(seg),
    ensures
        pairs_view(ps.push(p)) == done.push(seg).map_values(|s: Seq<char>| query_pair(s)),
{
    let l = pairs_view(ps.push(p));
    let r = done.push(seg).map_values(|s: Seq<char>| query_pair(s));
    let m = done.map_values(|s: Seq<char>| query_pair(s));
    assert(pairs_view(ps).len() == ps.len());
    assert(m.len() == done.len());
    assert(l.len() == r.len());
    assert forall|j: int| 0 <= j < l.len() implies l[j] == r[j] by {
        if j < ps.len() {
            assert(l[j] == pairs_view(ps)[j]);
            assert(m[j] == query_pair(done[j]));
            assert(done.push(seg)[j] == done[j]);
        } else {
            assert(done.push(seg)[j] == seg);
        }
    }
    assert(l =~= r);
}

proof fn lemma_index_of_absent(s: Seq<char>, c: char)
    requires
        forall|i: int| 0 <= i < s.len() ==> #[trigger] s[i] != c,
    ensures
        index_of(s, c) == -1,
    decreases s.len(),
{
    if s.len() > 0 {
        let t = s.drop_last();
        assert forall|i: int| 0 <= i < t.len() implies #[trigger] t[i] != c by {
            assert(t[i] == s[i]);
        }
        lemma_index_of_absent(t, c);
        assert(s[s.len() - 1] != c);
    }
}

/// A URL without `?` is all base and has no query parameters.
pub proof fn lemma_split_without_query(url: Seq<char>)
    requires
        forall|i: int| 0 <= i < url.len() ==> #[trigger] url[i] != '?',
    ensures
        url_base(url) == url,
        url_params(url) == Seq::<(Seq<char>, Seq<char>)>::empty(),
{
    lemma_index_of_absent(url, '?');
}

/// Position of the first `c` in `s[from..to]`, counted from `from`.
fn find_char(s: &str, c: char, from: usize, to: usize) -> (r: Option<usize>)
    requires
        from <= to <= s@.len(),
    ensures
        match r {
            Some(k) => index_of(s@.subrange(from as int, to as int), c) == k as int && from + k < to,
            None => index_of(s@.subrange(from as int, to as int), c) == -1,
        },
{
    let mut found: Option<usize> = None;
    let mut i: usize = from;
    while i < to
        invariant
            from <= i <= to <= s@.len(),
            match found {
                Some(k) => index_of(s@.subrange(from as int, i as int), c) == k as int && from + k < i,
                None => index_of(s@.subrange(from as int, i as int), c) == -1,
            },
        decreases to - i,
    {
        let ch = s.get_char(i);
        proof {
            assert(s@.subrange(from as int, i + 1).drop_last() =~= s@.subrange(from as int, i as int));
        }
        if found.is_none() && ch == c {
            found = Some(i - from);
        }
        i += 1;
    }
    found
}

/// The pair that the piece `url[from..to]` stands for.
fn pair_of<'a>(url: &'a str, from: usize, to: usize) -> (r: (&'a str, String))
    requires
        from <= to <= url@.len(),
    ensures
        (r.0@, r.1@) == query_pair(url@.subrange(from as int, to as int)),
{
    let seg = Ghost(url@.subrange(from as int, to as int));
    match find_char(url, '=', from, to) {
        Some(k) => {
            let key = url.substring_char(from, from + k);
            let value = String::from_str(url.substring_char(from + k + 1, to));
            assert(key@ =~= seg@.take(k as int));
            assert(value@ =~= seg@.skip(k + 1));
            (key, value)
        },
        None => {
            let key = url.substring_char(from, to);
            let value = String::new();
            assert(value@ =~= Seq::<char>::empty());
            (key, value)
        },
    }
}

/// Splits `url` into everything before the first `?` and the `&`-separated
/// `key=value` pairs after it, in order. Values are kept as written.
pub fn split_url(url: &str) -> (r: (String, Vec<(&str, String)>))
    ensures
        r.0@ == url_base(url@),
        pairs_view(r.1@) == url_params(url@),
{
    let n = url.unicode_len();
    assert(url@.subrange(0, n as int) =~= url@);
    match find_char(url, '?', 0, n) {
        None => {
            let base = String::from_str(url);
            let params: Vec<(&str, String)> = Vec::new();
            assert(pairs_view(params@) =~= seq![]);
            (base, params)
        },
        Some(q) => {
            let base = String::from_str(url.substring_char(0, q));
            assert(base@ =~= url@.take(q as int));
            let mut params: Vec<(&str, String)> = Vec::new();
            let ghost done: Seq<Seq<char>> = seq![];
            let mut start: usize = q + 1;
            let mut i: usize = q + 1;
            assert(url@.subrange(q + 1, q + 1) =~= Seq::<char>::empty());
            while i < n
                invariant
                    n == url@.len(),
                    q + 1 <= start <= i <= n,
                    split_on(url@.subrange(q + 1, i as int), '&') == done.push(
                        url@.subrange(start as int, i as int),
                    ),
                    pairs_view(params@) == done.map_values(|seg: Seq<char>| query_pair(seg)),
                decreases n - i,
            {
                let ch = url.get_char(i);
                let ghost prev = url@.subrange(q + 1, i as int);
                proof {
                    assert(url@.subrange(q + 1, i + 1).drop_last() =~= prev);
                    lemma_split_on_nonempty(prev, '&');
                }
                if ch == '&' {
                    let p = pair_of(url, start, i);
                    proof {
                        lemma_pairs_push(params@, p, done, url@.subrange(start as int, i as int));
                    }
                    params.push(p);
                    proof {
                        done = done.push(url@.subrange(start as int, i as int));
                        assert(url@.subrange(i + 1, i + 1) =~= Seq::<char>::empty());
                    }
                    start = i + 1;
                } else {
                    assert(url@.subrange(start as int, i + 1) =~= url@.subrange(
                        start as int,
                        i as int,
                    ).push(ch));
                }
                i += 1;
                assert(split_on(url@.subrange(q + 1, i as int), '&') =~= done.push(
                    url@.subrange(start as int, i as int),
                ));
            }
            let p = pair_of(url, start, n);
            proof {
                lemma_pairs_push(params@, p, done, url@.subrange(start as int, n as int));
                assert(url@.subrange(q + 1, n as int) =~= url@.skip(q + 1));
            }
            params.push(p);
            (base, params)
        },
    }
}

} // verus!
