//! Enumeration of the candidate splits of a string against a rule table.
use crate::rules::{
    find_rules, longest_key, lookup_in, pairs_view, table_of, PairView, RuleTable, RulesView,
    TableError,
};
use vstd::prelude::*;

verus! {

/// The split at `i` with no fusion undone: `(s[..i], s[i..])`.
pub open spec fn baseline(s: Seq<char>, i: int) -> PairView {
    (s.subrange(0, i), s.subrange(i, s.len() as int))
}

/// The candidates that undo a fusion of the window `s[i..i + w]`: for each
/// pair `(first, second)` of that key, `(s[..i] + first, second + s[i + w..])`.
pub open spec fn fused(s: Seq<char>, m: RulesView, i: int, w: int) -> Seq<PairView> {
    lookup_in(m, s.subrange(i, i + w)).map_values(
        |p: PairView| (s.subrange(0, i) + p.0, p.1 + s.subrange(i + w, s.len() as int)),
    )
}

/// The fusion candidates at `i` for the windows of length `1..=k`, shortest
/// first.
pub open spec fn windows_upto(s: Seq<char>, m: RulesView, i: int, k: nat) -> Seq<PairView>
    decreases k,
{
    if k == 0 {
        Seq::empty()
    } else {
        windows_upto(s, m, i, (k - 1) as nat) + fused(s, m, i, k as int)
    }
}

/// The longest window searched at `i`: `max_window`, or what is left of `s`.
pub open spec fn window_limit(s: Seq<char>, i: int, max_window: nat) -> nat {
    if max_window <= s.len() - i {
        max_window
    } else {
        (s.len() - i) as nat
    }
}

/// The candidates at position `i`: the baseline, then the fusion candidates.
pub open spec fn at_position(s: Seq<char>, m: RulesView, max_window: nat, i: int) -> Seq<PairView> {
    seq![baseline(s, i)] + windows_upto(s, m, i, window_limit(s, i, max_window))
}

/// The candidates at the positions `0..p`, in order.
pub open spec fn candidates_upto(s: Seq<char>, m: RulesView, max_window: nat, p: nat) -> Seq<
    PairView,
>
    decreases p,
{
    if p == 0 {
        Seq::empty()
    } else {
        candidates_upto(s, m, max_window, (p - 1) as nat) + at_position(
            s,
            m,
            max_window,
            p - 1,
        )
    }
}

/// Every candidate split of `s`, with windows of at most `max_window`
/// characters.
pub open spec fn candidates(s: Seq<char>, m: RulesView, max_window: nat) -> Seq<PairView> {
    candidates_upto(s, m, max_window, s.len())
}

/// What splitting `s` against a table with contents `m` gives.
pub open spec fn split_outcome(s: Seq<char>, m: RulesView) -> Result<Seq<PairView>, TableError> {
    if m == RulesView::empty() {
        Err(TableError::EmptyTableError)
    } else {
        Ok(candidates(s, m, longest_key(m)))
    }
}

/// The candidate splits of `input`, searching windows of `1..=max_window`
/// characters at each position before the last character.
pub fn split_with_window(input: &str, table: &RuleTable, max_window: usize) -> (r: Vec<
    (String, String),
>)
    ensures
        pairs_view(r@) == candidates(input@, table@, max_window as nat),
{
    let ghost s = input@;
    let ghost m = table@;
    let ghost mw = max_window as nat;
    let n = input.unicode_len();
    let mut res: Vec<(String, String)> = Vec::new();
    let mut i: usize = 0;
    while i < n
        invariant
            n == s.len(),
            s == input@,
            m == table@,
            mw == max_window,
            i <= n,
            pairs_view(res@) == candidates_upto(s, m, mw, i as nat),
        decreases n - i,
    {
        let ghost start = pairs_view(res@);
        let head = String::from_str(input.substring_char(0, i));
        let tail = String::from_str(input.substring_char(i, n));
        let ghost before = res@;
        res.push((head, tail));
        assert(pairs_view(res@) =~= pairs_view(before).push(baseline(s, i as int)));
        let hi: usize = if max_window <= n - i {
            max_window
        } else {
            n - i
        };
        let mut w: usize = 0;
        while w < hi
            invariant
                n == s.len(),
                s == input@,
                m == table@,
                mw == max_window,
                i < n,
                w <= hi,
                hi == window_limit(s, i as int, mw),
                pairs_view(res@) == start + seq![baseline(s, i as int)] + windows_upto(
                    s,
                    m,
                    i as int,
                    w as nat,
                ),
            decreases hi - w,
        {
            let len = w + 1;
            let ghost mid = pairs_view(res@);
            let ghost fs = fused(s, m, i as int, len as int);
            match find_rules(table.rules_ref(), input.substring_char(i, i + len)) {
                Some(pairs) => {
                    let mut j: usize = 0;
                    while j < pairs.len()
                        invariant
                            n == s.len(),
                            s == input@,
                            i < n,
                            i + len <= n,
                            fs == fused(s, m, i as int, len as int),
                            pairs_view(pairs@) == lookup_in(m, s.subrange(i as int, i + len)),
                            j <= pairs.len(),
                            pairs_view(res@) == mid + fs.take(j as int),
                        decreases pairs.len() - j,
                    {
                        let p = &pairs[j];
                        let first = String::from_str(input.substring_char(0, i)).concat(
                            p.0.as_str(),
                        );
                        let second = p.1.clone().concat(input.substring_char(i + len, n));
                        let ghost prev = res@;
                        res.push((first, second));
                        proof {
                            assert(pairs_view(pairs@)[j as int] == (p.0@, p.1@));
                            assert(fs[j as int] == (first@, second@));
                            assert(pairs_view(res@) =~= pairs_view(prev).push(fs[j as int]));
                            assert(fs.take(j as int + 1) =~= fs.take(j as int).push(fs[j as int]));
                        }
                        j = j + 1;
                    }
                    assert(fs.take(pairs.len() as int) =~= fs);
                },
                None => {
                    assert(fs =~= Seq::<PairView>::empty());
                },
            }
            assert(pairs_view(res@) =~= start + seq![baseline(s, i as int)] + windows_upto(
                s,
                m,
                i as int,
                len as nat,
            ));
            w = len;
        }
        assert(pairs_view(res@) =~= candidates_upto(s, m, mw, (i + 1) as nat));
        i = i + 1;
    }
    res
}

/// Every candidate split of `input` against `table`, in order of position,
/// then baseline before fusions, then window length, then registration
/// order. Fails when the table is empty.
pub fn split(input: &str, table: &RuleTable) -> (r: Result<Vec<(String, String)>, TableError>)
    ensures
        r is Ok <==> split_outcome(input@, table@) is Ok,
        r matches Ok(v) ==> split_outcome(input@, table@) == Ok::<Seq<PairView>, TableError>(
            pairs_view(v@),
        ),
        r matches Err(e) ==> split_outcome(input@, table@) == Err::<Seq<PairView>, TableError>(e),
{
    match table.max_key_length() {
        Ok(longest) => Ok(split_with_window(input, table, longest)),
        Err(e) => Err(e),
    }
}

proof fn lemma_candidates_prefix(s: Seq<char>, m: RulesView, mw: nat, p: nat, q: nat)
    requires
        p <= q,
    ensures
        candidates_upto(s, m, mw, p).len() <= candidates_upto(s, m, mw, q).len(),
        forall|x: int|
            0 <= x < candidates_upto(s, m, mw, p).len() ==> candidates_upto(s, m, mw, q)[x]
                == #[trigger] candidates_upto(s, m, mw, p)[x],
    decreases q,
{
    if p < q {
        lemma_candidates_prefix(s, m, mw, p, (q - 1) as nat);
    }
}

proof fn lemma_contains_concat<A>(a: Seq<A>, b: Seq<A>, x: A)
    requires
        a.contains(x) || b.contains(x),
    ensures
        (a + b).contains(x),
{
    if a.contains(x) {
        let i = choose|i: int| 0 <= i < a.len() && a[i] == x;
        assert((a + b)[i] == x);
    } else {
        let i = choose|i: int| 0 <= i < b.len() && b[i] == x;
        assert((a + b)[a.len() + i] == x);
    }
}

proof fn lemma_windows_contain(s: Seq<char>, m: RulesView, i: int, k: nat, w: int, j: int)
    requires
        1 <= w <= k,
        0 <= j < fused(s, m, i, w).len(),
    ensures
        windows_upto(s, m, i, k).contains(fused(s, m, i, w)[j]),
    decreases k,
{
    let x = fused(s, m, i, w)[j];
    if w == k {
        assert(fused(s, m, i, w).contains(x));
    } else {
        lemma_windows_contain(s, m, i, (k - 1) as nat, w, j);
    }
    lemma_contains_concat(windows_upto(s, m, i, (k - 1) as nat), fused(s, m, i, k as int), x);
}

proof fn lemma_candidates_contain(s: Seq<char>, m: RulesView, mw: nat, q: nat, i: int, x: PairView)
    requires
        0 <= i < q,
        at_position(s, m, mw, i).contains(x),
    ensures
        candidates_upto(s, m, mw, q).contains(x),
    decreases q,
{
    if i < q - 1 {
        lemma_candidates_contain(s, m, mw, (q - 1) as nat, i, x);
    }
    lemma_contains_concat(
        candidates_upto(s, m, mw, (q - 1) as nat),
        at_position(s, m, mw, q - 1),
        x,
    );
}

/// The baseline candidate of each position `i` stands right after the
/// candidates of the earlier positions, and its prefix and suffix together
/// give back the input.
pub proof fn lemma_baseline_reconstructs(s: Seq<char>, m: RulesView, mw: nat, i: int)
    requires
        0 <= i < s.len(),
    ensures
        candidates_upto(s, m, mw, i as nat).len() < candidates(s, m, mw).len(),
        candidates(s, m, mw)[candidates_upto(s, m, mw, i as nat).len() as int] == baseline(s, i),
        baseline(s, i).0 + baseline(s, i).1 == s,
{
    let before = candidates_upto(s, m, mw, i as nat);
    let upto = candidates_upto(s, m, mw, (i + 1) as nat);
    assert(upto[before.len() as int] == baseline(s, i));
    lemma_candidates_prefix(s, m, mw, (i + 1) as nat, s.len());
    assert(upto[before.len() as int] == candidates(s, m, mw)[before.len() as int]);
    assert(s.subrange(0, i) + s.subrange(i, s.len() as int) =~= s);
}

/// A candidate that undoes the fusion of window `s[i..i + w]`, whose key is
/// `k`, with the pair `(first, second)`, is among the candidates, and its
/// prefix and suffix together are the input with `first + second` in place
/// of `k`: outside the window they agree with the input.
pub proof fn lemma_fusion_substitution(s: Seq<char>, m: RulesView, mw: nat, i: int, w: int, j: int)
    requires
        0 <= i < s.len(),
        1 <= w <= window_limit(s, i, mw),
        0 <= j < lookup_in(m, s.subrange(i, i + w)).len(),
    ensures
        ({
            let k = s.subrange(i, i + w);
            let p = lookup_in(m, k)[j];
            let c = fused(s, m, i, w)[j];
            &&& candidates(s, m, mw).contains(c)
            &&& c.0 + c.1 == s.subrange(0, i) + (p.0 + p.1) + s.subrange(i + w, s.len() as int)
            &&& s == s.subrange(0, i) + k + s.subrange(i + w, s.len() as int)
        }),
{
    let k = s.subrange(i, i + w);
    let p = lookup_in(m, k)[j];
    let c = fused(s, m, i, w)[j];
    let lim = window_limit(s, i, mw);
    lemma_windows_contain(s, m, i, lim, w, j);
    lemma_contains_concat(seq![baseline(s, i)], windows_upto(s, m, i, lim), c);
    lemma_candidates_contain(s, m, mw, s.len(), i, c);
    assert(c.0 + c.1 =~= s.subrange(0, i) + (p.0 + p.1) + s.subrange(i + w, s.len() as int));
    assert(s =~= s.subrange(0, i) + k + s.subrange(i + w, s.len() as int));
}

/// Splitting is a function of the input and of the table's contents: two
/// tables with the same contents give the same outcome, candidates and
/// order included.
pub proof fn lemma_split_deterministic(s: Seq<char>, t1: RuleTable, t2: RuleTable)
    requires
        t1@ == t2@,
    ensures
        split_outcome(s, t1@) == split_outcome(s, t2@),
{
}

/// A table built from no record is empty, and splitting against it fails
/// with no candidate.
pub proof fn lemma_empty_table_fails(s: Seq<char>)
    ensures
        table_of(Seq::empty()) == RulesView::empty(),
        split_outcome(s, table_of(Seq::empty())) == Err::<Seq<PairView>, TableError>(
            TableError::EmptyTableError,
        ),
{
}

} // verus!
