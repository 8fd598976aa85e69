//! The rule table: combined surface forms indexed to the fragment pairs that
//! fuse into them.
use multimap::MultiMap;
use vstd::prelude::*;

verus! {

/// A fragment pair, as plain character sequences.
pub type PairView = (Seq<char>, Seq<char>);

/// The mathematical content of a rule table: each key to its pairs, in
/// registration order.
pub type RulesView = Map<Seq<char>, Seq<PairView>>;

#[verifier::external_type_specification]
#[verifier::external_body]
#[verifier::reject_recursive_types(K)]
#[verifier::reject_recursive_types(V)]
#[verifier::reject_recursive_types(S)]
pub struct ExMultiMap<K, V, S>(MultiMap<K, V, S>);

/// What a multimap of rules holds: each key to the list of its values.
pub uninterp spec fn rule_entries(m: MultiMap<String, (String, String)>) -> RulesView;

/// The pairs registered for `k`, empty when `k` is absent.
pub open spec fn lookup_in(m: RulesView, k: Seq<char>) -> Seq<PairView> {
    if m.contains_key(k) {
        m[k]
    } else {
        Seq::empty()
    }
}

/// `m` with `p` appended to the pairs of `k`.
pub open spec fn add_pair(m: RulesView, k: Seq<char>, p: PairView) -> RulesView {
    m.insert(k, lookup_in(m, k).push(p))
}

/// The views of a list of string pairs.
pub open spec fn pairs_view(v: Seq<(String, String)>) -> Seq<PairView> {
    v.map_values(|p: (String, String)| (p.0@, p.1@))
}

/// `s` with every space removed.
pub open spec fn without_spaces(s: Seq<char>) -> Seq<char>
    decreases s.len(),
{
    if s.len() == 0 {
        Seq::empty()
    } else if s.last() == ' ' {
        without_spaces(s.drop_last())
    } else {
        without_spaces(s.drop_last()).push(s.last())
    }
}

/// The table after registering one record `[left, right, combined, ..]`.
pub open spec fn add_record(m: RulesView, row: Seq<Seq<char>>) -> RulesView {
    let pair = (row[0], row[1]);
    let once = add_pair(m, row[2], pair);
    if without_spaces(row[2]) != row[2] {
        add_pair(once, without_spaces(row[2]), pair)
    } else {
        once
    }
}

/// The table built from `rows`, registered in order.
pub open spec fn table_of(rows: Seq<Seq<Seq<char>>>) -> RulesView
    decreases rows.len(),
{
    if rows.len() == 0 {
        Map::empty()
    } else {
        add_record(table_of(rows.drop_last()), rows.last())
    }
}

/// The views of rule records given as lists of fields.
pub open spec fn rows_view(rows: Seq<Vec<String>>) -> Seq<Seq<Seq<char>>> {
    rows.map_values(|r: Vec<String>| r@.map_values(|f: String| f@))
}

/// The record supplies the three fields of a rule, and its combined form
/// holds more than spaces.
pub open spec fn is_complete(row: Seq<Seq<char>>) -> bool {
    row.len() >= 3 && without_spaces(row[2]).len() > 0
}

/// Every record is complete.
pub open spec fn all_complete(rows: Seq<Seq<Seq<char>>>) -> bool {
    forall|i: int| 0 <= i < rows.len() ==> #[trigger] is_complete(rows[i])
}

/// Every key of `m` has at least one character.
pub open spec fn keys_nonempty(m: RulesView) -> bool {
    forall|k: Seq<char>| m.contains_key(k) ==> k.len() >= 1
}

/// Some key of `m` has length `n`, and none is longer.
pub open spec fn is_longest_key(m: RulesView, n: nat) -> bool {
    &&& exists|k: Seq<char>| m.contains_key(k) && k.len() == n
    &&& forall|k: Seq<char>| m.contains_key(k) ==> k.len() <= n
}

/// The length of the longest key of a non-empty table.
pub open spec fn longest_key(m: RulesView) -> nat {
    choose|n: nat| is_longest_key(m, n)
}

/// The pairs that the record `row` registers under `k`.
pub open spec fn contributed(row: Seq<Seq<char>>, k: Seq<char>) -> Seq<PairView> {
    let pair = (row[0], row[1]);
    let stripped = without_spaces(row[2]);
    (if row[2] == k {
        seq![pair]
    } else {
        Seq::empty()
    }) + (if stripped != row[2] && stripped == k {
        seq![pair]
    } else {
        Seq::empty()
    })
}

/// The pairs that `rows` register under `k`, record by record.
pub open spec fn registered(rows: Seq<Seq<Seq<char>>>, k: Seq<char>) -> Seq<PairView>
    decreases rows.len(),
{
    if rows.len() == 0 {
        Seq::empty()
    } else {
        registered(rows.drop_last(), k) + contributed(rows.last(), k)
    }
}

proof fn lemma_add_pair_lookup(m: RulesView, k2: Seq<char>, p: PairView, k: Seq<char>)
    ensures
        lookup_in(add_pair(m, k2, p), k) == if k == k2 {
            lookup_in(m, k).push(p)
        } else {
            lookup_in(m, k)
        },
{
}

proof fn lemma_add_record_lookup(m: RulesView, row: Seq<Seq<char>>, k: Seq<char>)
    ensures
        lookup_in(add_record(m, row), k) =~= lookup_in(m, k) + contributed(row, k),
{
    let pair = (row[0], row[1]);
    lemma_add_pair_lookup(m, row[2], pair, k);
    if without_spaces(row[2]) != row[2] {
        lemma_add_pair_lookup(add_pair(m, row[2], pair), without_spaces(row[2]), pair, k);
    }
}

/// A lookup in a built table gives exactly the pairs that the records
/// registered under that key, in the order of the records, and no others.
pub proof fn lemma_lookup_fidelity(rows: Seq<Seq<Seq<char>>>, k: Seq<char>)
    ensures
        lookup_in(table_of(rows), k) == registered(rows, k),
    decreases rows.len(),
{
    if rows.len() > 0 {
        lemma_lookup_fidelity(rows.drop_last(), k);
        lemma_add_record_lookup(table_of(rows.drop_last()), rows.last(), k);
    }
}

proof fn lemma_registered_contains(rows: Seq<Seq<Seq<char>>>, j: int, k: Seq<char>)
    requires
        0 <= j < rows.len(),
        k == rows[j][2] || (without_spaces(rows[j][2]) != rows[j][2] && k == without_spaces(
            rows[j][2],
        )),
    ensures
        registered(rows, k).contains((rows[j][0], rows[j][1])),
    decreases rows.len(),
{
    let pair = (rows[j][0], rows[j][1]);
    let before = registered(rows.drop_last(), k);
    let own = contributed(rows.last(), k);
    if j == rows.len() - 1 {
        if rows[j][2] == k {
            assert(registered(rows, k)[before.len() as int] == pair);
        } else {
            assert(own[own.len() - 1] == pair);
            assert(registered(rows, k)[before.len() + own.len() - 1] == pair);
        }
    } else {
        assert(rows.drop_last()[j] == rows[j]);
        lemma_registered_contains(rows.drop_last(), j, k);
        let idx = choose|idx: int| 0 <= idx < before.len() && before[idx] == pair;
        assert(registered(rows, k)[idx] == pair);
    }
}

/// When a record's combined form holds spaces, its pair is found both under
/// the form as written and under the form without spaces.
pub proof fn lemma_secondary_key(rows: Seq<Seq<Seq<char>>>, j: int)
    requires
        0 <= j < rows.len(),
        all_complete(rows),
        without_spaces(rows[j][2]) != rows[j][2],
    ensures
        lookup_in(table_of(rows), rows[j][2]).contains((rows[j][0], rows[j][1])),
        lookup_in(table_of(rows), without_spaces(rows[j][2])).contains((rows[j][0], rows[j][1])),
{
    lemma_lookup_fidelity(rows, rows[j][2]);
    lemma_lookup_fidelity(rows, without_spaces(rows[j][2]));
    lemma_registered_contains(rows, j, rows[j][2]);
    lemma_registered_contains(rows, j, without_spaces(rows[j][2]));
}

proof fn lemma_without_spaces_has_none(s: Seq<char>)
    ensures
        forall|i: int| 0 <= i < without_spaces(s).len() ==> without_spaces(s)[i] != ' ',
    decreases s.len(),
{
    if s.len() > 0 {
        let rest = without_spaces(s.drop_last());
        lemma_without_spaces_has_none(s.drop_last());
        assert forall|i: int| 0 <= i < without_spaces(s).len() implies without_spaces(s)[i]
            != ' ' by {
            if i < rest.len() {
                assert(without_spaces(s)[i] == rest[i]);
            }
        }
    }
}

proof fn lemma_without_spaces_keeps_spaceless(s: Seq<char>)
    requires
        forall|i: int| 0 <= i < s.len() ==> s[i] != ' ',
    ensures
        without_spaces(s) == s,
    decreases s.len(),
{
    if s.len() > 0 {
        lemma_without_spaces_keeps_spaceless(s.drop_last());
        assert(s.drop_last().push(s.last()) =~= s);
    }
}

proof fn lemma_contains_concat<A>(a: Seq<A>, b: Seq<A>, x: A)
    requires
        (a + b).contains(x),
    ensures
        a.contains(x) || b.contains(x),
{
    let i = choose|i: int| 0 <= i < (a + b).len() && (a + b)[i] == x;
    if i < a.len() {
        assert(a[i] == x);
    } else {
        assert(b[i - a.len()] == x);
    }
}

proof fn lemma_contains_extend<A>(a: Seq<A>, b: Seq<A>, x: A)
    requires
        a.contains(x),
    ensures
        (a + b).contains(x),
{
    let i = choose|i: int| 0 <= i < a.len() && a[i] == x;
    assert((a + b)[i] == x);
}

/// Every pair found under a combined form that holds spaces is also found
/// under that form with its spaces removed.
pub proof fn lemma_stripped_lookup_includes(rows: Seq<Seq<Seq<char>>>, c: Seq<char>, x: PairView)
    requires
        without_spaces(c) != c,
        lookup_in(table_of(rows), c).contains(x),
    ensures
        lookup_in(table_of(rows), without_spaces(c)).contains(x),
    decreases rows.len(),
{
    lemma_lookup_fidelity(rows, c);
    lemma_lookup_fidelity(rows, without_spaces(c));
    let before = registered(rows.drop_last(), c);
    let own = contributed(rows.last(), c);
    let after = registered(rows.drop_last(), without_spaces(c));
    let own_stripped = contributed(rows.last(), without_spaces(c));
    lemma_contains_concat(before, own, x);
    if before.contains(x) {
        lemma_lookup_fidelity(rows.drop_last(), c);
        lemma_stripped_lookup_includes(rows.drop_last(), c, x);
        lemma_lookup_fidelity(rows.drop_last(), without_spaces(c));
        lemma_contains_extend(after, own_stripped, x);
    } else {
        let row = rows.last();
        if without_spaces(row[2]) == c {
            lemma_without_spaces_has_none(row[2]);
            lemma_without_spaces_keeps_spaceless(c);
        }
        assert(row[2] == c);
        assert(own_stripped =~= own);
        assert((after + own_stripped)[after.len() as int] == x);
    }
}

proof fn lemma_without_spaces_len(s: Seq<char>)
    ensures
        without_spaces(s).len() <= s.len(),
    decreases s.len(),
{
    if s.len() > 0 {
        lemma_without_spaces_len(s.drop_last());
    }
}

/// A table built from complete records has no empty key.
pub proof fn lemma_keys_nonempty(rows: Seq<Seq<Seq<char>>>)
    requires
        all_complete(rows),
    ensures
        keys_nonempty(table_of(rows)),
    decreases rows.len(),
{
    if rows.len() > 0 {
        let rest = rows.drop_last();
        assert forall|i: int| 0 <= i < rest.len() implies #[trigger] is_complete(rest[i]) by {
            assert(rest[i] == rows[i]);
        }
        lemma_keys_nonempty(rest);
        assert(is_complete(rows[rows.len() - 1]));
        lemma_without_spaces_len(rows.last()[2]);
    }
}

/// Why a table could not be built or searched.
#[derive(Debug, Clone, Copy, PartialEq, Eq, Structural)]
pub enum TableError {
    /// The record at index `row` has fewer than three fields, or its
    /// combined form is empty or only spaces.
    FormatError { row: usize },
    /// The table holds no rule, so no search window is defined.
    EmptyTableError,
}

/// Relies on multimap::MultiMap::new: a new multimap holds no key.
#[verifier::external_body]
fn empty_rules() -> (r: MultiMap<String, (String, String)>)
    ensures
        rule_entries(r) == RulesView::empty(),
{
    MultiMap::new()
}

/// Relies on multimap::MultiMap::insert: the value is appended to the list
/// of its key, which is created when the key is absent.
#[verifier::external_body]
fn insert_rule(m: &mut MultiMap<String, (String, String)>, k: String, left: String, right: String)
    ensures
        rule_entries(*final(m)) == add_pair(rule_entries(*old(m)), k@, (left@, right@)),
{
    m.insert(k, (left, right));
}

/// Relies on multimap::MultiMap::get_vec: the list of values of `k`, or
/// `None` when `k` is absent.
#[verifier::external_body]
pub(crate) fn find_rules<'a>(m: &'a MultiMap<String, (String, String)>, k: &str) -> (r: Option<
    &'a Vec<(String, String)>,
>)
    ensures
        r is Some <==> rule_entries(*m).contains_key(k@),
        r is Some ==> pairs_view(r->0@) == rule_entries(*m)[k@],
{
    m.get_vec(k)
}

/// Relies on multimap::MultiMap::keys: every key of the multimap, in some
/// order.
#[verifier::external_body]
fn rule_keys(m: &MultiMap<String, (String, String)>) -> (r: Vec<String>)
    ensures
        forall|i: int| 0 <= i < r.len() ==> rule_entries(*m).contains_key(#[trigger] r[i]@),
        forall|k: Seq<char>|
            rule_entries(*m).contains_key(k) ==> exists|i: int| 0 <= i < r.len() && #[trigger] r[i]@ == k,
{
    m.keys().cloned().collect()
}

/// `s` with every space removed.
pub fn strip_spaces(s: &str) -> (r: String)
    ensures
        r@ == without_spaces(s@),
{
    let n = s.unicode_len();
    let mut out = String::new();
    let mut i: usize = 0;
    while i < n
        invariant
            n == s@.len(),
            i <= n,
            out@ == without_spaces(s@.subrange(0, i as int)),
        decreases n - i,
    {
        let c = s.get_char(i);
        assert(s@.subrange(0, i as int + 1).drop_last() =~= s@.subrange(0, i as int));
        if c != ' ' {
            let piece = s.substring_char(i, i + 1);
            assert(piece@ =~= seq![c]);
            out.append(piece);
        }
        i = i + 1;
    }
    assert(s@.subrange(0, n as int) =~= s@);
    out
}

/// An index of rule records by combined form.
pub struct RuleTable {
    rules: MultiMap<String, (String, String)>,
}

impl View for RuleTable {
    type V = RulesView;

    closed spec fn view(&self) -> RulesView {
        rule_entries(self.rules)
    }
}

impl RuleTable {
    /// Builds a table from records `[left, right, combined, ..]`: each record
    /// registers `combined`, and also `combined` without its spaces where
    /// that differs. Fails on the first record with fewer than three fields
    /// or whose combined form is empty or only spaces, so that no key is
    /// empty.
    pub fn build(rows: &Vec<Vec<String>>) -> (r: Result<RuleTable, TableError>)
        ensures
            r is Ok <==> all_complete(rows_view(rows@)),
            r is Ok ==> r->Ok_0@ == table_of(rows_view(rows@)) && keys_nonempty(r->Ok_0@),
            r matches Err(e) ==> e matches TableError::FormatError { row } && row < rows.len()
                && !is_complete(rows_view(rows@)[row as int]) && all_complete(
                rows_view(rows@.take(row as int)),
            ),
    {
        let mut rules = empty_rules();
        let mut i: usize = 0;
        while i < rows.len()
            invariant
                i <= rows.len(),
                all_complete(rows_view(rows@.take(i as int))),
                rule_entries(rules) == table_of(rows_view(rows@.take(i as int))),
            decreases rows.len() - i,
        {
            let row = &rows[i];
            if row.len() < 3 {
                proof {
                    assert(rows_view(rows@)[i as int].len() < 3);
                    assert(!is_complete(rows_view(rows@)[i as int]));
                }
                return Err(TableError::FormatError { row: i });
            }
            let combined = row[2].clone();
            let stripped = strip_spaces(row[2].as_str());
            if stripped.as_str().unicode_len() == 0 {
                proof {
                    assert(rows_view(rows@)[i as int] =~= row@.map_values(|f: String| f@));
                    assert(!is_complete(rows_view(rows@)[i as int]));
                }
                return Err(TableError::FormatError { row: i });
            }
            proof {
                let vs = rows_view(rows@.take(i as int + 1));
                assert(vs.drop_last() =~= rows_view(rows@.take(i as int)));
                assert(vs.last() =~= row@.map_values(|f: String| f@));
                assert forall|k: int| 0 <= k < vs.len() implies #[trigger] is_complete(vs[k]) by {
                    if k < i {
                        assert(vs[k] == vs.drop_last()[k]);
                    }
                }
            }
            insert_rule(&mut rules, combined, row[0].clone(), row[1].clone());
            if stripped != row[2] {
                insert_rule(&mut rules, stripped, row[0].clone(), row[1].clone());
            }
            i = i + 1;
        }
        assert(rows@.take(rows.len() as int) =~= rows@);
        proof {
            lemma_keys_nonempty(rows_view(rows@));
        }
        Ok(RuleTable { rules })
    }

    /// The underlying multimap.
    pub(crate) fn rules_ref(&self) -> (r: &MultiMap<String, (String, String)>)
        ensures
            rule_entries(*r) == self@,
    {
        &self.rules
    }

    /// The pairs registered for `key`, in registration order; empty when
    /// `key` is absent.
    pub fn lookup(&self, key: &str) -> (r: Vec<(String, String)>)
        ensures
            pairs_view(r@) == lookup_in(self@, key@),
    {
        let mut out: Vec<(String, String)> = Vec::new();
        match find_rules(&self.rules, key) {
            Some(pairs) => {
                let mut j: usize = 0;
                while j < pairs.len()
                    invariant
                        j <= pairs.len(),
                        pairs_view(out@) == pairs_view(pairs@).take(j as int),
                    decreases pairs.len() - j,
                {
                    let p = &pairs[j];
                    let ghost before = out@;
                    out.push((p.0.clone(), p.1.clone()));
                    assert(out@ =~= before.push(pairs@[j as int]));
                    assert(pairs_view(out@) =~= pairs_view(before).push(pairs_view(pairs@)[j as int]));
                    assert(pairs_view(out@) =~= pairs_view(pairs@).take(j as int + 1));
                    j = j + 1;
                }
                assert(pairs_view(pairs@).take(pairs.len() as int) =~= pairs_view(pairs@));
            },
            None => {},
        }
        out
    }

    /// Whether the table holds no key.
    pub fn is_empty(&self) -> (r: bool)
        ensures
            r == (self@ == RulesView::empty()),
    {
        let keys = rule_keys(&self.rules);
        if keys.len() == 0 {
            assert(self@ =~= RulesView::empty());
            true
        } else {
            assert(self@.contains_key(keys[0]@));
            false
        }
    }

    /// The length, in characters, of the longest key.
    pub fn max_key_length(&self) -> (r: Result<usize, TableError>)
        ensures
            r is Err <==> self@ == RulesView::empty(),
            r is Err ==> r == Err::<usize, TableError>(TableError::EmptyTableError),
            r matches Ok(n) ==> n == longest_key(self@) && is_longest_key(self@, n as nat),
    {
        let keys = rule_keys(&self.rules);
        if keys.len() == 0 {
            assert(self@ =~= RulesView::empty());
            return Err(TableError::EmptyTableError);
        }
        let mut best: usize = keys[0].as_str().unicode_len();
        let mut at: usize = 0;
        let mut i: usize = 1;
        while i < keys.len()
            invariant
                1 <= i <= keys.len(),
                at < i,
                best == keys[at as int]@.len(),
                forall|j: int| 0 <= j < i ==> #[trigger] keys[j]@.len() <= best,
            decreases keys.len() - i,
        {
            let len = keys[i].as_str().unicode_len();
            if len > best {
                best = len;
                at = i;
            }
            i = i + 1;
        }
        proof {
            assert(self@.contains_key(keys[at as int]@));
            assert forall|k: Seq<char>| self@.contains_key(k) implies k.len() <= best by {
                let j = choose|j: int| 0 <= j < keys.len() && #[trigger] keys[j]@ == k;
            }
            assert(is_longest_key(self@, best as nat));
            let n = longest_key(self@);
            assert(is_longest_key(self@, n));
            let k = choose|k: Seq<char>| self@.contains_key(k) && k.len() == n;
            assert(n <= best);
        }
        Ok(best)
    }
}

} // verus!
