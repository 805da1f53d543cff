//! Linear combinations of variables: the unit of construction for every
//! constraint.
//!
//! A `LinearCombination` keeps its `(variable, coefficient)` terms sorted in
//! strictly increasing variable order, one term per variable. Two terms for
//! the same variable are always merged into one whose coefficient is the
//! field-sum of the two; a merged coefficient that happens to be the additive
//! identity is retained as an explicit no-op term rather than dropped, so the
//! presence of a term does not by itself signal a nonzero coefficient.

use vstd::prelude::*;
use crate::field::Field;
use crate::index::{var_lt, Variable};

verus! {

/// A term sequence is sorted when its variables strictly increase; strict
/// order also means no variable appears twice.
pub open spec fn terms_sorted<F: Field>(s: Seq<(Variable, F)>) -> bool {
    forall|i: int, j: int| 0 <= i < j < s.len() ==> var_lt(s[i].0, s[j].0)
}

/// The sorted merge of two term sequences: terms are interleaved in variable
/// order, and where both sides carry the same variable the two terms become
/// one whose coefficient is the field-sum.
pub open spec fn merge_terms<F: Field>(a: Seq<(Variable, F)>, b: Seq<(Variable, F)>) -> Seq<
    (Variable, F),
>
    decreases a.len() + b.len(),
{
    if a.len() == 0 {
        b
    } else if b.len() == 0 {
        a
    } else if var_lt(a[0].0, b[0].0) {
        seq![a[0]] + merge_terms(a.drop_first(), b)
    } else if var_lt(b[0].0, a[0].0) {
        seq![b[0]] + merge_terms(a, b.drop_first())
    } else {
        seq![(a[0].0, F::spec_add(a[0].1, b[0].1))] + merge_terms(a.drop_first(), b.drop_first())
    }
}

/// The finite map a term sequence denotes, from each variable present to its
/// coefficient (the earliest term wins, which is the only one in a sorted
/// sequence).
pub open spec fn terms_map<F: Field>(s: Seq<(Variable, F)>) -> Map<Variable, F>
    decreases s.len(),
{
    if s.len() == 0 {
        Map::empty()
    } else {
        terms_map(s.drop_first()).insert(s[0].0, s[0].1)
    }
}

/// The pointwise combination of two coefficient maps: the domains unite, and
/// a variable present on both sides gets the field-sum of its coefficients.
pub open spec fn combine_maps<F: Field>(m1: Map<Variable, F>, m2: Map<Variable, F>) -> Map<
    Variable,
    F,
> {
    Map::new(
        (|v: Variable| m1.dom().contains(v) || m2.dom().contains(v)),
        (|v: Variable|
            if m1.dom().contains(v) && m2.dom().contains(v) {
                F::spec_add(m1[v], m2[v])
            } else if m1.dom().contains(v) {
                m1[v]
            } else {
                m2[v]
            }),
    )
}

/// A variable is in the domain of a term sequence's map exactly when some
/// term carries it.
pub proof fn lemma_terms_map_dom<F: Field>(s: Seq<(Variable, F)>, v: Variable)
    ensures
        terms_map(s).dom().contains(v) <==> exists|i: int| 0 <= i < s.len() && s[i].0 == v,
    decreases s.len(),
{
    if s.len() > 0 {
        lemma_terms_map_dom(s.drop_first(), v);
        if terms_map(s).dom().contains(v) && s[0].0 != v {
            let i = choose|i: int| 0 <= i < s.drop_first().len() && s.drop_first()[i].0 == v;
            assert(s[i + 1].0 == v);
        }
        if exists|i: int| 0 <= i < s.len() && s[i].0 == v {
            let i = choose|i: int| 0 <= i < s.len() && s[i].0 == v;
            if i > 0 {
                assert(s.drop_first()[i - 1].0 == v);
            }
        }
    }
}

/// In a sorted sequence the head's variable is absent from the tail's map,
/// and the head's coefficient is the one the map records.
proof fn lemma_terms_map_head<F: Field>(s: Seq<(Variable, F)>)
    requires
        terms_sorted(s),
        s.len() > 0,
    ensures
        !terms_map(s.drop_first()).dom().contains(s[0].0),
        terms_map(s).dom().contains(s[0].0),
        terms_map(s)[s[0].0] == s[0].1,
        terms_map(s.drop_first()) == terms_map(s).remove(s[0].0),
{
    let t = s.drop_first();
    lemma_terms_map_dom(t, s[0].0);
    if terms_map(t).dom().contains(s[0].0) {
        let i = choose|i: int| 0 <= i < t.len() && t[i].0 == s[0].0;
        assert(var_lt(s[0].0, s[i + 1].0));
    }
    assert(terms_map(t) =~= terms_map(s).remove(s[0].0));
}

/// Merging sorted term sequences yields a sorted sequence whose head, if
/// any, is the head of one of the operands.
pub proof fn lemma_merge_sorted<F: Field>(a: Seq<(Variable, F)>, b: Seq<(Variable, F)>)
    requires
        terms_sorted(a),
        terms_sorted(b),
    ensures
        terms_sorted(merge_terms(a, b)),
        merge_terms(a, b).len() > 0 ==> (a.len() > 0 && merge_terms(a, b)[0].0 == a[0].0) || (
        b.len() > 0 && merge_terms(a, b)[0].0 == b[0].0),
    decreases a.len() + b.len(),
{
    let m = merge_terms(a, b);
    if a.len() == 0 || b.len() == 0 {
    } else {
        let at = a.drop_first();
        let bt = b.drop_first();
        assert(terms_sorted(at)) by {
            assert(forall|i: int, j: int|
                0 <= i < j < at.len() ==> var_lt(#[trigger] at[i].0, #[trigger] at[j].0)) by {
                assert(forall|i: int| 0 <= i < at.len() ==> at[i] == a[i + 1]);
            }
        }
        assert(terms_sorted(bt)) by {
            assert(forall|i: int| 0 <= i < bt.len() ==> bt[i] == b[i + 1]);
        }
        if var_lt(a[0].0, b[0].0) {
            lemma_merge_sorted(at, b);
            let rest = merge_terms(at, b);
            assert(m == seq![a[0]] + rest);
            assert(forall|k: int| 0 <= k < rest.len() ==> var_lt(a[0].0, #[trigger] rest[k].0))
                by {
                if rest.len() > 0 {
                    assert(var_lt(a[0].0, rest[0].0));
                    assert(forall|k: int|
                        1 <= k < rest.len() ==> var_lt(rest[0].0, #[trigger] rest[k].0));
                    crate::index::lemma_var_lt_transitive();
                }
            }
            assert(forall|k: int| 0 <= k < rest.len() ==> m[k + 1] == rest[k]);
        } else if var_lt(b[0].0, a[0].0) {
            lemma_merge_sorted(a, bt);
            let rest = merge_terms(a, bt);
            assert(m == seq![b[0]] + rest);
            assert(forall|k: int| 0 <= k < rest.len() ==> var_lt(b[0].0, #[trigger] rest[k].0))
                by {
                if rest.len() > 0 {
                    assert(var_lt(b[0].0, rest[0].0));
                    assert(forall|k: int|
                        1 <= k < rest.len() ==> var_lt(rest[0].0, #[trigger] rest[k].0));
                    crate::index::lemma_var_lt_transitive();
                }
            }
            assert(forall|k: int| 0 <= k < rest.len() ==> m[k + 1] == rest[k]);
        } else {
            assert(a[0].0 == b[0].0) by {
                crate::index::lemma_var_lt_trichotomy(a[0].0, b[0].0);
            }
            lemma_merge_sorted(at, bt);
            let rest = merge_terms(at, bt);
            assert(m == seq![(a[0].0, F::spec_add(a[0].1, b[0].1))] + rest);
            assert(forall|k: int| 0 <= k < rest.len() ==> var_lt(a[0].0, #[trigger] rest[k].0))
                by {
                if rest.len() > 0 {
                    assert(var_lt(a[0].0, rest[0].0));
                    assert(forall|k: int|
                        1 <= k < rest.len() ==> var_lt(rest[0].0, #[trigger] rest[k].0));
                    crate::index::lemma_var_lt_transitive();
                }
            }
            assert(forall|k: int| 0 <= k < rest.len() ==> m[k + 1] == rest[k]);
        }
    }
}

/// Merging sorted term sequences combines their coefficient maps pointwise.
pub proof fn lemma_merge_map<F: Field>(a: Seq<(Variable, F)>, b: Seq<(Variable, F)>)
    requires
        terms_sorted(a),
        terms_sorted(b),
    ensures
        terms_map(merge_terms(a, b)) == combine_maps(terms_map(a), terms_map(b)),
    decreases a.len() + b.len(),
{
    let m = merge_terms(a, b);
    if a.len() == 0 {
        assert(terms_map(m) =~= combine_maps(terms_map(a), terms_map(b)));
    } else if b.len() == 0 {
        assert(terms_map(m) =~= combine_maps(terms_map(a), terms_map(b)));
    } else {
        let at = a.drop_first();
        let bt = b.drop_first();
        assert(forall|i: int| 0 <= i < at.len() ==> at[i] == a[i + 1]);
        assert(forall|i: int| 0 <= i < bt.len() ==> bt[i] == b[i + 1]);
        assert(terms_sorted(at));
        assert(terms_sorted(bt));
        lemma_terms_map_head(a);
        lemma_terms_map_head(b);
        lemma_merge_sorted(a, b);
        lemma_terms_map_head(m);
        if var_lt(a[0].0, b[0].0) {
            lemma_merge_map(at, b);
            assert(m.drop_first() =~= merge_terms(at, b));
            // the head variable is below everything in `b`, so it is absent there
            lemma_terms_map_dom(b, a[0].0);
            if terms_map(b).dom().contains(a[0].0) {
                let i = choose|i: int| 0 <= i < b.len() && b[i].0 == a[0].0;
                crate::index::lemma_var_lt_transitive();
                assert(false);
            }
            assert(terms_map(m) =~= combine_maps(terms_map(a), terms_map(b))) by {
                assert(terms_map(m) == terms_map(m.drop_first()).insert(m[0].0, m[0].1));
                lemma_terms_map_dom(at, a[0].0);
                lemma_terms_map_dom(a, a[0].0);
            }
        } else if var_lt(b[0].0, a[0].0) {
            lemma_merge_map(a, bt);
            assert(m.drop_first() =~= merge_terms(a, bt));
            lemma_terms_map_dom(a, b[0].0);
            if terms_map(a).dom().contains(b[0].0) {
                let i = choose|i: int| 0 <= i < a.len() && a[i].0 == b[0].0;
                crate::index::lemma_var_lt_transitive();
                assert(false);
            }
            assert(terms_map(m) =~= combine_maps(terms_map(a), terms_map(b))) by {
                assert(terms_map(m) == terms_map(m.drop_first()).insert(m[0].0, m[0].1));
                lemma_terms_map_dom(bt, b[0].0);
                lemma_terms_map_dom(b, b[0].0);
            }
        } else {
            crate::index::lemma_var_lt_trichotomy(a[0].0, b[0].0);
            assert(a[0].0 == b[0].0);
            lemma_merge_map(at, bt);
            assert(m.drop_first() =~= merge_terms(at, bt));
            assert(terms_map(m) =~= combine_maps(terms_map(a), terms_map(b))) by {
                assert(terms_map(m) == terms_map(m.drop_first()).insert(m[0].0, m[0].1));
                lemma_terms_map_dom(at, a[0].0);
                lemma_terms_map_dom(bt, b[0].0);
                lemma_terms_map_dom(a, a[0].0);
                lemma_terms_map_dom(b, b[0].0);
            }
        }
    }
}

/// Combining coefficient maps is commutative: field addition is.
pub proof fn lemma_combine_maps_commutes<F: Field>(m1: Map<Variable, F>, m2: Map<Variable, F>)
    ensures
        combine_maps(m1, m2) == combine_maps(m2, m1),
{
    assert forall|v: Variable|
        combine_maps(m1, m2).dom().contains(v) implies #[trigger] combine_maps(m1, m2)[v]
        == combine_maps(m2, m1)[v] by {
        if m1.dom().contains(v) && m2.dom().contains(v) {
            F::add_commutes(m1[v], m2[v]);
        }
    }
    assert(combine_maps(m1, m2) =~= combine_maps(m2, m1));
}

/// Combining coefficient maps is associative: field addition is.
pub proof fn lemma_combine_maps_associates<F: Field>(
    m1: Map<Variable, F>,
    m2: Map<Variable, F>,
    m3: Map<Variable, F>,
)
    ensures
        combine_maps(combine_maps(m1, m2), m3) == combine_maps(m1, combine_maps(m2, m3)),
{
    assert forall|v: Variable|
        combine_maps(combine_maps(m1, m2), m3).dom().contains(v) implies #[trigger] combine_maps(
        combine_maps(m1, m2),
        m3,
    )[v] == combine_maps(m1, combine_maps(m2, m3))[v] by {
        if m1.dom().contains(v) && m2.dom().contains(v) && m3.dom().contains(v) {
            F::add_associates(m1[v], m2[v], m3[v]);
        }
    }
    assert(combine_maps(combine_maps(m1, m2), m3) =~= combine_maps(m1, combine_maps(m2, m3)));
}

/// A sorted term sequence is the canonical form of its coefficient map: two
/// sorted sequences denoting the same map are the same sequence.
pub proof fn lemma_sorted_canonical<F: Field>(s1: Seq<(Variable, F)>, s2: Seq<(Variable, F)>)
    requires
        terms_sorted(s1),
        terms_sorted(s2),
        terms_map(s1) == terms_map(s2),
    ensures
        s1 == s2,
    decreases s1.len(),
{
    if s1.len() == 0 {
        if s2.len() > 0 {
            lemma_terms_map_dom(s1, s2[0].0);
            lemma_terms_map_dom(s2, s2[0].0);
        }
        assert(s1 =~= s2);
    } else if s2.len() == 0 {
        lemma_terms_map_dom(s1, s1[0].0);
        lemma_terms_map_dom(s2, s1[0].0);
    } else {
        let v1 = s1[0].0;
        let v2 = s2[0].0;
        lemma_terms_map_dom(s1, v2);
        lemma_terms_map_dom(s2, v1);
        assert(v1 == v2) by {
            crate::index::lemma_var_lt_trichotomy(v1, v2);
            if var_lt(v1, v2) {
                // v1 is in s2, but everything there is v2 or above
                let i = choose|i: int| 0 <= i < s2.len() && s2[i].0 == v1;
                if i > 0 {
                    assert(var_lt(v2, s2[i].0));
                    crate::index::lemma_var_lt_trichotomy(v1, s2[i].0);
                    crate::index::lemma_var_lt_transitive();
                }
            } else if var_lt(v2, v1) {
                let i = choose|i: int| 0 <= i < s1.len() && s1[i].0 == v2;
                if i > 0 {
                    assert(var_lt(v1, s1[i].0));
                    crate::index::lemma_var_lt_trichotomy(v2, s1[i].0);
                    crate::index::lemma_var_lt_transitive();
                }
            }
        }
        lemma_terms_map_head(s1);
        lemma_terms_map_head(s2);
        assert(s1[0].1 == s2[0].1);
        assert(forall|i: int| 0 <= i < s1.drop_first().len() ==> s1.drop_first()[i] == s1[i + 1]);
        assert(forall|i: int| 0 <= i < s2.drop_first().len() ==> s2.drop_first()[i] == s2[i + 1]);
        assert(terms_sorted(s1.drop_first()));
        assert(terms_sorted(s2.drop_first()));
        lemma_sorted_canonical(s1.drop_first(), s2.drop_first());
        assert(s1[0] == s2[0]);
        assert(forall|i: int|
            1 <= i < s1.len() ==> s1[i] == s1.drop_first()[i - 1] && s2[i] == s2.drop_first()[i
                - 1]);
        assert(s1 =~= s2);
    }
}

/// Merging a sorted sequence with a single term either replaces the term
/// already carrying its variable by the field-sum, or splices the term in at
/// the position `p` that keeps the sequence sorted.
pub proof fn lemma_merge_singleton<F: Field>(s: Seq<(Variable, F)>, v: Variable, c: F, p: int)
    requires
        terms_sorted(s),
        0 <= p <= s.len(),
        forall|k: int| 0 <= k < p ==> var_lt(#[trigger] s[k].0, v),
        forall|k: int| p <= k < s.len() ==> !var_lt(#[trigger] s[k].0, v),
    ensures
        p < s.len() && s[p].0 == v ==> merge_terms(s, seq![(v, c)]) == s.update(
            p,
            (v, F::spec_add(s[p].1, c)),
        ),
        !(p < s.len() && s[p].0 == v) ==> merge_terms(s, seq![(v, c)]) == s.insert(p, (v, c)),
    decreases s.len(),
{
    let single = seq![(v, c)];
    if s.len() == 0 {
        assert(merge_terms(s, single) == single);
        assert(s.insert(0, (v, c)) =~= single);
    } else if p == 0 {
        if s[0].0 == v {
            assert(!var_lt(s[0].0, v) && !var_lt(v, s[0].0));
            assert(merge_terms(s, single) == seq![(v, F::spec_add(s[0].1, c))] + merge_terms(
                s.drop_first(),
                single.drop_first(),
            ));
            assert(single.drop_first().len() == 0);
            assert(merge_terms(s.drop_first(), single.drop_first()) == s.drop_first());
            assert(merge_terms(s, single) =~= s.update(0, (v, F::spec_add(s[0].1, c))));
        } else {
            crate::index::lemma_var_lt_trichotomy(s[0].0, v);
            assert(var_lt(v, s[0].0));
            assert(merge_terms(s, single) == seq![(v, c)] + merge_terms(s, single.drop_first()));
            assert(merge_terms(s, single.drop_first()) == s);
            assert(merge_terms(s, single) =~= s.insert(0, (v, c)));
        }
    } else {
        assert(var_lt(s[0].0, v));
        let t = s.drop_first();
        assert(forall|i: int| 0 <= i < t.len() ==> t[i] == s[i + 1]);
        assert(terms_sorted(t));
        lemma_merge_singleton(t, v, c, p - 1);
        assert(merge_terms(s, single) == seq![s[0]] + merge_terms(t, single));
        if p < s.len() && s[p].0 == v {
            assert(t[p - 1].0 == v);
            assert(merge_terms(t, single) == t.update(p - 1, (v, F::spec_add(t[p - 1].1, c))));
            assert(merge_terms(s, single) =~= s.update(p, (v, F::spec_add(s[p].1, c))));
        } else {
            assert(merge_terms(t, single) == t.insert(p - 1, (v, c)));
            assert(merge_terms(s, single) =~= s.insert(p, (v, c)));
        }
    }
}

/// Law: inserting a coefficient for a variable into a combination that
/// already carries one for the same variable yields a single term holding
/// the field-sum of the two, never two entries. In particular, inserting
/// `(c1, x)` and then `(c2, x)` starting from nothing leaves exactly the
/// term `(x, c1 + c2)`.
pub proof fn lemma_insert_merges_duplicates<F: Field>(c1: F, c2: F, x: Variable)
    ensures
        merge_terms(merge_terms(Seq::<(Variable, F)>::empty(), seq![(x, c1)]), seq![(x, c2)])
            == seq![(x, F::spec_add(c1, c2))],
{
    let first = merge_terms(Seq::<(Variable, F)>::empty(), seq![(x, c1)]);
    assert(first == seq![(x, c1)]);
    assert(terms_sorted(first));
    lemma_merge_singleton(first, x, c2, 0);
    assert(first.update(0, (x, F::spec_add(c1, c2))) =~= seq![(x, F::spec_add(c1, c2))]);
}

/// Law: combining combination A with B and then with C yields exactly the
/// same terms as combining B with C and then with A. Field addition being
/// commutative and associative, the merged coefficient of every variable is
/// the same either way, and sorted storage makes the result canonical.
pub proof fn lemma_merge_order_insensitive<F: Field>(
    a: Seq<(Variable, F)>,
    b: Seq<(Variable, F)>,
    c: Seq<(Variable, F)>,
)
    requires
        terms_sorted(a),
        terms_sorted(b),
        terms_sorted(c),
    ensures
        merge_terms(merge_terms(a, b), c) == merge_terms(merge_terms(b, c), a),
{
    lemma_merge_sorted(a, b);
    lemma_merge_sorted(b, c);
    lemma_merge_sorted(merge_terms(a, b), c);
    lemma_merge_sorted(merge_terms(b, c), a);
    lemma_merge_map(a, b);
    lemma_merge_map(b, c);
    lemma_merge_map(merge_terms(a, b), c);
    lemma_merge_map(merge_terms(b, c), a);
    let ma = terms_map(a);
    let mb = terms_map(b);
    let mc = terms_map(c);
    lemma_combine_maps_associates(ma, mb, mc);
    lemma_combine_maps_commutes(combine_maps(mb, mc), ma);
    lemma_combine_maps_associates(mb, mc, ma);
    lemma_sorted_canonical(merge_terms(merge_terms(a, b), c), merge_terms(merge_terms(b, c), a));
}

/// A linear combination `Σ cᵢ·xᵢ` of variables with coefficients in the
/// field `F`. The `(variable, coefficient)` terms are kept sorted in strictly
/// increasing variable order, with at most one term per variable.
#[derive(Clone, Debug)]
pub struct LinearCombination<F: Field>(pub Vec<(Variable, F)>);

impl<F: Field> View for LinearCombination<F> {
    type V = Seq<(Variable, F)>;

    open spec fn view(&self) -> Seq<(Variable, F)> {
        self.0@
    }
}

impl<F: Field> LinearCombination<F> {
    /// Well-formedness: the terms are sorted in strictly increasing variable
    /// order, so no variable appears twice. Every constructor establishes
    /// this and every operation preserves it.
    pub open spec fn wf(&self) -> bool {
        terms_sorted(self@)
    }

    /// The empty combination.
    pub fn new() -> (r: Self)
        ensures
            r@ == Seq::<(Variable, F)>::empty(),
            r.wf(),
    {
        LinearCombination(Vec::new())
    }

    /// The combination holding the single term `coeff · var`.
    pub fn single(coeff: F, var: Variable) -> (r: Self)
        ensures
            r@ == seq![(var, coeff)],
            r.wf(),
    {
        let mut terms: Vec<(Variable, F)> = Vec::new();
        terms.push((var, coeff));
        proof {
            assert(terms@ =~= seq![(var, coeff)]);
        }
        LinearCombination(terms)
    }

    /// The number of terms.
    pub fn len(&self) -> (r: usize)
        ensures
            r == self@.len(),
    {
        self.0.len()
    }

    /// The `i`-th term in increasing variable order.
    pub fn term(&self, i: usize) -> (r: (Variable, F))
        requires
            i < self@.len(),
        ensures
            r == self@[i as int],
    {
        self.0[i]
    }

    /// Inserts the term `coeff · var`: if a term for `var` exists its
    /// coefficient becomes the field-sum of old and new, otherwise the term
    /// is spliced in at the position that keeps the storage sorted. A binary
    /// search finds the position; the splice shifts later terms, so the cost
    /// is linear in the number of terms.
    pub fn insert(&mut self, coeff: F, var: Variable)
        requires
            old(self).wf(),
        ensures
            final(self)@ == merge_terms(old(self)@, seq![(var, coeff)]),
            final(self).wf(),
    {
        let n = self.0.len();
        let mut lo: usize = 0;
        let mut hi: usize = n;
        while lo < hi
            invariant
                lo <= hi <= n,
                n == self@.len(),
                self == old(self),
                terms_sorted(self@),
                forall|k: int| 0 <= k < lo ==> var_lt(#[trigger] self@[k].0, var),
                forall|k: int| hi <= k < n ==> !var_lt(#[trigger] self@[k].0, var),
            decreases hi - lo,
        {
            let mid = lo + (hi - lo) / 2;
            match self.0[mid].0.compare(&var) {
                core::cmp::Ordering::Less => {
                    proof {
                        crate::index::lemma_var_lt_transitive();
                        assert(terms_sorted(self@));
                        assert(var_lt(self@[mid as int].0, var));
                        assert forall|k: int| 0 <= k <= mid implies var_lt(
                            #[trigger] self@[k].0,
                            var,
                        ) by {
                            if k < mid {
                                assert(var_lt(self@[k].0, self@[mid as int].0));
                            }
                        }
                    }
                    lo = mid + 1;
                },
                _ => {
                    proof {
                        crate::index::lemma_var_lt_transitive();
                        assert(terms_sorted(self@));
                        assert(!var_lt(self@[mid as int].0, var));
                        assert forall|k: int| mid <= k < n implies !var_lt(
                            #[trigger] self@[k].0,
                            var,
                        ) by {
                            if k > mid && var_lt(self@[k].0, var) {
                                assert(var_lt(self@[mid as int].0, self@[k].0));
                                assert(false);
                            }
                        }
                    }
                    hi = mid;
                },
            }
        }
        proof {
            lemma_merge_singleton(self@, var, coeff, lo as int);
        }
        if lo < n && self.0[lo].0 == var {
            let old_coeff = self.0[lo].1;
            self.0.set(lo, (var, old_coeff.add(coeff)));
        } else {
            self.0.insert(lo, (var, coeff));
        }
        proof {
            lemma_merge_sorted(old(self)@, seq![(var, coeff)]);
        }
    }

    /// Adds two combinations in one sorted-merge pass over both term lists —
    /// an interleaving, not a concatenation followed by a sort — summing the
    /// coefficients of a variable both sides carry.
    pub fn combine(&self, other: &Self) -> (r: Self)
        requires
            self.wf(),
            other.wf(),
        ensures
            r@ == merge_terms(self@, other@),
            r.wf(),
    {
        let mut out: Vec<(Variable, F)> = Vec::new();
        let mut i: usize = 0;
        let mut j: usize = 0;
        let a_len = self.0.len();
        let b_len = other.0.len();
        proof {
            assert(self@.skip(0) =~= self@);
            assert(other@.skip(0) =~= other@);
            assert(out@ + merge_terms(self@, other@) =~= merge_terms(self@, other@));
        }
        while i < a_len || j < b_len
            invariant
                i <= a_len == self@.len(),
                j <= b_len == other@.len(),
                merge_terms(self@, other@) == out@ + merge_terms(
                    self@.skip(i as int),
                    other@.skip(j as int),
                ),
            decreases a_len - i + b_len - j,
        {
            let ghost sa = self@.skip(i as int);
            let ghost sb = other@.skip(j as int);
            proof {
                assert(forall|k: int| 0 <= k < sa.len() ==> sa[k] == self@[i + k]);
                assert(forall|k: int| 0 <= k < sb.len() ==> sb[k] == other@[j + k]);
            }
            if i >= a_len {
                out.push(other.0[j]);
                j = j + 1;
                proof {
                    assert(sb =~= seq![sb[0]] + other@.skip(j as int));
                    assert(merge_terms(sa, sb) == sb);
                    assert(out@ + merge_terms(self@.skip(i as int), other@.skip(j as int))
                        =~= merge_terms(self@, other@));
                }
            } else if j >= b_len {
                out.push(self.0[i]);
                i = i + 1;
                proof {
                    assert(sa =~= seq![sa[0]] + self@.skip(i as int));
                    assert(merge_terms(sa, sb) == sa);
                    assert(out@ + merge_terms(self@.skip(i as int), other@.skip(j as int))
                        =~= merge_terms(self@, other@));
                }
            } else {
                let x = self.0[i];
                let y = other.0[j];
                match x.0.compare(&y.0) {
                    core::cmp::Ordering::Less => {
                        out.push(x);
                        i = i + 1;
                        proof {
                            assert(sa.drop_first() =~= self@.skip(i as int));
                            assert(merge_terms(sa, sb) == seq![x] + merge_terms(
                                self@.skip(i as int),
                                sb,
                            ));
                            assert(out@ + merge_terms(self@.skip(i as int), other@.skip(j as int))
                                =~= merge_terms(self@, other@));
                        }
                    },
                    core::cmp::Ordering::Greater => {
                        out.push(y);
                        j = j + 1;
                        proof {
                            assert(sb.drop_first() =~= other@.skip(j as int));
                            assert(merge_terms(sa, sb) == seq![y] + merge_terms(
                                sa,
                                other@.skip(j as int),
                            ));
                            assert(out@ + merge_terms(self@.skip(i as int), other@.skip(j as int))
                                =~= merge_terms(self@, other@));
                        }
                    },
                    core::cmp::Ordering::Equal => {
                        out.push((x.0, x.1.add(y.1)));
                        i = i + 1;
                        j = j + 1;
                        proof {
                            assert(sa.drop_first() =~= self@.skip(i as int));
                            assert(sb.drop_first() =~= other@.skip(j as int));
                            assert(merge_terms(sa, sb) == seq![(x.0, F::spec_add(x.1, y.1))]
                                + merge_terms(self@.skip(i as int), other@.skip(j as int)));
                            assert(out@ + merge_terms(self@.skip(i as int), other@.skip(j as int))
                                =~= merge_terms(self@, other@));
                        }
                    },
                }
            }
        }
        proof {
            assert(self@.skip(i as int).len() == 0);
            assert(out@ =~= merge_terms(self@, other@));
            lemma_merge_sorted(self@, other@);
        }
        LinearCombination(out)
    }

    /// Multiplies every coefficient by the field constant `k`; the variables
    /// and their order are untouched.
    pub fn scale(&mut self, k: F)
        ensures
            final(self)@.len() == old(self)@.len(),
            forall|i: int|
                0 <= i < old(self)@.len() ==> final(self)@[i] == (
                old(self)@[i].0,
                F::spec_mul(old(self)@[i].1, k),
                ),
            old(self).wf() ==> final(self).wf(),
    {
        let n = self.0.len();
        let mut i: usize = 0;
        while i < n
            invariant
                i <= n == self@.len(),
                self@.len() == old(self)@.len(),
                forall|m: int|
                    0 <= m < i ==> self@[m] == (
                    old(self)@[m].0,
                    F::spec_mul(old(self)@[m].1, k),
                    ),
                forall|m: int| i <= m < n ==> self@[m] == old(self)@[m],
            decreases n - i,
        {
            let (v, c) = self.0[i];
            self.0.set(i, (v, c.mul(k)));
            i = i + 1;
        }
    }
}

/// Either a bare `Variable` or a full `LinearCombination`: the operand shape
/// accepted wherever an API takes "a term", so that single-variable call
/// sites need not allocate a one-element combination.
#[derive(Clone, Debug)]
pub enum ConstraintVar<F: Field> {
    /// A wrapper around a `LinearCombination`.
    LC(LinearCombination<F>),
    /// A wrapper around a `Variable`.
    Var(Variable),
}

impl<F: Field> ConstraintVar<F> {
    /// The terms this operand denotes: a bare variable stands for the
    /// one-term combination whose coefficient is the multiplicative
    /// identity.
    pub open spec fn spec_terms(&self) -> Seq<(Variable, F)> {
        match self {
            ConstraintVar::LC(lc) => lc@,
            ConstraintVar::Var(v) => seq![(*v, F::spec_one())],
        }
    }

    /// Well-formedness: the terms denoted are sorted.
    pub open spec fn wf(&self) -> bool {
        match self {
            ConstraintVar::LC(lc) => lc.wf(),
            ConstraintVar::Var(_) => true,
        }
    }

    /// Wraps a bare variable; no allocation happens.
    pub fn from_var(v: Variable) -> (r: Self)
        ensures
            r == ConstraintVar::<F>::Var(v),
            r.wf(),
            r.spec_terms() == seq![(v, F::spec_one())],
    {
        ConstraintVar::Var(v)
    }

    /// Wraps a finished linear combination, taking ownership of it.
    pub fn from_lc(lc: LinearCombination<F>) -> (r: Self)
        ensures
            r == ConstraintVar::LC(lc),
            r.spec_terms() == lc@,
    {
        ConstraintVar::LC(lc)
    }

    /// Normalizes to the linear-combination form: a bare variable becomes
    /// the one-term combination with coefficient one.
    pub fn into_lc(self) -> (r: LinearCombination<F>)
        requires
            self.wf(),
        ensures
            r@ == self.spec_terms(),
            r.wf(),
    {
        match self {
            ConstraintVar::LC(lc) => lc,
            ConstraintVar::Var(v) => LinearCombination::single(F::one(), v),
        }
    }

    /// Adds two operands: both are normalized to their combination form and
    /// merged under the one-term-per-variable rule.
    pub fn combine(self, other: Self) -> (r: Self)
        requires
            self.wf(),
            other.wf(),
        ensures
            r matches ConstraintVar::LC(lc) && lc@ == merge_terms(
                self.spec_terms(),
                other.spec_terms(),
            ) && lc.wf(),
    {
        let a = self.into_lc();
        let b = other.into_lc();
        ConstraintVar::LC(a.combine(&b))
    }

    /// Scales an operand by a field constant, normalizing to the
    /// combination form.
    pub fn scale(self, k: F) -> (r: Self)
        requires
            self.wf(),
        ensures
            r matches ConstraintVar::LC(lc) && lc@.len() == self.spec_terms().len() && lc.wf()
                && (forall|i: int|
                0 <= i < self.spec_terms().len() ==> lc@[i] == (
                self.spec_terms()[i].0,
                F::spec_mul(self.spec_terms()[i].1, k),
                )),
    {
        let mut lc = self.into_lc();
        lc.scale(k);
        ConstraintVar::LC(lc)
    }
}

} // verus!
