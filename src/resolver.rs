//! Expansion of a selection into its complete, canonical target set.
use crate::order::{insert_sorted, lemma_sorted_unique, strictly_sorted, views};
use crate::selection::{all_layers, is_layer, lookup_layer, ProjectCatalog, Selection};
use vstd::prelude::*;

verus! {

#[derive(Clone, Debug, PartialEq, Eq)]
pub enum ResolveError {
    /// A selected layer that the catalog does not hold.
    UnresolvableCoordinate(String),
}

/// Whether the layer `name` expands to `t`.
pub open spec fn expands_to(cat: Seq<(Seq<char>, Seq<Seq<char>>)>, name: Seq<char>, t: Seq<char>) -> bool {
    match lookup_layer(cat, name) {
        Some(e) => e.contains(t),
        None => false,
    }
}

/// The targets of the first `n` selected layers.
pub open spec fn layer_targets(
    cat: Seq<(Seq<char>, Seq<Seq<char>>)>,
    projects: Seq<Seq<char>>,
    n: int,
) -> Set<Seq<char>> {
    Set::new(|t: Seq<char>| exists|k: int| 0 <= k < n && #[trigger] expands_to(cat, projects[k], t))
}

/// The union of every selected layer's expansion and the ad-hoc targets.
pub open spec fn complete_targets(
    cat: Seq<(Seq<char>, Seq<Seq<char>>)>,
    projects: Seq<Seq<char>>,
    adhoc: Seq<Seq<char>>,
) -> Set<Seq<char>> {
    layer_targets(cat, projects, projects.len() as int).union(adhoc.to_set())
}

/// Resolves a selection against the catalog. The result holds each target
/// once, in ascending order, so it depends on the selected names alone and
/// not on their order.
pub fn compute_complete_target_set(selection: &Selection, catalog: &ProjectCatalog) -> (r: Result<
    Vec<String>,
    ResolveError,
>)
    ensures
        r is Ok <==> all_layers(catalog.view_layers(), views(selection.projects@)),
        r matches Err(ResolveError::UnresolvableCoordinate(n)) ==> views(
            selection.projects@,
        ).contains(n@) && !is_layer(catalog.view_layers(), n@),
        r matches Ok(v) ==> strictly_sorted(views(v@)) && views(v@).to_set() == complete_targets(
            catalog.view_layers(),
            views(selection.projects@),
            views(selection.targets@),
        ),
{
    let ghost cat = catalog.view_layers();
    let ghost ps = views(selection.projects@);
    let mut out: Vec<String> = Vec::new();
    let np = selection.projects.len();
    let mut i: usize = 0;
    assert(views(out@).to_set() =~= layer_targets(cat, ps, 0));
    while i < np
        invariant
            np == selection.projects@.len(),
            i <= np,
            cat == catalog.view_layers(),
            ps == views(selection.projects@),
            strictly_sorted(views(out@)),
            views(out@).to_set() == layer_targets(cat, ps, i as int),
            forall|k: int| 0 <= k < i ==> is_layer(cat, #[trigger] ps[k]),
        decreases np - i,
    {
        let name = &selection.projects[i];
        assert(ps[i as int] == name@);
        match catalog.find(name) {
            None => {
                return Err(ResolveError::UnresolvableCoordinate(name.clone()));
            },
            Some(j) => {
                let ts = &catalog.optional_projects[j].targets;
                let ghost e = views(ts@);
                let nt = ts.len();
                let mut m: usize = 0;
                assert(e.take(0).to_set() =~= Set::<Seq<char>>::empty());
                assert(views(out@).to_set() =~= layer_targets(cat, ps, i as int).union(
                    e.take(0).to_set(),
                ));
                while m < nt
                    invariant
                        nt == ts@.len(),
                        m <= nt,
                        e == views(ts@),
                        strictly_sorted(views(out@)),
                        views(out@).to_set() == layer_targets(cat, ps, i as int).union(
                            e.take(m as int).to_set(),
                        ),
                    decreases nt - m,
                {
                    let t = ts[m].clone();
                    insert_sorted(&mut out, t);
                    assert(e.take(m + 1) =~= e.take(m as int).push(e[m as int]));
                    assert(e.take(m + 1).to_set() =~= e.take(m as int).to_set().insert(
                        e[m as int],
                    )) by {
                        assert forall|x: Seq<char>| #[trigger]
                            e.take(m + 1).contains(x) <==> e.take(m as int).contains(x) || x == e[m
                                as int] by {
                            if e.take(m + 1).contains(x) {
                                let q = choose|q: int| 0 <= q < m + 1 && #[trigger] e.take(m + 1)[q] == x;
                                if q < m {
                                    assert(e.take(m as int)[q] == x);
                                }
                            }
                            if e.take(m as int).contains(x) {
                                let q = choose|q: int| 0 <= q < m && #[trigger] e.take(m as int)[q] == x;
                                assert(e.take(m + 1)[q] == x);
                            }
                            if x == e[m as int] {
                                assert(e.take(m + 1)[m as int] == x);
                            }
                        }
                    }
                    assert(views(out@).to_set() =~= layer_targets(cat, ps, i as int).union(
                        e.take(m + 1).to_set(),
                    ));
                    m = m + 1;
                }
                assert(e.take(nt as int) =~= e);
                assert(lookup_layer(cat, ps[i as int]) == Some(e));
                assert(views(out@).to_set() =~= layer_targets(cat, ps, i + 1)) by {
                    assert forall|t: Seq<char>| #[trigger]
                        layer_targets(cat, ps, i + 1).contains(t) <==> layer_targets(
                            cat,
                            ps,
                            i as int,
                        ).contains(t) || e.contains(t) by {
                        if layer_targets(cat, ps, i + 1).contains(t) {
                            let k = choose|k: int| 0 <= k < i + 1 && expands_to(cat, ps[k], t);
                            if k < i {
                                assert(layer_targets(cat, ps, i as int).contains(t));
                            }
                        }
                        if layer_targets(cat, ps, i as int).contains(t) {
                            let k = choose|k: int| 0 <= k < i && expands_to(cat, ps[k], t);
                            assert(expands_to(cat, ps[k], t));
                        }
                        if e.contains(t) {
                            assert(expands_to(cat, ps[i as int], t));
                        }
                    }
                }
            },
        }
        i = i + 1;
    }
    let ghost base = views(out@).to_set();
    let ghost adhoc = views(selection.targets@);
    let nt = selection.targets.len();
    let mut m: usize = 0;
    assert(adhoc.take(0).to_set() =~= Set::<Seq<char>>::empty());
    assert(views(out@).to_set() =~= base.union(adhoc.take(0).to_set()));
    while m < nt
        invariant
            nt == selection.targets@.len(),
            m <= nt,
            adhoc == views(selection.targets@),
            strictly_sorted(views(out@)),
            views(out@).to_set() == base.union(adhoc.take(m as int).to_set()),
        decreases nt - m,
    {
        let t = selection.targets[m].clone();
        insert_sorted(&mut out, t);
        assert(adhoc.take(m + 1).to_set() =~= adhoc.take(m as int).to_set().insert(
            adhoc[m as int],
        )) by {
            assert forall|x: Seq<char>| #[trigger]
                adhoc.take(m + 1).contains(x) <==> adhoc.take(m as int).contains(x) || x
                    == adhoc[m as int] by {
                if adhoc.take(m + 1).contains(x) {
                    let q = choose|q: int| 0 <= q < m + 1 && #[trigger] adhoc.take(m + 1)[q] == x;
                    if q < m {
                        assert(adhoc.take(m as int)[q] == x);
                    }
                }
                if adhoc.take(m as int).contains(x) {
                    let q = choose|q: int| 0 <= q < m && #[trigger] adhoc.take(m as int)[q] == x;
                    assert(adhoc.take(m + 1)[q] == x);
                }
                if x == adhoc[m as int] {
                    assert(adhoc.take(m + 1)[m as int] == x);
                }
            }
        }
        assert(views(out@).to_set() =~= base.union(adhoc.take(m + 1).to_set()));
        m = m + 1;
    }
    assert(adhoc.take(nt as int) =~= adhoc);
    Ok(out)
}

/// Resolution does not depend on the order of the selected names: two
/// selections that hold the same layers and the same ad-hoc targets, in any
/// order, either both fail or resolve to the same target sequence.
pub proof fn lemma_target_set_order_independent(
    cat: Seq<(Seq<char>, Seq<Seq<char>>)>,
    p1: Seq<Seq<char>>,
    t1: Seq<Seq<char>>,
    p2: Seq<Seq<char>>,
    t2: Seq<Seq<char>>,
    r1: Seq<Seq<char>>,
    r2: Seq<Seq<char>>,
)
    requires
        p1.to_set() == p2.to_set(),
        t1.to_set() == t2.to_set(),
    ensures
        all_layers(cat, p1) == all_layers(cat, p2),
        strictly_sorted(r1) && r1.to_set() == complete_targets(cat, p1, t1) && strictly_sorted(r2)
            && r2.to_set() == complete_targets(cat, p2, t2) ==> r1 == r2,
{
    assert forall|x: Seq<char>| p1.contains(x) <==> p2.contains(x) by {
        assert(p1.to_set().contains(x) == p1.contains(x));
        assert(p2.to_set().contains(x) == p2.contains(x));
    }
    if all_layers(cat, p1) && !all_layers(cat, p2) {
        let i = choose|i: int| 0 <= i < p2.len() && !is_layer(cat, #[trigger] p2[i]);
        assert(p2.contains(p2[i]));
        let k = choose|k: int| 0 <= k < p1.len() && p1[k] == p2[i];
        assert(is_layer(cat, p1[k]));
    }
    if !all_layers(cat, p1) && all_layers(cat, p2) {
        let i = choose|i: int| 0 <= i < p1.len() && !is_layer(cat, #[trigger] p1[i]);
        assert(p1.contains(p1[i]));
        let k = choose|k: int| 0 <= k < p2.len() && p2[k] == p1[i];
        assert(is_layer(cat, p2[k]));
    }
    assert(complete_targets(cat, p1, t1) =~= complete_targets(cat, p2, t2)) by {
        assert forall|t: Seq<char>|
            layer_targets(cat, p1, p1.len() as int).contains(t) <==> layer_targets(
                cat,
                p2,
                p2.len() as int,
            ).contains(t) by {
            if layer_targets(cat, p1, p1.len() as int).contains(t) {
                let k = choose|k: int| 0 <= k < p1.len() && expands_to(cat, p1[k], t);
                assert(p1.contains(p1[k]));
                let q = choose|q: int| 0 <= q < p2.len() && p2[q] == p1[k];
                assert(expands_to(cat, p2[q], t));
            }
            if layer_targets(cat, p2, p2.len() as int).contains(t) {
                let k = choose|k: int| 0 <= k < p2.len() && expands_to(cat, p2[k], t);
                assert(p2.contains(p2[k]));
                let q = choose|q: int| 0 <= q < p1.len() && p1[q] == p2[k];
                assert(expands_to(cat, p1[q], t));
            }
        }
    }
    if strictly_sorted(r1) && r1.to_set() == complete_targets(cat, p1, t1) && strictly_sorted(r2)
        && r2.to_set() == complete_targets(cat, p2, t2) {
        lemma_sorted_unique(r1, r2);
    }
}

} // verus!
