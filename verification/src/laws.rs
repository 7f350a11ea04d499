//! Proved laws of the matching engine.
//!
//! Each proof function here states a property of the specification functions
//! in [`crate::matcher`] that every caller may rely on: whether a match
//! succeeds never depends on the incoming environment, a pattern identical
//! to its candidate matches it, kind mismatch fails without inspecting
//! children, a single named wildcard binds exactly the candidate node, a
//! sole ellipsis is fully elastic, the ellipsis anchor is the first viable
//! one, the pre-order search finds a match exactly when some subtree
//! matches, and the kind search finds a node exactly when some subtree node
//! has the kind.

use vstd::prelude::*;

use crate::matcher::{
    anywhere_from_spec, find_kind_from_spec, find_kind_spec, first_named_from, is_ellipsis_view,
    lemma_first_named_from, match_anywhere_spec, match_children_spec, match_exact_spec, scan_spec,
    CaptureMap,
};
use crate::meta_var::{classify, MetaVariableView};
use crate::node::{in_subtree, in_subtree_from, Node};

verus! {

/// Whether a match succeeds depends on the pattern and the candidate alone,
/// never on what the environment already holds.
pub proof fn lemma_match_env_independent(goal: Node, cand: Node, env1: CaptureMap, env2: CaptureMap)
    ensures
        match_exact_spec(goal, cand, env1).0 == match_exact_spec(goal, cand, env2).0,
    decreases goal, 2int, 0int, 0int,
{
    if goal.children@.len() == 0 {
    } else if goal.kind_id != cand.kind_id {
    } else if cand.children@.len() == 0 {
    } else {
        lemma_children_env_independent(goal, cand, 0, 0, env1, env2);
    }
}

/// The walk over children succeeds or fails independently of the incoming
/// environment, and an ellipsis anchors at the same place either way.
pub proof fn lemma_children_env_independent(
    goal: Node,
    cand: Node,
    gi: int,
    ci: int,
    env1: CaptureMap,
    env2: CaptureMap,
)
    ensures
        match_children_spec(goal, cand, gi, ci, env1).0 == match_children_spec(
            goal,
            cand,
            gi,
            ci,
            env2,
        ).0,
    decreases goal, 1int, goal.children@.len() - gi, 0int,
{
    let gcs = goal.children@;
    let ccs = cand.children@;
    if gi < 0 || gi >= gcs.len() || ci < 0 || ci >= ccs.len() {
    } else if is_ellipsis_view(gcs[gi]) {
        lemma_first_named_from(goal, gi + 1);
        let gj = first_named_from(goal, gi + 1);
        if gj >= gcs.len() {
        } else if is_ellipsis_view(gcs[gj]) {
            if ci + 1 < ccs.len() {
                lemma_children_env_independent(goal, cand, gj, ci + 1, env1, env2);
            }
        } else {
            lemma_scan_env_independent(goal, cand, gj, ci, env1, env2);
            let (anchor, e1) = scan_spec(goal, cand, gj, ci, env1);
            let e2 = scan_spec(goal, cand, gj, ci, env2).1;
            match anchor {
                None => {},
                Some(a) => {
                    if gj + 1 < gcs.len() && a + 1 < ccs.len() {
                        lemma_children_env_independent(goal, cand, gj + 1, a + 1, e1, e2);
                    }
                },
            }
        }
    } else {
        lemma_match_env_independent(gcs[gi], ccs[ci], env1, env2);
        let (ok, e1) = match_exact_spec(gcs[gi], ccs[ci], env1);
        let e2 = match_exact_spec(gcs[gi], ccs[ci], env2).1;
        if ok && gi + 1 < gcs.len() && ci + 1 < ccs.len() {
            lemma_children_env_independent(goal, cand, gi + 1, ci + 1, e1, e2);
        }
    }
}

/// The forward scan anchors at the same candidate index whatever the
/// incoming environment holds.
pub proof fn lemma_scan_env_independent(
    goal: Node,
    cand: Node,
    gj: int,
    ci: int,
    env1: CaptureMap,
    env2: CaptureMap,
)
    ensures
        scan_spec(goal, cand, gj, ci, env1).0 == scan_spec(goal, cand, gj, ci, env2).0,
    decreases goal, 1int, goal.children@.len() - gj, cand.children@.len() - ci,
{
    let gcs = goal.children@;
    let ccs = cand.children@;
    if gj < 0 || gj >= gcs.len() || ci < 0 || ci >= ccs.len() {
    } else {
        lemma_match_env_independent(gcs[gj], ccs[ci], env1, env2);
        let (ok, e1) = match_exact_spec(gcs[gj], ccs[ci], env1);
        let e2 = match_exact_spec(gcs[gj], ccs[ci], env2).1;
        if !ok && ci + 1 < ccs.len() {
            lemma_scan_env_independent(goal, cand, gj, ci + 1, e1, e2);
        }
    }
}

/// Kind mismatch fails fast: a goal with children and a different kind
/// identifier fails against any candidate, without inspecting children and
/// without touching the environment.
pub proof fn lemma_kind_mismatch_fails(goal: Node, cand: Node, env: CaptureMap)
    requires
        goal.children@.len() > 0,
        goal.kind_id != cand.kind_id,
    ensures
        match_exact_spec(goal, cand, env) == (false, env),
{
}

/// A single named wildcard captures exactly one node: a leaf goal that
/// classifies as `Named(name)` matches any candidate node, and the
/// environment afterwards is the old one with exactly the binding of the
/// candidate to `name` added.
pub proof fn lemma_named_wildcard_binds(goal: Node, cand: Node, env: CaptureMap, name: Seq<char>)
    requires
        goal.spec_is_leaf(),
        classify(goal.text@) == Some(MetaVariableView::Named(name)),
    ensures
        match_exact_spec(goal, cand, env) == (true, env.insert(name, cand)),
{
}

/// A sole ellipsis is fully elastic: a pattern whose children are exactly
/// one ellipsis matches a candidate of the same kind whatever its children
/// are, even none, and binds nothing.
pub proof fn lemma_sole_ellipsis_elastic(goal: Node, cand: Node, env: CaptureMap)
    requires
        goal.kind_id == cand.kind_id,
        goal.children@.len() == 1,
        is_ellipsis_view(goal.children@[0]),
    ensures
        match_exact_spec(goal, cand, env) == (true, env),
{
    if cand.children@.len() > 0 {
        lemma_first_named_from(goal, 1);
        assert(first_named_from(goal, 1) == 1);
    }
}

/// No node of the subtree rooted at `n` classifies as a meta-variable: the
/// pattern is purely literal.
pub open spec fn meta_free(n: Node) -> bool
    decreases n, 1int, 0int,
{
    classify(n.text@) is None && meta_free_from(n, 0)
}

/// `meta_free` over the children of `n` with index `i` or greater.
pub open spec fn meta_free_from(n: Node, i: int) -> bool
    decreases n, 0int, n.children@.len() - i,
{
    if i < 0 || i >= n.children@.len() {
        true
    } else {
        meta_free(n.children@[i]) && meta_free_from(n, i + 1)
    }
}

proof fn lemma_meta_free_child(n: Node, k: int, j: int)
    requires
        meta_free_from(n, k),
        0 <= k <= j < n.children@.len(),
    ensures
        meta_free(n.children@[j]),
    decreases j - k,
{
    if k < j {
        lemma_meta_free_child(n, k + 1, j);
    }
}

/// Literal equality: a pattern identical to its candidate and free of
/// meta-variables always matches it, and leaves the environment unchanged.
pub proof fn lemma_literal_equality(c: Node, env: CaptureMap)
    requires
        meta_free(c),
    ensures
        match_exact_spec(c, c, env) == (true, env),
    decreases c, 2int, 0int, 0int,
{
    if c.children@.len() > 0 {
        lemma_literal_children(c, 0, env);
    }
}

proof fn lemma_literal_children(c: Node, i: int, env: CaptureMap)
    requires
        meta_free(c),
        0 <= i < c.children@.len(),
    ensures
        match_children_spec(c, c, i, i, env) == (true, env),
    decreases c, 1int, c.children@.len() - i, 0int,
{
    lemma_meta_free_child(c, 0, i);
    lemma_literal_equality(c.children@[i], env);
    if i + 1 < c.children@.len() {
        lemma_literal_children(c, i + 1, env);
    }
}

/// A trailing concrete pattern after an ellipsis anchors at the first
/// viable position: the scan returns the least candidate index at or after
/// `ci` whose child the goal child at `gj` matches, and `None` exactly when
/// there is none.
pub proof fn lemma_scan_first_viable(goal: Node, cand: Node, gj: int, ci: int, env: CaptureMap)
    requires
        0 <= gj < goal.children@.len(),
        0 <= ci < cand.children@.len(),
    ensures
        match scan_spec(goal, cand, gj, ci, env).0 {
            Some(a) => {
                &&& ci <= a < cand.children@.len()
                &&& match_exact_spec(goal.children@[gj], cand.children@[a], env).0
                &&& forall|k: int|
                    ci <= k < a ==> !(#[trigger] match_exact_spec(
                        goal.children@[gj],
                        cand.children@[k],
                        env,
                    )).0
            },
            None => forall|k: int|
                ci <= k < cand.children@.len() ==> !(#[trigger] match_exact_spec(
                    goal.children@[gj],
                    cand.children@[k],
                    env,
                )).0,
        },
    decreases cand.children@.len() - ci,
{
    let (ok, env1) = match_exact_spec(goal.children@[gj], cand.children@[ci], env);
    if !ok && ci + 1 < cand.children@.len() {
        lemma_scan_first_viable(goal, cand, gj, ci + 1, env1);
        assert forall|k: int| ci + 1 <= k < cand.children@.len() implies (#[trigger] match_exact_spec(
            goal.children@[gj],
            cand.children@[k],
            env,
        )).0 == match_exact_spec(goal.children@[gj], cand.children@[k], env1).0 by {
            lemma_match_env_independent(goal.children@[gj], cand.children@[k], env, env1);
        }
    }
}

/// The pre-order search finds a match exactly when some node of the
/// candidate's subtree matches the pattern, and what it returns is such a
/// node.
pub proof fn lemma_anywhere_complete(goal: Node, cand: Node, env: CaptureMap)
    ensures
        match match_anywhere_spec(goal, cand, env).0 {
            Some(n) => in_subtree(n, cand) && match_exact_spec(goal, n, env).0,
            None => forall|n: Node|
                #[trigger] in_subtree(n, cand) ==> !match_exact_spec(goal, n, env).0,
        },
    decreases cand, 1int, 0int,
{
    let (ok, env1) = match_exact_spec(goal, cand, env);
    if !ok {
        lemma_anywhere_from_complete(goal, cand, 0, env1, env);
        match anywhere_from_spec(goal, cand, 0, env1).0 {
            Some(n) => {},
            None => {
                assert forall|n: Node| #[trigger] in_subtree(n, cand) implies !match_exact_spec(
                    goal,
                    n,
                    env,
                ).0 by {
                    if n != cand {
                        assert(in_subtree_from(n, cand, 0));
                    }
                }
            },
        }
    }
}

proof fn lemma_anywhere_from_complete(
    goal: Node,
    cand: Node,
    i: int,
    env: CaptureMap,
    base: CaptureMap,
)
    ensures
        match anywhere_from_spec(goal, cand, i, env).0 {
            Some(n) => in_subtree(n, cand) && match_exact_spec(goal, n, base).0,
            None => forall|n: Node|
                #[trigger] in_subtree_from(n, cand, i) ==> !match_exact_spec(goal, n, base).0,
        },
    decreases cand, 0int, cand.children@.len() - i,
{
    if 0 <= i < cand.children@.len() {
        let child = cand.children@[i];
        lemma_anywhere_complete(goal, child, env);
        let (found, env2) = match_anywhere_spec(goal, child, env);
        match found {
            Some(n) => {
                lemma_match_env_independent(goal, n, env, base);
                lemma_in_subtree_child(n, cand, i);
            },
            None => {
                lemma_anywhere_from_complete(goal, cand, i + 1, env2, base);
                if anywhere_from_spec(goal, cand, i + 1, env2).0 is None {
                    assert forall|n: Node| #[trigger] in_subtree_from(n, cand, i) implies
                        !match_exact_spec(goal, n, base).0 by {
                        if in_subtree(n, child) {
                            lemma_match_env_independent(goal, n, env, base);
                        } else {
                            assert(in_subtree_from(n, cand, i + 1));
                        }
                    }
                }
            },
        }
    }
}

/// A node inside a child's subtree is inside the parent's subtree.
pub proof fn lemma_in_subtree_child(n: Node, root: Node, j: int)
    requires
        0 <= j < root.children@.len(),
        in_subtree(n, root.children@[j]),
    ensures
        in_subtree(n, root),
{
    lemma_in_subtree_from_widen(n, root, 0, j);
}

proof fn lemma_in_subtree_from_widen(n: Node, root: Node, k: int, j: int)
    requires
        0 <= k <= j < root.children@.len(),
        in_subtree(n, root.children@[j]),
    ensures
        in_subtree_from(n, root, k),
    decreases j - k,
{
    if k < j {
        lemma_in_subtree_from_widen(n, root, k + 1, j);
    }
}

/// The kind search is complete: it returns a subtree node of the requested
/// kind, or `None` exactly when the subtree holds none.
pub proof fn lemma_find_kind_complete(kind: Seq<char>, cand: Node)
    ensures
        match find_kind_spec(kind, cand) {
            Some(n) => in_subtree(n, cand) && n.kind@ == kind,
            None => forall|n: Node| #[trigger] in_subtree(n, cand) ==> n.kind@ != kind,
        },
    decreases cand, 1int, 0int,
{
    if cand.kind@ != kind {
        lemma_find_kind_from_complete(kind, cand, 0);
        match find_kind_from_spec(kind, cand, 0) {
            Some(n) => {},
            None => {
                assert forall|n: Node| #[trigger] in_subtree(n, cand) implies n.kind@ != kind by {
                    if n != cand {
                        assert(in_subtree_from(n, cand, 0));
                    }
                }
            },
        }
    }
}

proof fn lemma_find_kind_from_complete(kind: Seq<char>, cand: Node, i: int)
    ensures
        match find_kind_from_spec(kind, cand, i) {
            Some(n) => in_subtree(n, cand) && n.kind@ == kind,
            None => forall|n: Node| #[trigger] in_subtree_from(n, cand, i) ==> n.kind@ != kind,
        },
    decreases cand, 0int, cand.children@.len() - i,
{
    if 0 <= i < cand.children@.len() {
        let child = cand.children@[i];
        lemma_find_kind_complete(kind, child);
        match find_kind_spec(kind, child) {
            Some(n) => {
                lemma_in_subtree_child(n, cand, i);
            },
            None => {
                lemma_find_kind_from_complete(kind, cand, i + 1);
                if find_kind_from_spec(kind, cand, i + 1) is None {
                    assert forall|n: Node| #[trigger] in_subtree_from(n, cand, i) implies n.kind@
                        != kind by {
                        if !in_subtree(n, child) {
                            assert(in_subtree_from(n, cand, i + 1));
                        }
                    }
                }
            },
        }
    }
}

/// Entries are never removed during a match attempt: every name the
/// environment holds before a match it still holds afterwards, whether the
/// match succeeds or fails.
pub proof fn lemma_env_entries_kept(goal: Node, cand: Node, env: CaptureMap)
    ensures
        env.dom().subset_of(match_exact_spec(goal, cand, env).1.dom()),
    decreases goal, 2int, 0int, 0int,
{
    if goal.children@.len() == 0 {
    } else if goal.kind_id != cand.kind_id {
    } else if cand.children@.len() == 0 {
    } else {
        lemma_children_entries_kept(goal, cand, 0, 0, env);
    }
}

proof fn lemma_children_entries_kept(goal: Node, cand: Node, gi: int, ci: int, env: CaptureMap)
    ensures
        env.dom().subset_of(match_children_spec(goal, cand, gi, ci, env).1.dom()),
    decreases goal, 1int, goal.children@.len() - gi, 0int,
{
    let gcs = goal.children@;
    let ccs = cand.children@;
    if gi < 0 || gi >= gcs.len() || ci < 0 || ci >= ccs.len() {
    } else if is_ellipsis_view(gcs[gi]) {
        lemma_first_named_from(goal, gi + 1);
        let gj = first_named_from(goal, gi + 1);
        if gj >= gcs.len() {
        } else if is_ellipsis_view(gcs[gj]) {
            if ci + 1 < ccs.len() {
                lemma_children_entries_kept(goal, cand, gj, ci + 1, env);
            }
        } else {
            lemma_scan_entries_kept(goal, cand, gj, ci, env);
            let (anchor, env1) = scan_spec(goal, cand, gj, ci, env);
            match anchor {
                None => {},
                Some(a) => {
                    if gj + 1 < gcs.len() && a + 1 < ccs.len() {
                        lemma_children_entries_kept(goal, cand, gj + 1, a + 1, env1);
                    }
                },
            }
        }
    } else {
        lemma_env_entries_kept(gcs[gi], ccs[ci], env);
        let (ok, env1) = match_exact_spec(gcs[gi], ccs[ci], env);
        if ok && gi + 1 < gcs.len() && ci + 1 < ccs.len() {
            lemma_children_entries_kept(goal, cand, gi + 1, ci + 1, env1);
        }
    }
}

proof fn lemma_scan_entries_kept(goal: Node, cand: Node, gj: int, ci: int, env: CaptureMap)
    ensures
        env.dom().subset_of(scan_spec(goal, cand, gj, ci, env).1.dom()),
    decreases goal, 1int, goal.children@.len() - gj, cand.children@.len() - ci,
{
    let gcs = goal.children@;
    let ccs = cand.children@;
    if gj < 0 || gj >= gcs.len() || ci < 0 || ci >= ccs.len() {
    } else {
        lemma_env_entries_kept(gcs[gj], ccs[ci], env);
        let (ok, env1) = match_exact_spec(gcs[gj], ccs[ci], env);
        if !ok && ci + 1 < ccs.len() {
            lemma_scan_entries_kept(goal, cand, gj, ci + 1, env1);
        }
    }
}

} // verus!

