//! The matching engine.
//!
//! [`match_node_exact`] matches one pattern node against one candidate node,
//! with an ellipsis-aware walk over children; [`match_node_recursive`] finds
//! the first matching subtree anywhere in a candidate tree in pre-order; and
//! [`match_single_kind`] locates the first descendant of a given grammar
//! kind, independent of meta-variables.
//!
//! The walk over children is greedy: an ellipsis hands the turn to the next
//! named sub-pattern, which anchors at the first candidate child it matches,
//! and no alternative anchor is tried afterwards. Bindings written during a
//! sub-attempt that later fails are not rolled back. Both points are part of
//! the stated behaviour below, not accidents of the code: the specification
//! functions in this module say exactly what is returned and what the
//! environment holds afterwards, and the executable functions are proved to
//! follow them.

use vstd::prelude::*;

use crate::meta_var::{classify, extract_meta_var, Env, MetaVariable, MetaVariableView};
use crate::node::{str_eq, Node};

verus! {

/// The mapping a capture environment denotes.
pub type CaptureMap = Map<Seq<char>, Node>;

/// Whether a node's text classifies as an ellipsis, named or anonymous.
pub open spec fn is_ellipsis_view(n: Node) -> bool {
    match classify(n.text@) {
        Some(MetaVariableView::Ellipsis) => true,
        Some(MetaVariableView::NamedEllipsis(_)) => true,
        _ => false,
    }
}

/// The first index at or after `i` of a named child of `goal`, or the number
/// of children if there is none: punctuation immediately after an ellipsis
/// carries no matching weight and is skipped with this.
pub open spec fn first_named_from(goal: Node, i: int) -> int
    decreases goal.children@.len() - i,
{
    if i < 0 || i >= goal.children@.len() {
        goal.children@.len() as int
    } else if goal.children@[i].named {
        i
    } else {
        first_named_from(goal, i + 1)
    }
}

/// What one match of `goal` against `cand` returns and leaves in the
/// environment.
///
/// A leaf goal that classifies as a meta-variable succeeds against any
/// candidate, the named variants binding the candidate node; a literal leaf
/// goal asks for equal kind identifiers and equal text. An interior goal
/// asks for equal kind identifiers and then walks the children
/// ([`match_children_spec`]); against a childless candidate only the pattern
/// consisting solely of one ellipsis succeeds.
pub open spec fn match_exact_spec(goal: Node, cand: Node, env: CaptureMap) -> (bool, CaptureMap)
    decreases goal, 2int, 0int, 0int,
{
    if goal.children@.len() == 0 {
        match classify(goal.text@) {
            Some(MetaVariableView::Named(name)) => (true, env.insert(name, cand)),
            Some(MetaVariableView::Anonymous) => (true, env),
            Some(MetaVariableView::Ellipsis) => (true, env),
            Some(MetaVariableView::NamedEllipsis(name)) => (true, env.insert(name, cand)),
            None => (goal.kind_id == cand.kind_id && goal.text@ == cand.text@, env),
        }
    } else if goal.kind_id != cand.kind_id {
        (false, env)
    } else if cand.children@.len() == 0 {
        (goal.children@.len() == 1 && is_ellipsis_view(goal.children@[0]), env)
    } else {
        match_children_spec(goal, cand, 0, 0, env)
    }
}

/// The walk over children, from goal index `gi` and candidate index `ci`,
/// both in range.
///
/// An ellipsis at the goal cursor consumes the whole candidate remainder
/// when no named goal child follows it; when another ellipsis follows, one
/// candidate child is consumed for it; otherwise the following sub-pattern
/// anchors at the first candidate child it matches ([`scan_spec`]) and the
/// walk continues past both. A non-ellipsis goal child is matched against
/// the candidate child at the cursor, one to one. The walk succeeds when the
/// last goal child is matched against the last candidate child; leftover
/// candidate children are permitted only behind an ellipsis.
pub open spec fn match_children_spec(goal: Node, cand: Node, gi: int, ci: int, env: CaptureMap) -> (
    bool,
    CaptureMap,
)
    decreases goal, 1int, goal.children@.len() - gi, 0int,
    via match_children_spec_decreases
{
    let gcs = goal.children@;
    let ccs = cand.children@;
    if gi < 0 || gi >= gcs.len() || ci < 0 || ci >= ccs.len() {
        (false, env)
    } else if is_ellipsis_view(gcs[gi]) {
        let gj = first_named_from(goal, gi + 1);
        if gj >= gcs.len() {
            (true, env)
        } else if is_ellipsis_view(gcs[gj]) {
            if ci + 1 >= ccs.len() {
                (false, env)
            } else {
                match_children_spec(goal, cand, gj, ci + 1, env)
            }
        } else {
            let (anchor, env1) = scan_spec(goal, cand, gj, ci, env);
            match anchor {
                None => (false, env1),
                Some(a) => {
                    if gj + 1 >= gcs.len() {
                        (a + 1 >= ccs.len(), env1)
                    } else if a + 1 >= ccs.len() {
                        (false, env1)
                    } else {
                        match_children_spec(goal, cand, gj + 1, a + 1, env1)
                    }
                },
            }
        }
    } else {
        let (ok, env1) = match_exact_spec(gcs[gi], ccs[ci], env);
        if !ok {
            (false, env1)
        } else if gi + 1 >= gcs.len() {
            (ci + 1 >= ccs.len(), env1)
        } else if ci + 1 >= ccs.len() {
            (false, env1)
        } else {
            match_children_spec(goal, cand, gi + 1, ci + 1, env1)
        }
    }
}

#[via_fn]
proof fn match_children_spec_decreases(goal: Node, cand: Node, gi: int, ci: int, env: CaptureMap) {
    if 0 <= gi + 1 <= goal.children@.len() {
        lemma_first_named_from(goal, gi + 1);
    }
}

/// `first_named_from` lands at or after where it starts, within the
/// children, and skips exactly the unnamed children in between.
pub proof fn lemma_first_named_from(goal: Node, i: int)
    requires
        0 <= i <= goal.children@.len(),
    ensures
        i <= first_named_from(goal, i) <= goal.children@.len(),
        first_named_from(goal, i) < goal.children@.len() ==> goal.children@[first_named_from(
            goal,
            i,
        )].named,
        forall|j: int| i <= j < first_named_from(goal, i) ==> !goal.children@[j].named,
    decreases goal.children@.len() - i,
{
    if i < goal.children@.len() && !goal.children@[i].named {
        lemma_first_named_from(goal, i + 1);
    }
}

/// The forward scan for an ellipsis's anchor: the first candidate index at
/// or after `ci` whose child matches the goal child at `gj`, with the
/// environment as every attempt, failed ones included, leaves it.
pub open spec fn scan_spec(goal: Node, cand: Node, gj: int, ci: int, env: CaptureMap) -> (
    Option<int>,
    CaptureMap,
)
    decreases goal, 1int, goal.children@.len() - gj, cand.children@.len() - ci,
{
    let gcs = goal.children@;
    let ccs = cand.children@;
    if gj < 0 || gj >= gcs.len() || ci < 0 || ci >= ccs.len() {
        (None, env)
    } else {
        let (ok, env1) = match_exact_spec(gcs[gj], ccs[ci], env);
        if ok {
            (Some(ci), env1)
        } else if ci + 1 >= ccs.len() {
            (None, env1)
        } else {
            scan_spec(goal, cand, gj, ci + 1, env1)
        }
    }
}

/// What the pre-order search returns and leaves in the environment: the
/// candidate itself when it matches, else the first match found among the
/// children's subtrees in source order.
pub open spec fn match_anywhere_spec(goal: Node, cand: Node, env: CaptureMap) -> (
    Option<Node>,
    CaptureMap,
)
    decreases cand, 1int, 0int,
{
    let (ok, env1) = match_exact_spec(goal, cand, env);
    if ok {
        (Some(cand), env1)
    } else {
        anywhere_from_spec(goal, cand, 0, env1)
    }
}

/// The pre-order search through `cand`'s children with index `i` or greater.
pub open spec fn anywhere_from_spec(goal: Node, cand: Node, i: int, env: CaptureMap) -> (
    Option<Node>,
    CaptureMap,
)
    decreases cand, 0int, cand.children@.len() - i,
{
    if i < 0 || i >= cand.children@.len() {
        (None, env)
    } else {
        let (found, env1) = match_anywhere_spec(goal, cand.children@[i], env);
        match found {
            Some(n) => (Some(n), env1),
            None => anywhere_from_spec(goal, cand, i + 1, env1),
        }
    }
}

/// Classifies a goal node's text.
fn extract_var_from_node(goal: &Node) -> (r: Option<MetaVariable>)
    ensures
        match r {
            Some(m) => classify(goal.text@) == Some(m@),
            None => classify(goal.text@) is None,
        },
{
    extract_meta_var(goal.text.as_str())
}

/// Whether a node's text marks it as an ellipsis, named or anonymous.
fn is_ellipsis(node: &Node) -> (r: bool)
    ensures
        r == is_ellipsis_view(*node),
{
    match extract_var_from_node(node) {
        Some(MetaVariable::Ellipsis) => true,
        Some(MetaVariable::NamedEllipsis(_)) => true,
        _ => false,
    }
}

/// Decides whether a leaf pattern node matches a candidate node as a
/// meta-variable; `None` means the goal's text is an ordinary literal token
/// and the caller must fall through to literal comparison.
fn match_leaf_meta_var<'t>(goal: &Node, candidate: &'t Node, env: &mut Env<'t>) -> (r: Option<
    &'t Node,
>)
    requires
        goal.spec_is_leaf(),
    ensures
        match classify(goal.text@) {
            Some(MetaVariableView::Named(name)) => r == Some(candidate) && final(env)@ == old(
                env,
            )@.insert(name, *candidate),
            Some(MetaVariableView::Anonymous) => r == Some(candidate) && final(env)@ == old(env)@,
            Some(MetaVariableView::Ellipsis) => r == Some(candidate) && final(env)@ == old(env)@,
            Some(MetaVariableView::NamedEllipsis(name)) => r == Some(candidate) && final(env)@
                == old(env)@.insert(name, *candidate),
            None => r is None && final(env)@ == old(env)@,
        },
{
    match extract_var_from_node(goal) {
        Some(MetaVariable::Named(name)) => {
            env.insert(name, candidate);
            Some(candidate)
        },
        Some(MetaVariable::Anonymous) => Some(candidate),
        // a sequence-consuming ellipsis is handled in the parent's walk over
        // children; reached directly, it matches the one candidate node
        Some(MetaVariable::Ellipsis) => Some(candidate),
        Some(MetaVariable::NamedEllipsis(name)) => {
            env.insert(name, candidate);
            Some(candidate)
        },
        None => None,
    }
}

/// Matches one pattern node against one candidate node and returns the
/// matched candidate root on success; the environment afterwards holds what
/// [`match_exact_spec`] says, failed sub-attempts included.
pub fn match_node_exact<'t>(goal: &Node, candidate: &'t Node, env: &mut Env<'t>) -> (r: Option<
    &'t Node,
>)
    ensures
        final(env)@ == match_exact_spec(*goal, *candidate, old(env)@).1,
        match r {
            Some(n) => match_exact_spec(*goal, *candidate, old(env)@).0 && n == candidate,
            None => !match_exact_spec(*goal, *candidate, old(env)@).0,
        },
    decreases *goal, 2int, 0int, 0int,
{
    if goal.is_leaf() {
        if let Some(matched) = match_leaf_meta_var(goal, candidate, env) {
            return Some(matched);
        }
        if goal.kind_id != candidate.kind_id {
            return None;
        }
        if str_eq(goal.text.as_str(), candidate.text.as_str()) {
            return Some(candidate);
        }
        return None;
    }
    if goal.kind_id != candidate.kind_id {
        return None;
    }
    if candidate.children.len() == 0 {
        // a pattern consisting solely of one ellipsis matches an empty
        // child list; any other non-leaf pattern needs candidate children
        if goal.children.len() == 1 && is_ellipsis(&goal.children[0]) {
            return Some(candidate);
        }
        return None;
    }
    if match_children(goal, candidate, 0, 0, env) {
        Some(candidate)
    } else {
        None
    }
}

/// The walk over children; see [`match_children_spec`].
fn match_children<'t>(
    goal: &Node,
    candidate: &'t Node,
    gi: usize,
    ci: usize,
    env: &mut Env<'t>,
) -> (r: bool)
    requires
        gi < goal.children@.len(),
        ci < candidate.children@.len(),
    ensures
        final(env)@ == match_children_spec(*goal, *candidate, gi as int, ci as int, old(env)@).1,
        r == match_children_spec(*goal, *candidate, gi as int, ci as int, old(env)@).0,
    decreases *goal, 1int, goal.children@.len() - gi, 0int,
{
    let glen = goal.children.len();
    let clen = candidate.children.len();
    if is_ellipsis(&goal.children[gi]) {
        let mut gj = gi + 1;
        while gj < glen && !goal.children[gj].named
            invariant
                gi + 1 <= gj <= glen,
                glen == goal.children@.len(),
                first_named_from(*goal, gi + 1) == first_named_from(*goal, gj as int),
            decreases glen - gj,
        {
            gj += 1;
        }
        proof {
            assert(first_named_from(*goal, gj as int) == gj as int);
        }
        if gj >= glen {
            return true;
        }
        if is_ellipsis(&goal.children[gj]) {
            if ci + 1 >= clen {
                return false;
            }
            return match_children(goal, candidate, gj, ci + 1, env);
        }
        match scan(goal, candidate, gj, ci, env) {
            None => false,
            Some(a) => {
                if gj + 1 >= glen {
                    a + 1 >= clen
                } else if a + 1 >= clen {
                    false
                } else {
                    match_children(goal, candidate, gj + 1, a + 1, env)
                }
            },
        }
    } else {
        let ok = match_node_exact(&goal.children[gi], &candidate.children[ci], env);
        if ok.is_none() {
            false
        } else if gi + 1 >= glen {
            ci + 1 >= clen
        } else if ci + 1 >= clen {
            false
        } else {
            match_children(goal, candidate, gi + 1, ci + 1, env)
        }
    }
}

/// The forward scan for an ellipsis's anchor; see [`scan_spec`].
fn scan<'t>(goal: &Node, candidate: &'t Node, gj: usize, ci: usize, env: &mut Env<'t>) -> (r:
    Option<usize>)
    requires
        gj < goal.children@.len(),
        ci < candidate.children@.len(),
    ensures
        final(env)@ == scan_spec(*goal, *candidate, gj as int, ci as int, old(env)@).1,
        match r {
            Some(a) => scan_spec(*goal, *candidate, gj as int, ci as int, old(env)@).0 == Some(
                a as int,
            ) && ci <= a < candidate.children@.len(),
            None => scan_spec(*goal, *candidate, gj as int, ci as int, old(env)@).0 is None,
        },
    decreases *goal, 1int, goal.children@.len() - gj, candidate.children@.len() - ci,
{
    let clen = candidate.children.len();
    let ok = match_node_exact(&goal.children[gj], &candidate.children[ci], env);
    if ok.is_some() {
        Some(ci)
    } else if ci + 1 >= clen {
        None
    } else {
        scan(goal, candidate, gj, ci + 1, env)
    }
}

/// Finds the first matching subtree anywhere in the candidate tree,
/// pre-order: the candidate itself when it matches, else the first match
/// inside a child's subtree in source order. Only one match is reported even
/// when several disjoint subtrees would match.
pub fn match_node_recursive<'t>(goal: &Node, candidate: &'t Node, env: &mut Env<'t>) -> (r: Option<
    &'t Node,
>)
    ensures
        final(env)@ == match_anywhere_spec(*goal, *candidate, old(env)@).1,
        match r {
            Some(n) => match_anywhere_spec(*goal, *candidate, old(env)@).0 == Some(*n),
            None => match_anywhere_spec(*goal, *candidate, old(env)@).0 is None,
        },
    decreases *candidate, 1int, 0int,
{
    if let Some(matched) = match_node_exact(goal, candidate, env) {
        return Some(matched);
    }
    let ghost after_exact = env@;
    let clen = candidate.children.len();
    let mut i: usize = 0;
    while i < clen
        invariant
            i <= clen,
            clen == candidate.children@.len(),
            !match_exact_spec(*goal, *candidate, old(env)@).0,
            after_exact == match_exact_spec(*goal, *candidate, old(env)@).1,
            anywhere_from_spec(*goal, *candidate, 0, after_exact) == anywhere_from_spec(
                *goal,
                *candidate,
                i as int,
                env@,
            ),
        decreases clen - i,
    {
        let ghost env_head = env@;
        if let Some(n) = match_node_recursive(goal, &candidate.children[i], env) {
            proof {
                assert(anywhere_from_spec(*goal, *candidate, i as int, env_head) == (
                    Some(*n),
                    env@,
                ));
            }
            return Some(n);
        }
        proof {
            assert(anywhere_from_spec(*goal, *candidate, i as int, env_head)
                == anywhere_from_spec(*goal, *candidate, i + 1, env@));
        }
        i += 1;
    }
    None
}

/// Locates the first descendant of the given grammar kind, pre-order,
/// independent of meta-variables; the environment is neither consulted nor
/// changed.
pub fn match_single_kind<'t>(goal_kind: &str, candidate: &'t Node, env: &mut Env<'t>) -> (r: Option<
    &'t Node,
>)
    ensures
        *final(env) == *old(env),
        match r {
            Some(n) => find_kind_spec(goal_kind@, *candidate) == Some(*n),
            None => find_kind_spec(goal_kind@, *candidate) is None,
        },
    decreases *candidate, 1int, 0int,
{
    if str_eq(candidate.kind.as_str(), goal_kind) {
        return Some(candidate);
    }
    let clen = candidate.children.len();
    let mut i: usize = 0;
    while i < clen
        invariant
            i <= clen,
            clen == candidate.children@.len(),
            *env == *old(env),
            candidate.kind@ != goal_kind@,
            find_kind_from_spec(goal_kind@, *candidate, 0) == find_kind_from_spec(
                goal_kind@,
                *candidate,
                i as int,
            ),
        decreases clen - i,
    {
        if let Some(n) = match_single_kind(goal_kind, &candidate.children[i], env) {
            proof {
                assert(find_kind_from_spec(goal_kind@, *candidate, i as int) == Some(*n));
            }
            return Some(n);
        }
        proof {
            assert(find_kind_from_spec(goal_kind@, *candidate, i as int) == find_kind_from_spec(
                goal_kind@,
                *candidate,
                i + 1,
            ));
        }
        i += 1;
    }
    None
}

/// The first node in pre-order whose kind name equals `kind`, or `None`.
pub open spec fn find_kind_spec(kind: Seq<char>, cand: Node) -> Option<Node>
    decreases cand, 1int, 0int,
{
    if cand.kind@ == kind {
        Some(cand)
    } else {
        find_kind_from_spec(kind, cand, 0)
    }
}

/// The kind search through `cand`'s children with index `i` or greater.
pub open spec fn find_kind_from_spec(kind: Seq<char>, cand: Node, i: int) -> Option<Node>
    decreases cand, 0int, cand.children@.len() - i,
{
    if i < 0 || i >= cand.children@.len() {
        None
    } else {
        match find_kind_spec(kind, cand.children@[i]) {
            Some(n) => Some(n),
            None => find_kind_from_spec(kind, cand, i + 1),
        }
    }
}

} // verus!
