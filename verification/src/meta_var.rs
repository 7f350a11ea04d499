//! Meta-variables and the capture environment.
//!
//! A leaf's text may mark it as a meta-variable: `$A` binds one candidate
//! node under the name `A`, `$_` matches one node without binding, `$$$`
//! matches zero or more consecutive siblings, and `$$$A` is the named form of
//! the ellipsis. [`extract_meta_var`] classifies a leaf's text; any other
//! text is an ordinary literal token. The [`Env`] records what the named
//! forms bind during one top-level match attempt.

use vstd::prelude::*;

use crate::node::Node;

verus! {

/// The tagged classification of a leaf's text.
pub enum MetaVariable {
    /// Binds exactly one candidate node to the name.
    Named(String),
    /// Matches exactly one candidate node, no binding.
    Anonymous,
    /// Matches zero or more consecutive sibling candidate nodes, no binding.
    Ellipsis,
    /// The ellipsis under a name; binding is limited to the single-leaf
    /// entry point of the matcher.
    NamedEllipsis(String),
}

/// The mathematical value of a [`MetaVariable`]: names as character
/// sequences.
pub enum MetaVariableView {
    Named(Seq<char>),
    Anonymous,
    Ellipsis,
    NamedEllipsis(Seq<char>),
}

impl View for MetaVariable {
    type V = MetaVariableView;

    open spec fn view(&self) -> MetaVariableView {
        match self {
            MetaVariable::Named(name) => MetaVariableView::Named(name@),
            MetaVariable::Anonymous => MetaVariableView::Anonymous,
            MetaVariable::Ellipsis => MetaVariableView::Ellipsis,
            MetaVariable::NamedEllipsis(name) => MetaVariableView::NamedEllipsis(name@),
        }
    }
}

/// A character admitted in a meta-variable name: an ASCII capital or an
/// underscore.
pub open spec fn is_meta_char(c: char) -> bool {
    (65 <= c as u32 && c as u32 <= 90) || c == '_'
}

/// Every character of `s` is admitted in a meta-variable name.
pub open spec fn is_valid_name(s: Seq<char>) -> bool {
    forall|i: int| 0 <= i < s.len() ==> is_meta_char(#[trigger] s[i])
}

/// Classification of a leaf's text: `$$$` marks the anonymous ellipsis,
/// `$$$` followed by a valid name its named form, `$` followed by a valid
/// name a single-node wildcard (anonymous when the name starts with an
/// underscore), and everything else an ordinary literal token.
pub open spec fn classify(t: Seq<char>) -> Option<MetaVariableView> {
    if t.len() >= 3 && t[0] == '$' && t[1] == '$' && t[2] == '$' {
        let name = t.subrange(3, t.len() as int);
        if name.len() == 0 {
            Some(MetaVariableView::Ellipsis)
        } else if is_valid_name(name) {
            Some(MetaVariableView::NamedEllipsis(name))
        } else {
            None
        }
    } else if t.len() >= 1 && t[0] == '$' {
        let name = t.subrange(1, t.len() as int);
        if !is_valid_name(name) {
            None
        } else if name.len() >= 1 && name[0] == '_' {
            Some(MetaVariableView::Anonymous)
        } else {
            Some(MetaVariableView::Named(name))
        }
    } else {
        None
    }
}

/// Checks that every character of `s` in `[from, len)` is admitted in a
/// meta-variable name.
fn chars_are_valid_name(s: &str, from: usize) -> (r: bool)
    requires
        from <= s@.len(),
    ensures
        r == is_valid_name(s@.subrange(from as int, s@.len() as int)),
{
    let len = s.unicode_len();
    let ghost tail = s@.subrange(from as int, s@.len() as int);
    let mut i: usize = from;
    while i < len
        invariant
            from <= i <= len,
            len == s@.len(),
            tail == s@.subrange(from as int, s@.len() as int),
            forall|j: int| from <= j < i ==> is_meta_char(#[trigger] s@[j]),
        decreases len - i,
    {
        let c = s.get_char(i);
        if !((c as u32 >= 65 && c as u32 <= 90) || c == '_') {
            proof {
                assert(tail[i - from] == s@[i as int]);
            }
            return false;
        }
        i += 1;
    }
    proof {
        assert forall|j: int| 0 <= j < tail.len() implies is_meta_char(#[trigger] tail[j]) by {
            assert(tail[j] == s@[j + from]);
        }
    }
    true
}

/// Classifies a leaf's text, a pure function of the text alone; `None` means
/// the leaf is an ordinary literal token to be matched by exact kind and
/// text equality.
pub fn extract_meta_var(s: &str) -> (r: Option<MetaVariable>)
    ensures
        match r {
            Some(m) => classify(s@) == Some(m@),
            None => classify(s@) is None,
        },
{
    let len = s.unicode_len();
    if len >= 3 && s.get_char(0) == '$' && s.get_char(1) == '$' && s.get_char(2) == '$' {
        if len == 3 {
            proof {
                assert(s@.subrange(3, s@.len() as int).len() == 0);
            }
            Some(MetaVariable::Ellipsis)
        } else if chars_are_valid_name(s, 3) {
            let name = s.substring_char(3, len).to_owned();
            Some(MetaVariable::NamedEllipsis(name))
        } else {
            None
        }
    } else if len >= 1 && s.get_char(0) == '$' {
        if !chars_are_valid_name(s, 1) {
            None
        } else if len >= 2 && s.get_char(1) == '_' {
            proof {
                assert(s@.subrange(1, s@.len() as int)[0] == s@[1]);
            }
            Some(MetaVariable::Anonymous)
        } else {
            let name = s.substring_char(1, len).to_owned();
            Some(MetaVariable::Named(name))
        }
    } else {
        None
    }
}

/// The capture environment: a mapping from capture name to the node bound to
/// it, threaded by mutable reference through every matching call. Later
/// writes to a name shadow earlier ones; entries are never removed during a
/// single top-level match attempt.
pub struct Env<'t> {
    entries: Vec<(String, &'t Node)>,
}

/// The mapping that a sequence of entries denotes: each entry inserted in
/// order, so the latest write to a name wins.
pub open spec fn map_of(entries: Seq<(String, &Node)>) -> Map<Seq<char>, Node>
    decreases entries.len(),
{
    if entries.len() == 0 {
        Map::empty()
    } else {
        map_of(entries.drop_last()).insert(entries.last().0@, *entries.last().1)
    }
}

impl<'t> View for Env<'t> {
    type V = Map<Seq<char>, Node>;

    closed spec fn view(&self) -> Map<Seq<char>, Node> {
        map_of(self.entries@)
    }
}

impl<'t> Env<'t> {
    /// An empty environment, created per top-level match request.
    pub fn new() -> (r: Self)
        ensures
            r@ == Map::<Seq<char>, Node>::empty(),
    {
        Env { entries: Vec::new() }
    }

    /// Binds `node` to `name`, shadowing any earlier binding of the name.
    pub fn insert(&mut self, name: String, node: &'t Node)
        ensures
            final(self)@ == old(self)@.insert(name@, *node),
    {
        let ghost before = self.entries@;
        self.entries.push((name, node));
        proof {
            assert(self.entries@.drop_last() == before);
        }
    }

    /// Looks the binding of `name` up.
    pub fn get(&self, name: &str) -> (r: Option<&'t Node>)
        ensures
            match r {
                Some(n) => self@.contains_key(name@) && self@[name@] == *n,
                None => !self@.contains_key(name@),
            },
    {
        let mut i: usize = self.entries.len();
        while i > 0
            invariant
                i <= self.entries@.len(),
                forall|j: int| i <= j < self.entries@.len() ==> self.entries@[j].0@ != name@,
            decreases i,
        {
            i = i - 1;
            if crate::node::str_eq(self.entries[i].0.as_str(), name) {
                proof {
                    lemma_map_of_found(self.entries@, i as int);
                }
                return Some(self.entries[i].1);
            }
        }
        proof {
            lemma_map_of_absent(self.entries@, name@);
        }
        None
    }
}

/// The binding that `map_of` gives a name is the entry of the latest write
/// to it.
proof fn lemma_map_of_found(entries: Seq<(String, &Node)>, j: int)
    requires
        0 <= j < entries.len(),
        forall|m: int| j < m < entries.len() ==> entries[m].0@ != entries[j].0@,
    ensures
        map_of(entries).contains_key(entries[j].0@),
        map_of(entries)[entries[j].0@] == *entries[j].1,
    decreases entries.len(),
{
    if j == entries.len() - 1 {
    } else {
        assert(entries.drop_last()[j] == entries[j]);
        lemma_map_of_found(entries.drop_last(), j);
    }
}

/// A name that no entry writes is absent from the mapping.
proof fn lemma_map_of_absent(entries: Seq<(String, &Node)>, name: Seq<char>)
    requires
        forall|j: int| 0 <= j < entries.len() ==> entries[j].0@ != name,
    ensures
        !map_of(entries).contains_key(name),
    decreases entries.len(),
{
    if entries.len() > 0 {
        lemma_map_of_absent(entries.drop_last(), name);
    }
}

} // verus!
