//! The binding generator's static artifacts: the materialized transitive
//! inheritance relation and the per-class memory-policy assignment.
//!
//! Classes of a validated model are already in topological order, so walking
//! a parent chain only ever moves to smaller indices. The generator
//! materializes one `InheritanceEdge` fact per class and transitive
//! ancestor, which makes every later "is-a" question a single fact lookup
//! instead of a hierarchy walk.

use vstd::prelude::*;

use crate::schema::{ApiModel, ClassDescriptor, parent_links_wf, str_eq};

verus! {

/// A materialized "is-a" fact: the class at index `derived` has the class
/// at index `base` among its transitive ancestors.
#[derive(Debug, Clone, Copy, PartialEq, Eq, Structural)]
pub struct InheritanceEdge {
    pub derived: usize,
    pub base: usize,
}

/// The memory-ownership policy attached to a class: immortal, counted, or
/// freed only by an explicit destroy call.
#[derive(Debug, Clone, Copy, PartialEq, Eq, Structural)]
pub enum MemoryPolicy {
    Static,
    DynamicRefCount,
    Manual,
}

/// Class `b` is a strict transitive ancestor of class `d`.
pub open spec fn is_ancestor(cs: Seq<ClassDescriptor>, d: int, b: int) -> bool
    decreases d,
{
    if 0 <= d < cs.len() {
        match cs[d].parent {
            Some(p) => if p < d {
                p == b || is_ancestor(cs, p as int, b)
            } else {
                false
            },
            None => false,
        }
    } else {
        false
    }
}

/// Class `d` is class `b` itself or has it as a transitive ancestor.
pub open spec fn inherits_or_is(cs: Seq<ClassDescriptor>, d: int, b: int) -> bool {
    d == b || is_ancestor(cs, d, b)
}

/// Ancestors sit strictly earlier in the topologically ordered class table.
pub proof fn lemma_ancestor_smaller(cs: Seq<ClassDescriptor>, d: int, b: int)
    requires
        is_ancestor(cs, d, b),
    ensures
        0 <= b < d,
    decreases d,
{
    match cs[d].parent {
        Some(p) => {
            if p < d && p != b {
                lemma_ancestor_smaller(cs, p as int, b);
            }
        },
        None => {},
    }
}

/// Stepping from an ancestor to that ancestor's own parent stays inside
/// the ancestor set.
pub proof fn lemma_ancestor_step(cs: Seq<ClassDescriptor>, d: int, c: int)
    requires
        parent_links_wf(cs),
        0 <= d < cs.len(),
        0 <= c < cs.len(),
        inherits_or_is(cs, d, c),
    ensures
        match cs[c].parent {
            Some(p) => is_ancestor(cs, d, p as int),
            None => true,
        },
    decreases d,
{
    if d != c {
        match cs[d].parent {
            Some(q) => {
                if q as int != c {
                    lemma_ancestor_step(cs, q as int, c);
                } else {
                    lemma_ancestor_step(cs, c, c);
                }
            },
            None => {},
        }
    }
}

/// No class is its own ancestor: the inherits relation has no cycle.
pub proof fn lemma_no_self_ancestor(cs: Seq<ClassDescriptor>, i: int)
    ensures
        !is_ancestor(cs, i, i),
{
    if is_ancestor(cs, i, i) {
        lemma_ancestor_smaller(cs, i, i);
    }
}

/// The edge list records the fact (`d` is-a `b`).
pub open spec fn has_edge(es: Seq<InheritanceEdge>, d: int, b: int) -> bool {
    exists|t: int|
        0 <= t < es.len() && (#[trigger] es[t]).derived == d && es[t].base == b
}

/// Materializes one edge for every class and every transitive ancestor —
/// not only the immediate parent. The result is a pure function of the
/// model: the same model always yields the same edges, in the same order.
pub fn generate_edges(m: &ApiModel) -> (edges: Vec<InheritanceEdge>)
    requires
        m.wf(),
    ensures
        forall|d: int, b: int|
            #[trigger] has_edge(edges@, d, b) <==> (0 <= d < m.classes@.len() && is_ancestor(
                m.classes@,
                d,
                b,
            )),
{
    let ghost cs = m.classes@;
    let n = m.classes.len();
    let mut edges: Vec<InheritanceEdge> = Vec::new();
    let mut d: usize = 0;
    while d < n
        invariant
            d <= n,
            n == cs.len(),
            cs == m.classes@,
            m.wf(),
            forall|d2: int, b: int|
                #[trigger] has_edge(edges@, d2, b) <==> (0 <= d2 < d && is_ancestor(cs, d2, b)),
        decreases n - d,
    {
        let mut cur: Option<usize> = m.classes[d].parent;
        while cur.is_some()
            invariant
                d < n,
                n == cs.len(),
                cs == m.classes@,
                m.wf(),
                match cur {
                    Some(c) => c < d && inherits_or_is(cs, d as int, c as int) && c as int != d,
                    None => true,
                },
                forall|d2: int, b: int|
                    #[trigger] has_edge(edges@, d2, b) <==> ((0 <= d2 < d && is_ancestor(
                        cs,
                        d2,
                        b,
                    )) || (d2 == d && is_ancestor(cs, d as int, b) && !(match cur {
                        Some(c) => b == c as int || is_ancestor(cs, c as int, b),
                        None => false,
                    }))),
            decreases
                    match cur {
                        Some(c) => c as int + 1,
                        None => 0int,
                    },
        {
            let c = match cur {
                Some(c) => c,
                None => 0,
            };
            let ghost edges0 = edges@;
            edges.push(InheritanceEdge { derived: d, base: c });
            cur = m.classes[c].parent;
            proof {
                lemma_ancestor_step(cs, d as int, c as int);
                assert forall|d2: int, b: int| #[trigger] has_edge(edges@, d2, b) implies ((0 <= d2
                    < d && is_ancestor(cs, d2, b)) || (d2 == d && is_ancestor(cs, d as int, b) && !(
                match cur {
                    Some(c2) => b == c2 as int || is_ancestor(cs, c2 as int, b),
                    None => false,
                }))) by {
                    let t = choose|t: int|
                        0 <= t < edges@.len() && (#[trigger] edges@[t]).derived == d2 && edges@[t].base
                            == b;
                    if t < edges0.len() {
                        assert(has_edge(edges0, d2, b));
                    } else {
                        // the freshly pushed edge: its base is `c`, which no
                        // deeper ancestor of `c` equals
                        match cur {
                            Some(c2) => {
                                if c as int == c2 as int {
                                    assert(false);
                                }
                                if is_ancestor(cs, c2 as int, c as int) {
                                    lemma_ancestor_smaller(cs, c2 as int, c as int);
                                }
                            },
                            None => {},
                        }
                    }
                }
                assert forall|d2: int, b: int| ((0 <= d2 < d && is_ancestor(cs, d2, b)) || (d2 == d
                    && is_ancestor(cs, d as int, b) && !(match cur {
                    Some(c2) => b == c2 as int || is_ancestor(cs, c2 as int, b),
                    None => false,
                }))) implies #[trigger] has_edge(edges@, d2, b) by {
                    if 0 <= d2 < d && is_ancestor(cs, d2, b) {
                        assert(has_edge(edges0, d2, b));
                        let t = choose|t: int|
                            0 <= t < edges0.len() && (#[trigger] edges0[t]).derived == d2
                                && edges0[t].base == b;
                        assert(edges@[t] == edges0[t]);
                    } else {
                        if b == c as int {
                            assert(edges@[edges@.len() - 1].derived == d2 && edges@[edges@.len()
                                - 1].base == b);
                        } else {
                            assert(has_edge(edges0, d2, b));
                            let t = choose|t: int|
                                0 <= t < edges0.len() && (#[trigger] edges0[t]).derived == d2
                                    && edges0[t].base == b;
                            assert(edges@[t] == edges0[t]);
                        }
                    }
                }
            }
        }
        d = d + 1;
    }
    edges
}

/// Some singleton of the model carries this class name.
pub open spec fn is_singleton_name(ss: Seq<String>, name: Seq<char>) -> bool {
    exists|t: int| 0 <= t < ss.len() && (#[trigger] ss[t])@ == name
}

/// The memory policy the generator assigns to class `c`: process-wide
/// singletons are immortal, reference-counted classes carry a live count,
/// everything else is freed only by an explicit destroy call.
pub open spec fn policy_of(m: ApiModel, c: int) -> MemoryPolicy {
    if is_singleton_name(m.singletons@, m.classes@[c].name@) {
        MemoryPolicy::Static
    } else if m.classes@[c].is_refcounted {
        MemoryPolicy::DynamicRefCount
    } else {
        MemoryPolicy::Manual
    }
}

/// Decides the memory policy of one class of the model.
pub fn class_policy(m: &ApiModel, c: usize) -> (p: MemoryPolicy)
    requires
        c < m.classes@.len(),
    ensures
        p == policy_of(*m, c as int),
{
    let mut t: usize = 0;
    while t < m.singletons.len()
        invariant
            t <= m.singletons@.len(),
            c < m.classes@.len(),
            forall|t2: int| 0 <= t2 < t ==> (#[trigger] m.singletons@[t2])@ != m.classes@[c as int].name@,
        decreases m.singletons.len() - t,
    {
        if str_eq(&m.singletons[t], &m.classes[c].name) {
            return MemoryPolicy::Static;
        }
        t = t + 1;
    }
    if m.classes[c].is_refcounted {
        MemoryPolicy::DynamicRefCount
    } else {
        MemoryPolicy::Manual
    }
}

/// Assigns every class of the model its memory policy, in class order.
pub fn assign_policies(m: &ApiModel) -> (ps: Vec<MemoryPolicy>)
    ensures
        ps@.len() == m.classes@.len(),
        forall|c: int| 0 <= c < m.classes@.len() ==> #[trigger] ps@[c] == policy_of(*m, c),
{
    let mut ps: Vec<MemoryPolicy> = Vec::new();
    let mut c: usize = 0;
    while c < m.classes.len()
        invariant
            c <= m.classes@.len(),
            ps@.len() == c,
            forall|c2: int| 0 <= c2 < c ==> #[trigger] ps@[c2] == policy_of(*m, c2),
        decreases m.classes.len() - c,
    {
        ps.push(class_policy(m, c));
        c = c + 1;
    }
    ps
}

/// Decides whether class `d` may be upcast to class `b`: the two are equal
/// or an edge chain leads from `d` up to `b`.
pub fn class_inherits(m: &ApiModel, d: usize, b: usize) -> (r: bool)
    requires
        m.wf(),
        d < m.classes@.len(),
    ensures
        r == inherits_or_is(m.classes@, d as int, b as int),
{
    let ghost cs = m.classes@;
    if d == b {
        return true;
    }
    let mut cur: Option<usize> = m.classes[d].parent;
    while cur.is_some()
        invariant
            m.wf(),
            cs == m.classes@,
            d < cs.len(),
            match cur {
                Some(c) => c < cs.len() && (inherits_or_is(cs, d as int, b as int) <==> (c as int
                    == b || is_ancestor(cs, c as int, b as int))),
                None => !inherits_or_is(cs, d as int, b as int),
            },
        decreases
                match cur {
                    Some(c) => c as int + 1,
                    None => 0int,
                },
    {
        let c = match cur {
            Some(c) => c,
            None => 0,
        };
        if c == b {
            return true;
        }
        cur = m.classes[c].parent;
    }
    false
}

/// The class itself declares a virtual method of this name.
pub open spec fn has_virtual_method(c: ClassDescriptor, name: Seq<char>) -> bool {
    exists|k: int|
        0 <= k < c.methods@.len() && (#[trigger] c.methods@[k]).is_virtual && c.methods@[k].name@
            == name
}

fn find_virtual_in(c: &ClassDescriptor, name: &String) -> (res: Option<usize>)
    ensures
        match res {
            Some(k) => k < c.methods@.len() && c.methods@[k as int].is_virtual
                && c.methods@[k as int].name@ == name@,
            None => !has_virtual_method(*c, name@),
        },
{
    let mut k: usize = 0;
    while k < c.methods.len()
        invariant
            k <= c.methods@.len(),
            forall|t: int|
                0 <= t < k ==> !((#[trigger] c.methods@[t]).is_virtual && c.methods@[t].name@
                    == name@),
        decreases c.methods.len() - k,
    {
        if c.methods[k].is_virtual && str_eq(&c.methods[k].name, name) {
            return Some(k);
        }
        k = k + 1;
    }
    None
}

/// Resolves a virtual call by method name: walks from the class up its
/// ancestor chain and hands back the class and method index of a virtual
/// method carrying the name, or reports that no class on the chain
/// declares one. This is the string lookup behind a trampoline's first
/// dispatch.
pub fn find_virtual_method(m: &ApiModel, class_id: usize, name: &String) -> (res: Option<
    (usize, usize),
>)
    requires
        m.wf(),
        class_id < m.classes@.len(),
    ensures
        match res {
            Some((c, k)) => {
                &&& c < m.classes@.len()
                &&& inherits_or_is(m.classes@, class_id as int, c as int)
                &&& k < m.classes@[c as int].methods@.len()
                &&& m.classes@[c as int].methods@[k as int].is_virtual
                &&& m.classes@[c as int].methods@[k as int].name@ == name@
            },
            None => forall|c: int|
                0 <= c < m.classes@.len() && inherits_or_is(m.classes@, class_id as int, c)
                    ==> !has_virtual_method(#[trigger] m.classes@[c], name@),
        },
{
    let ghost cs = m.classes@;
    let mut cur: usize = class_id;
    loop
        invariant
            m.wf(),
            cs == m.classes@,
            cur < cs.len(),
            inherits_or_is(cs, class_id as int, cur as int),
            forall|c: int|
                0 <= c < cs.len() && inherits_or_is(cs, class_id as int, c) && !(c == cur as int
                    || is_ancestor(cs, cur as int, c)) ==> !has_virtual_method(
                    #[trigger] cs[c],
                    name@,
                ),
        decreases cur,
    {
        match find_virtual_in(&m.classes[cur], name) {
            Some(k) => {
                return Some((cur, k));
            },
            None => {},
        }
        match m.classes[cur].parent {
            Some(p) => {
                proof {
                    lemma_ancestor_step(cs, class_id as int, cur as int);
                    assert forall|c: int|
                        0 <= c < cs.len() && inherits_or_is(cs, class_id as int, c) && !(c
                            == p as int || is_ancestor(cs, p as int, c))
                            implies !has_virtual_method(#[trigger] cs[c], name@) by {
                        if c != cur as int && !is_ancestor(cs, cur as int, c) {
                        } else if is_ancestor(cs, cur as int, c) {
                            if c == p as int || is_ancestor(cs, p as int, c) {
                            } else {
                                assert(false);
                            }
                        }
                    }
                }
                cur = p;
            },
            None => {
                proof {
                    assert forall|c: int|
                        0 <= c < cs.len() && inherits_or_is(cs, class_id as int, c)
                            implies !has_virtual_method(#[trigger] cs[c], name@) by {
                        if c == cur as int || is_ancestor(cs, cur as int, c) {
                            if is_ancestor(cs, cur as int, c) {
                                lemma_ancestor_smaller(cs, cur as int, c);
                            }
                        }
                    }
                }
                return None;
            },
        }
    }
}

} // verus!
