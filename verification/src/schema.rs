//! The validated schema model and the ingestor that produces it.
//!
//! Ingestion turns the raw schema document into an `ApiModel` whose classes
//! are arranged in a topological order over the inheritance forest: every
//! class's parent sits at a smaller index. All name references are resolved,
//! duplicate class names and dangling or cyclic parent references are
//! rejected, and every 64-bit enum constant is narrowed to its 32-bit
//! ordinal, rejecting values that would wrap.

use vstd::prelude::*;

use crate::json_models::{
    JsonBuiltin, JsonBuiltinEnum, JsonClass, JsonClassMethod, JsonEnum, JsonEnumConstant,
    JsonExtensionApi, JsonHeader, JsonMethodArg, JsonMethodReturn, fits_enum_ord,
};

verus! {

/// A fatal defect of the schema text. The schema is a build-time artifact,
/// so none of these is recovered from: generation aborts.
#[derive(Debug)]
pub enum SchemaError {
    /// The schema text could not be decoded at all.
    Decode(String),
    /// Two classes carry the same name.
    DuplicateClass(String),
    /// A class names a parent that the schema does not define.
    DanglingParent(String, String),
    /// The inherits relation does not terminate for this class.
    InheritanceCycle(String),
    /// An enum or class constant does not fit a signed 32-bit ordinal.
    EnumOutOfRange(String, i64),
}

/// A named constant whose 64-bit schema value has been narrowed to the
/// 32-bit ordinal used by generated bindings.
#[derive(Debug)]
pub struct EnumConstant {
    pub name: String,
    pub ord: i32,
}

/// A validated enum: global, class-local or folded from a built-in type.
#[derive(Debug)]
pub struct EnumDescriptor {
    pub name: String,
    pub is_bitfield: bool,
    pub values: Vec<EnumConstant>,
}

/// One declared argument of a validated method.
#[derive(Debug)]
pub struct ArgDescriptor {
    pub name: String,
    pub type_: String,
    pub meta: Option<String>,
    pub default_value: Option<String>,
}

/// The return descriptor of a validated method.
#[derive(Debug)]
pub struct ReturnDescriptor {
    pub type_: String,
    pub meta: Option<String>,
}

/// A validated method descriptor.
#[derive(Debug)]
pub struct MethodDescriptor {
    pub name: String,
    pub is_const: bool,
    pub is_vararg: bool,
    pub is_static: bool,
    pub is_virtual: bool,
    pub hash: Option<i64>,
    pub return_value: Option<ReturnDescriptor>,
    pub arguments: Vec<ArgDescriptor>,
}

/// A validated class. The parent reference is resolved to an index into the
/// model's class table; `None` means the class sits directly under the
/// implicit "no base" root sentinel.
#[derive(Debug)]
pub struct ClassDescriptor {
    pub name: String,
    pub parent: Option<usize>,
    pub is_refcounted: bool,
    pub is_instantiable: bool,
    pub api_type: String,
    pub constants: Vec<EnumConstant>,
    pub enums: Vec<EnumDescriptor>,
    pub methods: Vec<MethodDescriptor>,
}

/// The validated model of one schema document.
#[derive(Debug)]
pub struct ApiModel {
    pub header: JsonHeader,
    pub classes: Vec<ClassDescriptor>,
    pub global_enums: Vec<EnumDescriptor>,
    pub builtin_enums: Vec<EnumDescriptor>,
    pub singletons: Vec<String>,
}

/// Every resolved parent link points strictly downwards in the class table,
/// so every parent chain is finite and the inherits relation is a forest.
pub open spec fn parent_links_wf(cs: Seq<ClassDescriptor>) -> bool {
    forall|i: int|
        0 <= i < cs.len() ==> match (#[trigger] cs[i]).parent {
            Some(p) => p < i,
            None => true,
        }
}

/// No two classes of the model share a name.
pub open spec fn model_names_unique(cs: Seq<ClassDescriptor>) -> bool {
    forall|i: int, j: int| 0 <= i < j < cs.len() ==> (#[trigger] cs[i]).name@ != (#[trigger] cs[j]).name@
}

impl ApiModel {
    /// The model invariant that ingestion establishes and every consumer
    /// relies on.
    pub open spec fn wf(&self) -> bool {
        parent_links_wf(self.classes@) && model_names_unique(self.classes@)
    }
}

/// The number of inheritance steps from class `i` up to the root sentinel.
pub open spec fn class_depth(cs: Seq<ClassDescriptor>, i: int) -> nat
    decreases i,
{
    if 0 <= i < cs.len() {
        match cs[i].parent {
            Some(p) => if p < i {
                class_depth(cs, p as int) + 1
            } else {
                0
            },
            None => 0,
        }
    } else {
        0
    }
}

/// The class reached from `i` after `k` parent steps, if the chain is that
/// long.
pub open spec fn kth_ancestor(cs: Seq<ClassDescriptor>, i: int, k: nat) -> Option<int>
    decreases k,
{
    if !(0 <= i < cs.len()) {
        None
    } else if k == 0 {
        Some(i)
    } else {
        match cs[i].parent {
            Some(p) => kth_ancestor(cs, p as int, (k - 1) as nat),
            None => None,
        }
    }
}

/// Every class's parent chain terminates at the root sentinel after exactly
/// as many steps as its depth; in particular no class reaches itself.
pub proof fn lemma_parent_chain_terminates(cs: Seq<ClassDescriptor>, i: int)
    requires
        parent_links_wf(cs),
        0 <= i < cs.len(),
    ensures
        kth_ancestor(cs, i, class_depth(cs, i)) matches Some(r) && 0 <= r < cs.len()
            && cs[r].parent is None,
    decreases i,
{
    match cs[i].parent {
        Some(p) => {
            lemma_parent_chain_terminates(cs, p as int);
        },
        None => {},
    }
}

/// The first class of the raw list that carries the given name.
pub open spec fn find_class_spec(cs: Seq<JsonClass>, name: Seq<char>) -> Option<int>
    decreases cs.len(),
{
    if cs.len() == 0 {
        None
    } else if cs[0].name@ == name {
        Some(0)
    } else {
        match find_class_spec(cs.drop_first(), name) {
            Some(k) => Some(k + 1),
            None => None,
        }
    }
}

/// `find_class_spec` returns the first match, and `None` exactly when no
/// class carries the name.
pub proof fn lemma_find_class_spec(cs: Seq<JsonClass>, name: Seq<char>)
    ensures
        match find_class_spec(cs, name) {
            Some(j) => 0 <= j < cs.len() && cs[j].name@ == name && (forall|k: int|
                0 <= k < j ==> (#[trigger] cs[k]).name@ != name),
            None => forall|k: int| 0 <= k < cs.len() ==> (#[trigger] cs[k]).name@ != name,
        },
    decreases cs.len(),
{
    if cs.len() > 0 && cs[0].name@ != name {
        lemma_find_class_spec(cs.drop_first(), name);
        match find_class_spec(cs.drop_first(), name) {
            Some(j) => {
                assert(cs.drop_first()[j] == cs[j + 1]);
                assert forall|k: int| 0 <= k < j + 1 implies (#[trigger] cs[k]).name@ != name by {
                    if k > 0 {
                        assert(cs.drop_first()[k - 1] == cs[k]);
                    }
                }
            },
            None => {
                assert forall|k: int| 0 <= k < cs.len() implies (#[trigger] cs[k]).name@
                    != name by {
                    if k > 0 {
                        assert(cs.drop_first()[k - 1] == cs[k]);
                    }
                }
            },
        }
    }
}

/// No two classes of the raw list share a name.
pub open spec fn json_names_unique(cs: Seq<JsonClass>) -> bool {
    forall|i: int, j: int| 0 <= i < j < cs.len() ==> (#[trigger] cs[i]).name@ != (#[trigger] cs[j]).name@
}

/// Every parent name reference of the raw list names some class of the list.
pub open spec fn parents_resolve(cs: Seq<JsonClass>) -> bool {
    forall|i: int|
        0 <= i < cs.len() ==> match (#[trigger] cs[i]).inherits {
            Some(nm) => find_class_spec(cs, nm@) is Some,
            None => true,
        }
}

/// Class `i` of the raw list reaches the root sentinel in at most `fuel`
/// parent steps.
pub open spec fn reaches_root(cs: Seq<JsonClass>, i: int, fuel: nat) -> bool
    decreases fuel,
{
    if !(0 <= i < cs.len()) {
        false
    } else {
        match cs[i].inherits {
            None => true,
            Some(nm) => fuel > 0 && match find_class_spec(cs, nm@) {
                Some(p) => reaches_root(cs, p, (fuel - 1) as nat),
                None => false,
            },
        }
    }
}

/// The inherits relation of the raw list is a forest: every class reaches
/// the root sentinel in a bounded number of steps.
pub open spec fn is_forest(cs: Seq<JsonClass>) -> bool {
    forall|i: int| 0 <= i < cs.len() ==> reaches_root(cs, i, cs.len() as nat)
}

pub proof fn lemma_reaches_root_mono(cs: Seq<JsonClass>, i: int, f1: nat, f2: nat)
    requires
        reaches_root(cs, i, f1),
        f1 <= f2,
    ensures
        reaches_root(cs, i, f2),
    decreases f1,
{
    if 0 <= i < cs.len() {
        match cs[i].inherits {
            Some(nm) => {
                match find_class_spec(cs, nm@) {
                    Some(p) => {
                        lemma_reaches_root_mono(cs, p, (f1 - 1) as nat, (f2 - 1) as nat);
                    },
                    None => {},
                }
            },
            None => {},
        }
    }
}

/// The contents of an optional list, the absent list reading as empty.
pub open spec fn opt_vec_view<T>(o: Option<Vec<T>>) -> Seq<T> {
    match o {
        Some(v) => v@,
        None => Seq::empty(),
    }
}

pub open spec fn consts_fit(vs: Seq<JsonEnumConstant>) -> bool {
    forall|k: int| 0 <= k < vs.len() ==> fits_enum_ord((#[trigger] vs[k]).value)
}

pub open spec fn enum_consts_fit(e: JsonEnum) -> bool {
    consts_fit(e.values@)
}

pub open spec fn class_consts_fit(c: JsonClass) -> bool {
    &&& consts_fit(opt_vec_view(c.constants))
    &&& forall|k: int|
        0 <= k < opt_vec_view(c.enums).len() ==> enum_consts_fit(#[trigger] opt_vec_view(c.enums)[k])
}

/// Every 64-bit constant anywhere in the document fits a 32-bit ordinal.
pub open spec fn api_consts_fit(api: JsonExtensionApi) -> bool {
    &&& forall|i: int|
        0 <= i < api.classes@.len() ==> class_consts_fit(#[trigger] api.classes@[i])
    &&& forall|i: int|
        0 <= i < api.global_enums@.len() ==> enum_consts_fit(#[trigger] api.global_enums@[i])
    &&& forall|i: int, k: int|
        0 <= i < api.builtin_classes@.len() && 0 <= k < opt_vec_view(
            #[trigger] api.builtin_classes@[i].enums,
        ).len() ==> consts_fit(#[trigger] opt_vec_view(api.builtin_classes@[i].enums)[k].values@)
}

pub open spec fn constant_matches(out: EnumConstant, j: JsonEnumConstant) -> bool {
    out.name@ == j.name@ && out.ord as int == j.value as int
}

pub open spec fn constants_match(out: Seq<EnumConstant>, j: Seq<JsonEnumConstant>) -> bool {
    out.len() == j.len() && forall|k: int| 0 <= k < j.len() ==> constant_matches(
        #[trigger] out[k],
        j[k],
    )
}

pub open spec fn enum_matches(out: EnumDescriptor, j: JsonEnum) -> bool {
    out.name@ == j.name@ && out.is_bitfield == j.is_bitfield && constants_match(
        out.values@,
        j.values@,
    )
}

pub open spec fn builtin_enum_matches(out: EnumDescriptor, j: JsonBuiltinEnum) -> bool {
    out.name@ == j.name@ && out.is_bitfield == false && constants_match(out.values@, j.values@)
}

pub open spec fn arg_matches(out: ArgDescriptor, j: JsonMethodArg) -> bool {
    out.name@ == j.name@ && out.type_@ == j.type_@ && out.meta == j.meta && out.default_value
        == j.default_value
}

pub open spec fn return_matches(out: ReturnDescriptor, j: JsonMethodReturn) -> bool {
    out.type_@ == j.type_@ && out.meta == j.meta
}

pub open spec fn method_matches(out: MethodDescriptor, j: JsonClassMethod) -> bool {
    &&& out.name@ == j.name@
    &&& out.is_const == j.is_const
    &&& out.is_vararg == j.is_vararg
    &&& out.is_static == j.is_static
    &&& out.is_virtual == j.is_virtual
    &&& out.hash == j.hash
    &&& match (out.return_value, j.return_value) {
        (Some(o), Some(r)) => return_matches(o, r),
        (None, None) => true,
        _ => false,
    }
    &&& out.arguments@.len() == opt_vec_view(j.arguments).len()
    &&& forall|k: int|
        0 <= k < out.arguments@.len() ==> arg_matches(
            #[trigger] out.arguments@[k],
            opt_vec_view(j.arguments)[k],
        )
}

/// The validated class carries the raw class's data, with every constant
/// narrowed.
pub open spec fn class_matches(out: ClassDescriptor, j: JsonClass) -> bool {
    &&& out.name@ == j.name@
    &&& out.is_refcounted == j.is_refcounted
    &&& out.is_instantiable == j.is_instantiable
    &&& out.api_type@ == j.api_type@
    &&& constants_match(out.constants@, opt_vec_view(j.constants))
    &&& out.enums@.len() == opt_vec_view(j.enums).len()
    &&& forall|k: int|
        0 <= k < out.enums@.len() ==> enum_matches(#[trigger] out.enums@[k], opt_vec_view(j.enums)[k])
    &&& out.methods@.len() == opt_vec_view(j.methods).len()
    &&& forall|k: int|
        0 <= k < out.methods@.len() ==> method_matches(
            #[trigger] out.methods@[k],
            opt_vec_view(j.methods)[k],
        )
}

/// The resolved parent link of output class `k` agrees with the raw parent
/// name reference of the input class of the same name.
pub open spec fn parent_correct(out: Seq<ClassDescriptor>, cs: Seq<JsonClass>, k: int) -> bool {
    match find_class_spec(cs, out[k].name@) {
        Some(j) => match out[k].parent {
            Some(p) => 0 <= p < out.len() && p < k && match cs[j].inherits {
                Some(nm) => nm@ == out[p as int].name@,
                None => false,
            },
            None => cs[j].inherits is None,
        },
        None => false,
    }
}

/// The resolved raw parent table agrees with the name references of the raw
/// class list: entry `i` is the resolved index of class `i`'s parent name.
pub open spec fn parent_raw_matches(cs: Seq<JsonClass>, pr: Seq<Option<usize>>, i: int) -> bool {
    match cs[i].inherits {
        None => pr[i] is None,
        Some(nm) => match pr[i] {
            Some(p) => p < cs.len() && find_class_spec(cs, nm@) == Some(p as int),
            None => false,
        },
    }
}

/// Class `i` cannot be placed yet: its parent is still unplaced.
pub open spec fn blocked(pr: Seq<Option<usize>>, ni: Seq<Option<usize>>, i: int) -> bool {
    match pr[i] {
        Some(p) => 0 <= p < ni.len() && ni[p as int] is None,
        None => false,
    }
}

/// The placed prefix links each class to its parent at a strictly smaller
/// placement index.
pub open spec fn parent_link_ok(
    pr: Seq<Option<usize>>,
    order: Seq<usize>,
    new_parent: Seq<Option<usize>>,
    k: int,
) -> bool {
    match pr[order[k] as int] {
        None => new_parent[k] is None,
        Some(p) => match new_parent[k] {
            Some(np) => np < k && order[np as int] == p,
            None => false,
        },
    }
}

/// The bookkeeping invariant of the placement loop: `order` lists placed
/// classes, `ni` is its inverse, and placed parent links point backwards.
pub open spec fn topo_inv(
    cs: Seq<JsonClass>,
    pr: Seq<Option<usize>>,
    ni: Seq<Option<usize>>,
    order: Seq<usize>,
    new_parent: Seq<Option<usize>>,
) -> bool {
    &&& ni.len() == cs.len()
    &&& pr.len() == cs.len()
    &&& order.len() == new_parent.len()
    &&& order.len() + count_unplaced(ni) == cs.len()
    &&& forall|k: int|
        0 <= k < order.len() ==> (#[trigger] order[k]) < cs.len() && ni[order[k] as int] == Some(
            k as usize,
        )
    &&& forall|i: int|
        0 <= i < cs.len() ==> match #[trigger] ni[i] {
            Some(k) => k < order.len() && order[k as int] == i,
            None => true,
        }
    &&& forall|k: int| 0 <= k < order.len() ==> parent_link_ok(pr, order, new_parent, k)
}

/// How many classes are still unplaced.
pub open spec fn count_unplaced(s: Seq<Option<usize>>) -> nat
    decreases s.len(),
{
    if s.len() == 0 {
        0
    } else {
        count_unplaced(s.drop_last()) + if s.last() is None {
            1nat
        } else {
            0nat
        }
    }
}

/// Appends one class to the placement order, keeping the placement
/// bookkeeping invariant.
fn place_class(
    Ghost(cs): Ghost<Seq<JsonClass>>,
    parent_raw: &Vec<Option<usize>>,
    new_index: &mut Vec<Option<usize>>,
    order: &mut Vec<usize>,
    new_parent: &mut Vec<Option<usize>>,
    i: usize,
    pl: Option<usize>,
)
    requires
        topo_inv(cs, parent_raw@, old(new_index)@, old(order)@, old(new_parent)@),
        i < cs.len(),
        old(new_index)@[i as int] is None,
        match (pl, parent_raw@[i as int]) {
            (None, None) => true,
            (Some(np), Some(p)) => p < cs.len() && old(new_index)@[p as int] == Some(np),
            _ => false,
        },
    ensures
        topo_inv(cs, parent_raw@, final(new_index)@, final(order)@, final(new_parent)@),
        final(order)@ == old(order)@.push(i),
        final(new_parent)@ == old(new_parent)@.push(pl),
        final(new_index)@ == old(new_index)@.update(
            i as int,
            Some(old(order)@.len() as usize),
        ),
        count_unplaced(final(new_index)@) + 1 == count_unplaced(old(new_index)@),
{
    let k = order.len();
    proof {
        lemma_count_unplaced_update(new_index@, i as int, k);
    }
    let ghost ni0 = new_index@;
    let ghost order0 = order@;
    let ghost np0 = new_parent@;
    new_index.set(i, Some(k));
    new_parent.push(pl);
    order.push(i);
    proof {
        assert forall|t: int| 0 <= t < order@.len() implies (#[trigger] order@[t]) < cs.len()
            && new_index@[order@[t] as int] == Some(t as usize) by {
            if t < k {
                assert(order@[t] == order0[t]);
                assert(ni0[order0[t] as int] == Some(t as usize));
            }
        }
        assert forall|i2: int| 0 <= i2 < cs.len() implies match #[trigger] new_index@[i2] {
            Some(k2) => k2 < order@.len() && order@[k2 as int] == i2,
            None => true,
        } by {
            if i2 != i {
                assert(new_index@[i2] == ni0[i2]);
                match ni0[i2] {
                    Some(k2) => {
                        assert(order@[k2 as int] == order0[k2 as int]);
                    },
                    None => {},
                }
            }
        }
        assert forall|t: int| 0 <= t < order@.len() implies #[trigger] parent_link_ok(
            parent_raw@,
            order@,
            new_parent@,
            t,
        ) by {
            if t < k {
                assert(parent_link_ok(parent_raw@, order0, np0, t));
                assert(order@[t] == order0[t]);
                assert(new_parent@[t] == np0[t]);
                match parent_raw@[order0[t] as int] {
                    Some(p) => {
                        match np0[t] {
                            Some(np) => {
                                assert(order@[np as int] == order0[np as int]);
                            },
                            None => {},
                        }
                    },
                    None => {},
                }
            } else {
                match (pl, parent_raw@[i as int]) {
                    (Some(np), Some(p)) => {
                        assert(ni0[p as int] == Some(np));
                        assert(np < order0.len() && order0[np as int] == p as usize);
                        assert(order@[np as int] == order0[np as int]);
                    },
                    _ => {},
                }
            }
        }
    }
}

proof fn lemma_count_unplaced_zero(s: Seq<Option<usize>>)
    requires
        forall|j: int| 0 <= j < s.len() ==> (#[trigger] s[j]) is Some,
    ensures
        count_unplaced(s) == 0,
    decreases s.len(),
{
    if s.len() > 0 {
        lemma_count_unplaced_zero(s.drop_last());
    }
}

proof fn lemma_count_unplaced_update(s: Seq<Option<usize>>, i: int, v: usize)
    requires
        0 <= i < s.len(),
        s[i] is None,
    ensures
        count_unplaced(s.update(i, Some(v))) + 1 == count_unplaced(s),
    decreases s.len(),
{
    if i == s.len() - 1 {
        assert(s.update(i, Some(v)).drop_last() =~= s.drop_last());
    } else {
        assert(s.update(i, Some(v)).drop_last() =~= s.drop_last().update(i, Some(v)));
        lemma_count_unplaced_update(s.drop_last(), i, v);
    }
}

/// When a full placement round makes no progress, every class that is still
/// unplaced sits on a parent chain that never reaches the root sentinel.
proof fn lemma_stuck_not_reaches(
    cs: Seq<JsonClass>,
    pr: Seq<Option<usize>>,
    ni: Seq<Option<usize>>,
    i: int,
    fuel: nat,
)
    requires
        pr.len() == cs.len(),
        ni.len() == cs.len(),
        forall|j: int| 0 <= j < cs.len() ==> #[trigger] parent_raw_matches(cs, pr, j),
        forall|j: int|
            0 <= j < cs.len() && (#[trigger] ni[j]) is None ==> blocked(pr, ni, j),
        0 <= i < cs.len(),
        ni[i] is None,
    ensures
        !reaches_root(cs, i, fuel),
    decreases fuel,
{
    assert(parent_raw_matches(cs, pr, i));
    assert(blocked(pr, ni, i));
    match pr[i] {
        Some(p) => {
            if fuel > 0 {
                lemma_stuck_not_reaches(cs, pr, ni, p as int, (fuel - 1) as nat);
            }
        },
        None => {},
    }
}

/// Every placed class reaches the root sentinel: its parent was placed
/// earlier, so the chain unwinds within its placement index.
proof fn lemma_placed_reaches_root(
    cs: Seq<JsonClass>,
    pr: Seq<Option<usize>>,
    order: Seq<usize>,
    new_parent: Seq<Option<usize>>,
    k: int,
)
    requires
        pr.len() == cs.len(),
        forall|j: int| 0 <= j < cs.len() ==> #[trigger] parent_raw_matches(cs, pr, j),
        order.len() == new_parent.len(),
        forall|t: int| 0 <= t < order.len() ==> (#[trigger] order[t]) < cs.len(),
        forall|t: int| 0 <= t < order.len() ==> #[trigger] parent_link_ok(pr, order, new_parent, t),
        0 <= k < order.len(),
    ensures
        reaches_root(cs, order[k] as int, k as nat),
    decreases k,
{
    let i = order[k] as int;
    assert(parent_raw_matches(cs, pr, i));
    assert(parent_link_ok(pr, order, new_parent, k));
    match pr[i] {
        None => {},
        Some(p) => {
            match new_parent[k] {
                Some(np) => {
                    lemma_placed_reaches_root(cs, pr, order, new_parent, np as int);
                    lemma_reaches_root_mono(cs, p as int, np as nat, (k - 1) as nat);
                },
                None => {},
            }
        },
    }
}

/// All built-in-type-local enums of the document, in document order.
pub open spec fn all_builtin_enums(bs: Seq<JsonBuiltin>) -> Seq<JsonBuiltinEnum>
    decreases bs.len(),
{
    if bs.len() == 0 {
        Seq::empty()
    } else {
        all_builtin_enums(bs.drop_last()) + opt_vec_view(bs.last().enums)
    }
}

/// The ordered result of the placement pass: placed classes in
/// parent-first order, their resolved parent links, and the inverse map
/// from class index to placement index.
struct Placement {
    order: Vec<usize>,
    parent: Vec<Option<usize>>,
    slot: Vec<Option<usize>>,
}

/// Places classes parent-first, or reports a class whose parent chain
/// never reaches the root sentinel.
#[verifier::spinoff_prover]
fn place_classes(api: &JsonExtensionApi, parent_raw: &Vec<Option<usize>>) -> (res: Result<
    Placement,
    SchemaError,
>)
    requires
        parent_raw@.len() == api.classes@.len(),
        forall|j: int|
            0 <= j < api.classes@.len() ==> #[trigger] parent_raw_matches(
                api.classes@,
                parent_raw@,
                j,
            ),
    ensures
        match res {
            Ok(pl) => {
                &&& is_forest(api.classes@)
                &&& pl.order@.len() == api.classes@.len()
                &&& pl.parent@.len() == api.classes@.len()
                &&& topo_inv(api.classes@, parent_raw@, pl.slot@, pl.order@, pl.parent@)
                &&& forall|j: int| 0 <= j < api.classes@.len() ==> (#[trigger] pl.slot@[j]) is Some
            },
            Err(e) => e is InheritanceCycle && !is_forest(api.classes@),
        },
{
    let ghost cs = api.classes@;
    let n = api.classes.len();
    // Each round places every class whose parent is already placed; a
    // round without progress means the remaining classes sit on chains
    // that never reach the root.
    let mut new_index: Vec<Option<usize>> = Vec::new();
    let mut i: usize = 0;
    while i < n
        invariant
            i <= n,
            new_index@.len() == i,
            count_unplaced(new_index@) == i,
            forall|j: int| 0 <= j < i ==> (#[trigger] new_index@[j]) is None,
        decreases n - i,
    {
        proof {
            assert(new_index@.push(None).drop_last() =~= new_index@);
        }
        new_index.push(None);
        i = i + 1;
    }
    let mut order: Vec<usize> = Vec::new();
    let mut new_parent: Vec<Option<usize>> = Vec::new();
    let mut progress: bool = true;
    while progress
        invariant
            n == cs.len(),
            cs == api.classes@,
            topo_inv(cs, parent_raw@, new_index@, order@, new_parent@),
            forall|j: int| 0 <= j < n ==> #[trigger] parent_raw_matches(cs, parent_raw@, j),
            !progress ==> forall|j: int|
                0 <= j < n && (#[trigger] new_index@[j]) is None ==> blocked(
                    parent_raw@,
                    new_index@,
                    j,
                ),
        decreases
                count_unplaced(new_index@),
                (if progress {
                    1int
                } else {
                    0int
                }),
    {
        progress = false;
        let ghost placed0 = count_unplaced(new_index@);
        let mut i: usize = 0;
        while i < n
            invariant
                i <= n,
                n == cs.len(),
                cs == api.classes@,
                topo_inv(cs, parent_raw@, new_index@, order@, new_parent@),
                forall|j: int| 0 <= j < n ==> #[trigger] parent_raw_matches(cs, parent_raw@, j),
                !progress ==> forall|j: int|
                    0 <= j < i && (#[trigger] new_index@[j]) is None ==> blocked(
                        parent_raw@,
                        new_index@,
                        j,
                    ),
                count_unplaced(new_index@) <= placed0,
                progress ==> count_unplaced(new_index@) < placed0,
                !progress ==> count_unplaced(new_index@) == placed0,
            decreases n - i,
        {
            if new_index[i].is_none() {
                match parent_raw[i] {
                    None => {
                        place_class(
                            Ghost(cs),
                            &parent_raw,
                            &mut new_index,
                            &mut order,
                            &mut new_parent,
                            i,
                            None,
                        );
                        progress = true;
                    },
                    Some(p) => {
                        proof {
                            assert(parent_raw_matches(cs, parent_raw@, i as int));
                        }
                        match new_index[p] {
                            Some(np) => {
                                place_class(
                                    Ghost(cs),
                                    &parent_raw,
                                    &mut new_index,
                                    &mut order,
                                    &mut new_parent,
                                    i,
                                    Some(np),
                                );
                                progress = true;
                            },
                            None => {},
                        }
                    },
                }
            }
            i = i + 1;
        }
    }

    // Any class still unplaced now sits on a chain that never terminates.
    let mut i: usize = 0;
    while i < n
        invariant
            i <= n,
            n == cs.len(),
            cs == api.classes@,
            topo_inv(cs, parent_raw@, new_index@, order@, new_parent@),
            forall|j: int| 0 <= j < n ==> #[trigger] parent_raw_matches(cs, parent_raw@, j),
            forall|j: int|
                0 <= j < n && (#[trigger] new_index@[j]) is None ==> blocked(
                    parent_raw@,
                    new_index@,
                    j,
                ),
            forall|j: int| 0 <= j < i ==> (#[trigger] new_index@[j]) is Some,
        decreases n - i,
    {
        if new_index[i].is_none() {
            proof {
                lemma_stuck_not_reaches(cs, parent_raw@, new_index@, i as int, cs.len() as nat);
            }
            return Err(SchemaError::InheritanceCycle(api.classes[i].name.clone()));
        }
        i = i + 1;
    }
    proof {
        lemma_count_unplaced_zero(new_index@);
        assert(order@.len() == n);
        assert forall|i0: int| 0 <= i0 < cs.len() implies reaches_root(
            cs,
            i0,
            cs.len() as nat,
        ) by {
            match new_index@[i0] {
                Some(k) => {
                    lemma_placed_reaches_root(cs, parent_raw@, order@, new_parent@, k as int);
                    lemma_reaches_root_mono(cs, i0, k as nat, cs.len() as nat);
                },
                None => {},
            }
        }
    }
    Ok(Placement { order, parent: new_parent, slot: new_index })
}

/// Rejects a schema in which two classes share a name.
fn check_unique_names(api: &JsonExtensionApi) -> (res: Result<(), SchemaError>)
    ensures
        match res {
            Ok(()) => json_names_unique(api.classes@),
            Err(e) => e is DuplicateClass && !json_names_unique(api.classes@),
        },
{
    let ghost cs = api.classes@;
    let n = api.classes.len();
    let mut i: usize = 0;
    while i < n
        invariant
            i <= n,
            n == cs.len(),
            cs == api.classes@,
            forall|a: int, b: int| 0 <= a < b < i ==> (#[trigger] cs[a]).name@ != (
            #[trigger] cs[b]).name@,
        decreases n - i,
    {
        let mut j: usize = 0;
        while j < i
            invariant
                j <= i < n,
                n == cs.len(),
                cs == api.classes@,
                forall|a: int, b: int| 0 <= a < b < i ==> (#[trigger] cs[a]).name@ != (
                #[trigger] cs[b]).name@,
                forall|a: int| 0 <= a < j ==> (#[trigger] cs[a]).name@ != cs[i as int].name@,
            decreases i - j,
        {
            if str_eq(&api.classes[j].name, &api.classes[i].name) {
                return Err(SchemaError::DuplicateClass(api.classes[i].name.clone()));
            }
            j = j + 1;
        }
        i = i + 1;
    }
    assert(json_names_unique(cs));

    Ok(())
}

/// Resolves every parent name reference into a class index, rejecting a
/// reference to a class the schema does not define.
fn resolve_parents(api: &JsonExtensionApi) -> (res: Result<Vec<Option<usize>>, SchemaError>)
    ensures
        match res {
            Ok(pr) => {
                &&& pr@.len() == api.classes@.len()
                &&& forall|j: int|
                    0 <= j < api.classes@.len() ==> #[trigger] parent_raw_matches(
                        api.classes@,
                        pr@,
                        j,
                    )
                &&& parents_resolve(api.classes@)
            },
            Err(e) => e is DanglingParent && !parents_resolve(api.classes@),
        },
{
    let ghost cs = api.classes@;
    let n = api.classes.len();
    let mut parent_raw: Vec<Option<usize>> = Vec::new();
    let mut i: usize = 0;
    while i < n
        invariant
            i <= n,
            n == cs.len(),
            cs == api.classes@,
            parent_raw@.len() == i,
            forall|j: int| 0 <= j < i ==> #[trigger] parent_raw_matches(cs, parent_raw@, j),
        decreases n - i,
    {
        let ghost pr0 = parent_raw@;
        match &api.classes[i].inherits {
            None => {
                parent_raw.push(None);
                proof {
                    assert(parent_raw_matches(cs, parent_raw@, i as int));
                }
            },
            Some(nm) => {
                match find_class(&api.classes, nm) {
                    Some(p) => {
                        proof {
                            lemma_find_class_spec(cs, nm@);
                        }
                        parent_raw.push(Some(p));
                        proof {
                            assert(cs[i as int].inherits == Some(*nm));
                            assert(parent_raw_matches(cs, parent_raw@, i as int));
                        }
                    },
                    None => {
                        return Err(
                            SchemaError::DanglingParent(api.classes[i].name.clone(), nm.clone()),
                        );
                    },
                }
            },
        }
        proof {
            assert forall|j: int| 0 <= j < i + 1 implies #[trigger] parent_raw_matches(
                cs,
                parent_raw@,
                j,
            ) by {
                if j < i {
                    assert(parent_raw@[j] == pr0[j]);
                    assert(parent_raw_matches(cs, pr0, j));
                }
            }
        }
        i = i + 1;
    }

    proof {
        assert forall|i0: int| 0 <= i0 < cs.len() implies match (#[trigger] cs[i0]).inherits {
            Some(nm) => find_class_spec(cs, nm@) is Some,
            None => true,
        } by {
            assert(parent_raw_matches(cs, parent_raw@, i0));
        }
    }
    Ok(parent_raw)
}

/// Converts every class in placement order and derives the model-level
/// facts: well-formed parent links, unique names, and the exact
/// correspondence to the raw list.
#[verifier::spinoff_prover]
fn convert_classes(
    api: &JsonExtensionApi,
    parent_raw: &Vec<Option<usize>>,
    pl: &Placement,
) -> (res: Result<Vec<ClassDescriptor>, SchemaError>)
    requires
        json_names_unique(api.classes@),
        parent_raw@.len() == api.classes@.len(),
        forall|j: int|
            0 <= j < api.classes@.len() ==> #[trigger] parent_raw_matches(
                api.classes@,
                parent_raw@,
                j,
            ),
        pl.order@.len() == api.classes@.len(),
        pl.parent@.len() == api.classes@.len(),
        topo_inv(api.classes@, parent_raw@, pl.slot@, pl.order@, pl.parent@),
        forall|j: int| 0 <= j < api.classes@.len() ==> (#[trigger] pl.slot@[j]) is Some,
    ensures
        match res {
            Ok(classes) => {
                &&& parent_links_wf(classes@)
                &&& model_names_unique(classes@)
                &&& classes@.len() == api.classes@.len()
                &&& forall|k: int|
                    0 <= k < classes@.len() ==> exists|j: int|
                        0 <= j < api.classes@.len() && class_matches(
                            #[trigger] classes@[k],
                            api.classes@[j],
                        )
                &&& forall|j: int|
                    0 <= j < api.classes@.len() ==> exists|k: int|
                        0 <= k < classes@.len() && class_matches(
                            classes@[k],
                            #[trigger] api.classes@[j],
                        )
                &&& forall|k: int|
                    0 <= k < classes@.len() ==> #[trigger] parent_correct(
                        classes@,
                        api.classes@,
                        k,
                    )
                &&& forall|j: int|
                    0 <= j < api.classes@.len() ==> class_consts_fit(#[trigger] api.classes@[j])
            },
            Err(e) => e is EnumOutOfRange && !(forall|j: int|
                0 <= j < api.classes@.len() ==> class_consts_fit(#[trigger] api.classes@[j])),
        },
{
    let ghost cs = api.classes@;
    let n = api.classes.len();
    let order = &pl.order;
    let new_parent = &pl.parent;
    let ghost new_index_view = pl.slot@;
    let mut classes: Vec<ClassDescriptor> = Vec::new();
    let mut k: usize = 0;
    while k < n
        invariant
            k <= n,
            n == cs.len(),
            cs == api.classes@,
            order@.len() == n,
            new_parent@.len() == n,
            topo_inv(cs, parent_raw@, new_index_view, order@, new_parent@),
            forall|j: int| 0 <= j < n ==> #[trigger] parent_raw_matches(cs, parent_raw@, j),
            forall|j: int| 0 <= j < n ==> (#[trigger] new_index_view[j]) is Some,
            classes@.len() == k,
            forall|t: int|
                0 <= t < k ==> class_matches(#[trigger] classes@[t], cs[order@[t] as int]),
            forall|t: int| 0 <= t < k ==> (#[trigger] classes@[t]).parent == new_parent@[t],
            forall|t: int| 0 <= t < k ==> class_consts_fit(cs[(#[trigger] order@[t]) as int]),
        decreases n - k,
    {
        let src = order[k];
        match convert_class(&api.classes[src], new_parent[k]) {
            Ok(c) => {
                classes.push(c);
            },
            Err(e) => {
                return Err(e);
            },
        }
        k = k + 1;
    }

    proof {
        // Placement is a bijection, so every raw class is represented and
        // output names stay pairwise distinct.
        assert forall|a: int, b: int| 0 <= a < b < n implies (#[trigger] classes@[a]).name@ != (
        #[trigger] classes@[b]).name@ by {
            assert(order@[a] != order@[b]);
            if order@[a] < order@[b] {
                assert(cs[order@[a] as int].name@ != cs[order@[b] as int].name@);
            } else {
                assert(cs[order@[b] as int].name@ != cs[order@[a] as int].name@);
            }
        }
        assert(model_names_unique(classes@));
        assert(parent_links_wf(classes@)) by {
            assert forall|t: int| 0 <= t < n implies match (#[trigger] classes@[t]).parent {
                Some(p) => p < t,
                None => true,
            } by {
                assert(parent_link_ok(parent_raw@, order@, new_parent@, t));
            }
        }
        assert forall|t: int| 0 <= t < n implies #[trigger] parent_correct(classes@, cs, t) by {
            lemma_find_class_spec(cs, classes@[t].name@);
            assert(parent_link_ok(parent_raw@, order@, new_parent@, t));
            assert(parent_raw_matches(cs, parent_raw@, order@[t] as int));
            match find_class_spec(cs, classes@[t].name@) {
                Some(j) => {
                    // the found class is the very one this output class came
                    // from: names are unique
                    assert(cs[j].name@ == cs[order@[t] as int].name@);
                    if j < order@[t] as int {
                        assert(false);
                    } else if j > order@[t] as int {
                        assert(false);
                    }
                    match classes@[t].parent {
                        Some(p) => {
                            match cs[j].inherits {
                                Some(nm) => {
                                    lemma_find_class_spec(cs, nm@);
                                },
                                None => {},
                            }
                        },
                        None => {},
                    }
                },
                None => {
                    assert(cs[order@[t] as int].name@ == classes@[t].name@);
                    assert(false);
                },
            }
        }
        assert forall|j: int| 0 <= j < n implies exists|t: int|
            0 <= t < n && class_matches(classes@[t], #[trigger] cs[j]) by {
            match new_index_view[j] {
                Some(t) => {
                    assert(order@[t as int] == j);
                    assert(class_matches(classes@[t as int], cs[j]));
                },
                None => {},
            }
        }
        assert forall|j: int| 0 <= j < n implies class_consts_fit(#[trigger] cs[j]) by {
            match new_index_view[j] {
                Some(t) => {
                    assert(order@[t as int] == j);
                    assert(class_consts_fit(cs[order@[t as int] as int]));
                },
                None => {},
            }
        }
    }

    Ok(classes)
}

/// Narrows every global enum of the document.
fn convert_global_enums(api: &JsonExtensionApi) -> (res: Result<Vec<EnumDescriptor>, SchemaError>)
    ensures
        match res {
            Ok(ges) => {
                &&& ges@.len() == api.global_enums@.len()
                &&& forall|k: int|
                    0 <= k < ges@.len() ==> enum_matches(#[trigger] ges@[k], api.global_enums@[k])
                &&& forall|i: int|
                    0 <= i < api.global_enums@.len() ==> enum_consts_fit(
                        #[trigger] api.global_enums@[i],
                    )
            },
            Err(e) => e is EnumOutOfRange && !(forall|i: int|
                0 <= i < api.global_enums@.len() ==> enum_consts_fit(
                    #[trigger] api.global_enums@[i],
                )),
        },
{
    let mut global_enums: Vec<EnumDescriptor> = Vec::new();
    let mut i: usize = 0;
    while i < api.global_enums.len()
        invariant
            i <= api.global_enums@.len(),
            global_enums@.len() == i,
            forall|t: int|
                0 <= t < i ==> enum_matches(#[trigger] global_enums@[t], api.global_enums@[t]),
            forall|t: int| 0 <= t < i ==> enum_consts_fit(#[trigger] api.global_enums@[t]),
        decreases api.global_enums.len() - i,
    {
        match convert_enum(&api.global_enums[i]) {
            Ok(e) => {
                global_enums.push(e);
            },
            Err(e) => {
                return Err(e);
            },
        }
        i = i + 1;
    }

    Ok(global_enums)
}

/// Folds every built-in-type-local enum into the canonical shape, in
/// document order.
#[verifier::spinoff_prover]
fn convert_builtin_enums_all(api: &JsonExtensionApi) -> (res: Result<
    Vec<EnumDescriptor>,
    SchemaError,
>)
    ensures
        match res {
            Ok(bes) => {
                &&& bes@.len() == all_builtin_enums(api.builtin_classes@).len()
                &&& forall|k: int|
                    0 <= k < bes@.len() ==> builtin_enum_matches(
                        #[trigger] bes@[k],
                        all_builtin_enums(api.builtin_classes@)[k],
                    )
                &&& forall|i: int, k: int|
                    0 <= i < api.builtin_classes@.len() && 0 <= k < opt_vec_view(
                        #[trigger] api.builtin_classes@[i].enums,
                    ).len() ==> consts_fit(
                        #[trigger] opt_vec_view(api.builtin_classes@[i].enums)[k].values@,
                    )
            },
            Err(e) => e is EnumOutOfRange && !(forall|i: int, k: int|
                0 <= i < api.builtin_classes@.len() && 0 <= k < opt_vec_view(
                    #[trigger] api.builtin_classes@[i].enums,
                ).len() ==> consts_fit(
                    #[trigger] opt_vec_view(api.builtin_classes@[i].enums)[k].values@,
                )),
        },
{
    let mut builtin_enums: Vec<EnumDescriptor> = Vec::new();
    let mut bi: usize = 0;
    while bi < api.builtin_classes.len()
        invariant
            bi <= api.builtin_classes@.len(),
            builtin_enums@.len() == all_builtin_enums(api.builtin_classes@.take(bi as int)).len(),
            forall|t: int|
                0 <= t < builtin_enums@.len() ==> builtin_enum_matches(
                    #[trigger] builtin_enums@[t],
                    all_builtin_enums(api.builtin_classes@.take(bi as int))[t],
                ),
            forall|i2: int, k2: int|
                0 <= i2 < bi && 0 <= k2 < opt_vec_view(
                    #[trigger] api.builtin_classes@[i2].enums,
                ).len() ==> consts_fit(
                    #[trigger] opt_vec_view(api.builtin_classes@[i2].enums)[k2].values@,
                ),
        decreases api.builtin_classes.len() - bi,
    {
        let ghost prefix = all_builtin_enums(api.builtin_classes@.take(bi as int));
        match &api.builtin_classes[bi].enums {
            Some(es) => {
                let mut j: usize = 0;
                while j < es.len()
                    invariant
                        j <= es@.len(),
                        0 <= bi < api.builtin_classes@.len(),
                        opt_vec_view(api.builtin_classes@[bi as int].enums) == es@,
                        prefix == all_builtin_enums(api.builtin_classes@.take(bi as int)),
                        builtin_enums@.len() == prefix.len() + j,
                        forall|t: int|
                            0 <= t < prefix.len() ==> builtin_enum_matches(
                                #[trigger] builtin_enums@[t],
                                prefix[t],
                            ),
                        forall|t: int|
                            0 <= t < j ==> builtin_enum_matches(
                                #[trigger] builtin_enums@[prefix.len() + t],
                                es@[t],
                            ),
                        forall|t: int| 0 <= t < j ==> consts_fit((#[trigger] es@[t]).values@),
                    decreases es.len() - j,
                {
                    match convert_builtin_enum(&es[j]) {
                        Ok(e) => {
                            builtin_enums.push(e);
                        },
                        Err(e) => {
                            proof {
                                assert(opt_vec_view(api.builtin_classes@[bi as int].enums)[j as int]
                                    == es@[j as int]);
                            }
                            return Err(e);
                        },
                    }
                    j = j + 1;
                }
                proof {
                    lemma_all_builtin_enums_take(api.builtin_classes@, bi as int);
                    assert forall|t: int| 0 <= t < builtin_enums@.len() implies builtin_enum_matches(
                        #[trigger] builtin_enums@[t],
                        all_builtin_enums(api.builtin_classes@.take(bi as int + 1))[t],
                    ) by {
                        if prefix.len() <= t {
                            let t2 = t - prefix.len();
                            assert(builtin_enum_matches(
                                builtin_enums@[prefix.len() + t2],
                                es@[t2],
                            ));
                            assert(all_builtin_enums(api.builtin_classes@.take(bi as int + 1))[t]
                                == es@[t2]);
                        }
                    }
                    assert forall|k2: int|
                        0 <= k2 < opt_vec_view(api.builtin_classes@[bi as int].enums).len()
                            implies consts_fit(
                        opt_vec_view(api.builtin_classes@[bi as int].enums)[k2].values@,
                    ) by {
                        assert(opt_vec_view(api.builtin_classes@[bi as int].enums)[k2] == es@[k2]);
                    }
                }
            },
            None => {
                proof {
                    lemma_all_builtin_enums_take(api.builtin_classes@, bi as int);
                    assert(all_builtin_enums(api.builtin_classes@.take(bi as int + 1)) =~= prefix);
                }
            },
        }
        bi = bi + 1;
    }
    proof {
        assert(api.builtin_classes@.take(api.builtin_classes@.len() as int)
            =~= api.builtin_classes@);
    }

    proof {
        assert(api.builtin_classes@.take(api.builtin_classes@.len() as int)
            =~= api.builtin_classes@);
    }
    Ok(builtin_enums)
}

/// Collects the singleton names of the document.
fn convert_singletons(api: &JsonExtensionApi) -> (ss: Vec<String>)
    ensures
        ss@.len() == api.singletons@.len(),
        forall|t: int| 0 <= t < ss@.len() ==> (#[trigger] ss@[t])@ == api.singletons@[t].name@,
{
    let mut singletons: Vec<String> = Vec::new();
    let mut i: usize = 0;
    while i < api.singletons.len()
        invariant
            i <= api.singletons@.len(),
            singletons@.len() == i,
            forall|t: int| 0 <= t < i ==> (#[trigger] singletons@[t])@ == api.singletons@[t].name@,
        decreases api.singletons.len() - i,
    {
        singletons.push(api.singletons[i].name.clone());
        i = i + 1;
    }

    singletons
}

/// Ingests a decoded schema document into the validated model.
///
/// Ingestion succeeds exactly when class names are unique, every parent name
/// reference resolves, the inherits relation is a forest, and every 64-bit
/// constant fits a signed 32-bit ordinal. The classes of the model come out
/// in a topological order over the inheritance forest, every parent link
/// resolved to a smaller index.
#[verifier::rlimit(100)]
#[verifier::spinoff_prover]
pub fn ingest(api: &JsonExtensionApi) -> (res: Result<ApiModel, SchemaError>)
    ensures
        match res {
            Ok(m) => {
                &&& m.wf()
                &&& json_names_unique(api.classes@)
                &&& parents_resolve(api.classes@)
                &&& is_forest(api.classes@)
                &&& api_consts_fit(*api)
                &&& m.header == api.header
                &&& m.classes@.len() == api.classes@.len()
                &&& forall|k: int|
                    0 <= k < m.classes@.len() ==> exists|j: int|
                        0 <= j < api.classes@.len() && class_matches(
                            #[trigger] m.classes@[k],
                            api.classes@[j],
                        )
                &&& forall|j: int|
                    0 <= j < api.classes@.len() ==> exists|k: int|
                        0 <= k < m.classes@.len() && class_matches(
                            m.classes@[k],
                            #[trigger] api.classes@[j],
                        )
                &&& forall|k: int|
                    0 <= k < m.classes@.len() ==> #[trigger] parent_correct(
                        m.classes@,
                        api.classes@,
                        k,
                    )
                &&& m.global_enums@.len() == api.global_enums@.len()
                &&& forall|k: int|
                    0 <= k < m.global_enums@.len() ==> enum_matches(
                        #[trigger] m.global_enums@[k],
                        api.global_enums@[k],
                    )
                &&& m.builtin_enums@.len() == all_builtin_enums(api.builtin_classes@).len()
                &&& forall|k: int|
                    0 <= k < m.builtin_enums@.len() ==> builtin_enum_matches(
                        #[trigger] m.builtin_enums@[k],
                        all_builtin_enums(api.builtin_classes@)[k],
                    )
                &&& m.singletons@.len() == api.singletons@.len()
                &&& forall|k: int|
                    0 <= k < m.singletons@.len() ==> (#[trigger] m.singletons@[k])@
                        == api.singletons@[k].name@
            },
            Err(e) => match e {
                SchemaError::Decode(_) => false,
                SchemaError::DuplicateClass(_) => !json_names_unique(api.classes@),
                SchemaError::DanglingParent(_, _) => !parents_resolve(api.classes@),
                SchemaError::InheritanceCycle(_) => !is_forest(api.classes@),
                SchemaError::EnumOutOfRange(_, _) => !api_consts_fit(*api),
            },
        },
{
    match check_unique_names(api) {
        Ok(()) => {},
        Err(e) => {
            return Err(e);
        },
    }
    let parent_raw = match resolve_parents(api) {
        Ok(pr) => pr,
        Err(e) => {
            return Err(e);
        },
    };
    let placement = match place_classes(api, &parent_raw) {
        Ok(pl) => pl,
        Err(e) => {
            return Err(e);
        },
    };
    let classes = match convert_classes(api, &parent_raw, &placement) {
        Ok(c) => c,
        Err(e) => {
            return Err(e);
        },
    };
    let global_enums = match convert_global_enums(api) {
        Ok(g) => g,
        Err(e) => {
            return Err(e);
        },
    };
    let builtin_enums = match convert_builtin_enums_all(api) {
        Ok(b) => b,
        Err(e) => {
            return Err(e);
        },
    };
    let singletons = convert_singletons(api);
    Ok(
        ApiModel {
            header: api.header.clone(),
            classes,
            global_enums,
            builtin_enums,
            singletons,
        },
    )
}

/// Splitting the built-in list one step earlier peels exactly the last
/// class's enum list off the folded sequence.
proof fn lemma_all_builtin_enums_take(bs: Seq<JsonBuiltin>, i: int)
    requires
        0 <= i < bs.len(),
    ensures
        all_builtin_enums(bs.take(i + 1)) == all_builtin_enums(bs.take(i)) + opt_vec_view(
            bs[i].enums,
        ),
{
    assert(bs.take(i + 1).drop_last() =~= bs.take(i));
    assert(bs.take(i + 1).last() == bs[i]);
}

pub(crate) fn str_eq(a: &String, b: &String) -> (res: bool)
    ensures
        res == (a@ == b@),
{
    a.eq(b)
}

/// Finds the first class of the raw list carrying the given name.
fn find_class(cs: &Vec<JsonClass>, name: &String) -> (res: Option<usize>)
    ensures
        match res {
            Some(j) => find_class_spec(cs@, name@) == Some(j as int),
            None => find_class_spec(cs@, name@) is None,
        },
{
    proof {
        lemma_find_class_spec(cs@, name@);
    }
    let mut i: usize = 0;
    while i < cs.len()
        invariant
            i <= cs.len(),
            forall|k: int| 0 <= k < i ==> (#[trigger] cs@[k]).name@ != name@,
            match find_class_spec(cs@, name@) {
                Some(j) => 0 <= j < cs@.len() && cs@[j].name@ == name@ && (forall|k: int|
                    0 <= k < j ==> (#[trigger] cs@[k]).name@ != name@),
                None => forall|k: int| 0 <= k < cs@.len() ==> (#[trigger] cs@[k]).name@ != name@,
            },
        decreases cs.len() - i,
    {
        if str_eq(&cs[i].name, name) {
            return Some(i);
        }
        i = i + 1;
    }
    None
}

fn clone_opt_string(s: &Option<String>) -> (res: Option<String>)
    ensures
        res == *s,
{
    match s {
        Some(v) => Some(v.clone()),
        None => None,
    }
}

/// Narrows a whole constant list, rejecting the first value that does not
/// fit a 32-bit ordinal.
fn convert_constants(vs: &Vec<JsonEnumConstant>) -> (res: Result<Vec<EnumConstant>, SchemaError>)
    ensures
        match res {
            Ok(out) => constants_match(out@, vs@) && consts_fit(vs@),
            Err(e) => !consts_fit(vs@) && e is EnumOutOfRange,
        },
{
    let mut out: Vec<EnumConstant> = Vec::new();
    let mut i: usize = 0;
    while i < vs.len()
        invariant
            i <= vs.len(),
            out@.len() == i,
            forall|k: int| 0 <= k < i ==> constant_matches(#[trigger] out@[k], vs@[k]),
            forall|k: int| 0 <= k < i ==> fits_enum_ord((#[trigger] vs@[k]).value),
        decreases vs.len() - i,
    {
        match vs[i].to_enum_ord_checked() {
            Some(ord) => {
                out.push(EnumConstant { name: vs[i].name.clone(), ord });
            },
            None => {
                return Err(SchemaError::EnumOutOfRange(vs[i].name.clone(), vs[i].value));
            },
        }
        i = i + 1;
    }
    Ok(out)
}

fn convert_enum(e: &JsonEnum) -> (res: Result<EnumDescriptor, SchemaError>)
    ensures
        match res {
            Ok(out) => enum_matches(out, *e) && enum_consts_fit(*e),
            Err(err) => !enum_consts_fit(*e) && err is EnumOutOfRange,
        },
{
    let values = match convert_constants(&e.values) {
        Ok(v) => v,
        Err(err) => {
            return Err(err);
        },
    };
    Ok(EnumDescriptor { name: e.name.clone(), is_bitfield: e.is_bitfield, values })
}

fn convert_builtin_enum(e: &JsonBuiltinEnum) -> (res: Result<EnumDescriptor, SchemaError>)
    ensures
        match res {
            Ok(out) => builtin_enum_matches(out, *e) && consts_fit(e.values@),
            Err(err) => !consts_fit(e.values@) && err is EnumOutOfRange,
        },
{
    let folded = e.to_enum();
    let values = match convert_constants(&folded.values) {
        Ok(v) => v,
        Err(err) => {
            return Err(err);
        },
    };
    Ok(EnumDescriptor { name: folded.name, is_bitfield: false, values })
}

fn convert_args(vs: &Vec<JsonMethodArg>) -> (out: Vec<ArgDescriptor>)
    ensures
        out@.len() == vs@.len(),
        forall|k: int| 0 <= k < vs@.len() ==> arg_matches(#[trigger] out@[k], vs@[k]),
{
    let mut out: Vec<ArgDescriptor> = Vec::new();
    let mut i: usize = 0;
    while i < vs.len()
        invariant
            i <= vs.len(),
            out@.len() == i,
            forall|k: int| 0 <= k < i ==> arg_matches(#[trigger] out@[k], vs@[k]),
        decreases vs.len() - i,
    {
        out.push(
            ArgDescriptor {
                name: vs[i].name.clone(),
                type_: vs[i].type_.clone(),
                meta: clone_opt_string(&vs[i].meta),
                default_value: clone_opt_string(&vs[i].default_value),
            },
        );
        i = i + 1;
    }
    out
}

fn convert_method(m: &JsonClassMethod) -> (out: MethodDescriptor)
    ensures
        method_matches(out, *m),
{
    let return_value = match &m.return_value {
        Some(r) => Some(ReturnDescriptor { type_: r.type_.clone(), meta: clone_opt_string(&r.meta) }),
        None => None,
    };
    let arguments = match &m.arguments {
        Some(args) => convert_args(args),
        None => Vec::new(),
    };
    MethodDescriptor {
        name: m.name.clone(),
        is_const: m.is_const,
        is_vararg: m.is_vararg,
        is_static: m.is_static,
        is_virtual: m.is_virtual,
        hash: m.hash,
        return_value,
        arguments,
    }
}

/// Converts one raw class, narrowing its constants and class-local enums;
/// the resolved parent link is supplied by the caller.
fn convert_class(c: &JsonClass, parent: Option<usize>) -> (res: Result<
    ClassDescriptor,
    SchemaError,
>)
    ensures
        match res {
            Ok(out) => class_matches(out, *c) && out.parent == parent && class_consts_fit(*c),
            Err(err) => !class_consts_fit(*c) && err is EnumOutOfRange,
        },
{
    let constants = match &c.constants {
        Some(vs) => match convert_constants(vs) {
            Ok(v) => v,
            Err(err) => {
                return Err(err);
            },
        },
        None => Vec::new(),
    };
    let mut enums: Vec<EnumDescriptor> = Vec::new();
    match &c.enums {
        Some(es) => {
            let mut i: usize = 0;
            while i < es.len()
                invariant
                    i <= es.len(),
                    opt_vec_view(c.enums) == es@,
                    enums@.len() == i,
                    forall|k: int| 0 <= k < i ==> enum_matches(#[trigger] enums@[k], es@[k]),
                    forall|k: int| 0 <= k < i ==> enum_consts_fit(#[trigger] es@[k]),
                decreases es.len() - i,
            {
                match convert_enum(&es[i]) {
                    Ok(e) => {
                        enums.push(e);
                    },
                    Err(err) => {
                        proof {
                            assert(opt_vec_view(c.enums) == es@);
                        }
                        return Err(err);
                    },
                }
                i = i + 1;
            }
        },
        None => {},
    }
    let mut methods: Vec<MethodDescriptor> = Vec::new();
    match &c.methods {
        Some(ms) => {
            let mut i: usize = 0;
            while i < ms.len()
                invariant
                    i <= ms.len(),
                    methods@.len() == i,
                    forall|k: int| 0 <= k < i ==> method_matches(#[trigger] methods@[k], ms@[k]),
                decreases ms.len() - i,
            {
                methods.push(convert_method(&ms[i]));
                i = i + 1;
            }
        },
        None => {},
    }
    Ok(
        ClassDescriptor {
            name: c.name.clone(),
            parent,
            is_refcounted: c.is_refcounted,
            is_instantiable: c.is_instantiable,
            api_type: c.api_type.clone(),
            constants,
            enums,
            methods,
        },
    )
}

} // verus!
