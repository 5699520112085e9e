//! The object-handle model: typed, non-owning (or policy-owning) proxies
//! over instances that live inside the host runtime.
//!
//! The host runtime is modeled as the one mutable resource the handle model
//! is allowed to touch: the table of live instances with their dynamic
//! class and reference count, plus the saved-resource registry. A handle
//! carries only the opaque instance pointer and a class tag. Handles are
//! move-only: duplicating one takes the explicit `share` operation, so
//! every count increment has exactly one matching decrement.

use vstd::prelude::*;

use crate::generator::{class_inherits, class_policy, inherits_or_is, policy_of, MemoryPolicy};
use crate::schema::ApiModel;
use vstd::string::StringExecFns;

verus! {

/// A typed handle to one instance inside the host runtime. The class tag
/// is an index into the validated model's class table.
///
/// The type deliberately has no `Clone`: the only path to a second live
/// handle of a reference-counted instance is `HostRuntime::share`.
#[derive(Debug)]
pub struct Gd {
    pub object_ptr: usize,
    pub class_id: usize,
}

/// A downcast failed: the handle's dynamic class is not the requested
/// class nor one of its descendants. Carries both class names.
#[derive(Debug)]
pub struct CastError {
    pub to: String,
    pub from: String,
}

/// One live instance of the host runtime: its dynamic class and, for
/// reference-counted classes, the live count.
#[derive(Debug, Clone, Copy)]
pub struct Instance {
    pub class_id: usize,
    pub ref_count: i32,
}

/// One saved resource: a path and the dynamic class recorded for it.
#[derive(Debug)]
pub struct ResourceEntry {
    pub path: String,
    pub class_id: usize,
}

/// The modeled host runtime: the instance table (a pointer is an index
/// into it; a freed slot is `None`) and the saved-resource registry.
#[derive(Debug)]
pub struct HostRuntime {
    pub instances: Vec<Option<Instance>>,
    pub resources: Vec<ResourceEntry>,
}

impl HostRuntime {
    /// The pointer refers to a live instance.
    pub open spec fn live(&self, ptr: int) -> bool {
        0 <= ptr < self.instances@.len() && self.instances@[ptr] is Some
    }

    pub open spec fn inst(&self, ptr: int) -> Instance {
        match self.instances@[ptr] {
            Some(inst) => inst,
            None => Instance { class_id: 0, ref_count: 0 },
        }
    }

    /// The dynamic class of the instance behind `ptr`.
    pub open spec fn class_of(&self, ptr: int) -> int {
        self.inst(ptr).class_id as int
    }

    /// The live reference count of the instance behind `ptr`.
    pub open spec fn count_of(&self, ptr: int) -> int {
        self.inst(ptr).ref_count as int
    }

    /// Every live instance carries a class of the model; instances of
    /// reference-counted classes carry a positive live count, all others
    /// carry none.
    pub open spec fn wf(&self, m: ApiModel) -> bool {
        &&& forall|p: int|
            0 <= p < self.instances@.len() && (#[trigger] self.instances@[p]) is Some ==> {
                &&& self.class_of(p) < m.classes@.len()
                &&& (policy_of(m, self.class_of(p)) == MemoryPolicy::DynamicRefCount
                    ==> self.count_of(p) >= 1)
                &&& (policy_of(m, self.class_of(p)) != MemoryPolicy::DynamicRefCount
                    ==> self.count_of(p) == 0)
            }
        &&& forall|t: int|
            0 <= t < self.resources@.len() ==> (#[trigger] self.resources@[t]).class_id
                < m.classes@.len()
    }

    /// A host runtime with no instances and no saved resources.
    pub fn new() -> (rt: HostRuntime)
        ensures
            rt.instances@.len() == 0,
            rt.resources@.len() == 0,
    {
        HostRuntime { instances: Vec::new(), resources: Vec::new() }
    }

    /// Constructs one instance of the given class. A reference-counted
    /// class starts with a live count of one, held by the returned handle.
    pub fn instantiate(&mut self, m: &ApiModel, class_id: usize) -> (gd: Gd)
        requires
            old(self).wf(*m),
            class_id < m.classes@.len(),
            m.classes@[class_id as int].is_instantiable,
        ensures
            final(self).wf(*m),
            gd.object_ptr == old(self).instances@.len(),
            gd.class_id == class_id,
            final(self).instances@ == old(self).instances@.push(
                Some(
                    Instance {
                        class_id,
                        ref_count: if policy_of(*m, class_id as int)
                            == MemoryPolicy::DynamicRefCount {
                            1i32
                        } else {
                            0i32
                        },
                    },
                ),
            ),
            final(self).resources@ == old(self).resources@,
    {
        let ptr = self.instances.len();
        let policy = class_policy(m, class_id);
        let count: i32 = match policy {
            MemoryPolicy::DynamicRefCount => 1,
            _ => 0,
        };
        self.instances.push(Some(Instance { class_id, ref_count: count }));
        Gd { object_ptr: ptr, class_id }
    }

    /// The explicit share operation: increments the live count and hands
    /// back a second handle to the same instance. This is the only way to
    /// duplicate a handle.
    pub fn share(&mut self, m: &ApiModel, gd: &Gd) -> (dup: Gd)
        requires
            old(self).wf(*m),
            old(self).live(gd.object_ptr as int),
            policy_of(*m, old(self).class_of(gd.object_ptr as int))
                == MemoryPolicy::DynamicRefCount,
            old(self).count_of(gd.object_ptr as int) < i32::MAX,
        ensures
            final(self).wf(*m),
            dup.object_ptr == gd.object_ptr,
            dup.class_id == gd.class_id,
            final(self).instances@ == old(self).instances@.update(
                gd.object_ptr as int,
                Some(
                    Instance {
                        class_id: old(self).inst(gd.object_ptr as int).class_id,
                        ref_count: (old(self).count_of(gd.object_ptr as int) + 1) as i32,
                    },
                ),
            ),
            final(self).resources@ == old(self).resources@,
    {
        let inst = match self.instances[gd.object_ptr] {
            Some(inst) => inst,
            None => Instance { class_id: 0, ref_count: 0 },
        };
        self.instances.set(
            gd.object_ptr,
            Some(Instance { class_id: inst.class_id, ref_count: inst.ref_count + 1 }),
        );
        Gd { object_ptr: gd.object_ptr, class_id: gd.class_id }
    }

    /// Releases one handle. An immortal or manually managed instance is
    /// untouched; a reference-counted instance loses one count and is
    /// destroyed exactly when the last handle goes away.
    pub fn drop_handle(&mut self, m: &ApiModel, gd: Gd)
        requires
            old(self).wf(*m),
            old(self).live(gd.object_ptr as int),
        ensures
            final(self).wf(*m),
            final(self).resources@ == old(self).resources@,
            final(self).instances@ == (if policy_of(
                *m,
                old(self).class_of(gd.object_ptr as int),
            ) == MemoryPolicy::DynamicRefCount {
                if old(self).count_of(gd.object_ptr as int) == 1 {
                    old(self).instances@.update(gd.object_ptr as int, None)
                } else {
                    old(self).instances@.update(
                        gd.object_ptr as int,
                        Some(
                            Instance {
                                class_id: old(self).inst(gd.object_ptr as int).class_id,
                                ref_count: (old(self).count_of(gd.object_ptr as int) - 1) as i32,
                            },
                        ),
                    )
                }
            } else {
                old(self).instances@
            }),
    {
        let inst = match self.instances[gd.object_ptr] {
            Some(inst) => inst,
            None => Instance { class_id: 0, ref_count: 0 },
        };
        let policy = class_policy(m, inst.class_id);
        match policy {
            MemoryPolicy::DynamicRefCount => {
                if inst.ref_count == 1 {
                    self.instances.set(gd.object_ptr, None);
                } else {
                    self.instances.set(
                        gd.object_ptr,
                        Some(
                            Instance { class_id: inst.class_id, ref_count: inst.ref_count - 1 },
                        ),
                    );
                }
            },
            _ => {
                proof {
                    assert(final(self).instances@ =~= old(self).instances@);
                }
            },
        }
    }

    /// The explicit destroy call that manually managed instances require;
    /// no handle drop ever frees them.
    pub fn destroy(&mut self, m: &ApiModel, gd: Gd)
        requires
            old(self).wf(*m),
            old(self).live(gd.object_ptr as int),
            policy_of(*m, old(self).class_of(gd.object_ptr as int)) == MemoryPolicy::Manual,
        ensures
            final(self).wf(*m),
            final(self).resources@ == old(self).resources@,
            final(self).instances@ == old(self).instances@.update(gd.object_ptr as int, None),
    {
        self.instances.set(gd.object_ptr, None);
    }

    /// Reads the live reference count of the instance behind the handle.
    pub fn get_reference_count(&self, gd: &Gd) -> (c: i32)
        requires
            self.live(gd.object_ptr as int),
        ensures
            c == self.count_of(gd.object_ptr as int),
    {
        match self.instances[gd.object_ptr] {
            Some(inst) => inst.ref_count,
            None => 0,
        }
    }

    /// Reads the dynamic class tag of the instance behind the handle.
    pub fn dynamic_class(&self, gd: &Gd) -> (c: usize)
        requires
            self.live(gd.object_ptr as int),
        ensures
            c as int == self.class_of(gd.object_ptr as int),
    {
        match self.instances[gd.object_ptr] {
            Some(inst) => inst.class_id,
            None => 0,
        }
    }
}

impl Gd {
    /// Upcasts the handle to an ancestor class. A pure type-level
    /// operation: it always succeeds, performs no runtime check, and
    /// preserves the handle's identity exactly. This is sound because the
    /// generator materialized every ancestor edge explicitly.
    pub fn upcast(self, m: &ApiModel, target: usize) -> (r: Gd)
        requires
            m.wf(),
            self.class_id < m.classes@.len(),
            inherits_or_is(m.classes@, self.class_id as int, target as int),
        ensures
            r.object_ptr == self.object_ptr,
            r.class_id == target,
    {
        Gd { object_ptr: self.object_ptr, class_id: target }
    }

    /// Downcasts (or sideways-casts) against the instance's dynamic class:
    /// succeeds exactly when the dynamic class is the target or one of its
    /// descendants, and otherwise reports both class names.
    pub fn try_cast(self, rt: &HostRuntime, m: &ApiModel, target: usize) -> (res: Result<
        Gd,
        CastError,
    >)
        requires
            m.wf(),
            rt.wf(*m),
            rt.live(self.object_ptr as int),
            target < m.classes@.len(),
        ensures
            match res {
                Ok(g) => {
                    &&& inherits_or_is(m.classes@, rt.class_of(self.object_ptr as int), target as int)
                    &&& g.object_ptr == self.object_ptr
                    &&& g.class_id == target
                },
                Err(e) => {
                    &&& !inherits_or_is(
                        m.classes@,
                        rt.class_of(self.object_ptr as int),
                        target as int,
                    )
                    &&& e.to@ == m.classes@[target as int].name@
                    &&& e.from@ == m.classes@[rt.class_of(self.object_ptr as int)].name@
                },
            },
    {
        let dynamic = rt.dynamic_class(&self);
        if class_inherits(m, dynamic, target) {
            Ok(Gd { object_ptr: self.object_ptr, class_id: target })
        } else {
            Err(
                CastError {
                    to: m.classes[target].name.clone(),
                    from: m.classes[dynamic].name.clone(),
                },
            )
        }
    }

    /// Downcasts, demanding success: callers must know the dynamic class
    /// fits the target.
    pub fn cast(self, rt: &HostRuntime, m: &ApiModel, target: usize) -> (g: Gd)
        requires
            m.wf(),
            rt.wf(*m),
            rt.live(self.object_ptr as int),
            target < m.classes@.len(),
            inherits_or_is(m.classes@, rt.class_of(self.object_ptr as int), target as int),
        ensures
            g.object_ptr == self.object_ptr,
            g.class_id == target,
    {
        match self.try_cast(rt, m, target) {
            Ok(g) => g,
            Err(_) => Gd { object_ptr: 0, class_id: 0 },
        }
    }
}

impl CastError {
    /// A plain-text rendering of the failed cast, naming both classes.
    pub fn message(&self) -> (s: String)
        ensures
            s@ == "cannot cast from "@ + self.from@ + " to "@ + self.to@,
    {
        let mut s = "cannot cast from ".to_owned();
        s.append(self.from.as_str());
        s.append(" to ");
        s.append(self.to.as_str());
        s
    }
}

} // verus!
