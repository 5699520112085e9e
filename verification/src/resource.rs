//! Convenience functions over the host runtime's resource layer: loading
//! a saved resource as a handle of a requested class, and recording a live
//! instance under a path.
//!
//! Loading re-creates an instance of the recorded class and then narrows
//! it to the requested class against the inheritance relation; saving
//! records the instance's dynamic class under the path.

use vstd::prelude::*;

use crate::errors::{GdIoError, GlobalError};
use crate::generator::{class_policy, inherits_or_is, MemoryPolicy};
use crate::runtime::{Gd, HostRuntime, Instance, ResourceEntry};
use crate::schema::{str_eq, ApiModel};

verus! {

/// The first saved resource carrying the given path.
pub open spec fn find_resource_spec(rs: Seq<ResourceEntry>, path: Seq<char>) -> Option<int>
    decreases rs.len(),
{
    if rs.len() == 0 {
        None
    } else if rs[0].path@ == path {
        Some(0)
    } else {
        match find_resource_spec(rs.drop_first(), path) {
            Some(t) => Some(t + 1),
            None => None,
        }
    }
}

proof fn lemma_find_resource_spec(rs: Seq<ResourceEntry>, path: Seq<char>)
    ensures
        match find_resource_spec(rs, path) {
            Some(t) => 0 <= t < rs.len() && rs[t].path@ == path && (forall|u: int|
                0 <= u < t ==> (#[trigger] rs[u]).path@ != path),
            None => forall|u: int| 0 <= u < rs.len() ==> (#[trigger] rs[u]).path@ != path,
        },
    decreases rs.len(),
{
    if rs.len() > 0 && rs[0].path@ != path {
        lemma_find_resource_spec(rs.drop_first(), path);
        match find_resource_spec(rs.drop_first(), path) {
            Some(t) => {
                assert(rs.drop_first()[t] == rs[t + 1]);
                assert forall|u: int| 0 <= u < t + 1 implies (#[trigger] rs[u]).path@ != path by {
                    if u > 0 {
                        assert(rs.drop_first()[u - 1] == rs[u]);
                    }
                }
            },
            None => {
                assert forall|u: int| 0 <= u < rs.len() implies (#[trigger] rs[u]).path@
                    != path by {
                    if u > 0 {
                        assert(rs.drop_first()[u - 1] == rs[u]);
                    }
                }
            },
        }
    }
}

fn find_resource(rs: &Vec<ResourceEntry>, path: &String) -> (res: Option<usize>)
    ensures
        match res {
            Some(t) => find_resource_spec(rs@, path@) == Some(t as int),
            None => find_resource_spec(rs@, path@) is None,
        },
{
    proof {
        lemma_find_resource_spec(rs@, path@);
    }
    let mut t: usize = 0;
    while t < rs.len()
        invariant
            t <= rs.len(),
            forall|u: int| 0 <= u < t ==> (#[trigger] rs@[u]).path@ != path@,
            match find_resource_spec(rs@, path@) {
                Some(t2) => 0 <= t2 < rs@.len() && rs@[t2].path@ == path@ && (forall|u: int|
                    0 <= u < t2 ==> (#[trigger] rs@[u]).path@ != path@),
                None => forall|u: int| 0 <= u < rs@.len() ==> (#[trigger] rs@[u]).path@ != path@,
            },
        decreases rs.len() - t,
    {
        if str_eq(&rs[t].path, path) {
            proof {
                match find_resource_spec(rs@, path@) {
                    Some(t2) => {
                        if t2 < t as int {
                            assert(false);
                        }
                        if t2 > t as int {
                            assert(rs@[t as int].path@ != path@);
                        }
                    },
                    None => {
                        assert(rs@[t as int].path@ != path@);
                    },
                }
            }
            return Some(t);
        }
        t = t + 1;
    }
    None
}

/// What a successful save leaves in the resource registry: the path now
/// records the given class, and every other entry is untouched.
pub open spec fn resource_recorded(
    old_rs: Seq<ResourceEntry>,
    new_rs: Seq<ResourceEntry>,
    path: Seq<char>,
    class: int,
) -> bool {
    match find_resource_spec(old_rs, path) {
        Some(t) => {
            &&& new_rs.len() == old_rs.len()
            &&& new_rs[t].path@ == path
            &&& new_rs[t].class_id == class
            &&& forall|u: int| 0 <= u < old_rs.len() && u != t ==> new_rs[u] == old_rs[u]
        },
        None => {
            &&& new_rs.len() == old_rs.len() + 1
            &&& new_rs[old_rs.len() as int].path@ == path
            &&& new_rs[old_rs.len() as int].class_id == class
            &&& forall|u: int| 0 <= u < old_rs.len() ==> new_rs[u] == old_rs[u]
        },
    }
}

/// Loads the resource at `path` as a fresh instance, narrowed to the
/// requested class: the class recorded at the path must be that class or
/// one of its descendants, else the un-narrowed handle comes back in the
/// error.
pub fn load_impl(rt: &mut HostRuntime, m: &ApiModel, path: &String, target_class: usize) -> (res:
    Result<Gd, GdIoError>)
    requires
        m.wf(),
        old(rt).wf(*m),
        target_class < m.classes@.len(),
    ensures
        final(rt).wf(*m),
        final(rt).resources@ == old(rt).resources@,
        match res {
            Ok(g) => match find_resource_spec(old(rt).resources@, path@) {
                Some(t) => {
                    &&& inherits_or_is(
                        m.classes@,
                        old(rt).resources@[t].class_id as int,
                        target_class as int,
                    )
                    &&& g.object_ptr == old(rt).instances@.len()
                    &&& g.class_id == target_class
                    &&& final(rt).live(g.object_ptr as int)
                    &&& final(rt).class_of(g.object_ptr as int) == old(
                        rt,
                    ).resources@[t].class_id as int
                },
                None => false,
            },
            Err(GdIoError::ResourceNotFound) => {
                &&& find_resource_spec(old(rt).resources@, path@) is None
                &&& final(rt).instances@ == old(rt).instances@
            },
            Err(GdIoError::ResourceCantCast(g)) => match find_resource_spec(
                old(rt).resources@,
                path@,
            ) {
                Some(t) => {
                    &&& !inherits_or_is(
                        m.classes@,
                        old(rt).resources@[t].class_id as int,
                        target_class as int,
                    )
                    &&& g.object_ptr == old(rt).instances@.len()
                    &&& g.class_id == old(rt).resources@[t].class_id
                },
                None => false,
            },
            Err(_) => false,
        },
{
    match find_resource(&rt.resources, path) {
        None => Err(GdIoError::ResourceNotFound),
        Some(t) => {
            proof {
                lemma_find_resource_spec(rt.resources@, path@);
            }
            let class_id = rt.resources[t].class_id;
            let policy = class_policy(m, class_id);
            let count: i32 = match policy {
                MemoryPolicy::DynamicRefCount => 1,
                _ => 0,
            };
            let ptr = rt.instances.len();
            rt.instances.push(Some(Instance { class_id, ref_count: count }));
            let loaded = Gd { object_ptr: ptr, class_id };
            match loaded.try_cast(rt, m, target_class) {
                Ok(g) => Ok(g),
                Err(_) => Err(GdIoError::ResourceCantCast(Gd { object_ptr: ptr, class_id })),
            }
        },
    }
}

/// Records the instance behind a live handle under `path`; a dead handle
/// makes the host runtime refuse the request.
pub fn save_impl(rt: &mut HostRuntime, m: &ApiModel, obj: &Gd, path: &String) -> (res: Result<
    (),
    GdIoError,
>)
    requires
        m.wf(),
        old(rt).wf(*m),
    ensures
        final(rt).wf(*m),
        final(rt).instances@ == old(rt).instances@,
        match res {
            Ok(()) => {
                &&& old(rt).live(obj.object_ptr as int)
                &&& resource_recorded(
                    old(rt).resources@,
                    final(rt).resources@,
                    path@,
                    old(rt).class_of(obj.object_ptr as int),
                )
            },
            Err(GdIoError::ResourceSave(code)) => {
                &&& !old(rt).live(obj.object_ptr as int)
                &&& code == GlobalError::FAILED
                &&& final(rt).resources@ == old(rt).resources@
            },
            Err(_) => false,
        },
{
    let live = obj.object_ptr < rt.instances.len() && rt.instances[obj.object_ptr].is_some();
    if !live {
        return Err(GdIoError::ResourceSave(GlobalError::FAILED));
    }
    let class_id = rt.dynamic_class(obj);
    match find_resource(&rt.resources, path) {
        Some(t) => {
            proof {
                lemma_find_resource_spec(rt.resources@, path@);
            }
            rt.resources.set(t, ResourceEntry { path: path.clone(), class_id });
        },
        None => {
            rt.resources.push(ResourceEntry { path: path.clone(), class_id });
        },
    }
    Ok(())
}

/// Loads the resource at `path` as a handle of the requested class.
///
/// The thin convenience over `load_impl` for callers that know the path
/// is recorded and fits: exactly those inputs are admitted, so the load
/// cannot fail.
pub fn load(rt: &mut HostRuntime, m: &ApiModel, path: &String, target_class: usize) -> (g: Gd)
    requires
        m.wf(),
        old(rt).wf(*m),
        target_class < m.classes@.len(),
        find_resource_spec(old(rt).resources@, path@) matches Some(t) && inherits_or_is(
            m.classes@,
            old(rt).resources@[t].class_id as int,
            target_class as int,
        ),
    ensures
        final(rt).wf(*m),
        final(rt).resources@ == old(rt).resources@,
        g.object_ptr == old(rt).instances@.len(),
        g.class_id == target_class,
        final(rt).live(g.object_ptr as int),
{
    match load_impl(rt, m, path, target_class) {
        Ok(g) => g,
        Err(_) => Gd { object_ptr: 0, class_id: 0 },
    }
}

/// Loads the resource at `path`, reporting a missing path or a class
/// mismatch as an error.
pub fn try_load(rt: &mut HostRuntime, m: &ApiModel, path: &String, target_class: usize) -> (res:
    Result<Gd, GdIoError>)
    requires
        m.wf(),
        old(rt).wf(*m),
        target_class < m.classes@.len(),
    ensures
        final(rt).wf(*m),
        final(rt).resources@ == old(rt).resources@,
        match res {
            Ok(g) => match find_resource_spec(old(rt).resources@, path@) {
                Some(t) => {
                    &&& inherits_or_is(
                        m.classes@,
                        old(rt).resources@[t].class_id as int,
                        target_class as int,
                    )
                    &&& g.class_id == target_class
                    &&& final(rt).live(g.object_ptr as int)
                },
                None => false,
            },
            Err(GdIoError::ResourceNotFound) => find_resource_spec(
                old(rt).resources@,
                path@,
            ) is None,
            Err(GdIoError::ResourceCantCast(_)) => true,
            Err(_) => false,
        },
{
    load_impl(rt, m, path, target_class)
}

/// Records a live instance under `path`. Exactly the live handles are
/// admitted, so the save cannot fail.
pub fn save(rt: &mut HostRuntime, m: &ApiModel, obj: &Gd, path: &String)
    requires
        m.wf(),
        old(rt).wf(*m),
        old(rt).live(obj.object_ptr as int),
    ensures
        final(rt).wf(*m),
        final(rt).instances@ == old(rt).instances@,
        resource_recorded(
            old(rt).resources@,
            final(rt).resources@,
            path@,
            old(rt).class_of(obj.object_ptr as int),
        ),
{
    match save_impl(rt, m, obj, path) {
        Ok(()) => {},
        Err(_) => {},
    }
}

/// Records a live instance under `path`, reporting a dead handle as an
/// error.
pub fn try_save(rt: &mut HostRuntime, m: &ApiModel, obj: &Gd, path: &String) -> (res: Result<
    (),
    GdIoError,
>)
    requires
        m.wf(),
        old(rt).wf(*m),
    ensures
        final(rt).wf(*m),
        final(rt).instances@ == old(rt).instances@,
        match res {
            Ok(()) => old(rt).live(obj.object_ptr as int) && resource_recorded(
                old(rt).resources@,
                final(rt).resources@,
                path@,
                old(rt).class_of(obj.object_ptr as int),
            ),
            Err(GdIoError::ResourceSave(code)) => !old(rt).live(obj.object_ptr as int) && code
                == GlobalError::FAILED && final(rt).resources@ == old(rt).resources@,
            Err(_) => false,
        },
{
    save_impl(rt, m, obj, path)
}

} // verus!
