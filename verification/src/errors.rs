//! Error types of the handle model's host-facing conveniences, and the
//! advisory uniqueness check over reference-counted instances.

use vstd::prelude::*;

use crate::generator::{policy_of, MemoryPolicy};
use crate::runtime::{Gd, HostRuntime};
use crate::schema::ApiModel;

verus! {

/// A result code the host runtime reports for a save request.
#[allow(non_camel_case_types)]
#[derive(Debug, Clone, Copy, PartialEq, Eq, Structural)]
pub enum GlobalError {
    OK,
    FAILED,
}

/// Error during I-O operations against the host runtime's resource layer.
#[derive(Debug)]
pub enum GdIoError {
    /// No resource is recorded at the requested path.
    ResourceNotFound,
    /// The loaded resource's dynamic class does not fit the requested
    /// class; carries the un-narrowed handle.
    ResourceCantCast(Gd),
    /// The host runtime refused the save request with this code.
    ResourceSave(GlobalError),
    /// A file handle was used without being open.
    FileNotOpen,
    /// A file handle's backing reference was not unique.
    FileAccessReference(NotUniqueError),
}

impl GdIoError {
    /// A plain-text rendering of the error.
    pub fn message(&self) -> (s: String)
        ensures
            s@ == "no ok"@,
    {
        "no ok".to_owned()
    }
}

/// Error stemming from the non-uniqueness of a handle: the instance's live
/// count was not exactly one at the moment of the check.
#[derive(Debug)]
pub struct NotUniqueError {
    reference_count: i32,
}

impl NotUniqueError {
    /// The count the failed check observed.
    pub closed spec fn spec_reference_count(&self) -> i32 {
        self.reference_count
    }

    /// Checks that the handle is the only live reference to its instance.
    ///
    /// The check is advisory: it reflects the live count at the moment of
    /// the call. With a count of exactly one it hands the same handle
    /// back; otherwise it fails, carrying the observed count.
    pub fn check(rt: &HostRuntime, m: &ApiModel, rc: Gd) -> (res: Result<Gd, NotUniqueError>)
        requires
            m.wf(),
            rt.wf(*m),
            rt.live(rc.object_ptr as int),
            policy_of(*m, rt.class_of(rc.object_ptr as int)) == MemoryPolicy::DynamicRefCount,
        ensures
            match res {
                Ok(g) => {
                    &&& rt.count_of(rc.object_ptr as int) == 1
                    &&& g.object_ptr == rc.object_ptr
                    &&& g.class_id == rc.class_id
                },
                Err(e) => {
                    &&& rt.count_of(rc.object_ptr as int) != 1
                    &&& e.spec_reference_count() == rt.count_of(rc.object_ptr as int)
                },
            },
    {
        let reference_count = rt.get_reference_count(&rc);
        if reference_count != 1 {
            Err(NotUniqueError { reference_count })
        } else {
            Ok(rc)
        }
    }

    /// Get the detected reference count.
    pub fn get_reference_count(&self) -> (c: i32)
        ensures
            c == self.spec_reference_count(),
    {
        self.reference_count
    }

    /// A plain-text rendering of the error.
    pub fn message(&self) -> (s: String)
        ensures
            s@ == "pointer is not unique"@,
    {
        "pointer is not unique".to_owned()
    }
}

} // verus!
