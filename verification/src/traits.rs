//! The static-world interface of generated classes: the traits a generated
//! handle type and its class carry, and the marker types naming the three
//! memory policies.

use vstd::prelude::*;

use crate::declarer::ClassDeclarer;
use crate::declarer;
use crate::generator::MemoryPolicy;

verus! {

/// A memory-policy marker attached to generated classes.
pub trait Memory {
    /// The policy this marker names.
    fn policy() -> (p: MemoryPolicy);
}

/// Marker for classes assumed immortal for the life of the process.
pub struct StaticRefCount {}

impl Memory for StaticRefCount {
    fn policy() -> (p: MemoryPolicy)
        ensures
            p == MemoryPolicy::Static,
    {
        MemoryPolicy::Static
    }
}

/// Marker for classes whose instances carry a live reference count.
pub struct DynamicRefCount {}

impl Memory for DynamicRefCount {
    fn policy() -> (p: MemoryPolicy)
        ensures
            p == MemoryPolicy::DynamicRefCount,
    {
        MemoryPolicy::DynamicRefCount
    }
}

/// Marker for classes destroyed only by an explicit destroy call.
pub struct ManualMemory {}

impl Memory for ManualMemory {
    fn policy() -> (p: MemoryPolicy)
        ensures
            p == MemoryPolicy::Manual,
    {
        MemoryPolicy::Manual
    }
}

/// What every handle over a host-runtime-defined class exposes: its opaque
/// object pointer, and the same pointer in the shape a host call expects.
pub trait EngineClass {
    fn as_object_ptr(&self) -> usize;

    fn as_type_ptr(&self) -> usize;
}

impl EngineClass for crate::runtime::Gd {
    fn as_object_ptr(&self) -> (p: usize)
        ensures
            p == self.object_ptr,
    {
        self.object_ptr
    }

    fn as_type_ptr(&self) -> (p: usize)
        ensures
            p == self.object_ptr,
    {
        self.object_ptr
    }
}

/// A generated class: its base class, its declarer strategy, and its name
/// in the host runtime's hierarchy.
pub trait GodotClass: Sized {
    /// The direct base class; the root sentinel `()` has itself.
    type Base;

    type Declarer: ClassDeclarer;

    fn class_name() -> String;
}

/// The implicit root sentinel at the top of every inheritance chain: the
/// "class" that classes without a parent inherit.
impl GodotClass for () {
    type Base = ();

    type Declarer = declarer::EngineClass;

    fn class_name() -> (s: String)
        ensures
            s@ == "(no base)"@,
    {
        "(no base)".to_owned()
    }
}

/// A generated class whose constructor entry the host runtime exposes.
pub trait DefaultConstructible: GodotClass {
    fn construct(base: usize) -> Self;
}

/// A type `Derived` implementing `Inherits<Base>` expresses that `Derived`
/// inherits `Base` in the host runtime's hierarchy.
///
/// The generator emits this fact for every transitive ancestor, not only
/// the direct parent, which is what makes upcasts a pure type-level step.
pub trait Inherits<Base> {

}

} // verus!
