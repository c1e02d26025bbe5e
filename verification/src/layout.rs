//! Element metadata fixed at construction: a runtime type-identity token
//! together with the byte layout of the element type it stands for.

use vstd::prelude::*;

verus! {

/// Describes the one element type an [`crate::erased::ErasedVec`] holds:
/// an opaque identity token, compared by value to enforce that every typed
/// operation names the same type the container was built for, plus the
/// element's byte size and alignment.
#[derive(Clone, Copy, PartialEq, Eq, Structural, Debug)]
pub struct ElemLayout {
    /// Opaque runtime type-identity token, compared by value.
    pub type_id: u64,
    /// Size of one element in bytes; one buffer slot is this wide.
    pub size: usize,
    /// Alignment the element type requires of its storage.
    pub align: usize,
}

/// Handle for the process-wide default allocator. Containers built through
/// the plain constructors carry this handle; an alternative capability can
/// be injected through the `_in` constructors instead.
#[derive(Clone, Copy, PartialEq, Eq, Structural, Debug)]
pub struct Global;

} // verus!
