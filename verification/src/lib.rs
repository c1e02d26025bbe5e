//! A type-erased, growable array container.
//!
//! An [`erased::ErasedVec`] stores values of a single element type chosen at
//! construction time but not known to the container's own type signature.
//! Elements travel across the API as raw byte blocks of a fixed width; a
//! runtime type-identity token, recorded at construction, ties every
//! operation back to the one element type the instance was built for.

pub mod layout;
pub mod erased;
