//! Layouts of blocks of memory that no single type describes: structs that
//! are put together while the program runs, rows of a length that is known
//! only then, and structs whose fields are values behind an interface.
//!
//! `layout` computes sizes, alignments and offsets. `raw_struct` decides
//! what is asked of an allocator for such a block, and keeps a block together
//! with the builder that describes it.

use vstd::prelude::*;

pub mod layout;
pub mod raw_struct;

use layout::{Layout, ToLayout};

verus! {

/// What stands for a type behind an interface: the layout of the type, and
/// the table through which the interface is called on a value of it.
///
/// The table is carried and never looked into. Only the layout places a
/// field.
#[derive(Debug)]
pub struct DispatchDescriptor<T> {
    layout: Layout,
    table: T,
}

impl<T> DispatchDescriptor<T> {
    /// The table that came with the descriptor.
    pub closed spec fn spec_table(&self) -> T {
        self.table
    }

    /// The table that came with the descriptor.
    pub fn table(&self) -> (table: &T)
        ensures
            *table == self.spec_table(),
    {
        &self.table
    }
}

impl<T> ToLayout for DispatchDescriptor<T> {
    closed spec fn spec_layout(&self) -> Layout {
        self.layout
    }

    fn to_layout(&self) -> (l: Layout) {
        self.layout
    }
}

/// The descriptor of the type `U` behind an interface: the layout of `U`,
/// with the table through which the interface is called on a `U`.
pub fn dyn_metadata<U, T>(table: T) -> (descriptor: DispatchDescriptor<T>)
    ensures
        descriptor.spec_layout() == Layout::spec_new::<U>(),
        descriptor.spec_table() == table,
{
    DispatchDescriptor { layout: Layout::new::<U>(), table }
}

/// A struct whose fields are values behind an interface, each described by
/// its descriptor. The fields are placed as those of any `Struct`.
pub type HollowStruct<T> = layout::composite::Struct<DispatchDescriptor<T>>;

} // verus!
