use super::rounding::{align_up, lemma_pow2_positive};
use super::{Alignment, Layout, LayoutError, ToLayout, TryToLayout};
use std::marker::PhantomData;
use vstd::prelude::*;

verus! {

/// The layout of the type `T`, as a builder.
pub struct TypeLayout<T>(PhantomData<T>);

impl<T> TypeLayout<T> {
    pub fn new() -> (s: Self)
        ensures
            s.spec_layout() == Layout::spec_new::<T>(),
    {
        Self(PhantomData)
    }
}

impl<T> ToLayout for TypeLayout<T> {
    open spec fn spec_layout(&self) -> Layout {
        Layout::spec_new::<T>()
    }

    fn to_layout(&self) -> (l: Layout) {
        Layout::new::<T>()
    }
}

/// A block of a size and an alignment that are known only when the program
/// runs, and of at least one byte.
#[derive(Debug)]
pub struct NonZst {
    size: usize,
    align: Alignment,
}

impl NonZst {
    /// The size in bytes.
    pub closed spec fn size(&self) -> usize {
        self.size
    }

    /// The alignment in bytes.
    pub closed spec fn align(&self) -> usize {
        self.align.get()
    }

    #[verifier::type_invariant]
    pub open spec fn is_valid(&self) -> bool {
        &&& self.size() != 0
        &&& Layout::valid(self.size(), self.align())
    }

    /// The block of `size` bytes aligned to `align`: `InvalidAlignment` where
    /// `align` is no power of two, else `SizeOverflow` where `size` rounded up
    /// to `align` exceeds `isize::MAX`.
    pub fn new(size: usize, align: usize) -> (r: Result<NonZst, LayoutError>)
        requires
            size != 0,
        ensures
            match Layout::spec_from_size_align(size, align) {
                Ok(_) => r matches Ok(leaf) && leaf.size() == size && leaf.align() == align,
                Err(e) => r matches Err(err) && err == e,
            },
    {
        let checked = match Alignment::new(align) {
            Ok(checked) => checked,
            Err(e) => { return Err(e); },
        };
        match Layout::from_size_align(size, align) {
            Ok(_) => Ok(NonZst { size, align: checked }),
            Err(e) => Err(e),
        }
    }
}

impl TryToLayout for NonZst {
    type Error = LayoutError;

    open spec fn spec_try_layout(&self) -> Result<Layout, LayoutError> {
        Layout::spec_from_size_align(self.size(), self.align())
    }

    fn try_to_layout(&self) -> (r: Result<Layout, LayoutError>) {
        Layout::from_size_align(self.size, self.align.get())
    }
}

/// A block of no bytes with an alignment that is known only when the program
/// runs.
#[derive(Debug)]
pub struct Zst {
    align: Alignment,
}

impl Zst {
    /// The alignment in bytes.
    pub closed spec fn align(&self) -> usize {
        self.align.get()
    }

    #[verifier::type_invariant]
    pub open spec fn is_valid(&self) -> bool {
        Layout::valid(0, self.align())
    }

    /// The empty block aligned to `align`.
    pub fn new(align: Alignment) -> (leaf: Zst)
        ensures
            leaf.align() == align.get(),
    {
        proof {
            use_type_invariant(&align);
            lemma_pow2_positive(align.get() as int);
            assert(align_up(0, align.get() as int) == 0);
        }
        Zst { align }
    }
}

impl ToLayout for Zst {
    open spec fn spec_layout(&self) -> Layout {
        Layout::of(0, self.align())
    }

    fn to_layout(&self) -> (l: Layout) {
        proof {
            use_type_invariant(self);
        }
        Layout::from_valid_parts(0, self.align.get())
    }
}

} // verus!
