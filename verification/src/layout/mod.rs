use std::convert::Infallible;
use vstd::arithmetic::power2::is_pow2;
use vstd::layout::layout_for_type_is_valid;
use vstd::prelude::*;

pub mod composite;
pub mod primitive;
pub mod rounding;

pub use composite::Array;
pub use composite::Field;
pub use composite::Multi;
pub use composite::Slice;
pub use composite::Struct;
pub use primitive::NonZst;
pub use primitive::TypeLayout;
pub use primitive::Zst;

use rounding::{
    align_up, is_power_of_two, lemma_align_up_bounds, lemma_fits_isize, lemma_max_align,
    lemma_multiple_times, lemma_pow2_positive, max_align, round_up,
};

verus! {

/// Why a layout cannot be had.
#[derive(Clone, Copy, Debug, PartialEq, Eq, Structural)]
pub enum LayoutError {
    /// The alignment is zero or not a power of two.
    InvalidAlignment,
    /// The size, once rounded up, repeated or accumulated, exceeds `isize::MAX`.
    SizeOverflow,
}

/// The size and alignment of a block of memory.
///
/// The alignment is a power of two, and the size rounded up to a multiple of
/// the alignment does not exceed `isize::MAX`. Both are fixed when the value
/// is made.
#[derive(Clone, Copy, Debug, PartialEq, Eq, Structural)]
pub struct Layout {
    size: usize,
    align: usize,
}

impl Layout {
    /// The size in bytes.
    pub closed spec fn spec_size(&self) -> usize {
        self.size
    }

    /// The alignment in bytes.
    pub closed spec fn spec_align(&self) -> usize {
        self.align
    }

    /// The layout with the given size and alignment, valid or not.
    pub closed spec fn of(size: usize, align: usize) -> Layout {
        Layout { size, align }
    }

    /// What every layout that executable code holds satisfies.
    #[verifier::type_invariant]
    pub open spec fn is_valid(&self) -> bool {
        Self::valid(self.size(), self.align())
    }

    /// Whether `size` and `align` make a layout.
    pub open spec fn valid(size: usize, align: usize) -> bool {
        &&& is_pow2(align as int)
        &&& align_up(size as int, align as int) <= isize::MAX
    }

    /// The sizes and alignments that make a layout here are those that make
    /// one for the allocator of the standard library.
    pub proof fn lemma_valid_for_std(size: usize, align: usize)
        ensures
            Self::valid(size, align) == vstd::layout::valid_layout(size, align),
    {
        if is_pow2(align as int) {
            lemma_fits_isize(size, align);
        }
    }

    /// A layout is its size and its alignment, nothing else.
    pub proof fn lemma_of(size: usize, align: usize)
        ensures
            Self::of(size, align).size() == size,
            Self::of(size, align).align() == align,
    {
    }

    /// Layouts with the same size and alignment are the same layout.
    pub proof fn lemma_same(self, other: Layout)
        requires
            self.size() == other.size(),
            self.align() == other.align(),
        ensures
            self == other,
    {
    }

    /// What `from_size_align` returns.
    pub open spec fn spec_from_size_align(size: usize, align: usize) -> Result<
        Layout,
        LayoutError,
    > {
        if !is_pow2(align as int) {
            Err(LayoutError::InvalidAlignment)
        } else if align_up(size as int, align as int) > isize::MAX {
            Err(LayoutError::SizeOverflow)
        } else {
            Ok(Self::of(size, align))
        }
    }

    /// The layout of the given size and alignment: `InvalidAlignment` where
    /// `align` is no power of two, else `SizeOverflow` where `size` rounded up
    /// to `align` exceeds `isize::MAX`.
    pub fn from_size_align(size: usize, align: usize) -> (r: Result<Layout, LayoutError>)
        ensures
            r == Self::spec_from_size_align(size, align),
            r matches Ok(l) ==> l.size() == size && l.align() == align,
    {
        if !is_power_of_two(align) {
            return Err(LayoutError::InvalidAlignment);
        }
        proof {
            lemma_pow2_positive(align as int);
        }
        match round_up(size, align) {
            Some(padded) => {
                if padded > isize::MAX as usize {
                    Err(LayoutError::SizeOverflow)
                } else {
                    Ok(Layout { size, align })
                }
            },
            None => Err(LayoutError::SizeOverflow),
        }
    }

    /// The layout of the given size and alignment, which the caller has shown
    /// to make one.
    pub(crate) fn from_valid_parts(size: usize, align: usize) -> (l: Layout)
        requires
            Self::valid(size, align),
        ensures
            l == Self::of(size, align),
            l.size() == size,
            l.align() == align,
    {
        Layout { size, align }
    }

    /// The layout of the type `T`.
    pub closed spec fn spec_new<T>() -> Layout {
        Layout {
            size: vstd::layout::size_of::<T>() as usize,
            align: vstd::layout::align_of::<T>() as usize,
        }
    }

    /// The layout of `T` has the size and the alignment of `T`.
    pub proof fn lemma_new<T>()
        ensures
            Self::spec_new::<T>().size() == vstd::layout::size_of::<T>() as usize,
            Self::spec_new::<T>().align() == vstd::layout::align_of::<T>() as usize,
    {
    }

    /// The layout of a value of type `T`.
    pub fn new<T>() -> (l: Layout)
        ensures
            l == Self::spec_new::<T>(),
            l.size() == vstd::layout::size_of::<T>(),
            l.align() == vstd::layout::align_of::<T>(),
    {
        layout_for_type_is_valid::<T>();
        let size = core::mem::size_of::<T>();
        let align = core::mem::align_of::<T>();
        assert(align_up(size as int, align as int) == size);
        Layout { size, align }
    }

    #[verifier::when_used_as_spec(spec_size)]
    pub fn size(&self) -> (s: usize)
        ensures
            s == self.size(),
    {
        self.size
    }

    #[verifier::when_used_as_spec(spec_align)]
    pub fn align(&self) -> (a: usize)
        ensures
            a == self.align(),
    {
        self.align
    }

    /// This layout with its size rounded up to a multiple of its alignment.
    pub open spec fn spec_pad_to_align(&self) -> Layout {
        Self::of(align_up(self.size() as int, self.align() as int) as usize, self.align())
    }

    /// Adds the trailing padding: the size becomes the next multiple of the
    /// alignment, the alignment stays.
    pub fn pad_to_align(&self) -> (l: Layout)
        ensures
            l == self.spec_pad_to_align(),
            l.size() == align_up(self.size() as int, self.align() as int),
            l.align() == self.align(),
    {
        proof {
            use_type_invariant(self);
            lemma_pow2_positive(self.align as int);
            lemma_align_up_bounds(self.size as int, self.align as int);
        }
        match round_up(self.size, self.align) {
            Some(padded) => Layout { size: padded, align: self.align },
            None => *self,
        }
    }

    /// Padding a layout gives a layout whose size is a multiple of its
    /// alignment, not smaller than before, and larger by less than the
    /// alignment.
    pub proof fn lemma_pad_to_align(self)
        requires
            self.is_valid(),
        ensures
            self.spec_pad_to_align().is_valid(),
            self.spec_pad_to_align().align() == self.align(),
            self.spec_pad_to_align().size() % self.align() == 0,
            self.size() <= self.spec_pad_to_align().size() < self.size() + self.align(),
    {
        lemma_pow2_positive(self.align as int);
        lemma_align_up_bounds(self.size as int, self.align as int);
    }

    /// Where `next` starts when it is placed behind a block of this layout.
    pub open spec fn offset_of_next(&self, next: Layout) -> int {
        align_up(self.size() as int, next.align() as int)
    }

    /// The size of this block followed by `next`, without trailing padding.
    pub open spec fn size_with_next(&self, next: Layout) -> int {
        self.offset_of_next(next) + next.size()
    }

    /// The alignment of this block followed by `next`.
    pub open spec fn align_with_next(&self, next: Layout) -> int {
        max_align(self.align() as int, next.align() as int)
    }

    /// What `extend` returns.
    pub open spec fn spec_extend(&self, next: Layout) -> Result<(Layout, usize), LayoutError> {
        if align_up(self.size_with_next(next), self.align_with_next(next)) > isize::MAX {
            Err(LayoutError::SizeOverflow)
        } else {
            Ok(
                (
                    Self::of(
                        self.size_with_next(next) as usize,
                        self.align_with_next(next) as usize,
                    ),
                    self.offset_of_next(next) as usize,
                ),
            )
        }
    }

    /// The layout of a block of this layout followed by one of `next`, with
    /// the padding that aligns `next` and none behind it, and the offset of
    /// `next` in it. `SizeOverflow` where the result would be no layout.
    pub fn extend(&self, next: Layout) -> (r: Result<(Layout, usize), LayoutError>)
        ensures
            r == self.spec_extend(next),
            r matches Ok((l, offset)) ==> {
                &&& offset == self.offset_of_next(next)
                &&& l.size() == self.size_with_next(next)
                &&& l.align() == self.align_with_next(next)
            },
    {
        proof {
            use_type_invariant(self);
            use_type_invariant(&next);
            lemma_pow2_positive(self.align as int);
            lemma_pow2_positive(next.align as int);
            lemma_max_align(self.align as int, next.align as int);
            lemma_align_up_bounds(self.size as int, next.align as int);
            lemma_align_up_bounds(
                self.size_with_next(next),
                self.align_with_next(next),
            );
        }
        let align: usize = if self.align >= next.align {
            self.align
        } else {
            next.align
        };
        let offset: usize = match round_up(self.size, next.align) {
            Some(offset) => offset,
            None => { return Err(LayoutError::SizeOverflow); },
        };
        let size: usize = match offset.checked_add(next.size) {
            Some(size) => size,
            None => { return Err(LayoutError::SizeOverflow); },
        };
        match round_up(size, align) {
            Some(padded) => {
                if padded > isize::MAX as usize {
                    Err(LayoutError::SizeOverflow)
                } else {
                    Ok((Layout { size, align }, offset))
                }
            },
            None => Err(LayoutError::SizeOverflow),
        }
    }

    /// Where `extend` succeeds, the second block starts at a multiple of its
    /// alignment, not before the end of the first, and the whole is a layout
    /// that ends with the second block and is aligned as the stricter of the
    /// two.
    pub proof fn lemma_extend(self, next: Layout)
        requires
            self.is_valid(),
            next.is_valid(),
        ensures
            self.spec_extend(next) matches Ok((l, offset)) ==> {
                &&& l.is_valid()
                &&& offset % next.align() == 0
                &&& self.size() <= offset < self.size() + next.align()
                &&& l.size() == offset + next.size()
                &&& l.align() == max_align(self.align() as int, next.align() as int)
            },
            self.spec_extend(next) is Err <==> align_up(
                align_up(self.size() as int, next.align() as int) + next.size(),
                max_align(self.align() as int, next.align() as int),
            ) > isize::MAX,
    {
        lemma_pow2_positive(self.align as int);
        lemma_pow2_positive(next.align as int);
        lemma_max_align(self.align as int, next.align as int);
        lemma_align_up_bounds(self.size as int, next.align as int);
        lemma_align_up_bounds(self.size_with_next(next), self.align_with_next(next));
    }

    /// The distance between two neighbours in a row of blocks of this layout.
    pub open spec fn stride(&self) -> int {
        align_up(self.size() as int, self.align() as int)
    }

    /// What `repeat` returns.
    pub open spec fn spec_repeat(&self, n: usize) -> Result<(Layout, usize), LayoutError> {
        if n * self.stride() > isize::MAX {
            Err(LayoutError::SizeOverflow)
        } else {
            Ok((Self::of((n * self.stride()) as usize, self.align()), self.stride() as usize))
        }
    }

    /// Where `repeat` succeeds, the row is a layout of `n` times the padded
    /// size of one block, aligned as one block.
    pub proof fn lemma_repeat(self, n: usize)
        requires
            self.is_valid(),
        ensures
            self.spec_repeat(n) matches Ok((l, stride)) ==> {
                &&& l.is_valid()
                &&& stride == align_up(self.size() as int, self.align() as int)
                &&& l.size() == n * stride
                &&& l.align() == self.align()
            },
            self.spec_repeat(n) is Err <==> n * align_up(self.size() as int, self.align() as int)
                > isize::MAX,
    {
        lemma_pow2_positive(self.align as int);
        lemma_align_up_bounds(self.size as int, self.align as int);
        lemma_multiple_times(self.stride(), n as int, self.align as int);
        assert(0 <= n * self.stride()) by (nonlinear_arith)
            requires
                0 <= self.stride(),
                0 <= n,
        ;
    }

    /// The layout of `n` blocks of this layout in a row, each padded so that
    /// the next one is aligned, and the distance between two of them.
    /// `SizeOverflow` where the row is longer than `isize::MAX`.
    pub fn repeat(&self, n: usize) -> (r: Result<(Layout, usize), LayoutError>)
        ensures
            r == self.spec_repeat(n),
            r matches Ok((l, stride)) ==> {
                &&& stride == self.stride()
                &&& l.size() == n * self.stride()
                &&& l.align() == self.align()
            },
    {
        let padded = self.pad_to_align();
        proof {
            use_type_invariant(self);
            lemma_pow2_positive(self.align as int);
            lemma_align_up_bounds(self.size as int, self.align as int);
            lemma_multiple_times(padded.size as int, n as int, self.align as int);
            assert(padded.size * n == n * self.stride()) by (nonlinear_arith)
                requires
                    padded.size == self.stride(),
            ;
        }
        match padded.size.checked_mul(n) {
            Some(size) => {
                if size > isize::MAX as usize {
                    Err(LayoutError::SizeOverflow)
                } else {
                    Ok((Layout { size, align: self.align }, padded.size))
                }
            },
            None => Err(LayoutError::SizeOverflow),
        }
    }
}

/// An error that can be reported as a `LayoutError`.
///
/// The builders that combine other builders accept any field whose error
/// converts this way, so that a field that cannot fail and one that can are
/// pushed by the same code.
pub trait IntoLayoutError: Sized {
    /// The `LayoutError` that this error stands for.
    spec fn spec_into_layout_error(self) -> LayoutError;

    fn into_layout_error(self) -> (e: LayoutError)
        ensures
            e == self.spec_into_layout_error(),
    ;
}

impl IntoLayoutError for LayoutError {
    open spec fn spec_into_layout_error(self) -> LayoutError {
        self
    }

    fn into_layout_error(self) -> (e: LayoutError) {
        self
    }
}

/// `Infallible` has no value, so nothing is ever converted here.
impl IntoLayoutError for Infallible {
    open spec fn spec_into_layout_error(self) -> LayoutError {
        LayoutError::SizeOverflow
    }

    fn into_layout_error(self) -> (e: LayoutError) {
        LayoutError::SizeOverflow
    }
}

/// A power of two, as an alignment has to be.
#[derive(Clone, Copy, Debug, PartialEq, Eq, Structural)]
pub struct Alignment(usize);

impl Alignment {
    /// The alignment in bytes.
    pub closed spec fn spec_get(&self) -> usize {
        self.0
    }

    #[verifier::type_invariant]
    pub open spec fn is_valid(&self) -> bool {
        is_pow2(self.get() as int)
    }

    /// What `new` returns.
    pub open spec fn spec_new(align: usize) -> Result<Alignment, LayoutError> {
        if is_pow2(align as int) {
            Ok(Self::of(align))
        } else {
            Err(LayoutError::InvalidAlignment)
        }
    }

    /// The alignment of `align` bytes, valid or not.
    pub closed spec fn of(align: usize) -> Alignment {
        Alignment(align)
    }

    /// An alignment is its number of bytes, nothing else.
    pub proof fn lemma_of(align: usize)
        ensures
            Self::of(align).get() == align,
    {
    }

    /// The alignment of `align` bytes; `InvalidAlignment` where `align` is
    /// zero or no power of two.
    pub fn new(align: usize) -> (r: Result<Alignment, LayoutError>)
        ensures
            r == Self::spec_new(align),
            r matches Ok(a) ==> a.get() == align,
    {
        if is_power_of_two(align) {
            Ok(Alignment(align))
        } else {
            Err(LayoutError::InvalidAlignment)
        }
    }

    #[verifier::when_used_as_spec(spec_get)]
    pub fn get(&self) -> (a: usize)
        ensures
            a == self.get(),
    {
        self.0
    }
}

/// A value that describes a layout and cannot fail to produce it.
///
/// `to_layout` returns what `spec_layout` says, so two calls on one value
/// return the same layout. Memory that was allocated with the layout of a
/// value can therefore be freed with the layout that the value gives later.
pub trait ToLayout {
    /// The layout that this value describes.
    spec fn spec_layout(&self) -> Layout;

    fn to_layout(&self) -> (l: Layout)
        ensures
            l == self.spec_layout(),
    ;
}

impl ToLayout for Layout {
    open spec fn spec_layout(&self) -> Layout {
        *self
    }

    fn to_layout(&self) -> (l: Layout) {
        *self
    }
}

/// A value that describes a layout and may fail to produce it.
///
/// `try_to_layout` returns what `spec_try_layout` says, so two calls on one
/// value return the same layout or the same error.
pub trait TryToLayout {
    type Error;

    /// The layout that this value describes, or why it describes none.
    spec fn spec_try_layout(&self) -> Result<Layout, Self::Error>;

    fn try_to_layout(&self) -> (r: Result<Layout, Self::Error>)
        ensures
            r == self.spec_try_layout(),
    ;
}

/// What cannot fail is a case of what may fail.
impl<L: ToLayout> TryToLayout for L {
    type Error = Infallible;

    open spec fn spec_try_layout(&self) -> Result<Layout, Infallible> {
        Ok(self.spec_layout())
    }

    fn try_to_layout(&self) -> (r: Result<Layout, Infallible>) {
        Ok(self.to_layout())
    }
}

/// Two layout computations on one value return the same layout: each result
/// that `to_layout` can return for `x` is the layout that `x` describes.
pub proof fn lemma_to_layout_is_pure<L: ToLayout>(x: L, first: Layout, second: Layout)
    requires
        call_ensures(L::to_layout, (&x,), first),
        call_ensures(L::to_layout, (&x,), second),
    ensures
        first == second,
        first == x.spec_layout(),
{
}

/// Two fallible layout computations on one value return the same: each
/// result that `try_to_layout` can return for `x` is what `x` describes.
pub proof fn lemma_try_to_layout_is_pure<L: TryToLayout>(
    x: L,
    first: Result<Layout, L::Error>,
    second: Result<Layout, L::Error>,
)
    requires
        call_ensures(L::try_to_layout, (&x,), first),
        call_ensures(L::try_to_layout, (&x,), second),
    ensures
        first == second,
        first == x.spec_try_layout(),
{
}

} // verus!
