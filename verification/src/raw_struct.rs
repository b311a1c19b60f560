use crate::layout::rounding::lemma_pow2_positive;
use crate::layout::Layout;
use crate::layout::TryToLayout;
use vstd::prelude::*;

verus! {

/// How the block of a layout is come by.
pub enum AllocStep {
    /// The layout has no bytes: the allocator is not asked, and this is the
    /// block.
    Ready(RawBoxedStruct),
    /// The allocator is to be asked for memory of exactly this layout.
    Request(Layout),
}

/// What is to be done with a block that is given up.
#[derive(Clone, Copy, Debug, PartialEq, Eq, Structural)]
pub enum DeallocStep {
    /// The block has no bytes and was never allocated: nothing is to be done.
    Nothing,
    /// The memory at `addr` is to be handed back to the allocator as memory
    /// of `layout`.
    Release { addr: usize, layout: Layout },
}

/// A block of raw memory, held by its address.
///
/// The address is never zero. The block of a layout without bytes is no
/// memory at all: its address is the alignment of the layout, and nothing may
/// be read or written there.
pub struct RawBoxedStruct {
    addr: usize,
}

impl RawBoxedStruct {
    /// The address of the block.
    pub closed spec fn addr(&self) -> usize {
        self.addr
    }

    #[verifier::type_invariant]
    pub open spec fn is_valid(&self) -> bool {
        self.addr() != 0
    }

    /// What `allocate` decides for `layout`.
    pub open spec fn spec_allocate(layout: Layout) -> AllocStep {
        if layout.size() == 0 {
            AllocStep::Ready(Self::at(layout.align()))
        } else {
            AllocStep::Request(layout)
        }
    }

    /// The block at `addr`.
    pub closed spec fn at(addr: usize) -> RawBoxedStruct {
        RawBoxedStruct { addr }
    }

    /// A block is its address, nothing else.
    pub proof fn lemma_at(addr: usize)
        ensures
            Self::at(addr).addr() == addr,
    {
    }

    /// Begins the allocation of a block of `layout`. Where the layout has no
    /// bytes the block is ready, at the address that equals the alignment;
    /// else the allocator is to be asked for exactly `layout`, and
    /// `from_block` takes what it hands back.
    #[must_use]
    pub fn allocate(layout: Layout) -> (step: AllocStep)
        ensures
            step == Self::spec_allocate(layout),
            layout.size() == 0 ==> (step matches AllocStep::Ready(raw) && raw.addr()
                == layout.align() && raw.addr() != 0),
            layout.size() != 0 ==> step == AllocStep::Request(layout),
    {
        if layout.size() == 0 {
            proof {
                use_type_invariant(&layout);
                lemma_pow2_positive(layout.align() as int);
            }
            AllocStep::Ready(Self { addr: layout.align() })
        } else {
            AllocStep::Request(layout)
        }
    }

    /// The block at the address that the allocator handed back; `None` where
    /// that is zero, which is how an allocator says that it has no memory.
    pub fn from_block(addr: usize) -> (r: Option<Self>)
        ensures
            addr == 0 ==> r is None,
            addr != 0 ==> r == Some(Self::at(addr)),
            r matches Some(raw) ==> raw.addr() == addr,
    {
        if addr == 0 {
            None
        } else {
            Some(Self { addr })
        }
    }

    /// What `dealloc` decides for the block at `addr` and `layout`.
    pub open spec fn spec_dealloc(addr: usize, layout: Layout) -> DeallocStep {
        if layout.size() == 0 {
            DeallocStep::Nothing
        } else {
            DeallocStep::Release { addr, layout }
        }
    }

    /// Gives the block up. `layout` has to be the layout that the block was
    /// allocated with. Where it has no bytes nothing is to be done; else the
    /// memory is to be handed back to the allocator with exactly `layout`.
    pub fn dealloc(&mut self, layout: Layout) -> (step: DeallocStep)
        ensures
            step == Self::spec_dealloc(old(self).addr(), layout),
            *final(self) == *old(self),
    {
        if layout.size() == 0 {
            DeallocStep::Nothing
        } else {
            DeallocStep::Release { addr: self.addr, layout }
        }
    }

    /// The address of the block, to read from.
    pub fn as_ptr(&self) -> (addr: usize)
        ensures
            addr == self.addr(),
            addr != 0,
    {
        proof {
            use_type_invariant(self);
        }
        self.addr
    }

    /// The address of the block, to write to.
    pub fn as_mut_ptr(&mut self) -> (addr: usize)
        ensures
            addr == old(self).addr(),
            addr != 0,
            *final(self) == *old(self),
    {
        proof {
            use_type_invariant(&*self);
        }
        self.addr
    }
}

/// A builder whose layout has been computed and has bytes, and which waits
/// for the memory of that layout.
pub struct PendingStruct<L: TryToLayout> {
    layout: L,
    request: Layout,
}

impl<L: TryToLayout> PendingStruct<L> {
    /// The builder that describes the block.
    pub closed spec fn builder(&self) -> L {
        self.layout
    }

    /// The layout that the allocator is to be asked for.
    pub closed spec fn spec_request(&self) -> Layout {
        self.request
    }

    #[verifier::type_invariant]
    pub open spec fn is_valid(&self) -> bool {
        &&& self.builder().spec_try_layout() == Ok::<Layout, L::Error>(self.spec_request())
        &&& self.spec_request().size() != 0
    }

    /// The layout that the allocator is to be asked for: the layout that the
    /// builder describes.
    #[verifier::when_used_as_spec(spec_request)]
    pub fn request(&self) -> (l: Layout)
        ensures
            l == self.spec_request(),
            self.builder().spec_try_layout() == Ok::<Layout, L::Error>(l),
            l.size() != 0,
    {
        proof {
            use_type_invariant(self);
        }
        self.request
    }

    /// The block at the address that the allocator handed back for
    /// `request`, with the builder that describes it; `None` where the
    /// address is zero.
    pub fn complete(self, addr: usize) -> (r: Option<BoxedStruct<L>>)
        ensures
            addr == 0 ==> r is None,
            addr != 0 ==> (r matches Some(boxed) && boxed.builder() == self.builder()
                && boxed.addr() == addr),
    {
        proof {
            use_type_invariant(&self);
        }
        match RawBoxedStruct::from_block(addr) {
            Some(inner) => Some(BoxedStruct { inner, layout: self.layout }),
            None => None,
        }
    }
}

/// What `BoxedStruct::uninit` comes to for a builder that describes a layout.
pub enum Uninit<L: TryToLayout> {
    /// The layout has no bytes: the allocator is not asked, and this is the
    /// block.
    Ready(BoxedStruct<L>),
    /// The allocator is to be asked for the layout that this requests, and
    /// its `complete` takes what the allocator hands back.
    Pending(PendingStruct<L>),
}

/// A block of raw memory together with the builder that describes it.
///
/// The layout to free the block with is computed from the builder again when
/// the block is given up. The builder cannot change meanwhile and always
/// describes the same layout, so the block is freed with the layout that it
/// was allocated with.
pub struct BoxedStruct<L: TryToLayout> {
    inner: RawBoxedStruct,
    layout: L,
}

impl<L: TryToLayout> BoxedStruct<L> {
    /// The builder that describes the block.
    pub closed spec fn builder(&self) -> L {
        self.layout
    }

    /// The address of the block.
    pub closed spec fn addr(&self) -> usize {
        self.inner.addr()
    }

    #[verifier::type_invariant]
    pub open spec fn is_valid(&self) -> bool {
        &&& self.builder().spec_try_layout() is Ok
        &&& self.addr() != 0
    }

    /// The layout that the block was allocated with and is freed with: the
    /// layout that the builder describes.
    pub open spec fn block_layout(&self) -> Layout {
        self.builder().spec_try_layout()->Ok_0
    }

    /// Computes the layout that `layout` describes and begins the allocation
    /// of a block of it, whose bytes are not initialized. Fails with the
    /// builder's error where it describes no layout.
    pub fn uninit(layout: L) -> (r: Result<Uninit<L>, L::Error>)
        ensures
            match layout.spec_try_layout() {
                Err(e) => r matches Err(err) && err == e,
                Ok(l) => if l.size() == 0 {
                    &&& r matches Ok(Uninit::Ready(boxed))
                    &&& boxed.builder() == layout
                    &&& boxed.addr() == l.align()
                } else {
                    &&& r matches Ok(Uninit::Pending(pending))
                    &&& pending.builder() == layout
                    &&& pending.spec_request() == l
                },
            },
    {
        let l = match layout.try_to_layout() {
            Ok(l) => l,
            Err(e) => { return Err(e); },
        };
        match RawBoxedStruct::allocate(l) {
            AllocStep::Ready(inner) => Ok(Uninit::Ready(Self { inner, layout })),
            AllocStep::Request(request) => Ok(Uninit::Pending(PendingStruct { layout, request })),
        }
    }

    /// The builder that describes the block.
    pub fn layout(&self) -> (l: &L)
        ensures
            *l == self.builder(),
    {
        &self.layout
    }

    /// The address of the block, to read from.
    pub fn as_ptr(&self) -> (addr: usize)
        ensures
            addr == self.addr(),
            addr != 0,
    {
        proof {
            use_type_invariant(self);
        }
        self.inner.as_ptr()
    }

    /// The address of the block, to write to.
    pub fn as_mut_ptr(&mut self) -> (addr: usize)
        ensures
            addr == old(self).addr(),
            addr != 0,
            *final(self) == *old(self),
    {
        proof {
            use_type_invariant(&*self);
        }
        self.inner.addr
    }

    /// Gives the block up and says what is to be done with its memory: the
    /// layout is computed from the builder once more, and is the layout that
    /// the block was allocated with.
    pub fn release(self) -> (step: DeallocStep)
        ensures
            step == RawBoxedStruct::spec_dealloc(self.addr(), self.block_layout()),
    {
        proof {
            use_type_invariant(&self);
        }
        let mut inner = self.inner;
        match self.layout.try_to_layout() {
            Ok(l) => inner.dealloc(l),
            Err(_) => DeallocStep::Nothing,
        }
    }
}

/// A block is freed with the layout that it was allocated with: what
/// `release` hands back to the allocator for a block that `complete` made is
/// the address that `complete` was given, with the layout that was requested.
pub proof fn lemma_release_matches_request<L: TryToLayout>(
    pending: PendingStruct<L>,
    boxed: BoxedStruct<L>,
)
    requires
        pending.is_valid(),
        boxed.builder() == pending.builder(),
    ensures
        RawBoxedStruct::spec_dealloc(boxed.addr(), boxed.block_layout()) == (DeallocStep::Release {
            addr: boxed.addr(),
            layout: pending.spec_request(),
        }),
{
}

/// A block without bytes costs the allocator nothing: `allocate` asks for no
/// memory and gives a block whose address is not zero, and `dealloc` hands
/// nothing back.
pub proof fn lemma_zero_size(layout: Layout, addr: usize)
    requires
        layout.is_valid(),
        layout.size() == 0,
    ensures
        RawBoxedStruct::spec_allocate(layout) matches AllocStep::Ready(raw) && raw.addr() != 0,
        RawBoxedStruct::spec_dealloc(addr, layout) == DeallocStep::Nothing,
{
    lemma_pow2_positive(layout.align() as int);
}

} // verus!
