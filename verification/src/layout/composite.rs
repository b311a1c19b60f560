use super::rounding::{align_up, lemma_align_up_bounds, lemma_pow2_positive, max_align};
use super::{IntoLayoutError, Layout, LayoutError, ToLayout, TryToLayout};
use vstd::arithmetic::power2::is_pow2;
use vstd::prelude::*;
use vstd::std_specs::convert::{FromSpecImpl, IntoSpec};

verus! {

/// What a row of `length` blocks of the layout `element` comes to: the error
/// of the element, converted, or what `Layout::repeat` makes of its layout.
pub open spec fn repeated<E: IntoLayoutError>(element: Result<Layout, E>, length: usize) -> Result<
    Layout,
    LayoutError,
> {
    match element {
        Err(e) => Err(e.spec_into_layout_error()),
        Ok(l) => match l.spec_repeat(length) {
            Err(e) => Err(e),
            Ok((row, _)) => Ok(row),
        },
    }
}

/// Computes `repeated` from the result of the element's layout computation.
pub fn repeat_layout<E: IntoLayoutError>(element: Result<Layout, E>, length: usize) -> (r: Result<
    Layout,
    LayoutError,
>)
    ensures
        r == repeated(element, length),
{
    match element {
        Err(e) => Err(e.into_layout_error()),
        Ok(l) => match l.repeat(length) {
            Err(e) => Err(e),
            Ok((row, _)) => Ok(row),
        },
    }
}

/// `length` blocks in a row, each described by `layout`, where `length` is
/// known only when the program runs.
#[derive(Debug)]
pub struct Slice<L> {
    pub layout: L,
    pub length: usize,
}

impl<L> Slice<L> {
    pub fn new(layout: L, length: usize) -> (s: Self)
        ensures
            s.layout == layout,
            s.length == length,
    {
        Self { length, layout }
    }

    /// The row of as many blocks, each described by what `f` makes of this
    /// row's element.
    pub fn map<R, F: FnOnce(L) -> R>(self, f: F) -> (s: Slice<R>)
        requires
            f.requires((self.layout,)),
        ensures
            f.ensures((self.layout,), s.layout),
            s.length == self.length,
    {
        Slice::new(f(self.layout), self.length)
    }
}

impl<L: TryToLayout<Error = E>, E: IntoLayoutError> TryToLayout for Slice<L> {
    type Error = LayoutError;

    open spec fn spec_try_layout(&self) -> Result<Layout, LayoutError> {
        repeated(self.layout.spec_try_layout(), self.length)
    }

    fn try_to_layout(&self) -> (r: Result<Layout, LayoutError>) {
        repeat_layout(self.layout.try_to_layout(), self.length)
    }
}

/// `LENGTH` blocks in a row, each described by `layout`.
pub struct Array<L, const LENGTH: usize> {
    pub layout: L,
}

impl<L, const LENGTH: usize> Array<L, LENGTH> {
    pub fn new(layout: L) -> (a: Self)
        ensures
            a.layout == layout,
    {
        Self { layout }
    }
}

impl<L: TryToLayout<Error = E>, E: IntoLayoutError, const LENGTH: usize> TryToLayout for Array<
    L,
    LENGTH,
> {
    type Error = LayoutError;

    open spec fn spec_try_layout(&self) -> Result<Layout, LayoutError> {
        repeated(self.layout.spec_try_layout(), LENGTH)
    }

    fn try_to_layout(&self) -> (r: Result<Layout, LayoutError>) {
        repeat_layout(self.layout.try_to_layout(), LENGTH)
    }
}

/// The size of the blocks of `layouts` packed in this order: each starts at
/// the first multiple of its alignment behind the one before it. Nothing is
/// added behind the last.
pub open spec fn packed_size(layouts: Seq<Layout>) -> int
    decreases layouts.len(),
{
    if layouts.len() == 0 {
        0
    } else {
        align_up(packed_size(layouts.drop_last()), layouts.last().align() as int)
            + layouts.last().size()
    }
}

/// The alignment of the blocks of `layouts` packed together: the largest of
/// theirs, and 1 where there is none.
pub open spec fn packed_align(layouts: Seq<Layout>) -> int
    decreases layouts.len(),
{
    if layouts.len() == 0 {
        1
    } else {
        max_align(packed_align(layouts.drop_last()), layouts.last().align() as int)
    }
}

/// Where block `i` of `layouts` starts when they are packed in this order.
pub open spec fn packed_offset(layouts: Seq<Layout>, i: int) -> int
    recommends
        0 <= i < layouts.len(),
{
    align_up(packed_size(layouts.take(i)), layouts[i].align() as int)
}

/// What placing a field behind a block of the layout `unpadded` comes to: the
/// error of the field, converted, or what `Layout::extend` makes of its layout.
pub open spec fn placed<E: IntoLayoutError>(unpadded: Layout, field: Result<Layout, E>) -> Result<
    (Layout, usize),
    LayoutError,
> {
    match field {
        Err(e) => Err(e.spec_into_layout_error()),
        Ok(l) => unpadded.spec_extend(l),
    }
}

/// A field of a `Struct`: what describes it, and where it starts.
#[derive(Debug)]
pub struct Field<L> {
    pub layout: L,
    pub offset: usize,
}

/// The layouts that `fields` describe, in their order.
pub open spec fn layouts_of<L: TryToLayout>(fields: Seq<Field<L>>) -> Seq<Layout> {
    Seq::new(fields.len(), |i: int| fields[i].layout.spec_try_layout()->Ok_0)
}

/// `fields` and `unpadded` are the bookkeeping of a struct: each field
/// describes a layout and stands at the offset that packing gives it, and
/// `unpadded` is what the fields packed come to.
pub open spec fn well_formed<L: TryToLayout>(fields: Seq<Field<L>>, unpadded: Layout) -> bool {
    let layouts = layouts_of(fields);
    &&& forall|i: int| 0 <= i < fields.len() ==> (#[trigger] fields[i]).layout.spec_try_layout()
        is Ok
    &&& forall|i: int| 0 <= i < layouts.len() ==> (#[trigger] layouts[i]).is_valid()
    &&& forall|i: int|
        0 <= i < fields.len() ==> (#[trigger] fields[i]).offset == packed_offset(layouts, i)
    &&& unpadded.is_valid()
    &&& unpadded.size() == packed_size(layouts)
    &&& unpadded.align() == packed_align(layouts)
}

/// Fields in the order in which they were pushed, each at the first offset
/// behind the one before it that its alignment allows.
///
/// Fields are only ever appended: each stays where it was placed.
#[derive(Debug)]
pub struct Struct<L> {
    fields: Vec<Field<L>>,
    /// The layout of the fields so far, without padding behind the last.
    unpadded_layout: Layout,
}

impl<L> View for Struct<L> {
    type V = Seq<Field<L>>;

    /// The fields, in the order in which they were pushed.
    closed spec fn view(&self) -> Seq<Field<L>> {
        self.fields@
    }
}

impl<L> ToLayout for Struct<L> {
    /// The layout to allocate: the fields, and the padding behind the last
    /// that makes the size a multiple of the alignment.
    open spec fn spec_layout(&self) -> Layout {
        self.unpadded_layout().spec_pad_to_align()
    }

    fn to_layout(&self) -> (l: Layout)
        ensures
            l.size() % l.align() == 0,
            self.unpadded_layout().size() <= l.size() < self.unpadded_layout().size() + l.align(),
            l.align() == self.unpadded_layout().align(),
    {
        proof {
            use_type_invariant(&self.unpadded_layout);
            lemma_pow2_positive(self.unpadded_layout.align() as int);
            lemma_align_up_bounds(
                self.unpadded_layout.size() as int,
                self.unpadded_layout.align() as int,
            );
        }
        self.unpadded_layout.pad_to_align()
    }
}

impl<L> Struct<L> {
    /// The layout of the fields so far, without padding behind the last.
    pub closed spec fn spec_unpadded_layout(&self) -> Layout {
        self.unpadded_layout
    }

    /// The offsets of the fields, in the order in which they were pushed.
    pub open spec fn offsets(&self) -> Seq<usize> {
        Seq::new(self@.len(), |i: int| self@[i].offset)
    }

    /// The struct without fields: no bytes, aligned to 1.
    pub fn new() -> (s: Self)
        ensures
            s@.len() == 0,
            s.unpadded_layout() == Layout::of(0, 1),
    {
        Self { unpadded_layout: Layout::new::<()>(), fields: Vec::new() }
    }

    /// The number of fields.
    pub fn len(&self) -> (n: usize)
        ensures
            n == self@.len(),
    {
        self.fields.len()
    }

    /// The fields, in the order in which they were pushed.
    pub fn fields(&self) -> (fields: &[Field<L>])
        ensures
            fields@ == self@,
    {
        self.fields.as_slice()
    }

    /// The layout of the fields so far, without padding behind the last.
    #[verifier::when_used_as_spec(spec_unpadded_layout)]
    pub fn unpadded_layout(&self) -> (l: Layout)
        ensures
            l == self.unpadded_layout(),
    {
        self.unpadded_layout
    }
}

impl<L: TryToLayout> Struct<L> {
    /// The layouts that the fields describe, in the order in which they were
    /// pushed.
    pub open spec fn field_layouts(&self) -> Seq<Layout> {
        layouts_of(self@)
    }

    /// The bookkeeping is in order, as `well_formed` says. The struct that
    /// `new` makes is so, and `push` and `with` keep it so.
    pub open spec fn wf(&self) -> bool {
        well_formed(self@, self.unpadded_layout())
    }
}

impl<L, E> Struct<L> where L: TryToLayout<Error = E>, E: IntoLayoutError {
    /// Appends a field and returns its index. The field starts at the first
    /// multiple of its alignment behind the fields so far.
    ///
    /// Fails with the field's own error where it describes no layout, and
    /// with `SizeOverflow` where the fields with this one are no layout any
    /// more. The struct is then as it was.
    pub fn push(&mut self, field_layout_builder: L) -> (r: Result<usize, LayoutError>)
        ensures
            match placed(old(self).unpadded_layout(), field_layout_builder.spec_try_layout()) {
                Err(e) => r == Err::<usize, LayoutError>(e) && *final(self) == *old(self),
                Ok((unpadded, offset)) => {
                    &&& r == Ok::<usize, LayoutError>(old(self)@.len() as usize)
                    &&& final(self)@ == old(self)@.push(
                        Field { layout: field_layout_builder, offset },
                    )
                    &&& final(self).unpadded_layout() == unpadded
                },
            },
            old(self).wf() ==> final(self).wf(),
    {
        let index = self.len();
        let field_layout = match field_layout_builder.try_to_layout() {
            Ok(field_layout) => field_layout,
            Err(e) => { return Err(e.into_layout_error()); },
        };
        let (new_struct_layout, offset) = match self.unpadded_layout.extend(field_layout) {
            Ok(extended) => extended,
            Err(e) => { return Err(e); },
        };
        self.fields.push(Field { layout: field_layout_builder, offset });
        self.unpadded_layout = new_struct_layout;
        proof {
            use_type_invariant(&field_layout);
            use_type_invariant(&new_struct_layout);
            assert(self@.drop_last() =~= old(self)@);
            if old(self).wf() {
                lemma_push_keeps_wf(
                    old(self)@,
                    old(self).unpadded_layout(),
                    self@,
                    self.unpadded_layout(),
                );
            }
        }
        Ok(index)
    }

    /// This struct with one more field, as `push` appends it.
    pub fn with(self, field_layout_builder: L) -> (r: Result<Self, LayoutError>)
        ensures
            match placed(self.unpadded_layout(), field_layout_builder.spec_try_layout()) {
                Err(e) => r matches Err(err) && err == e,
                Ok((unpadded, offset)) => {
                    &&& r matches Ok(s)
                    &&& s@ == self@.push(Field { layout: field_layout_builder, offset })
                    &&& s.unpadded_layout() == unpadded
                    &&& self.wf() ==> s.wf()
                },
            },
    {
        let mut extended = self;
        match extended.push(field_layout_builder) {
            Ok(_) => Ok(extended),
            Err(e) => Err(e),
        }
    }
}

/// What one more block behind the others does to the packing: it starts at
/// the first multiple of its alignment behind them, and those before it stay
/// where they are.
pub proof fn lemma_packed_push(layouts: Seq<Layout>, l: Layout)
    ensures
        packed_size(layouts.push(l)) == align_up(packed_size(layouts), l.align() as int)
            + l.size(),
        packed_align(layouts.push(l)) == max_align(packed_align(layouts), l.align() as int),
        packed_offset(layouts.push(l), layouts.len() as int) == align_up(
            packed_size(layouts),
            l.align() as int,
        ),
        forall|i: int|
            0 <= i < layouts.len() ==> #[trigger] packed_offset(layouts.push(l), i)
                == packed_offset(layouts, i),
{
    let pushed = layouts.push(l);
    assert(pushed.drop_last() =~= layouts);
    assert(pushed.last() == l);
    assert(pushed.take(layouts.len() as int) =~= layouts);
    assert forall|i: int| 0 <= i < layouts.len() implies #[trigger] packed_offset(pushed, i)
        == packed_offset(layouts, i) by {
        assert(pushed.take(i) =~= layouts.take(i));
        assert(pushed[i] == layouts[i]);
    }
}

/// The bookkeeping stays in order when one more field is placed as
/// `Layout::extend` places it.
proof fn lemma_push_keeps_wf<L: TryToLayout>(
    before: Seq<Field<L>>,
    unpadded_before: Layout,
    after: Seq<Field<L>>,
    unpadded_after: Layout,
)
    requires
        well_formed(before, unpadded_before),
        after.len() == before.len() + 1,
        after.drop_last() == before,
        unpadded_after.is_valid(),
        after.last().layout.spec_try_layout() matches Ok(l) && l.is_valid()
            && unpadded_before.spec_extend(l) == Ok::<(Layout, usize), LayoutError>(
            (unpadded_after, after.last().offset),
        ),
    ensures
        well_formed(after, unpadded_after),
{
    let n = before.len() as int;
    let old_layouts = layouts_of(before);
    let layouts = layouts_of(after);
    let l = after.last().layout.spec_try_layout()->Ok_0;
    assert forall|i: int| 0 <= i < n implies after[i] == before[i] by {
        assert(after.drop_last()[i] == after[i]);
    }
    assert(layouts =~= old_layouts.push(l));
    lemma_packed_push(old_layouts, l);
    Layout::lemma_of(
        unpadded_before.size_with_next(l) as usize,
        unpadded_before.align_with_next(l) as usize,
    );
    lemma_pow2_positive(l.align() as int);
    lemma_align_up_bounds(unpadded_before.size() as int, l.align() as int);
    assert(unpadded_after.size() == packed_size(layouts));
    assert(unpadded_after.align() == packed_align(layouts));
    assert forall|i: int| 0 <= i < layouts.len() implies (#[trigger] after[i]).offset
        == packed_offset(layouts, i) by {
        if i < n {
            assert(before[i].offset == packed_offset(old_layouts, i));
        }
    }
    assert forall|i: int| 0 <= i < layouts.len() implies (#[trigger] layouts[i]).is_valid() by {
        if i < n {
            assert(layouts[i] == old_layouts[i]);
        }
    }
    assert forall|i: int| 0 <= i < after.len() implies (#[trigger] after[i]).layout.spec_try_layout()
        is Ok by {
        if i < n {
            assert(before[i].layout.spec_try_layout() is Ok);
        }
    }
}

/// The blocks of a packing do not overlap and are aligned: each starts at a
/// multiple of its alignment, and not before the end of the one before it.
pub proof fn lemma_packed_offsets(layouts: Seq<Layout>, i: int)
    requires
        0 <= i < layouts.len(),
        layouts[i].is_valid(),
    ensures
        packed_offset(layouts, i) % (layouts[i].align() as int) == 0,
        packed_offset(layouts, i) + layouts[i].size() == packed_size(layouts.take(i + 1)),
        i + 1 < layouts.len() && layouts[i + 1].is_valid() ==> packed_offset(layouts, i)
            + layouts[i].size() <= packed_offset(layouts, i + 1),
{
    lemma_pow2_positive(layouts[i].align() as int);
    lemma_align_up_bounds(packed_size(layouts.take(i)), layouts[i].align() as int);
    let upto = layouts.take(i + 1);
    assert(upto.drop_last() =~= layouts.take(i));
    assert(upto.last() == layouts[i]);
    if i + 1 < layouts.len() && layouts[i + 1].is_valid() {
        lemma_pow2_positive(layouts[i + 1].align() as int);
        lemma_align_up_bounds(packed_size(upto), layouts[i + 1].align() as int);
    }
}

/// The alignment of a packing is the largest alignment of its blocks, and 1
/// where it has none.
pub proof fn lemma_packed_align(layouts: Seq<Layout>)
    requires
        forall|i: int| 0 <= i < layouts.len() ==> (#[trigger] layouts[i]).is_valid(),
    ensures
        forall|i: int| 0 <= i < layouts.len() ==> (#[trigger] layouts[i]).align() <= packed_align(
            layouts,
        ),
        packed_align(layouts) == 1 || exists|i: int|
            0 <= i < layouts.len() && (#[trigger] layouts[i]).align() == packed_align(layouts),
    decreases layouts.len(),
{
    if layouts.len() > 0 {
        let front = layouts.drop_last();
        lemma_packed_align(front);
        lemma_pow2_positive(layouts.last().align() as int);
        assert forall|i: int| 0 <= i < layouts.len() implies (#[trigger] layouts[i]).align()
            <= packed_align(layouts) by {
            if i < front.len() {
                assert(front[i] == layouts[i]);
            }
        }
        if packed_align(layouts) != 1 {
            if packed_align(layouts) == layouts.last().align() {
                assert(layouts[layouts.len() - 1].align() == packed_align(layouts));
            } else {
                let i = choose|i: int|
                    0 <= i < front.len() && (#[trigger] front[i]).align() == packed_align(front);
                assert(layouts[i] == front[i]);
            }
        }
    }
}

impl<L: TryToLayout> Struct<L> {
    /// The struct without fields, as `new` makes it, is well-formed.
    pub proof fn lemma_empty_is_wf(&self)
        requires
            self@.len() == 0,
            self.unpadded_layout() == Layout::of(0, 1),
        ensures
            self.wf(),
    {
        reveal_with_fuel(is_pow2, 2);
    }

    /// In a well-formed struct every field starts at a multiple of its
    /// alignment, and not before the end of the field before it.
    pub proof fn lemma_offsets(&self, i: int)
        requires
            self.wf(),
            0 <= i < self@.len(),
        ensures
            self@[i].offset % self.field_layouts()[i].align() == 0,
            i + 1 < self@.len() ==> self@[i].offset + self.field_layouts()[i].size() <= self@[i
                + 1].offset,
    {
        let layouts = self.field_layouts();
        assert(layouts[i].is_valid());
        if i + 1 < self@.len() {
            assert(layouts[i + 1].is_valid());
        }
        lemma_packed_offsets(layouts, i);
    }

    /// In a well-formed struct the unpadded size ends with the last field:
    /// there is padding between fields only, none behind the last.
    pub proof fn lemma_unpadded_size(&self)
        requires
            self.wf(),
        ensures
            self@.len() == 0 ==> self.unpadded_layout().size() == 0,
            self@.len() > 0 ==> self.unpadded_layout().size() == self@.last().offset
                + self.field_layouts().last().size(),
    {
        let layouts = self.field_layouts();
        if layouts.len() > 0 {
            let last = layouts.len() - 1;
            assert(layouts[last].is_valid());
            lemma_packed_offsets(layouts, last);
            assert(layouts.take(last + 1) =~= layouts);
        }
    }

    /// In a well-formed struct the alignment is the largest alignment of a
    /// field, and 1 where there is no field.
    pub proof fn lemma_unpadded_align(&self)
        requires
            self.wf(),
        ensures
            forall|i: int|
                0 <= i < self@.len() ==> (#[trigger] self.field_layouts()[i]).align()
                    <= self.unpadded_layout().align(),
            self.unpadded_layout().align() == 1 || exists|i: int|
                0 <= i < self@.len() && (#[trigger] self.field_layouts()[i]).align()
                    == self.unpadded_layout().align(),
    {
        lemma_packed_align(self.field_layouts());
    }

    /// The offsets follow from the layouts of the fields alone: well-formed
    /// structs whose fields describe the same layouts, by whatever kind of
    /// builder, have the same offsets and the same unpadded layout.
    pub proof fn lemma_offsets_follow_layouts<M: TryToLayout>(&self, other: Struct<M>)
        requires
            self.wf(),
            other.wf(),
            self.field_layouts() == other.field_layouts(),
        ensures
            self.offsets() == other.offsets(),
            self.unpadded_layout() == other.unpadded_layout(),
    {
        assert(self@.len() == self.field_layouts().len());
        assert(other@.len() == other.field_layouts().len());
        assert(self.offsets() =~= other.offsets());
        self.unpadded_layout().lemma_same(other.unpadded_layout());
    }
}

/// A row of `length` blocks has `length` times the size of one block, padded
/// to its alignment, and the alignment of one block; where that is more than
/// `isize::MAX` there is no such row.
pub proof fn lemma_repeated<E: IntoLayoutError>(element: Result<Layout, E>, length: usize)
    requires
        element matches Ok(l) ==> l.is_valid(),
    ensures
        match element {
            Err(e) => repeated(element, length) == Err::<Layout, LayoutError>(
                e.spec_into_layout_error(),
            ),
            Ok(l) => if length * align_up(l.size() as int, l.align() as int) <= isize::MAX {
                &&& repeated(element, length) matches Ok(row)
                &&& row.size() == length * align_up(l.size() as int, l.align() as int)
                &&& row.align() == l.align()
            } else {
                repeated(element, length) == Err::<Layout, LayoutError>(LayoutError::SizeOverflow)
            },
        },
{
    if let Ok(l) = element {
        lemma_pow2_positive(l.align() as int);
        lemma_align_up_bounds(l.size() as int, l.align() as int);
        assert(0 <= length * align_up(l.size() as int, l.align() as int)) by (nonlinear_arith)
            requires
                0 <= align_up(l.size() as int, l.align() as int),
                0 <= length,
        ;
    }
}

/// A layout, a row of blocks that are each described by a `Multi`, or a
/// struct whose fields are each described by a `Multi`: builders nested to
/// any depth, as one type.
#[derive(Debug)]
pub enum Multi {
    Layout(Layout),
    Slice(Box<Slice<Multi>>),
    Struct(Struct<Multi>),
}

impl TryToLayout for Multi {
    type Error = LayoutError;

    open spec fn spec_try_layout(&self) -> Result<Layout, LayoutError>
        decreases self,
    {
        match self {
            Multi::Layout(l) => Ok(*l),
            Multi::Struct(s) => Ok(s.spec_layout()),
            Multi::Slice(s) => repeated(s.layout.spec_try_layout(), s.length),
        }
    }

    fn try_to_layout(&self) -> (r: Result<Layout, LayoutError>)
        decreases self,
    {
        match self {
            Multi::Layout(l) => Ok(l.to_layout()),
            Multi::Struct(s) => Ok(s.to_layout()),
            Multi::Slice(s) => repeat_layout(s.layout.try_to_layout(), s.length),
        }
    }
}

/// A row of blocks described by `Multi` has the same layout as a `Slice` and
/// as a `Multi`.
pub proof fn lemma_multi_slice(s: Slice<Multi>)
    ensures
        Multi::Slice(Box::new(s)).spec_try_layout() == s.spec_try_layout(),
{
}

impl From<Layout> for Multi {
    fn from(l: Layout) -> (m: Self) {
        Self::Layout(l)
    }
}

impl FromSpecImpl<Layout> for Multi {
    open spec fn obeys_from_spec() -> bool {
        true
    }

    open spec fn from_spec(l: Layout) -> Self {
        Multi::Layout(l)
    }
}

impl<L: Into<Multi>> From<Slice<L>> for Multi {
    fn from(l: Slice<L>) -> (m: Self)
        ensures
            m matches Multi::Slice(s) && s.length == l.length && call_ensures(
                <L as Into<Multi>>::into,
                (l.layout,),
                s.layout,
            ),
    {
        let lift = |element: L| -> (lifted: Multi)
            ensures
                L::obeys_into_spec() ==> lifted == element.into_spec(),
                call_ensures(<L as Into<Multi>>::into, (element,), lifted),
            { element.into() };
        Self::Slice(Box::new(l.map(lift)))
    }
}

impl<L: Into<Multi>> FromSpecImpl<Slice<L>> for Multi {
    open spec fn obeys_from_spec() -> bool {
        L::obeys_into_spec()
    }

    open spec fn from_spec(l: Slice<L>) -> Self {
        Multi::Slice(Box::new(Slice { layout: l.layout.into_spec(), length: l.length }))
    }
}

impl From<Struct<Multi>> for Multi {
    fn from(l: Struct<Multi>) -> (m: Self) {
        Self::Struct(l)
    }
}

impl FromSpecImpl<Struct<Multi>> for Multi {
    open spec fn obeys_from_spec() -> bool {
        true
    }

    open spec fn from_spec(l: Struct<Multi>) -> Self {
        Multi::Struct(l)
    }
}

} // verus!
