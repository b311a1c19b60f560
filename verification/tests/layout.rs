use design::layout::rounding::{is_power_of_two, round_up};
use design::layout::{
    Alignment, Array, Field, Layout, LayoutError, Multi, NonZst, Slice, Struct, ToLayout,
    TryToLayout, TypeLayout, Zst,
};

fn layout_of(size: usize, align: usize) -> Layout {
    Layout::from_size_align(size, align).unwrap()
}

fn offsets<L>(s: &Struct<L>) -> Vec<usize> {
    s.fields().iter().map(|f| f.offset).collect()
}

#[test]
fn slb() {
    let mut slb = Struct::<Multi>::new();

    slb.push(Layout::new::<u32>().into()).unwrap();
    slb.push(Slice::new(Layout::new::<u8>(), 3).into()).unwrap();

    println!("{:?}", slb);
    println!("{:?}", slb.try_to_layout());

    struct Slb {
        _0: u32,
        _1: [u8; 3],
    }

    assert_eq!(slb.try_to_layout().unwrap(), Layout::new::<Slb>());
}

#[test]
fn packed_struct_is_eight_bytes_aligned_to_four() {
    let mut s = Struct::<Multi>::new();
    assert_eq!(s.push(Multi::from(layout_of(4, 4))), Ok(0));
    assert_eq!(s.push(Multi::from(Slice::new(layout_of(1, 1), 3))), Ok(1));
    assert_eq!(offsets(&s), vec![0, 4]);
    assert_eq!(s.unpadded_layout(), layout_of(7, 4));
    assert_eq!(s.to_layout(), layout_of(8, 4));
    assert_eq!(s.to_layout().size(), 8);
    assert_eq!(s.to_layout().align(), 4);
}

#[test]
fn layout_matches_the_compiler() {
    let ours = Layout::new::<u64>();
    let theirs = std::alloc::Layout::new::<u64>();
    assert_eq!((ours.size(), ours.align()), (theirs.size(), theirs.align()));
    let ours = Layout::new::<[u16; 5]>();
    assert_eq!((ours.size(), ours.align()), (10, 2));
    let ours = Layout::new::<()>();
    assert_eq!((ours.size(), ours.align()), (0, 1));
}

#[test]
fn from_size_align_rejects_bad_alignment() {
    assert_eq!(Layout::from_size_align(4, 3), Err(LayoutError::InvalidAlignment));
    assert_eq!(Layout::from_size_align(4, 0), Err(LayoutError::InvalidAlignment));
    assert_eq!(Layout::from_size_align(0, 6), Err(LayoutError::InvalidAlignment));
    assert_eq!(Layout::from_size_align(usize::MAX, 3), Err(LayoutError::InvalidAlignment));
}

#[test]
fn from_size_align_rejects_overflow() {
    let max = isize::MAX as usize;
    assert_eq!(Layout::from_size_align(max, 1).map(|l| l.size()), Ok(max));
    assert_eq!(Layout::from_size_align(max, 2), Err(LayoutError::SizeOverflow));
    assert_eq!(Layout::from_size_align(max - 1, 2).map(|l| l.size()), Ok(max - 1));
    assert_eq!(Layout::from_size_align(max + 1, 1), Err(LayoutError::SizeOverflow));
    assert_eq!(Layout::from_size_align(usize::MAX, 1), Err(LayoutError::SizeOverflow));
    assert_eq!(Layout::from_size_align(usize::MAX, 8), Err(LayoutError::SizeOverflow));
    assert_eq!(Layout::from_size_align(0, max + 1).map(|l| l.align()), Ok(max + 1));
    assert_eq!(Layout::from_size_align(1, max + 1), Err(LayoutError::SizeOverflow));
}

#[test]
fn from_size_align_agrees_with_std() {
    let sizes = [0usize, 1, 3, 8, 4095, isize::MAX as usize - 7, isize::MAX as usize, usize::MAX];
    let aligns = [0usize, 1, 2, 3, 8, 12, 4096, 1 << 31, usize::MAX];
    for size in sizes {
        for align in aligns {
            let ours = Layout::from_size_align(size, align);
            let theirs = std::alloc::Layout::from_size_align(size, align);
            assert_eq!(ours.is_ok(), theirs.is_ok(), "size {} align {}", size, align);
        }
    }
}

#[test]
fn power_of_two_test() {
    assert!(!is_power_of_two(0));
    assert!(is_power_of_two(1));
    assert!(is_power_of_two(2));
    assert!(!is_power_of_two(3));
    assert!(is_power_of_two(4096));
    assert!(!is_power_of_two(4097));
    assert!(is_power_of_two(1 << (usize::BITS - 1)));
    assert!(!is_power_of_two(usize::MAX));
    for x in 0..1000usize {
        assert_eq!(is_power_of_two(x), x.is_power_of_two());
    }
}

#[test]
fn round_up_values() {
    assert_eq!(round_up(0, 4), Some(0));
    assert_eq!(round_up(1, 4), Some(4));
    assert_eq!(round_up(4, 4), Some(4));
    assert_eq!(round_up(5, 4), Some(8));
    assert_eq!(round_up(7, 1), Some(7));
    assert_eq!(round_up(10, 3), Some(12));
    assert_eq!(round_up(usize::MAX, 1), Some(usize::MAX));
    assert_eq!(round_up(usize::MAX, 2), None);
    assert_eq!(round_up(usize::MAX - 3, 4), Some(usize::MAX - 3));
    assert_eq!(round_up(usize::MAX - 2, 4), None);
}

#[test]
fn pad_to_align_adds_trailing_padding() {
    assert_eq!(layout_of(7, 4).pad_to_align(), layout_of(8, 4));
    assert_eq!(layout_of(8, 4).pad_to_align(), layout_of(8, 4));
    assert_eq!(layout_of(0, 16).pad_to_align(), layout_of(0, 16));
    assert_eq!(layout_of(1, 16).pad_to_align(), layout_of(16, 16));
    assert_eq!(layout_of(5, 1).pad_to_align(), layout_of(5, 1));
    let top = isize::MAX as usize - 7;
    assert_eq!(layout_of(top - 1, 8).pad_to_align(), layout_of(top, 8));
}

#[test]
fn padding_is_correct_for_many_layouts() {
    for size in 0..70usize {
        for shift in 0..6 {
            let align = 1usize << shift;
            let l = layout_of(size, align);
            let padded = l.pad_to_align();
            assert_eq!(padded.size() % padded.align(), 0);
            assert!(padded.size() >= size);
            assert!(padded.size() < size + align);
            assert_eq!(padded.align(), align);
            let theirs = std::alloc::Layout::from_size_align(size, align).unwrap().pad_to_align();
            assert_eq!(padded.size(), theirs.size());
        }
    }
}

#[test]
fn extend_places_the_next_block() {
    assert_eq!(layout_of(1, 1).extend(layout_of(4, 4)), Ok((layout_of(8, 4), 4)));
    assert_eq!(layout_of(4, 4).extend(layout_of(3, 1)), Ok((layout_of(7, 4), 4)));
    assert_eq!(layout_of(0, 1).extend(layout_of(0, 1)), Ok((layout_of(0, 1), 0)));
    assert_eq!(layout_of(5, 8).extend(layout_of(2, 2)), Ok((layout_of(8, 8), 6)));
    assert_eq!(layout_of(9, 2).extend(layout_of(8, 8)), Ok((layout_of(24, 8), 16)));
}

#[test]
fn extend_reports_overflow() {
    let max = isize::MAX as usize;
    assert_eq!(layout_of(max, 1).extend(layout_of(1, 1)), Err(LayoutError::SizeOverflow));
    assert_eq!(layout_of(max - 1, 1).extend(layout_of(1, 1)), Ok((layout_of(max, 1), max - 1)));
    assert_eq!(layout_of(max - 1, 1).extend(layout_of(1, 2)), Err(LayoutError::SizeOverflow));
    assert_eq!(layout_of(max, 1).extend(layout_of(0, 1)), Ok((layout_of(max, 1), max)));
    assert_eq!(layout_of(max, 1).extend(layout_of(0, 2)), Err(LayoutError::SizeOverflow));
    assert_eq!(layout_of(max - 7, 8).extend(layout_of(max - 7, 8)), Err(LayoutError::SizeOverflow));
}

#[test]
fn extend_agrees_with_std() {
    let parts = [(0usize, 1usize), (1, 1), (3, 2), (4, 4), (5, 8), (16, 16), (7, 1), (12, 4)];
    for (s1, a1) in parts {
        for (s2, a2) in parts {
            let (l, offset) = layout_of(s1, a1).extend(layout_of(s2, a2)).unwrap();
            let (theirs, their_offset) = std::alloc::Layout::from_size_align(s1, a1)
                .unwrap()
                .extend(std::alloc::Layout::from_size_align(s2, a2).unwrap())
                .unwrap();
            assert_eq!((l.size(), l.align(), offset), (theirs.size(), theirs.align(), their_offset));
        }
    }
}

#[test]
fn repeat_makes_a_row() {
    assert_eq!(layout_of(3, 2).repeat(5), Ok((layout_of(20, 2), 4)));
    assert_eq!(layout_of(1, 1).repeat(3), Ok((layout_of(3, 1), 1)));
    assert_eq!(layout_of(4, 4).repeat(0), Ok((layout_of(0, 4), 4)));
    assert_eq!(layout_of(0, 8).repeat(usize::MAX), Ok((layout_of(0, 8), 0)));
    assert_eq!(layout_of(9, 8).repeat(2), Ok((layout_of(32, 8), 16)));
}

#[test]
fn repeat_reports_overflow() {
    let max = isize::MAX as usize;
    assert_eq!(layout_of(2, 1).repeat(usize::MAX), Err(LayoutError::SizeOverflow));
    assert_eq!(layout_of(2, 2).repeat(max / 2 + 1), Err(LayoutError::SizeOverflow));
    assert_eq!(layout_of(2, 2).repeat(max / 2), Ok((layout_of(max - 1, 2), 2)));
    assert_eq!(layout_of(1, 1).repeat(max), Ok((layout_of(max, 1), 1)));
    assert_eq!(layout_of(1, 1).repeat(max + 1), Err(LayoutError::SizeOverflow));
    assert_eq!(layout_of(1, 2).repeat(max), Err(LayoutError::SizeOverflow));
}

#[test]
fn slice_size_is_length_times_stride() {
    for (size, align) in [(1usize, 1usize), (3, 2), (4, 4), (5, 8), (0, 4), (17, 16)] {
        for length in [0usize, 1, 2, 7, 1000] {
            let s = Slice::new(layout_of(size, align), length);
            let l = s.try_to_layout().unwrap();
            let stride = size.div_ceil(align) * align;
            assert_eq!(l.size(), length * stride);
            assert_eq!(l.align(), align);
        }
    }
}

#[test]
fn slice_reports_overflow() {
    let s = Slice::new(layout_of(3, 4), usize::MAX / 4 + 1);
    assert_eq!(s.try_to_layout(), Err(LayoutError::SizeOverflow));
    let s = Slice::new(layout_of(3, 4), isize::MAX as usize / 4 + 1);
    assert_eq!(s.try_to_layout(), Err(LayoutError::SizeOverflow));
    let s = Slice::new(layout_of(3, 4), isize::MAX as usize / 4);
    assert_eq!(s.try_to_layout().map(|l| l.size()), Ok(isize::MAX as usize - 3));
}

#[test]
fn slice_passes_on_the_error_of_its_element() {
    let inner = Slice::new(layout_of(2, 2), usize::MAX);
    let outer = Slice::new(inner, 0);
    assert_eq!(outer.try_to_layout(), Err(LayoutError::SizeOverflow));
}

#[test]
fn slice_of_slices() {
    let inner = Slice::new(layout_of(3, 2), 3);
    let outer = Slice::new(inner, 4);
    assert_eq!(outer.try_to_layout(), Ok(layout_of(48, 2)));
}

#[test]
fn slice_map_keeps_the_length() {
    let s = Slice::new(7usize, 9).map(|size| layout_of(size, 1));
    assert_eq!(s.length, 9);
    assert_eq!(s.layout, layout_of(7, 1));
    assert_eq!(s.try_to_layout(), Ok(layout_of(63, 1)));
}

#[test]
fn array_of_max_length_overflows() {
    let a = Array::<Layout, { usize::MAX }>::new(layout_of(2, 1));
    assert_eq!(a.try_to_layout(), Err(LayoutError::SizeOverflow));
    let a = Array::<Layout, { usize::MAX }>::new(layout_of(2, 2));
    assert_eq!(a.try_to_layout(), Err(LayoutError::SizeOverflow));
}

#[test]
fn array_is_a_slice_of_fixed_length() {
    let a = Array::<Layout, 5>::new(layout_of(3, 2));
    let s = Slice::new(layout_of(3, 2), 5);
    assert_eq!(a.try_to_layout(), s.try_to_layout());
    assert_eq!(a.try_to_layout(), Ok(layout_of(20, 2)));
    let a = Array::<TypeLayout<u32>, 3>::new(TypeLayout::new());
    assert_eq!(a.try_to_layout(), Ok(layout_of(12, 4)));
    let a = Array::<Layout, 0>::new(layout_of(3, 2));
    assert_eq!(a.try_to_layout(), Ok(layout_of(0, 2)));
}

#[test]
fn non_zero_size_leaf_with_alignment_three_is_invalid() {
    assert_eq!(NonZst::new(4, 3).err(), Some(LayoutError::InvalidAlignment));
    assert_eq!(NonZst::new(1, 0).err(), Some(LayoutError::InvalidAlignment));
}

#[test]
fn non_zero_size_leaf_reports_overflow() {
    assert_eq!(NonZst::new(usize::MAX, 1).err(), Some(LayoutError::SizeOverflow));
    assert_eq!(NonZst::new(isize::MAX as usize, 2).err(), Some(LayoutError::SizeOverflow));
    assert!(NonZst::new(isize::MAX as usize, 1).is_ok());
}

#[test]
fn non_zero_size_leaf_describes_its_layout() {
    let leaf = NonZst::new(12, 8).unwrap();
    assert_eq!(leaf.try_to_layout(), Ok(layout_of(12, 8)));
    assert_eq!(leaf.try_to_layout(), leaf.try_to_layout());
}

#[test]
fn alignment_is_a_power_of_two() {
    assert_eq!(Alignment::new(0), Err(LayoutError::InvalidAlignment));
    assert_eq!(Alignment::new(3), Err(LayoutError::InvalidAlignment));
    assert_eq!(Alignment::new(24), Err(LayoutError::InvalidAlignment));
    assert_eq!(Alignment::new(1).map(|a| a.get()), Ok(1));
    assert_eq!(Alignment::new(64).map(|a| a.get()), Ok(64));
}

#[test]
fn zero_size_leaf_has_no_bytes() {
    let leaf = Zst::new(Alignment::new(32).unwrap());
    assert_eq!(leaf.to_layout(), layout_of(0, 32));
    assert_eq!(leaf.try_to_layout(), Ok(layout_of(0, 32)));
    let top = Zst::new(Alignment::new(1 << (usize::BITS - 1)).unwrap());
    assert_eq!(top.to_layout().size(), 0);
}

#[test]
fn type_layout_is_the_layout_of_the_type() {
    assert_eq!(TypeLayout::<u32>::new().to_layout(), layout_of(4, 4));
    assert_eq!(TypeLayout::<[u8; 3]>::new().to_layout(), layout_of(3, 1));
    assert_eq!(TypeLayout::<()>::new().to_layout(), layout_of(0, 1));
    assert_eq!(TypeLayout::<u16>::new().try_to_layout(), Ok(layout_of(2, 2)));
}

#[test]
fn layout_computation_is_pure() {
    let layout = TypeLayout::<u32>::new();
    let a = layout.to_layout();
    let b = layout.to_layout();
    assert_eq!(a, b);

    let mut s = Struct::<Multi>::new();
    s.push(Multi::from(layout_of(3, 1))).unwrap();
    s.push(Multi::from(Slice::new(layout_of(8, 8), 2))).unwrap();
    assert_eq!(s.to_layout(), s.to_layout());
    let m = Multi::from(s);
    assert_eq!(m.try_to_layout(), m.try_to_layout());
    assert_eq!(m.try_to_layout(), Ok(layout_of(24, 8)));

    let failing = Slice::new(layout_of(2, 2), usize::MAX);
    assert_eq!(failing.try_to_layout(), failing.try_to_layout());
}

#[test]
fn empty_struct_has_no_bytes() {
    let s = Struct::<Layout>::new();
    assert_eq!(s.len(), 0);
    assert!(s.fields().is_empty());
    assert_eq!(s.unpadded_layout(), layout_of(0, 1));
    assert_eq!(s.to_layout(), layout_of(0, 1));
}

#[test]
fn offsets_are_monotonic_and_aligned() {
    let parts = [(1usize, 1usize), (4, 4), (2, 2), (8, 8), (3, 1), (0, 16), (5, 4), (1, 1)];
    let mut s = Struct::<Layout>::new();
    for (i, (size, align)) in parts.iter().enumerate() {
        assert_eq!(s.push(layout_of(*size, *align)), Ok(i));
    }
    assert_eq!(s.len(), parts.len());
    assert_eq!(offsets(&s), vec![0, 4, 8, 16, 24, 32, 32, 37]);
    let fields: &[Field<Layout>] = s.fields();
    for i in 0..fields.len() {
        assert_eq!(fields[i].offset % fields[i].layout.align(), 0);
        if i + 1 < fields.len() {
            assert!(fields[i].offset + fields[i].layout.size() <= fields[i + 1].offset);
        }
    }
    assert_eq!(s.unpadded_layout(), layout_of(38, 16));
    assert_eq!(s.to_layout(), layout_of(48, 16));
}

#[test]
fn finalized_layout_is_padded() {
    let mut s = Struct::<Layout>::new();
    for (size, align) in [(8usize, 8usize), (1, 1)] {
        s.push(layout_of(size, align)).unwrap();
        let l = s.to_layout();
        assert_eq!(l.size() % l.align(), 0);
        assert!(l.size() >= s.unpadded_layout().size());
    }
    assert_eq!(s.unpadded_layout(), layout_of(9, 8));
    assert_eq!(s.to_layout(), layout_of(16, 8));
}

#[test]
fn struct_agrees_with_std_extend() {
    let parts = [(2usize, 2usize), (1, 1), (8, 8), (3, 1), (4, 4)];
    let mut s = Struct::<Layout>::new();
    let mut theirs = std::alloc::Layout::new::<()>();
    for (size, align) in parts {
        let index = s.push(layout_of(size, align)).unwrap();
        let (next, offset) =
            theirs.extend(std::alloc::Layout::from_size_align(size, align).unwrap()).unwrap();
        theirs = next;
        assert_eq!(s.fields()[index].offset, offset);
    }
    let padded = theirs.pad_to_align();
    assert_eq!((s.to_layout().size(), s.to_layout().align()), (padded.size(), padded.align()));
}

#[test]
fn failed_push_leaves_the_struct_as_it_was() {
    let mut s = Struct::<Slice<Layout>>::new();
    assert_eq!(s.push(Slice::new(layout_of(4, 4), 2)), Ok(0));
    assert_eq!(s.push(Slice::new(layout_of(1, 1), 1)), Ok(1));
    let before = (offsets(&s), s.unpadded_layout());

    assert_eq!(s.push(Slice::new(layout_of(2, 2), usize::MAX)), Err(LayoutError::SizeOverflow));
    assert_eq!((offsets(&s), s.unpadded_layout()), before);

    assert_eq!(
        s.push(Slice::new(layout_of(1, 1), isize::MAX as usize - 8)),
        Err(LayoutError::SizeOverflow)
    );
    assert_eq!((offsets(&s), s.unpadded_layout()), before);
    assert_eq!(s.len(), 2);

    assert_eq!(s.push(Slice::new(layout_of(8, 8), 1)), Ok(2));
    assert_eq!(offsets(&s), vec![0, 8, 16]);
}

#[test]
fn struct_overflows_by_accumulation() {
    let half = (isize::MAX as usize + 1) / 2;
    let mut s = Struct::<Layout>::new();
    assert_eq!(s.push(layout_of(half, 1)), Ok(0));
    assert_eq!(s.push(layout_of(half, 1)), Err(LayoutError::SizeOverflow));
    assert_eq!(s.push(layout_of(half - 1, 1)), Ok(1));
    assert_eq!(s.push(layout_of(1, 1)), Err(LayoutError::SizeOverflow));
    assert_eq!(s.push(layout_of(0, 1)), Ok(2));
    assert_eq!(s.push(layout_of(0, 2)), Err(LayoutError::SizeOverflow));
    assert_eq!(s.len(), 3);
}

#[test]
fn with_chains_fields() {
    let s = Struct::new()
        .with(TypeLayout::<u8>::new())
        .unwrap()
        .with(TypeLayout::<u8>::new())
        .unwrap();
    assert_eq!(offsets(&s), vec![0, 1]);
    let s = Struct::new().with(layout_of(1, 1)).unwrap().with(layout_of(8, 4)).unwrap();
    assert_eq!(offsets(&s), vec![0, 4]);
    assert_eq!(s.to_layout(), layout_of(12, 4));
    let failed = s.with(layout_of(isize::MAX as usize - 3, 4));
    assert_eq!(failed.err(), Some(LayoutError::SizeOverflow));
}

#[test]
fn struct_of_structs() {
    let first = Struct::new().with(layout_of(1, 1)).unwrap().with(layout_of(2, 2)).unwrap();
    assert_eq!(first.to_layout(), layout_of(4, 2));
    let second = Struct::new().with(layout_of(8, 8)).unwrap().with(layout_of(1, 1)).unwrap();
    assert_eq!(second.to_layout(), layout_of(16, 8));
    let third = Struct::new().with(layout_of(1, 1)).unwrap();
    let outer = Struct::new().with(first).unwrap().with(second).unwrap().with(third).unwrap();
    assert_eq!(offsets(&outer), vec![0, 8, 24]);
    assert_eq!(outer.unpadded_layout(), layout_of(25, 8));
    assert_eq!(outer.try_to_layout(), Ok(layout_of(32, 8)));
}

#[test]
fn multi_nests_structs_and_slices() {
    let mut inner = Struct::<Multi>::new();
    inner.push(Multi::from(layout_of(1, 1))).unwrap();
    inner.push(Multi::from(layout_of(2, 2))).unwrap();
    let row = Multi::Slice(Box::new(Slice::new(Multi::from(inner), 3)));
    assert_eq!(row.try_to_layout(), Ok(layout_of(12, 2)));

    let mut outer = Struct::<Multi>::new();
    assert_eq!(outer.push(Multi::from(layout_of(1, 1))), Ok(0));
    assert_eq!(outer.push(row), Ok(1));
    assert_eq!(outer.push(Multi::from(layout_of(8, 8))), Ok(2));
    assert_eq!(offsets(&outer), vec![0, 2, 16]);
    assert_eq!(outer.to_layout(), layout_of(24, 8));

    let failing = Multi::from(Slice::new(Slice::new(layout_of(2, 1), usize::MAX), 1));
    assert_eq!(failing.try_to_layout(), Err(LayoutError::SizeOverflow));
    assert_eq!(outer.push(failing), Err(LayoutError::SizeOverflow));
    assert_eq!(outer.len(), 3);
}

#[test]
fn multi_from_lifts_nested_builders() {
    let lifted = Multi::from(Slice::new(Slice::new(layout_of(3, 2), 2), 5));
    match &lifted {
        Multi::Slice(outer) => {
            assert_eq!(outer.length, 5);
            match &outer.layout {
                Multi::Slice(inner) => {
                    assert_eq!(inner.length, 2);
                    assert!(matches!(inner.layout, Multi::Layout(l) if l == layout_of(3, 2)));
                },
                _ => panic!("the element is a slice"),
            }
        },
        _ => panic!("the whole is a slice"),
    }
    assert_eq!(lifted.try_to_layout(), Ok(layout_of(40, 2)));
}
