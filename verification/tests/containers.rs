use std::mem::MaybeUninit;

use smolbox::allocator::{AllocError, Allocator, Global};
use smolbox::boxed::HeapBox;
use smolbox::inner::Inner;
use smolbox::storage::{copy_bytes, write_bytes, Data, Heap, Stack};
use smolbox::layout::{Descriptor, Layout, Metadata};
use smolbox::pointee::Erased;
use smolbox::value::Value;

/// Records every request and every returned block; refuses a request once
/// `budget` blocks are out.
#[derive(Debug, Default, Clone, PartialEq, Eq)]
struct Recording {
    budget: usize,
    requests: Vec<Layout>,
    returns: Vec<Layout>,
}

impl Recording {
    fn with_budget(budget: usize) -> Self {
        Recording { budget, requests: Vec::new(), returns: Vec::new() }
    }
}

impl Allocator for Recording {
    fn granted(&self, layout: Layout, post: &Self) -> bool {
        let mut requests = self.requests.clone();
        requests.push(layout);
        post.requests == requests && post.returns == self.returns
    }

    fn released(&self, layout: Layout, post: &Self) -> bool {
        let mut returns = self.returns.clone();
        returns.push(layout);
        post.requests == self.requests && post.returns == returns
    }

    fn allocate(&mut self, layout: Layout) -> Result<Vec<u8>, AllocError> {
        if self.requests.len() - self.returns.len() >= self.budget {
            return Err(AllocError);
        }
        self.requests.push(layout);
        Ok(vec![0x55; layout.size])
    }

    fn allocate_zeroed(&mut self, layout: Layout) -> Result<Vec<u8>, AllocError> {
        if self.requests.len() - self.returns.len() >= self.budget {
            return Err(AllocError);
        }
        self.requests.push(layout);
        Ok(vec![0; layout.size])
    }

    fn deallocate(&mut self, block: Vec<u8>, layout: Layout) {
        assert_eq!(block.len(), layout.size);
        self.returns.push(layout);
    }
}

fn sized(size: usize, align: usize) -> Metadata {
    Metadata::new_sized(Layout::from_size_align(size, align))
}

fn container<S>(value: u64, budget: usize) -> Inner<u64, S, Recording> {
    let mut room =
        Inner::<MaybeUninit<u64>, S, Recording>::try_new_uninit_in(Recording::with_budget(budget))
            .unwrap();
    room.write(0, &value.to_bytes());
    room.assume_init()
}

fn resize_case<N: std::fmt::Debug, M>(from_inline: bool, to_inline: bool) {
    let layout = Layout::new::<u64>();
    let inner = container::<N>(0x1122334455667788, 2);
    assert_eq!(inner.is_inlined(), from_inline);
    let before = inner.allocator().clone();
    let resized = inner.try_resize_stack::<M>().unwrap();
    assert_eq!(resized.is_inlined(), to_inline);
    assert_eq!(resized.metadata(), Metadata::new_sized(layout));
    assert_eq!(u64::from_bytes(resized.as_bytes()), 0x1122334455667788);
    let after = resized.allocator().clone();
    if from_inline == to_inline {
        assert_eq!(after, before);
    } else if from_inline {
        assert!(before.granted(layout, &after));
    } else {
        assert!(before.released(layout, &after));
    }
    let end = resized.drop();
    assert_eq!(end.requests.len(), end.returns.len());
    assert!(end.requests.iter().all(|request| *request == layout));
    assert!(end.returns.iter().all(|returned| *returned == layout));
}

#[test]
fn resize_between_every_pair_of_capacities() {
    resize_case::<[u64; 0], [u64; 0]>(false, false);
    resize_case::<[u64; 0], u32>(false, false);
    resize_case::<[u64; 0], u64>(false, true);
    resize_case::<[u64; 0], [u64; 4]>(false, true);
    resize_case::<u32, [u64; 0]>(false, false);
    resize_case::<u32, u32>(false, false);
    resize_case::<u32, u64>(false, true);
    resize_case::<u32, [u64; 4]>(false, true);
    resize_case::<u64, [u64; 0]>(true, false);
    resize_case::<u64, u32>(true, false);
    resize_case::<u64, u64>(true, true);
    resize_case::<u64, [u64; 4]>(true, true);
    resize_case::<[u64; 4], [u64; 0]>(true, false);
    resize_case::<[u64; 4], u32>(true, false);
    resize_case::<[u64; 4], u64>(true, true);
    resize_case::<[u64; 4], [u64; 4]>(true, true);
}

#[test]
fn refused_resize_gives_the_container_back() {
    let inner = container::<u64>(42, 0);
    assert!(inner.is_inlined());
    let same = inner.try_resize_stack::<u32>().unwrap_err();
    assert!(same.is_inlined());
    assert_eq!(same.metadata(), Metadata::new_sized(Layout::new::<u64>()));
    assert_eq!(u64::from_bytes(same.as_bytes()), 42);
    assert_eq!(*same.allocator(), Recording::with_budget(0));
    let wider = same.try_resize_stack::<[u64; 2]>().unwrap();
    assert!(wider.is_inlined());
    assert_eq!(u64::from_bytes(wider.as_bytes()), 42);
    assert_eq!(wider.drop(), Recording::with_budget(0));
}

#[test]
fn heap_to_heap_resize_asks_for_nothing() {
    let inner = container::<u8>(42, 1);
    assert!(!inner.is_inlined());
    let moved = inner.try_resize_stack::<u16>().unwrap();
    assert!(!moved.is_inlined());
    assert_eq!(moved.allocator().requests, [Layout::new::<u64>()]);
    assert_eq!(moved.allocator().returns, []);
    assert_eq!(u64::from_bytes(moved.as_bytes()), 42);
}

#[test]
fn decision_function_on_chosen_layouts() {
    assert!(Inner::<u8, u64, Global>::inlined(sized(8, 8)));
    assert!(Inner::<u8, u64, Global>::inlined(sized(7, 8)));
    assert!(!Inner::<u8, u64, Global>::inlined(sized(9, 8)));
    assert!(Inner::<u8, u64, Global>::inlined(sized(8, 4)));
    assert!(!Inner::<u8, u64, Global>::inlined(sized(8, 16)));
    assert!(!Inner::<u8, u64, Global>::inlined(sized(1, 16)));
    assert!(Inner::<u8, [u64; 0], Global>::inlined(sized(0, 8)));
    assert!(Inner::<u8, [u64; 0], Global>::inlined(sized(0, 1)));
    assert!(!Inner::<u8, [u64; 0], Global>::inlined(sized(1, 1)));
    assert!(!Inner::<u8, [u64; 0], Global>::inlined(sized(0, 16)));
    assert!(Data::<[u8; 3]>::inlined(sized(3, 1)));
    assert!(!Data::<[u8; 3]>::inlined(sized(3, 2)));
    assert!(!Data::<[u8; 3]>::inlined(sized(4, 1)));
}

#[test]
fn zeroed_containers() {
    let inline = Inner::<MaybeUninit<u32>, u32, Recording>::try_new_zeroed_in(
        Recording::with_budget(0),
    )
    .unwrap();
    assert!(inline.is_inlined());
    assert_eq!(inline.as_bytes(), [0; 4]);
    assert_eq!(inline.drop(), Recording::with_budget(0));

    let heap = Inner::<MaybeUninit<u32>, u8, Recording>::try_new_zeroed_in(
        Recording::with_budget(1),
    )
    .unwrap();
    assert!(!heap.is_inlined());
    assert_eq!(heap.as_bytes(), [0; 4]);
    assert_eq!(heap.allocator().requests, [Layout::new::<u32>()]);
    let end = heap.drop();
    assert_eq!(end.returns, [Layout::new::<u32>()]);

    let refused = Inner::<MaybeUninit<u32>, u8, Recording>::try_new_zeroed_in(
        Recording::with_budget(0),
    );
    assert_eq!(refused.err(), Some(AllocError));
    let refused = Inner::<MaybeUninit<u32>, u8, Recording>::try_new_uninit_in(
        Recording::with_budget(0),
    );
    assert_eq!(refused.err(), Some(AllocError));
}

#[test]
fn slice_containers() {
    let inline = Inner::<[MaybeUninit<u16>], [u16; 3], Recording>::try_new_zeroed_slice_in(
        3,
        Recording::with_budget(0),
    )
    .unwrap();
    assert!(inline.is_inlined());
    assert_eq!(
        inline.metadata(),
        Metadata {
            layout: Layout { size: 6, align: std::mem::align_of::<u16>() },
            descriptor: Descriptor::Length(3)
        }
    );
    assert_eq!(inline.as_bytes(), [0; 6]);
    let init = inline.assume_init();
    assert_eq!(init.as_bytes(), [0; 6]);

    let heap = Inner::<[MaybeUninit<u16>], [u16; 3], Recording>::try_new_uninit_slice_in(
        4,
        Recording::with_budget(1),
    )
    .unwrap();
    assert!(!heap.is_inlined());
    assert_eq!(heap.as_bytes().len(), 8);
    assert_eq!(
        heap.allocator().requests,
        [Layout { size: 8, align: std::mem::align_of::<u16>() }]
    );

    let refused = Inner::<[MaybeUninit<u16>], [u16; 3], Recording>::try_new_uninit_slice_in(
        4,
        Recording::with_budget(0),
    );
    assert_eq!(refused.err(), Some(AllocError));
    let none = Inner::<[MaybeUninit<u16>], [u16; 3], Recording>::try_new_zeroed_slice_in(
        usize::MAX / 2 + 1,
        Recording::with_budget(1),
    );
    assert_eq!(none.err(), Some(AllocError));
    let last = Inner::<[MaybeUninit<u8>], [u16; 3], Recording>::try_new_zeroed_slice_in(
        isize::MAX as usize + 1,
        Recording::with_budget(1),
    );
    assert_eq!(last.err(), Some(AllocError));
}

#[test]
fn writes_replace_exactly_the_bytes_given() {
    let mut inner = container::<u64>(0, 0);
    inner.write(2, &vec![1, 2, 3]);
    assert_eq!(inner.as_bytes(), [0, 0, 1, 2, 3, 0, 0, 0]);
    inner.write(7, &vec![9]);
    assert_eq!(inner.as_bytes(), [0, 0, 1, 2, 3, 0, 0, 9]);
    inner.write(8, &vec![]);
    assert_eq!(inner.as_bytes(), [0, 0, 1, 2, 3, 0, 0, 9]);
    let mut heap = container::<u8>(0, 1);
    heap.write(0, &vec![1, 2, 3, 4, 5, 6, 7, 8]);
    assert_eq!(u64::from_bytes(heap.as_bytes()), 0x0807060504030201);
    assert!(!heap.is_inlined());
}

#[test]
fn coerce_and_downcast_of_containers() {
    let inner = container::<u64>(5, 0);
    let erased: Inner<Erased, u64, Recording> = inner.coerce();
    assert_eq!(
        erased.metadata(),
        Metadata::new_erased(Layout::new::<u64>(), <u64 as Value>::tag())
    );
    assert!(erased.is_inlined());
    assert_eq!(erased.as_bytes(), [5, 0, 0, 0, 0, 0, 0, 0]);
    let back: Inner<u64, u64, Recording> = erased.downcast_unchecked();
    assert_eq!(back.metadata(), Metadata::new_sized(Layout::new::<u64>()));
    assert_eq!(u64::from_bytes(back.as_bytes()), 5);
    let room: Inner<MaybeUninit<u64>, u64, Recording> = back.reinterpret_unchecked();
    assert_eq!(room.as_bytes(), [5, 0, 0, 0, 0, 0, 0, 0]);
    assert_eq!(room.drop(), Recording::with_budget(0));
}

#[test]
fn box_conversions_of_containers() {
    let inner = container::<u64>(5, 1);
    let boxed: HeapBox<u64, Recording> = inner.try_into_box().unwrap();
    assert_eq!(boxed.get(), 5);
    let (heap, metadata, alloc) = boxed.into_raw_with_allocator();
    assert_eq!(heap.as_slice(), [5, 0, 0, 0, 0, 0, 0, 0]);
    assert_eq!(metadata, Metadata::new_sized(Layout::new::<u64>()));
    assert_eq!(alloc.requests, [Layout::new::<u64>()]);
    let boxed = HeapBox::<u64, Recording>::from_raw_in(heap, metadata, alloc);
    let inline = Inner::<u64, u64, Recording>::from_box(boxed);
    assert!(inline.is_inlined());
    assert_eq!(inline.allocator().returns, [Layout::new::<u64>()]);
    assert_eq!(u64::from_bytes(inline.as_bytes()), 5);

    let refused = container::<u64>(5, 0).try_into_box().unwrap_err();
    assert!(refused.is_inlined());
    assert_eq!(u64::from_bytes(refused.as_bytes()), 5);
}

#[test]
fn copy_and_write_of_bytes() {
    let mut dst = vec![9u8; 5];
    copy_bytes(&[1, 2, 3, 4], &mut dst, 3);
    assert_eq!(dst, [1, 2, 3, 9, 9]);
    copy_bytes(&[7], &mut dst, 0);
    assert_eq!(dst, [1, 2, 3, 9, 9]);
    copy_bytes(&[5, 6, 7, 8, 0], &mut dst, 5);
    assert_eq!(dst, [5, 6, 7, 8, 0]);
    write_bytes(&mut dst, 1, &vec![1, 2]);
    assert_eq!(dst, [5, 1, 2, 8, 0]);
    write_bytes(&mut dst, 4, &vec![3]);
    assert_eq!(dst, [5, 1, 2, 8, 3]);
    write_bytes(&mut dst, 5, &vec![]);
    assert_eq!(dst, [5, 1, 2, 8, 3]);
}

#[test]
fn stack_buffers() {
    let zeroed = Stack::<[u8; 4]>::new_zeroed();
    assert_eq!(zeroed.as_slice(sized(4, 1)), [0; 4]);
    assert_eq!(zeroed.as_slice(sized(0, 1)), []);
    let mut stack = Stack::<[u8; 4]>::new_uninit();
    assert_eq!(stack.as_slice(sized(4, 1)).len(), 4);
    stack.write(0, &vec![1, 2, 3, 4]);
    stack.write(1, &vec![7]);
    assert_eq!(stack.as_slice(sized(4, 1)), [1, 7, 3, 4]);
    assert_eq!(stack.as_slice(sized(2, 1)), [1, 7]);
    let wider = Stack::<[u8; 6]>::from_stack(stack, sized(3, 1));
    assert_eq!(wider.as_slice(sized(3, 1)), [1, 7, 3]);
    assert_eq!(wider.as_slice(sized(6, 1)).len(), 6);
    let narrow = Stack::<[u8; 2]>::from_stack(wider, sized(2, 1));
    assert_eq!(narrow.as_slice(sized(2, 1)), [1, 7]);

    let mut alloc = Recording::with_budget(1);
    let heap = Heap::try_new_zeroed_in(sized(3, 1), &mut alloc).unwrap();
    let from_heap = Stack::<[u8; 4]>::from_heap(heap, sized(3, 1), &mut alloc);
    assert_eq!(from_heap.as_slice(sized(3, 1)), [0, 0, 0]);
    assert_eq!(alloc.returns, [Layout { size: 3, align: 1 }]);
}

#[test]
fn heap_blocks() {
    let mut alloc = Recording::with_budget(2);
    let zeroed = Heap::try_new_zeroed_in(sized(3, 1), &mut alloc).unwrap();
    assert_eq!(zeroed.as_slice(), [0, 0, 0]);
    let mut uninit = Heap::try_new_uninit_in(sized(2, 2), &mut alloc).unwrap();
    assert_eq!(uninit.as_slice().len(), 2);
    uninit.write(0, &vec![4, 5]);
    assert_eq!(uninit.as_slice(), [4, 5]);
    assert_eq!(
        alloc.requests,
        [Layout { size: 3, align: 1 }, Layout { size: 2, align: 2 }]
    );
    assert_eq!(Heap::try_new_uninit_in(sized(1, 1), &mut alloc).err(), Some(AllocError));
    assert_eq!(Heap::try_new_zeroed_in(sized(1, 1), &mut alloc).err(), Some(AllocError));
    assert_eq!(alloc.requests.len(), 2);
    uninit.deallocate(sized(2, 2), &mut alloc);
    assert_eq!(alloc.returns, [Layout { size: 2, align: 2 }]);
    assert_eq!(zeroed.into_raw(), [0, 0, 0]);
    assert_eq!(Heap::from_raw(vec![1, 2]).as_slice(), [1, 2]);
}

#[test]
fn what_a_request_comes_to() {
    let granted = Heap::from_allocation(Ok(vec![1, 2, 3])).unwrap();
    assert_eq!(granted.as_slice(), [1, 2, 3]);
    assert_eq!(Heap::from_allocation(Err(AllocError)).err(), Some(AllocError));

    let mut stack = Stack::<[u8; 4]>::new_zeroed();
    stack.write(0, &vec![1, 2, 3, 4]);
    let moved = Heap::from_stack(Ok(vec![0xFF; 3]), stack, sized(3, 1)).unwrap();
    assert_eq!(moved.as_slice(), [1, 2, 3]);

    let mut stack = Stack::<[u8; 4]>::new_zeroed();
    stack.write(0, &vec![1, 2, 3, 4]);
    let kept = Heap::from_stack(Err(AllocError), stack, sized(3, 1)).unwrap_err();
    assert_eq!(kept.as_slice(sized(4, 1)), [1, 2, 3, 4]);

    let mut alloc = Recording::with_budget(0);
    let kept = Heap::try_from_stack_in(kept, sized(3, 1), &mut alloc).unwrap_err();
    assert_eq!(kept.as_slice(sized(4, 1)), [1, 2, 3, 4]);
    assert_eq!(alloc, Recording::with_budget(0));
    let mut alloc = Recording::with_budget(1);
    let moved = Heap::try_from_stack_in(kept, sized(3, 1), &mut alloc).unwrap();
    assert_eq!(moved.as_slice(), [1, 2, 3]);
    assert_eq!(alloc.requests, [Layout { size: 3, align: 1 }]);
}

#[test]
fn storage_in_either_form() {
    let mut alloc = Recording::with_budget(1);
    let mut inline = Data::<[u8; 4]>::try_new_zeroed_in(sized(3, 1), &mut alloc).unwrap();
    assert!(matches!(inline, Data::Stack(_)));
    assert_eq!(inline.as_slice(sized(3, 1)), [0, 0, 0]);
    inline.write(sized(3, 1), 1, &vec![8, 9]);
    assert_eq!(inline.as_slice(sized(3, 1)), [0, 8, 9]);
    assert_eq!(alloc, Recording::with_budget(1));

    let heap = Data::<[u8; 2]>::try_from_data_in(inline, sized(3, 1), &mut alloc).unwrap();
    assert!(matches!(heap, Data::Heap(_)));
    assert_eq!(heap.as_slice(sized(3, 1)), [0, 8, 9]);
    assert_eq!(alloc.requests, [Layout { size: 3, align: 1 }]);

    let still = Data::<[u8; 1]>::try_from_data_in(heap, sized(3, 1), &mut alloc).unwrap();
    assert!(matches!(still, Data::Heap(_)));
    assert_eq!(alloc.requests.len(), 1);
    assert_eq!(alloc.returns.len(), 0);

    let block = still.try_into_heap_in(sized(3, 1), &mut alloc).unwrap();
    assert_eq!(block.as_slice(), [0, 8, 9]);
    assert_eq!(alloc.requests.len(), 1);

    let back = Data::<[u8; 3]>::from_heap(block, sized(3, 1), &mut alloc);
    assert!(matches!(back, Data::Stack(_)));
    assert_eq!(back.as_slice(sized(3, 1)), [0, 8, 9]);
    assert_eq!(alloc.returns, [Layout { size: 3, align: 1 }]);

    let mut none = Recording::with_budget(0);
    let same = Data::<[u8; 2]>::try_from_data_in(back, sized(3, 1), &mut none).unwrap_err();
    assert!(matches!(same, Data::Stack(_)));
    assert_eq!(same.as_slice(sized(3, 1)), [0, 8, 9]);
    let same = same.try_into_heap_in(sized(3, 1), &mut none).unwrap_err();
    assert_eq!(same.as_slice(sized(3, 1)), [0, 8, 9]);
    same.drop(sized(3, 1), &mut none);
    assert_eq!(none, Recording::with_budget(0));

    assert_eq!(
        Data::<[u8; 2]>::try_new_uninit_in(sized(3, 1), &mut none).err(),
        Some(AllocError)
    );
    let mut one = Recording::with_budget(1);
    let heap = Data::<[u8; 2]>::try_new_uninit_in(sized(3, 1), &mut one).unwrap();
    assert_eq!(heap.as_slice(sized(3, 1)).len(), 3);
    heap.drop(sized(3, 1), &mut one);
    assert_eq!(one.returns, [Layout { size: 3, align: 1 }]);
}

#[test]
fn global_blocks() {
    let mut global = Global;
    let block = global.allocate_zeroed(Layout { size: 5, align: 1 }).unwrap();
    assert_eq!(block, [0; 5]);
    global.deallocate(block, Layout { size: 5, align: 1 });
    let block = global.allocate(Layout { size: 16, align: 8 }).unwrap();
    assert_eq!(block.len(), 16);
    let empty = global.allocate(Layout { size: 0, align: 1 }).unwrap();
    assert_eq!(empty.len(), 0);
    assert_eq!(global.allocate(Layout { size: usize::MAX, align: 1 }), Err(AllocError));
    assert_eq!(
        global.allocate_zeroed(Layout { size: isize::MAX as usize, align: 1 }),
        Err(AllocError)
    );
    assert_eq!(
        global.allocate(Layout { size: isize::MAX as usize + 1, align: 1 }),
        Err(AllocError)
    );
    assert_eq!(
        global.allocate_zeroed(Layout { size: isize::MAX as usize + 1, align: 8 }),
        Err(AllocError)
    );
    assert_eq!(Global::default(), Global);
}

#[test]
fn what_a_request_for_a_heap_box_comes_to() {
    let granted = HeapBox::<u32, Recording>::from_allocation(
        Ok(Heap::from_raw(vec![0xFF; 4])),
        0x01020304,
        Recording::with_budget(3),
    )
    .unwrap();
    assert_eq!(granted.as_bytes(), [4, 3, 2, 1]);
    assert_eq!(granted.get(), 0x01020304);
    let (heap, metadata, alloc) = granted.into_raw_with_allocator();
    assert_eq!(heap.as_slice(), [4, 3, 2, 1]);
    assert_eq!(metadata, Metadata::new_sized(Layout::new::<u32>()));
    assert_eq!(alloc, Recording::with_budget(3));
    let refused = HeapBox::<u32, Recording>::from_allocation(
        Err(AllocError),
        7,
        Recording::with_budget(3),
    );
    assert_eq!(refused.err(), Some(AllocError));
}

#[test]
fn what_a_reservation_comes_to() {
    assert_eq!(Global::zeroed_block(Ok(Vec::new()), 4), Ok(vec![0, 0, 0, 0]));
    assert_eq!(Global::zeroed_block(Ok(Vec::with_capacity(2)), 0), Ok(vec![]));
    assert_eq!(Global::zeroed_block(Err(AllocError), 4), Err(AllocError));
    assert_eq!(Global::zeroed_block(Ok(Vec::new()), isize::MAX as usize + 1), Err(AllocError));
    assert_eq!(Global::zeroed_block(Ok(Vec::new()), usize::MAX), Err(AllocError));
}
