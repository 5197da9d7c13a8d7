//! The two storage forms of a value: a buffer of the container's own, and a
//! block of an allocation capability.

use vstd::prelude::*;
use core::marker::PhantomData;
use crate::allocator::{zeros, AllocError, Allocator};
use crate::layout::{Layout, Metadata};

verus! {

/// Copies the first `count` bytes of `src` over the first `count` bytes of
/// `dst`; the rest of `dst` stays.
pub fn copy_bytes(src: &[u8], dst: &mut Vec<u8>, count: usize)
    requires
        count <= src@.len(),
        count <= old(dst)@.len(),
    ensures
        final(dst)@ == src@.take(count as int) + old(dst)@.skip(count as int),
{
    let mut i: usize = 0;
    while i < count
        invariant
            i <= count,
            count <= src@.len(),
            dst@.len() == old(dst)@.len(),
            count <= dst@.len(),
            dst@ == src@.take(i as int) + old(dst)@.skip(i as int),
        decreases count - i,
    {
        let byte = src[i];
        dst[i] = byte;
        i = i + 1;
        assert(dst@ =~= src@.take(i as int) + old(dst)@.skip(i as int));
    }
    assert(dst@ =~= src@.take(count as int) + old(dst)@.skip(count as int));
}

/// The inline form: a byte buffer that the container owns outright, as large
/// as the capacity marker `S`. It is never requested from the allocation
/// capability, nor returned to it.
#[derive(Debug)]
pub struct Stack<S> {
    bytes: Vec<u8>,
    space: PhantomData<S>,
}

impl<S> View for Stack<S> {
    type V = Seq<u8>;

    closed spec fn view(&self) -> Seq<u8> {
        self.bytes@
    }
}

impl<S> Stack<S> {
    /// The buffer is as large as its capacity marker.
    pub open spec fn wf(&self) -> bool {
        self@.len() == Layout::of::<S>().size
    }

    /// A buffer whose contents are unspecified.
    pub fn new_uninit() -> (stack: Self)
        ensures
            stack.wf(),
    {
        Self::new_zeroed()
    }

    /// A buffer of zero bytes.
    pub fn new_zeroed() -> (stack: Self)
        ensures
            stack.wf(),
            stack@ == zeros(Layout::of::<S>().size as nat),
    {
        let capacity = Layout::new::<S>();
        let mut bytes: Vec<u8> = Vec::new();
        bytes.resize(capacity.size, 0u8);
        assert(bytes@ =~= zeros(capacity.size as nat));
        Stack { bytes, space: PhantomData }
    }

    /// Moves a value from a buffer of another capacity into a new one of
    /// this capacity: exactly the bytes of the value are copied.
    pub fn from_stack<Z>(src: Stack<Z>, metadata: Metadata) -> (stack: Self)
        requires
            src.wf(),
            metadata.layout.size <= Layout::of::<Z>().size,
            metadata.layout.size <= Layout::of::<S>().size,
        ensures
            stack.wf(),
            stack@.take(metadata.layout.size as int) == src@.take(metadata.layout.size as int),
    {
        let mut stack = Self::new_uninit();
        copy_bytes(src.bytes.as_slice(), &mut stack.bytes, metadata.layout.size);
        assert(stack@.take(metadata.layout.size as int) =~= src@.take(
            metadata.layout.size as int,
        ));
        stack
    }

    /// Moves a value from a heap block into a new buffer of this capacity,
    /// and returns the block to `alloc`.
    pub fn from_heap<A: Allocator>(heap: Heap, metadata: Metadata, alloc: &mut A) -> (stack: Self)
        requires
            heap@.len() == metadata.layout.size,
            metadata.layout.size <= Layout::of::<S>().size,
        ensures
            stack.wf(),
            stack@.take(metadata.layout.size as int) == heap@,
            old(alloc).released(metadata.layout, final(alloc)),
    {
        let mut stack = Self::new_uninit();
        copy_bytes(heap.block.as_slice(), &mut stack.bytes, metadata.layout.size);
        assert(stack@.take(metadata.layout.size as int) =~= heap@);
        heap.deallocate(metadata, alloc);
        stack
    }

    /// The bytes of the value that `metadata` describes.
    pub fn as_slice(&self, metadata: Metadata) -> (image: &[u8])
        requires
            self.wf(),
            metadata.layout.size <= Layout::of::<S>().size,
        ensures
            image@ == self@.take(metadata.layout.size as int),
    {
        vstd::slice::slice_subrange(self.bytes.as_slice(), 0, metadata.layout.size)
    }

    /// Overwrites the bytes from `offset` on with `src`.
    pub fn write(&mut self, offset: usize, src: &Vec<u8>)
        requires
            offset + src@.len() <= old(self)@.len(),
        ensures
            final(self)@ == old(self)@.take(offset as int) + src@ + old(self)@.skip(
                offset + src@.len(),
            ),
        no_unwind
    {
        write_bytes(&mut self.bytes, offset, src);
    }
}

/// Overwrites the bytes of `dst` from `offset` on with `src`.
pub fn write_bytes(dst: &mut Vec<u8>, offset: usize, src: &Vec<u8>)
    requires
        offset + src@.len() <= old(dst)@.len(),
    ensures
        final(dst)@ == old(dst)@.take(offset as int) + src@ + old(dst)@.skip(offset + src@.len()),
    no_unwind
{
    let count = src.len();
    let total = dst.len();
    let mut i: usize = 0;
    while i < count
        invariant
            i <= count,
            count == src@.len(),
            dst@.len() == old(dst)@.len(),
            dst@.len() == total,
            offset + count <= total,
            dst@ == old(dst)@.take(offset as int) + src@.take(i as int) + old(dst)@.skip(
                offset + i,
            ),
        decreases count - i,
    {
        let byte = src[i];
        dst[offset + i] = byte;
        i = i + 1;
        assert(dst@ =~= old(dst)@.take(offset as int) + src@.take(i as int) + old(dst)@.skip(
            offset + i,
        ));
    }
    assert(src@.take(count as int) =~= src@);
}

/// The heap form: a block obtained from an allocation capability, exactly as
/// large as the value it holds.
#[derive(Debug)]
pub struct Heap {
    block: Vec<u8>,
}

impl View for Heap {
    type V = Seq<u8>;

    closed spec fn view(&self) -> Seq<u8> {
        self.block@
    }
}

impl Heap {
    /// What a request for a block comes to: the block where it was granted,
    /// the failure where it was refused.
    pub fn from_allocation(allocation: Result<Vec<u8>, AllocError>) -> (heap: Result<
        Heap,
        AllocError,
    >)
        ensures
            match allocation {
                Ok(block) => heap matches Ok(h) && h@ == block@,
                Err(_) => heap is Err,
            },
    {
        match allocation {
            Ok(block) => Ok(Heap { block }),
            Err(error) => Err(error),
        }
    }

    /// Requests a block for the value that `metadata` describes; its
    /// contents are unspecified.
    pub fn try_new_uninit_in<A: Allocator>(metadata: Metadata, alloc: &mut A) -> (heap: Result<
        Heap,
        AllocError,
    >)
        ensures
            match heap {
                Ok(h) => h@.len() == metadata.layout.size && old(alloc).granted(
                    metadata.layout,
                    final(alloc),
                ),
                Err(_) => *final(alloc) == *old(alloc),
            },
    {
        Heap::from_allocation(alloc.allocate(metadata.layout))
    }

    /// Requests a block of zero bytes for the value that `metadata`
    /// describes.
    pub fn try_new_zeroed_in<A: Allocator>(metadata: Metadata, alloc: &mut A) -> (heap: Result<
        Heap,
        AllocError,
    >)
        ensures
            match heap {
                Ok(h) => h@ == zeros(metadata.layout.size as nat) && old(alloc).granted(
                    metadata.layout,
                    final(alloc),
                ),
                Err(_) => *final(alloc) == *old(alloc),
            },
    {
        Heap::from_allocation(alloc.allocate_zeroed(metadata.layout))
    }

    /// Moves a value out of an inline buffer into the block that a request
    /// came to. Where the request was refused the buffer comes back as it
    /// was.
    pub fn from_stack<S>(
        allocation: Result<Vec<u8>, AllocError>,
        stack: Stack<S>,
        metadata: Metadata,
    ) -> (heap: Result<Heap, Stack<S>>)
        requires
            metadata.layout.size <= stack@.len(),
            allocation matches Ok(block) ==> block@.len() == metadata.layout.size,
        ensures
            match allocation {
                Ok(_) => heap matches Ok(h) && h@ == stack@.take(metadata.layout.size as int),
                Err(_) => heap == Err::<Heap, Stack<S>>(stack),
            },
    {
        match allocation {
            Ok(block) => {
                let mut block = block;
                copy_bytes(stack.bytes.as_slice(), &mut block, metadata.layout.size);
                assert(block@ =~= stack@.take(metadata.layout.size as int));
                Ok(Heap { block })
            },
            Err(_) => Err(stack),
        }
    }

    /// Requests a block from `alloc` and moves a value out of an inline
    /// buffer into it. Where the request is refused the buffer comes back as
    /// it was.
    pub fn try_from_stack_in<S, A: Allocator>(
        stack: Stack<S>,
        metadata: Metadata,
        alloc: &mut A,
    ) -> (heap: Result<Heap, Stack<S>>)
        requires
            metadata.layout.size <= stack@.len(),
        ensures
            match heap {
                Ok(h) => h@ == stack@.take(metadata.layout.size as int) && old(alloc).granted(
                    metadata.layout,
                    final(alloc),
                ),
                Err(s) => s == stack && *final(alloc) == *old(alloc),
            },
    {
        let allocation = alloc.allocate(metadata.layout);
        Heap::from_stack(allocation, stack, metadata)
    }

    /// Takes over a block.
    pub fn from_raw(block: Vec<u8>) -> (heap: Heap)
        ensures
            heap@ == block@,
    {
        Heap { block }
    }

    /// Gives the block up.
    pub fn into_raw(self) -> (block: Vec<u8>)
        ensures
            block@ == self@,
    {
        self.block
    }

    /// The bytes of the block.
    pub fn as_slice(&self) -> (image: &[u8])
        ensures
            image@ == self@,
    {
        self.block.as_slice()
    }

    /// Overwrites the bytes from `offset` on with `src`.
    pub fn write(&mut self, offset: usize, src: &Vec<u8>)
        requires
            offset + src@.len() <= old(self)@.len(),
        ensures
            final(self)@ == old(self)@.take(offset as int) + src@ + old(self)@.skip(
                offset + src@.len(),
            ),
        no_unwind
    {
        write_bytes(&mut self.block, offset, src);
    }

    /// Returns the block to `alloc`, with the layout it was requested with.
    pub fn deallocate<A: Allocator>(self, metadata: Metadata, alloc: &mut A)
        requires
            self@.len() == metadata.layout.size,
        ensures
            old(alloc).released(metadata.layout, final(alloc)),
    {
        alloc.deallocate(self.block, metadata.layout);
    }
}

/// The storage of a container: one of the two forms. Which one is in use is
/// never recorded apart from the form itself, and is always the one that the
/// storage decision selects for the value's layout and the capacity `S`.
#[derive(Debug)]
pub enum Data<S> {
    Stack(Stack<S>),
    Heap(Heap),
}

impl<S> Data<S> {
    /// Whether the inline form is in use.
    pub open spec fn is_stack(&self) -> bool {
        self is Stack
    }

    /// All bytes of the storage.
    pub open spec fn bytes(&self) -> Seq<u8> {
        match self {
            Data::Stack(stack) => stack@,
            Data::Heap(heap) => heap@,
        }
    }

    /// The bytes of the value that `metadata` describes.
    pub open spec fn image(&self, metadata: Metadata) -> Seq<u8> {
        self.bytes().take(metadata.layout.size as int)
    }

    /// The form in use is the one that the storage decision selects, an
    /// inline buffer is as large as the capacity, and a heap block is as
    /// large as the value.
    pub open spec fn wf(&self, metadata: Metadata) -> bool {
        &&& self.is_stack() == metadata.layout.fits(Layout::of::<S>())
        &&& self.is_stack() ==> self.bytes().len() == Layout::of::<S>().size
        &&& !self.is_stack() ==> self.bytes().len() == metadata.layout.size
    }

    /// How an operation that takes storage `self` to storage `new` leaves
    /// the allocation capability: untouched where the form stays, after one
    /// granted request where a value moves to the heap, after one returned
    /// block where it leaves the heap.
    pub open spec fn transfers<Z, A: Allocator>(
        &self,
        new: &Data<Z>,
        metadata: Metadata,
        pre: &A,
        post: &A,
    ) -> bool {
        if self.is_stack() == new.is_stack() {
            *post == *pre
        } else if self.is_stack() {
            pre.granted(metadata.layout, post)
        } else {
            pre.released(metadata.layout, post)
        }
    }

    /// Moves a value from storage of capacity `Z` to storage of capacity
    /// `S`. The new form is the one that the storage decision selects for
    /// `S`; the bytes of the value are kept. An inline value that has to move
    /// to the heap needs a block: where `alloc` refuses it, the old storage
    /// comes back as it was. Every other move succeeds.
    pub fn try_from_data_in<Z, A: Allocator>(
        data: Data<Z>,
        metadata: Metadata,
        alloc: &mut A,
    ) -> (moved: Result<Self, Data<Z>>)
        requires
            data.wf(metadata),
        ensures
            !data.is_stack() || metadata.layout.fits(Layout::of::<S>()) ==> moved is Ok,
            match moved {
                Ok(new) => {
                    &&& new.wf(metadata)
                    &&& new.image(metadata) == data.image(metadata)
                    &&& data.transfers(&new, metadata, old(alloc), final(alloc))
                },
                Err(same) => same == data && *final(alloc) == *old(alloc),
            },
    {
        match data {
            Data::Stack(stack) => {
                if Self::inlined(metadata) {
                    Ok(Data::Stack(Stack::from_stack(stack, metadata)))
                } else {
                    match Heap::try_from_stack_in(stack, metadata, alloc) {
                        Ok(heap) => Ok(Data::Heap(heap)),
                        Err(stack) => Err(Data::Stack(stack)),
                    }
                }
            },
            Data::Heap(heap) => Ok(Self::from_heap(heap, metadata, alloc)),
        }
    }

    /// Takes over a heap block that holds a value. Where the storage
    /// decision selects the inline form, the value moves into a buffer and
    /// the block goes back to `alloc`; else the block is kept as it is.
    pub fn from_heap<A: Allocator>(heap: Heap, metadata: Metadata, alloc: &mut A) -> (data: Self)
        requires
            heap@.len() == metadata.layout.size,
        ensures
            data.wf(metadata),
            data.image(metadata) == heap@,
            data.is_stack() ==> old(alloc).released(metadata.layout, final(alloc)),
            !data.is_stack() ==> *final(alloc) == *old(alloc) && data == Data::<S>::Heap(heap),
    {
        if Self::inlined(metadata) {
            Data::Stack(Stack::from_heap(heap, metadata, alloc))
        } else {
            assert(heap@.take(metadata.layout.size as int) =~= heap@);
            Data::Heap(heap)
        }
    }

    /// Gives the value up as a heap block. A value in a block keeps it; an
    /// inline value needs one, and where `alloc` refuses it the storage
    /// comes back as it was.
    pub fn try_into_heap_in<A: Allocator>(self, metadata: Metadata, alloc: &mut A) -> (heap:
        Result<Heap, Self>)
        requires
            self.wf(metadata),
        ensures
            !self.is_stack() ==> heap is Ok,
            match heap {
                Ok(h) => {
                    &&& h@ == self.image(metadata)
                    &&& self.is_stack() ==> old(alloc).granted(metadata.layout, final(alloc))
                    &&& !self.is_stack() ==> *final(alloc) == *old(alloc)
                },
                Err(same) => same == self && *final(alloc) == *old(alloc),
            },
    {
        match self {
            Data::Stack(stack) => {
                match Heap::try_from_stack_in(stack, metadata, alloc) {
                    Ok(heap) => Ok(heap),
                    Err(stack) => Err(Data::Stack(stack)),
                }
            },
            Data::Heap(heap) => {
                assert(heap@.take(metadata.layout.size as int) =~= heap@);
                Ok(heap)
            },
        }
    }

    /// Storage for the value that `metadata` describes, in the form that the
    /// storage decision selects; its contents are unspecified. The inline
    /// form needs nothing from `alloc` and cannot fail.
    pub fn try_new_uninit_in<A: Allocator>(metadata: Metadata, alloc: &mut A) -> (data: Result<
        Self,
        AllocError,
    >)
        ensures
            metadata.layout.fits(Layout::of::<S>()) ==> data is Ok,
            match data {
                Ok(new) => {
                    &&& new.wf(metadata)
                    &&& new.is_stack() ==> *final(alloc) == *old(alloc)
                    &&& !new.is_stack() ==> old(alloc).granted(metadata.layout, final(alloc))
                },
                Err(_) => *final(alloc) == *old(alloc),
            },
    {
        if Self::inlined(metadata) {
            Ok(Data::Stack(Stack::new_uninit()))
        } else {
            match Heap::try_new_uninit_in(metadata, alloc) {
                Ok(heap) => Ok(Data::Heap(heap)),
                Err(error) => Err(error),
            }
        }
    }

    /// Storage for the value that `metadata` describes, in the form that the
    /// storage decision selects, with every byte of the value zero. The
    /// inline form needs nothing from `alloc` and cannot fail.
    pub fn try_new_zeroed_in<A: Allocator>(metadata: Metadata, alloc: &mut A) -> (data: Result<
        Self,
        AllocError,
    >)
        ensures
            metadata.layout.fits(Layout::of::<S>()) ==> data is Ok,
            match data {
                Ok(new) => {
                    &&& new.wf(metadata)
                    &&& new.image(metadata) == zeros(metadata.layout.size as nat)
                    &&& new.is_stack() ==> *final(alloc) == *old(alloc)
                    &&& !new.is_stack() ==> old(alloc).granted(metadata.layout, final(alloc))
                },
                Err(_) => *final(alloc) == *old(alloc),
            },
    {
        if Self::inlined(metadata) {
            let stack = Stack::<S>::new_zeroed();
            assert(stack@.take(metadata.layout.size as int) =~= zeros(
                metadata.layout.size as nat,
            ));
            Ok(Data::Stack(stack))
        } else {
            match Heap::try_new_zeroed_in(metadata, alloc) {
                Ok(heap) => {
                    assert(heap@.take(metadata.layout.size as int) =~= heap@);
                    Ok(Data::Heap(heap))
                },
                Err(error) => Err(error),
            }
        }
    }

    /// The bytes of the value that `metadata` describes, wherever they are.
    pub fn as_slice(&self, metadata: Metadata) -> (image: &[u8])
        requires
            self.wf(metadata),
        ensures
            image@ == self.image(metadata),
    {
        match self {
            Data::Stack(stack) => stack.as_slice(metadata),
            Data::Heap(heap) => {
                assert(heap@.take(metadata.layout.size as int) =~= heap@);
                heap.as_slice()
            },
        }
    }

    /// Overwrites the bytes of the value from `offset` on with `src`,
    /// wherever they are.
    pub fn write(&mut self, metadata: Metadata, offset: usize, src: &Vec<u8>)
        requires
            old(self).wf(metadata),
            offset + src@.len() <= metadata.layout.size,
        ensures
            final(self).wf(metadata),
            final(self).is_stack() == old(self).is_stack(),
            final(self).image(metadata) == old(self).image(metadata).take(offset as int) + src@
                + old(self).image(metadata).skip(offset + src@.len()),
        no_unwind
    {
        match self {
            Data::Stack(stack) => {
                stack.write(offset, src);
            },
            Data::Heap(heap) => {
                heap.write(offset, src);
            },
        }
        assert(final(self).image(metadata) =~= old(self).image(metadata).take(offset as int)
            + src@ + old(self).image(metadata).skip(offset + src@.len()));
    }

    /// Tears the storage down: a heap block goes back to `alloc`, with the
    /// layout it was requested with; an inline buffer needs nothing from it.
    pub fn drop<A: Allocator>(self, metadata: Metadata, alloc: &mut A)
        requires
            self.wf(metadata),
        ensures
            self.is_stack() ==> *final(alloc) == *old(alloc),
            !self.is_stack() ==> old(alloc).released(metadata.layout, final(alloc)),
    {
        match self {
            Data::Stack(_) => {},
            Data::Heap(heap) => heap.deallocate(metadata, alloc),
        }
    }

    /// The storage decision for the value that `metadata` describes and the
    /// capacity `S`: whether the value is held inline.
    pub fn inlined(metadata: Metadata) -> (inline: bool)
        ensures
            inline == metadata.layout.fits(Layout::of::<S>()),
    {
        let store = Layout::new::<S>();
        metadata.layout.size <= store.size && metadata.layout.align <= store.align
    }
}

} // verus!
