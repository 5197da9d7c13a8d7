//! The conventional heap box: a value that always lives in a block of an
//! allocation capability.

use vstd::prelude::*;
use core::marker::PhantomData;
use crate::allocator::{AllocError, Allocator};
use crate::storage::Heap;
use crate::layout::Metadata;
use crate::pointee::Pointee;
use crate::value::Value;

verus! {

/// What a heap box amounts to: the shape descriptor of its value, the bytes
/// of the value, and its allocation capability.
pub struct HeapBoxView<A> {
    pub metadata: Metadata,
    pub image: Seq<u8>,
    pub alloc: A,
}

/// A value of type `T` in a block of the allocation capability `A`, together
/// with its shape descriptor and the capability.
#[derive(Debug)]
pub struct HeapBox<T: ?Sized + Pointee, A: Allocator> {
    phantom: PhantomData<T>,
    metadata: Metadata,
    heap: Heap,
    alloc: A,
}

impl<T: ?Sized + Pointee, A: Allocator> View for HeapBox<T, A> {
    type V = HeapBoxView<A>;

    closed spec fn view(&self) -> HeapBoxView<A> {
        HeapBoxView { metadata: self.metadata, image: self.heap@, alloc: self.alloc }
    }
}

impl<T: ?Sized + Pointee, A: Allocator> HeapBox<T, A> {
    /// What holds of every heap box: its descriptor is one of its type, its
    /// block is as large as its value, and its bytes hold a value of its
    /// type.
    #[verifier::type_invariant]
    pub closed spec fn wf(self) -> bool {
        &&& T::describes(self.metadata)
        &&& self.heap@.len() == self.metadata.layout.size
        &&& T::inhabits(self.metadata, self.heap@)
    }

    /// Makes a heap box of a block that holds a value, the descriptor of
    /// the value, and the capability that the block is from.
    pub fn from_raw_in(heap: Heap, metadata: Metadata, alloc: A) -> (boxed: Self)
        requires
            T::describes(metadata),
            heap@.len() == metadata.layout.size,
            T::inhabits(metadata, heap@),
        ensures
            boxed@ == (HeapBoxView { metadata, image: heap@, alloc }),
    {
        HeapBox { phantom: PhantomData, metadata, heap, alloc }
    }

    /// Takes a heap box apart into its block, the descriptor of its value,
    /// and its capability.
    pub fn into_raw_with_allocator(self) -> (parts: (Heap, Metadata, A))
        ensures
            parts.0@ == self@.image,
            parts.1 == self@.metadata,
            parts.2 == self@.alloc,
            T::describes(parts.1),
            parts.0@.len() == parts.1.layout.size,
            T::inhabits(parts.1, parts.0@),
    {
        proof {
            use_type_invariant(&self);
        }
        (self.heap, self.metadata, self.alloc)
    }

    /// The bytes of the value.
    pub fn as_bytes(&self) -> (image: &[u8])
        ensures
            image@ == self@.image,
            image@.len() == self@.metadata.layout.size,
            T::inhabits(self@.metadata, image@),
    {
        proof {
            use_type_invariant(self);
        }
        self.heap.as_slice()
    }

    /// Returns the block to the capability and hands the capability out.
    pub fn drop(self) -> (alloc: A)
        ensures
            self@.alloc.released(self@.metadata.layout, &alloc),
    {
        let (heap, metadata, alloc) = self.into_raw_with_allocator();
        let mut alloc = alloc;
        heap.deallocate(metadata, &mut alloc);
        alloc
    }
}

impl<T: Value, A: Allocator> HeapBox<T, A> {
    /// The value.
    pub open spec fn value(&self) -> T {
        T::value(self@.image)
    }

    /// What a request for a block for `value` comes to: where it was
    /// granted, a heap box that holds `value` in the block, with the
    /// capability `alloc` that the block is from; where it was refused, the
    /// failure.
    pub fn from_allocation(allocation: Result<Heap, AllocError>, value: T, alloc: A) -> (boxed:
        Result<Self, AllocError>)
        requires
            allocation matches Ok(heap) ==> heap@.len() == T::layout_spec().size,
        ensures
            match allocation {
                Ok(_) => boxed matches Ok(b) && b@ == (HeapBoxView {
                    metadata: Metadata::sized(T::layout_spec()),
                    image: value.image(),
                    alloc,
                }) && b.value() == value,
                Err(error) => boxed == Err::<Self, AllocError>(error),
            },
    {
        proof {
            T::lemma_image(value);
        }
        match allocation {
            Ok(heap) => {
                let mut heap = heap;
                let metadata = Metadata::new_sized(T::layout());
                let bytes = value.to_bytes();
                heap.write(0, &bytes);
                assert(heap@ =~= value.image());
                Ok(HeapBox { phantom: PhantomData, metadata, heap, alloc })
            },
            Err(error) => Err(error),
        }
    }

    /// Requests a block of `alloc` for a `T` and puts `value` in it. Whether
    /// the block is granted is the capability's decision; a refusal is the
    /// one way this fails.
    pub fn try_new_in(value: T, alloc: A) -> (boxed: Result<Self, AllocError>)
        ensures
            boxed matches Ok(b) ==> {
                &&& b@.metadata == Metadata::sized(T::layout_spec())
                &&& b@.image == value.image()
                &&& b.value() == value
                &&& alloc.granted(T::layout_spec(), &b@.alloc)
            },
    {
        let mut alloc = alloc;
        let metadata = Metadata::new_sized(T::layout());
        let allocation = Heap::try_new_uninit_in(metadata, &mut alloc);
        Self::from_allocation(allocation, value, alloc)
    }

    /// Reads the value.
    pub fn get(&self) -> (value: T)
        ensures
            value == self.value(),
    {
        T::from_bytes(self.as_bytes())
    }

    /// Writes `value` over the value.
    pub fn set(&mut self, value: T)
        ensures
            final(self)@ == (HeapBoxView { image: value.image(), ..old(self)@ }),
            final(self).value() == value,
    {
        proof {
            use_type_invariant(&*self);
            T::lemma_image(value);
        }
        let bytes = value.to_bytes();
        self.heap.write(0, &bytes);
        assert(self.heap@ =~= value.image());
    }
}

} // verus!
