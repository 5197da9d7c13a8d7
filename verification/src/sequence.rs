//! Boxes of sequences: `len` elements of one fixed-size type, laid out one
//! after the other.

use vstd::prelude::*;
use core::mem::MaybeUninit;
use crate::allocator::{zeros, AllocError, Allocator};
use crate::inner::{Inner, InnerView};
use crate::layout::{Descriptor, Layout, Metadata};
use crate::pointee::{element, lemma_element_bounds, lemma_replaced, replaced, Pointee};
use crate::value::Value;
use crate::inner::acquired;
use crate::{defaulted, SmallBox};

verus! {

/// The number of elements that `metadata` records; none where it is not the
/// descriptor of a sequence.
pub open spec fn length(metadata: Metadata) -> usize {
    match metadata.descriptor {
        Descriptor::Length(len) => len,
        _ => 0,
    }
}

/// The values that the bytes of a sequence of `len` elements of type `T`
/// are the images of.
pub open spec fn elements<T: Value>(image: Seq<u8>, len: usize) -> Seq<T> {
    Seq::new(len as nat, |i: int| T::value(element(image, T::layout_spec().size, i)))
}

/// The bytes of a sequence are as many as its elements take.
pub proof fn lemma_slice_size(element: Layout, len: usize)
    requires
        element.array_size(len) <= isize::MAX,
    ensures
        Metadata::slice(element, len).layout.size == len * element.size,
        length(Metadata::slice(element, len)) == len,
{
    assert(element.size * len == len * element.size) by (nonlinear_arith);
}

/// The elements of a sequence of bytes are its bytes.
pub proof fn lemma_byte_elements(image: Seq<u8>, len: usize)
    requires
        image.len() == len,
    ensures
        elements::<u8>(image, len) == image,
{
    broadcast use vstd::layout::layout_of_primitives;

    assert forall|i: int| 0 <= i < len implies elements::<u8>(image, len)[i] == image[i] by {
        assert(element(image, 1usize, i) =~= seq![image[i]]);
    }
    assert(elements::<u8>(image, len) =~= image);
}

/// Reads the number of elements out of the descriptor of a sequence.
pub fn length_of(metadata: Metadata) -> (len: usize)
    ensures
        len == length(metadata),
{
    match metadata.descriptor {
        Descriptor::Length(len) => len,
        _ => 0,
    }
}

impl<T: Value, S, A: Allocator> SmallBox<[MaybeUninit<T>], S, A> {
    /// A box with room for `len` elements of type `T`; the bytes are
    /// unspecified. There is none where `len` elements have no layout.
    /// Inline storage needs nothing from `alloc` and cannot fail.
    pub fn try_new_uninit_slice_in(len: usize, alloc: A) -> (boxed: Result<Self, AllocError>)
        ensures
            T::layout_spec().array_size(len) <= isize::MAX && Metadata::slice(
                T::layout_spec(),
                len,
            ).layout.fits(Layout::of::<S>()) ==> boxed is Ok,
            boxed matches Ok(b) ==> {
                &&& T::layout_spec().array_size(len) <= isize::MAX
                &&& b@.metadata == Metadata::slice(T::layout_spec(), len)
                &&& b@.inlined == b@.metadata.layout.fits(Layout::of::<S>())
                &&& acquired(alloc, b@.inlined, b@.metadata.layout, b@.alloc)
            },
    {
        match Inner::try_new_uninit_slice_in(len, alloc) {
            Ok(inner) => Ok(SmallBox(inner)),
            Err(error) => Err(error),
        }
    }

    /// A box with room for `len` elements of type `T`; every byte is zero.
    /// There is none where `len` elements have no layout. Inline storage
    /// needs nothing from `alloc` and cannot fail.
    pub fn try_new_zeroed_slice_in(len: usize, alloc: A) -> (boxed: Result<Self, AllocError>)
        ensures
            T::layout_spec().array_size(len) <= isize::MAX && Metadata::slice(
                T::layout_spec(),
                len,
            ).layout.fits(Layout::of::<S>()) ==> boxed is Ok,
            boxed matches Ok(b) ==> {
                &&& T::layout_spec().array_size(len) <= isize::MAX
                &&& b@.metadata == Metadata::slice(T::layout_spec(), len)
                &&& b@.image == zeros(b@.metadata.layout.size as nat)
                &&& b@.inlined == b@.metadata.layout.fits(Layout::of::<S>())
                &&& acquired(alloc, b@.inlined, b@.metadata.layout, b@.alloc)
            },
    {
        match Inner::try_new_zeroed_slice_in(len, alloc) {
            Ok(inner) => Ok(SmallBox(inner)),
            Err(error) => Err(error),
        }
    }

    /// Declares the elements written. That the bytes of each are the image
    /// of a `T` is the caller's to show.
    pub fn assume_init(self) -> (boxed: SmallBox<[T], S, A>)
        requires
            <[T] as Pointee>::inhabits(self@.metadata, self@.image),
        ensures
            boxed@ == self@,
    {
        SmallBox(self.0.assume_init())
    }

    /// The number of elements there is room for.
    pub fn len(&self) -> (len: usize)
        ensures
            len == length(self@.metadata),
            self@.metadata == Metadata::slice(T::layout_spec(), len),
            self@.image.len() == len * T::layout_spec().size,
    {
        let metadata = self.0.metadata();
        let len = length_of(metadata);
        proof {
            use_type_invariant(&self.0);
            self.0.lemma_wf();
            lemma_slice_size(T::layout_spec(), len);
        }
        len
    }

    /// Writes `value` into the room of the element at `index`, where there
    /// is such an element; says whether there is.
    pub fn write_at(&mut self, index: usize, value: T) -> (written: bool)
        ensures
            written == (index < length(old(self)@.metadata)),
            written ==> final(self)@ == (InnerView {
                image: replaced(
                    old(self)@.image,
                    T::layout_spec().size,
                    index as int,
                    value.image(),
                ),
                ..old(self)@
            }),
            !written ==> final(self)@ == old(self)@,
    {
        let len = self.len();
        if index >= len {
            return false;
        }
        let size = T::layout().size;
        let bytes = value.to_bytes();
        proof {
            use_type_invariant(&self.0);
            self.0.lemma_wf();
            T::lemma_image(value);
            lemma_element_bounds(size, len, index as int);
        }
        self.0.write(index * size, &bytes);
        true
    }
}

impl<T: Value, S, A: Allocator + Default> SmallBox<[MaybeUninit<T>], S, A> {
    /// A box with room for `len` elements of type `T`, in the default
    /// allocation capability; the bytes are unspecified.
    pub fn try_new_uninit_slice(len: usize) -> (boxed: Result<Self, AllocError>)
        ensures
            T::layout_spec().array_size(len) <= isize::MAX && Metadata::slice(
                T::layout_spec(),
                len,
            ).layout.fits(Layout::of::<S>()) ==> boxed is Ok,
            boxed matches Ok(b) ==> {
                &&& T::layout_spec().array_size(len) <= isize::MAX
                &&& b@.metadata == Metadata::slice(T::layout_spec(), len)
                &&& b@.inlined == b@.metadata.layout.fits(Layout::of::<S>())
                &&& exists|alloc: A| #[trigger]
                    defaulted(alloc) && acquired(alloc, b@.inlined, b@.metadata.layout, b@.alloc)
            },
    {
        let alloc = A::default();
        assert(defaulted(alloc));
        Self::try_new_uninit_slice_in(len, alloc)
    }

    /// A box with room for `len` elements of type `T`, in the default
    /// allocation capability; every byte is zero.
    pub fn try_new_zeroed_slice(len: usize) -> (boxed: Result<Self, AllocError>)
        ensures
            T::layout_spec().array_size(len) <= isize::MAX && Metadata::slice(
                T::layout_spec(),
                len,
            ).layout.fits(Layout::of::<S>()) ==> boxed is Ok,
            boxed matches Ok(b) ==> {
                &&& T::layout_spec().array_size(len) <= isize::MAX
                &&& b@.metadata == Metadata::slice(T::layout_spec(), len)
                &&& b@.image == zeros(b@.metadata.layout.size as nat)
                &&& b@.inlined == b@.metadata.layout.fits(Layout::of::<S>())
                &&& exists|alloc: A| #[trigger]
                    defaulted(alloc) && acquired(alloc, b@.inlined, b@.metadata.layout, b@.alloc)
            },
    {
        let alloc = A::default();
        assert(defaulted(alloc));
        Self::try_new_zeroed_slice_in(len, alloc)
    }
}

impl<T: Value, S, A: Allocator> SmallBox<[T], S, A> {
    /// The elements in the box.
    pub open spec fn elements(&self) -> Seq<T> {
        elements::<T>(self@.image, length(self@.metadata))
    }

    /// Gives the box up as room for its elements: the bytes stay, but are no
    /// longer taken for values.
    pub fn uninit(boxed: Self) -> (room: SmallBox<[MaybeUninit<T>], S, A>)
        ensures
            room@ == boxed@,
    {
        proof {
            use_type_invariant(&boxed.0);
            boxed.0.lemma_wf();
        }
        SmallBox(boxed.0.reinterpret_unchecked())
    }

    /// The number of elements.
    pub fn len(&self) -> (len: usize)
        ensures
            len == length(self@.metadata),
            len == self.elements().len(),
            self@.metadata == Metadata::slice(T::layout_spec(), len),
            self@.image.len() == len * T::layout_spec().size,
    {
        let metadata = self.0.metadata();
        let len = length_of(metadata);
        proof {
            use_type_invariant(&self.0);
            self.0.lemma_wf();
            lemma_slice_size(T::layout_spec(), len);
        }
        len
    }

    /// Reads the element at `index`, where there is one.
    pub fn get(&self, index: usize) -> (value: Option<T>)
        ensures
            value == if index < self.elements().len() {
                Some(self.elements()[index as int])
            } else {
                None::<T>
            },
    {
        let len = self.len();
        if index >= len {
            return None;
        }
        let size = T::layout().size;
        let bytes = self.0.as_bytes();
        proof {
            lemma_element_bounds(size, len, index as int);
        }
        let piece = vstd::slice::slice_subrange(bytes, index * size, index * size + size);
        assert(piece@ == element(self@.image, size, index as int));
        Some(T::from_bytes(piece))
    }

    /// Reads all elements, in order.
    pub fn to_vec(&self) -> (all: Vec<T>)
        ensures
            all@ == self.elements(),
    {
        let len = self.len();
        let mut all: Vec<T> = Vec::new();
        let mut index: usize = 0;
        while index < len
            invariant
                index <= len,
                len == self.elements().len(),
                all@ == self.elements().take(index as int),
            decreases len - index,
        {
            match self.get(index) {
                Some(value) => {
                    all.push(value);
                },
                None => {},
            }
            index = index + 1;
            assert(all@ =~= self.elements().take(index as int));
        }
        assert(self.elements().take(len as int) =~= self.elements());
        all
    }

    /// Writes `value` over the element at `index`, where there is one; says
    /// whether there is. The other elements, the descriptor, the storage
    /// form and the allocation capability stay.
    pub fn set(&mut self, index: usize, value: T) -> (written: bool)
        ensures
            written == (index < old(self).elements().len()),
            written ==> final(self)@ == (InnerView {
                image: replaced(
                    old(self)@.image,
                    T::layout_spec().size,
                    index as int,
                    value.image(),
                ),
                ..old(self)@
            }),
            written ==> final(self).elements() == old(self).elements().update(index as int, value),
            !written ==> final(self)@ == old(self)@,
    {
        let len = self.len();
        if index >= len {
            return false;
        }
        let size = T::layout().size;
        let bytes = value.to_bytes();
        proof {
            use_type_invariant(&self.0);
            self.0.lemma_wf();
            T::lemma_image(value);
            lemma_element_bounds(size, len, index as int);
            lemma_replaced(self@.image, size, len, index as int, value.image());
        }
        self.0.write(index * size, &bytes);
        assert(self.elements() =~= old(self).elements().update(index as int, value));
        true
    }
}

} // verus!
