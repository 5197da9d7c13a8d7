//! The owning container: one storage form together with the shape
//! descriptor of its value and its allocation capability.

use vstd::prelude::*;
use core::marker::PhantomData;
use core::mem::MaybeUninit;
use crate::allocator::{zeros, AllocError, Allocator};
use crate::boxed::HeapBox;
use crate::layout::{coerce_metadata, Layout, Metadata};
use crate::pointee::{Erased, Pointee};
use crate::storage::Data;
use crate::value::Value;

verus! {

/// What a container amounts to: the shape descriptor of its value, the bytes
/// of the value, the storage form in use, and its allocation capability.
pub struct InnerView<A> {
    pub metadata: Metadata,
    pub image: Seq<u8>,
    pub inlined: bool,
    pub alloc: A,
}

/// How the allocation capability of a container that amounted to `view` has
/// changed when its value has moved to storage that is inline or not as
/// `inlined` says, and the capability has become `alloc`: not at all where
/// the storage form stayed, by one granted request for the layout of the
/// value where the value moved to the heap, by one returned block of that
/// layout where it left the heap.
pub open spec fn transferred<A: Allocator>(view: InnerView<A>, inlined: bool, alloc: A) -> bool {
    if view.inlined == inlined {
        alloc == view.alloc
    } else if view.inlined {
        view.alloc.granted(view.metadata.layout, &alloc)
    } else {
        view.alloc.released(view.metadata.layout, &alloc)
    }
}

/// How a new container of a value of `layout` has left the allocation
/// capability `pre` that it was given: as it was where the value is held
/// inline, after one granted request for `layout` where it is not.
pub open spec fn acquired<A: Allocator>(pre: A, inlined: bool, layout: Layout, post: A) -> bool {
    if inlined {
        post == pre
    } else {
        pre.granted(layout, &post)
    }
}

/// How tearing down a container that amounted to `view` leaves its
/// allocation capability: as it was where the value was held inline, after
/// one returned block of the value's layout where it was not.
pub open spec fn relinquished<A: Allocator>(view: InnerView<A>, post: A) -> bool {
    if view.inlined {
        post == view.alloc
    } else {
        view.alloc.released(view.metadata.layout, &post)
    }
}

/// A container that holds its value inline is made and torn down without a
/// single call to its allocation capability: the capability that comes out
/// at the end is the one that went in at the start.
pub proof fn lemma_inline_never_allocates<A: Allocator>(pre: A, view: InnerView<A>, post: A)
    requires
        view.inlined,
        acquired(pre, view.inlined, view.metadata.layout, view.alloc),
        relinquished(view, post),
    ensures
        post == pre,
{
}

/// A container that holds its value in a block is made by one granted
/// request for the layout of the value, and torn down by one return of a
/// block of that same layout.
pub proof fn lemma_heap_released_once<A: Allocator>(pre: A, view: InnerView<A>, post: A)
    requires
        !view.inlined,
        acquired(pre, view.inlined, view.metadata.layout, view.alloc),
        relinquished(view, post),
    ensures
        pre.granted(view.metadata.layout, &view.alloc),
        view.alloc.released(view.metadata.layout, &post),
{
}

/// The owning container: a value of type `T`, stored inline in a buffer of
/// capacity `S` or in a block of the allocation capability `A`, whichever
/// the storage decision selects.
#[derive(Debug)]
pub struct Inner<T: ?Sized + Pointee, S, A: Allocator> {
    phantom: PhantomData<T>,
    metadata: Metadata,
    data: Data<S>,
    alloc: A,
}

impl<T: ?Sized + Pointee, S, A: Allocator> View for Inner<T, S, A> {
    type V = InnerView<A>;

    closed spec fn view(&self) -> InnerView<A> {
        InnerView {
            metadata: self.metadata,
            image: self.data.image(self.metadata),
            inlined: self.data.is_stack(),
            alloc: self.alloc,
        }
    }
}

impl<T: ?Sized + Pointee, S, A: Allocator> Inner<T, S, A> {
    /// What holds of every container: its descriptor is one of its type, its
    /// storage is in the form that the storage decision selects, and its
    /// bytes hold a value of its type.
    #[verifier::type_invariant]
    pub closed spec fn wf(self) -> bool {
        &&& T::describes(self.metadata)
        &&& self.data.wf(self.metadata)
        &&& T::inhabits(self.metadata, self.data.image(self.metadata))
    }

    /// The storage form of every container is the one that the storage
    /// decision selects for the layout of its value and the capacity `S`:
    /// inline exactly if neither size nor alignment of the value exceeds
    /// that of the capacity. Its bytes are as many as the size of the value,
    /// and hold a value of its type.
    pub proof fn lemma_wf(self)
        requires
            self.wf(),
        ensures
            T::describes(self@.metadata),
            T::inhabits(self@.metadata, self@.image),
            self@.image.len() == self@.metadata.layout.size,
            self@.inlined <==> self@.metadata.layout.size <= Layout::of::<S>().size
                && self@.metadata.layout.align <= Layout::of::<S>().align,
    {
    }

    /// The storage decision for a value that `metadata` describes.
    pub fn inlined(metadata: Metadata) -> (inline: bool)
        ensures
            inline == metadata.layout.fits(Layout::of::<S>()),
    {
        Data::<S>::inlined(metadata)
    }

    /// Whether the value is held inline.
    pub fn is_inlined(&self) -> (inline: bool)
        ensures
            inline == self@.inlined,
            inline == self@.metadata.layout.fits(Layout::of::<S>()),
    {
        proof {
            use_type_invariant(self);
        }
        Self::inlined(self.metadata)
    }

    /// The allocation capability of the container.
    pub fn allocator(&self) -> (alloc: &A)
        ensures
            *alloc == self@.alloc,
    {
        &self.alloc
    }

    /// The shape descriptor of the value.
    pub fn metadata(&self) -> (metadata: Metadata)
        ensures
            metadata == self@.metadata,
            T::describes(metadata),
    {
        proof {
            use_type_invariant(self);
        }
        self.metadata
    }

    fn into_parts(self) -> (parts: (Data<S>, Metadata, A))
        ensures
            parts.1 == self@.metadata,
            parts.0.wf(parts.1),
            parts.0.image(parts.1) == self@.image,
            parts.0.is_stack() == self@.inlined,
            parts.2 == self@.alloc,
            T::describes(parts.1),
            T::inhabits(parts.1, parts.0.image(parts.1)),
            self == (Inner::<T, S, A> {
                phantom: PhantomData,
                metadata: parts.1,
                data: parts.0,
                alloc: parts.2,
            }),
    {
        proof {
            use_type_invariant(&self);
        }
        (self.data, self.metadata, self.alloc)
    }

    /// Takes over a value from a heap box, with its allocation capability.
    /// Where the storage decision selects the inline form, the value moves
    /// into the container's buffer and the block goes back to the
    /// capability; else the block is kept as it is.
    pub fn from_box(boxed: HeapBox<T, A>) -> (inner: Self)
        ensures
            inner@.metadata == boxed@.metadata,
            inner@.image == boxed@.image,
            inner@.inlined == boxed@.metadata.layout.fits(Layout::of::<S>()),
            inner@.inlined ==> boxed@.alloc.released(boxed@.metadata.layout, &inner@.alloc),
            !inner@.inlined ==> inner@.alloc == boxed@.alloc,
    {
        let (heap, metadata, alloc) = boxed.into_raw_with_allocator();
        let mut alloc = alloc;
        let data = Data::from_heap(heap, metadata, &mut alloc);
        Inner { phantom: PhantomData, metadata, data, alloc }
    }

    /// Gives the value up as a heap box, with the allocation capability. A
    /// value in a block keeps its block. An inline value needs one: where
    /// the capability refuses it, the container comes back as it was.
    pub fn try_into_box(self) -> (boxed: Result<HeapBox<T, A>, Self>)
        ensures
            !self@.inlined ==> boxed is Ok,
            match boxed {
                Ok(b) => {
                    &&& b@.metadata == self@.metadata
                    &&& b@.image == self@.image
                    &&& transferred(self@, false, b@.alloc)
                },
                Err(same) => same == self,
            },
    {
        let (data, metadata, alloc) = self.into_parts();
        let mut alloc = alloc;
        match data.try_into_heap_in(metadata, &mut alloc) {
            Ok(heap) => Ok(HeapBox::from_raw_in(heap, metadata, alloc)),
            Err(data) => Err(Inner { phantom: PhantomData, metadata, data, alloc }),
        }
    }

    /// Moves the value into a container of inline capacity `Z`. The new
    /// storage form is the one that the storage decision selects for `Z`;
    /// descriptor and bytes of the value are kept. An inline value that no
    /// longer fits needs a block: where the capability refuses it, the
    /// container comes back as it was. Every other move succeeds.
    pub fn try_resize_stack<Z>(self) -> (resized: Result<Inner<T, Z, A>, Self>)
        ensures
            !self@.inlined || self@.metadata.layout.fits(Layout::of::<Z>()) ==> resized is Ok,
            match resized {
                Ok(new) => {
                    &&& new@.metadata == self@.metadata
                    &&& new@.image == self@.image
                    &&& new@.inlined == self@.metadata.layout.fits(Layout::of::<Z>())
                    &&& transferred(self@, new@.inlined, new@.alloc)
                },
                Err(same) => same == self,
            },
    {
        let (data, metadata, alloc) = self.into_parts();
        let mut alloc = alloc;
        match Data::<Z>::try_from_data_in(data, metadata, &mut alloc) {
            Ok(data) => Ok(Inner { phantom: PhantomData, metadata, data, alloc }),
            Err(data) => Err(Inner { phantom: PhantomData, metadata, data, alloc }),
        }
    }

    /// Takes the value for one of type `U`. Nothing is checked: that the
    /// descriptor is one of `U`, and that the bytes hold a value of `U`, is
    /// the caller's to show.
    pub fn reinterpret_unchecked<U: ?Sized + Pointee>(self) -> (inner: Inner<U, S, A>)
        requires
            U::describes(self@.metadata),
            U::inhabits(self@.metadata, self@.image),
        ensures
            inner@ == self@,
    {
        let (data, metadata, alloc) = self.into_parts();
        Inner { phantom: PhantomData, metadata, data, alloc }
    }

    /// Takes the value for one of the fixed-size type `U`. Nothing is
    /// checked: that the value has the layout of `U`, and that its bytes are
    /// the image of a `U`, is the caller's to show.
    pub fn downcast_unchecked<U: Value>(self) -> (inner: Inner<U, S, A>)
        requires
            self@.metadata.layout == U::layout_spec(),
            U::is_image(self@.image),
        ensures
            inner@ == (InnerView { metadata: Metadata::sized(U::layout_spec()), ..self@ }),
    {
        let (data, metadata, alloc) = self.into_parts();
        let metadata = Metadata::new_sized(metadata.layout);
        Inner { phantom: PhantomData, metadata, data, alloc }
    }

    /// Tears the container down and hands its allocation capability out. A
    /// heap block goes back to the capability first, once, with the layout
    /// it was requested with; an inline value needs nothing from it.
    pub fn drop(self) -> (alloc: A)
        ensures
            relinquished(self@, alloc),
    {
        let (data, metadata, alloc) = self.into_parts();
        let mut alloc = alloc;
        data.drop(metadata, &mut alloc);
        alloc
    }

    /// The bytes of the value.
    pub fn as_bytes(&self) -> (image: &[u8])
        ensures
            image@ == self@.image,
            image@.len() == self@.metadata.layout.size,
            T::inhabits(self@.metadata, image@),
    {
        proof {
            use_type_invariant(self);
        }
        self.data.as_slice(self.metadata)
    }

    /// Overwrites the bytes of the value from `offset` on with `src`. What
    /// results must again hold a value of this type.
    pub fn write(&mut self, offset: usize, src: &Vec<u8>)
        requires
            offset + src@.len() <= old(self)@.metadata.layout.size,
            T::inhabits(
                old(self)@.metadata,
                old(self)@.image.take(offset as int) + src@ + old(self)@.image.skip(
                    offset + src@.len(),
                ),
            ),
        ensures
            final(self)@ == (InnerView {
                image: old(self)@.image.take(offset as int) + src@ + old(self)@.image.skip(
                    offset + src@.len(),
                ),
                ..old(self)@
            }),
        no_unwind
    {
        proof {
            use_type_invariant(&*self);
        }
        self.data.write(self.metadata, offset, src);
    }
}

impl<T: Value, S, A: Allocator> Inner<MaybeUninit<T>, S, A> {
    /// A container with room for a `T`; the bytes are unspecified. Inline
    /// storage needs nothing from `alloc` and cannot fail.
    pub fn try_new_uninit_in(alloc: A) -> (inner: Result<Self, AllocError>)
        ensures
            T::layout_spec().fits(Layout::of::<S>()) ==> inner is Ok,
            inner matches Ok(new) ==> {
                &&& new@.metadata == Metadata::sized(T::layout_spec())
                &&& new@.inlined == T::layout_spec().fits(Layout::of::<S>())
                &&& acquired(alloc, new@.inlined, T::layout_spec(), new@.alloc)
            },
    {
        let mut alloc = alloc;
        let metadata = Metadata::new_sized(T::layout());
        match Data::try_new_uninit_in(metadata, &mut alloc) {
            Ok(data) => Ok(Inner { phantom: PhantomData, metadata, data, alloc }),
            Err(error) => Err(error),
        }
    }

    /// A container with room for a `T`; every byte is zero. Inline storage
    /// needs nothing from `alloc` and cannot fail.
    pub fn try_new_zeroed_in(alloc: A) -> (inner: Result<Self, AllocError>)
        ensures
            T::layout_spec().fits(Layout::of::<S>()) ==> inner is Ok,
            inner matches Ok(new) ==> {
                &&& new@.metadata == Metadata::sized(T::layout_spec())
                &&& new@.image == zeros(T::layout_spec().size as nat)
                &&& new@.inlined == T::layout_spec().fits(Layout::of::<S>())
                &&& acquired(alloc, new@.inlined, T::layout_spec(), new@.alloc)
            },
    {
        let mut alloc = alloc;
        let metadata = Metadata::new_sized(T::layout());
        match Data::try_new_zeroed_in(metadata, &mut alloc) {
            Ok(data) => Ok(Inner { phantom: PhantomData, metadata, data, alloc }),
            Err(error) => Err(error),
        }
    }

    /// Declares the value written. That the bytes are the image of a `T` is
    /// the caller's to show.
    pub fn assume_init(self) -> (inner: Inner<T, S, A>)
        requires
            T::is_image(self@.image),
        ensures
            inner@ == self@,
    {
        let (data, metadata, alloc) = self.into_parts();
        Inner { phantom: PhantomData, metadata, data, alloc }
    }
}

impl<T: Value, S, A: Allocator> Inner<[MaybeUninit<T>], S, A> {
    /// A container with room for `len` elements of type `T`; the bytes are
    /// unspecified. There is none where `len` elements have no layout.
    /// Inline storage needs nothing from `alloc` and cannot fail.
    pub fn try_new_uninit_slice_in(len: usize, alloc: A) -> (inner: Result<Self, AllocError>)
        ensures
            T::layout_spec().array_size(len) <= isize::MAX && Metadata::slice(
                T::layout_spec(),
                len,
            ).layout.fits(Layout::of::<S>()) ==> inner is Ok,
            inner matches Ok(new) ==> {
                &&& T::layout_spec().array_size(len) <= isize::MAX
                &&& new@.metadata == Metadata::slice(T::layout_spec(), len)
                &&& new@.inlined == new@.metadata.layout.fits(Layout::of::<S>())
                &&& acquired(alloc, new@.inlined, new@.metadata.layout, new@.alloc)
            },
    {
        let mut alloc = alloc;
        match Metadata::new_slice(T::layout(), len) {
            Some(metadata) => match Data::try_new_uninit_in(metadata, &mut alloc) {
                Ok(data) => Ok(Inner { phantom: PhantomData, metadata, data, alloc }),
                Err(error) => Err(error),
            },
            None => Err(AllocError),
        }
    }

    /// A container with room for `len` elements of type `T`; every byte is
    /// zero. There is none where `len` elements have no layout. Inline
    /// storage needs nothing from `alloc` and cannot fail.
    pub fn try_new_zeroed_slice_in(len: usize, alloc: A) -> (inner: Result<Self, AllocError>)
        ensures
            T::layout_spec().array_size(len) <= isize::MAX && Metadata::slice(
                T::layout_spec(),
                len,
            ).layout.fits(Layout::of::<S>()) ==> inner is Ok,
            inner matches Ok(new) ==> {
                &&& T::layout_spec().array_size(len) <= isize::MAX
                &&& new@.metadata == Metadata::slice(T::layout_spec(), len)
                &&& new@.image == zeros(new@.metadata.layout.size as nat)
                &&& new@.inlined == new@.metadata.layout.fits(Layout::of::<S>())
                &&& acquired(alloc, new@.inlined, new@.metadata.layout, new@.alloc)
            },
    {
        let mut alloc = alloc;
        match Metadata::new_slice(T::layout(), len) {
            Some(metadata) => match Data::try_new_zeroed_in(metadata, &mut alloc) {
                Ok(data) => Ok(Inner { phantom: PhantomData, metadata, data, alloc }),
                Err(error) => Err(error),
            },
            None => Err(AllocError),
        }
    }

    /// Declares the elements written. That the bytes of each are the image
    /// of a `T` is the caller's to show.
    pub fn assume_init(self) -> (inner: Inner<[T], S, A>)
        requires
            <[T] as Pointee>::inhabits(self@.metadata, self@.image),
        ensures
            inner@ == self@,
    {
        let (data, metadata, alloc) = self.into_parts();
        Inner { phantom: PhantomData, metadata, data, alloc }
    }
}

impl<T: Value, S, A: Allocator> Inner<T, S, A> {
    /// Erases the type of the value. The descriptor becomes that of an
    /// erased value: the layout stays and the tag of `T` is added. The
    /// bytes are not touched, nothing is allocated, nothing can fail.
    pub fn coerce(self) -> (inner: Inner<Erased, S, A>)
        ensures
            inner@ == (InnerView {
                metadata: Metadata::erased(T::layout_spec(), T::tag_spec()),
                ..self@
            }),
    {
        let (data, metadata, alloc) = self.into_parts();
        let metadata = coerce_metadata(metadata, T::tag());
        Inner { phantom: PhantomData, metadata, data, alloc }
    }
}

} // verus!
