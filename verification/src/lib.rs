//! A box that holds small values in its own buffer and larger ones in a
//! block obtained from an allocation capability.
//!
//! Which of the two a value gets is decided by its layout and by the
//! capacity marker of the box alone: it is held inline exactly if neither
//! its size nor its alignment exceeds that of the marker. The decision is
//! never recorded apart from the storage itself, so it cannot go stale
//! where the shape of the value or the capacity changes.
//!
//! The values are plain data: each is fully described by its bytes, and the
//! box holds those bytes. A box of a fixed-size value, of a sequence, of a
//! text or of a value whose type has been erased differs from the others in
//! its shape descriptor only.
//!
//! A box owns its allocation capability. Tearing a box down is a call,
//! [`SmallBox::drop`], which returns a heap block to the capability and
//! hands the capability out; a box that merely goes out of scope gives its
//! memory back, but tells its capability nothing.
//!
//! - [`layout`]: layouts, shape descriptors, the storage decision
//! - [`allocator`]: the allocation capability, and the default one
//! - [`value`]: the fixed-size values and their byte images
//! - [`pointee`]: what the type parameter of a box stands for
//! - [`storage`]: the inline buffer, the heap block, and the moves between
//! - [`inner`]: the owning container
//! - [`boxed`]: the conventional heap box
//! - this module: the box itself
//! - [`sequence`], [`text`], [`erased`]: boxes of sequences, of text, of
//!   values of an erased type
//! - [`copying`]: boxes made as deep copies
//! - [`compare`]: equality and order of boxes

pub mod allocator;
pub mod boxed;
pub mod compare;
pub mod copying;
pub mod erased;
pub mod inner;
pub mod layout;
pub mod pointee;
pub mod sequence;
pub mod storage;
pub mod text;
pub mod value;

pub use crate::copying::{CloneFrom, CopyFrom};

use vstd::prelude::*;
use core::mem::MaybeUninit;
use crate::allocator::{zeros, AllocError, Allocator};
use crate::boxed::HeapBox;
use crate::erased::coerced;
use crate::inner::{acquired, relinquished, transferred, Inner, InnerView};
use crate::layout::{Layout, Metadata};
use crate::pointee::{Erased, Pointee};
use crate::value::Value;

verus! {

/// Whether `alloc` is a value that `A::default()` may return.
pub open spec fn defaulted<A: Default>(alloc: A) -> bool {
    call_ensures(A::default, (), alloc)
}

/// A value that was written into a box is the value that is read back from
/// it, whatever the storage form: the box holds the image of the value, and
/// the image gives the value back.
pub proof fn lemma_round_trip<T: Value, S, A: Allocator>(boxed: SmallBox<T, S, A>, value: T)
    requires
        boxed@.image == value.image(),
    ensures
        boxed.value() == value,
{
    T::lemma_image(value);
}

/// A value of type `T`, held inline where it fits a buffer of the layout of
/// `S`, and in a block of the allocation capability `A` where it does not.
#[derive(Debug)]
pub struct SmallBox<T: ?Sized + Pointee, S, A: Allocator>(Inner<T, S, A>);

impl<T: ?Sized + Pointee, S, A: Allocator> View for SmallBox<T, S, A> {
    type V = InnerView<A>;

    closed spec fn view(&self) -> InnerView<A> {
        self.0@
    }
}

impl<T: ?Sized + Pointee, S, A: Allocator> SmallBox<T, S, A> {
    /// Whether the value is held inline: exactly if its layout fits the
    /// capacity marker.
    pub fn is_inlined(boxed: &Self) -> (inline: bool)
        ensures
            inline == boxed@.inlined,
            inline == boxed@.metadata.layout.fits(Layout::of::<S>()),
    {
        boxed.0.is_inlined()
    }

    /// The allocation capability of the box.
    pub fn allocator(boxed: &Self) -> (alloc: &A)
        ensures
            *alloc == boxed@.alloc,
    {
        boxed.0.allocator()
    }

    /// The shape descriptor of the value.
    pub fn metadata(boxed: &Self) -> (metadata: Metadata)
        ensures
            metadata == boxed@.metadata,
            T::describes(metadata),
    {
        boxed.0.metadata()
    }

    /// The bytes of the value.
    pub fn as_bytes(boxed: &Self) -> (image: &[u8])
        ensures
            image@ == boxed@.image,
            image@.len() == boxed@.metadata.layout.size,
            T::inhabits(boxed@.metadata, image@),
    {
        boxed.0.as_bytes()
    }

    /// Takes over a value from a heap box, with its allocation capability.
    /// Where the value fits the capacity marker it moves into the box's
    /// buffer and its block goes back to the capability; else the block is
    /// kept as it is.
    pub fn from_box(boxed: HeapBox<T, A>) -> (small: Self)
        ensures
            small@.metadata == boxed@.metadata,
            small@.image == boxed@.image,
            small@.inlined == boxed@.metadata.layout.fits(Layout::of::<S>()),
            small@.inlined ==> boxed@.alloc.released(boxed@.metadata.layout, &small@.alloc),
            !small@.inlined ==> small@.alloc == boxed@.alloc,
    {
        SmallBox(Inner::from_box(boxed))
    }

    /// Gives the value up as a heap box, with the allocation capability. A
    /// value in a block keeps its block. An inline value needs one: where
    /// the capability refuses it, the box comes back as it was.
    pub fn try_into_box(boxed: Self) -> (heap: Result<HeapBox<T, A>, Self>)
        ensures
            !boxed@.inlined ==> heap is Ok,
            match heap {
                Ok(b) => {
                    &&& b@.metadata == boxed@.metadata
                    &&& b@.image == boxed@.image
                    &&& transferred(boxed@, false, b@.alloc)
                },
                Err(same) => same == boxed,
            },
    {
        match boxed.0.try_into_box() {
            Ok(heap) => Ok(heap),
            Err(inner) => Err(SmallBox(inner)),
        }
    }

    /// Moves the value into a box of capacity marker `Z`. The new storage
    /// form is the one that the layout of the value and `Z` decide;
    /// descriptor and bytes of the value are kept. An inline value that no
    /// longer fits needs a block: where the capability refuses it, the box
    /// comes back as it was. Every other move succeeds.
    pub fn try_resize<Z>(boxed: Self) -> (resized: Result<SmallBox<T, Z, A>, Self>)
        ensures
            !boxed@.inlined || boxed@.metadata.layout.fits(Layout::of::<Z>()) ==> resized is Ok,
            match resized {
                Ok(new) => {
                    &&& new@.metadata == boxed@.metadata
                    &&& new@.image == boxed@.image
                    &&& new@.inlined == boxed@.metadata.layout.fits(Layout::of::<Z>())
                    &&& transferred(boxed@, new@.inlined, new@.alloc)
                },
                Err(same) => same == boxed,
            },
    {
        match boxed.0.try_resize_stack::<Z>() {
            Ok(inner) => Ok(SmallBox(inner)),
            Err(inner) => Err(SmallBox(inner)),
        }
    }

    /// Tears the box down and hands its allocation capability out. A heap
    /// block goes back to the capability first, once, with the layout it was
    /// requested with; an inline value needs nothing from it.
    pub fn drop(boxed: Self) -> (alloc: A)
        ensures
            relinquished(boxed@, alloc),
    {
        boxed.0.drop()
    }
}

impl<T: Value, S, A: Allocator> SmallBox<MaybeUninit<T>, S, A> {
    /// A box with room for a `T`; the bytes are unspecified. Inline storage
    /// needs nothing from `alloc` and cannot fail.
    pub fn try_new_uninit_in(alloc: A) -> (boxed: Result<Self, AllocError>)
        ensures
            T::layout_spec().fits(Layout::of::<S>()) ==> boxed is Ok,
            boxed matches Ok(b) ==> {
                &&& b@.metadata == Metadata::sized(T::layout_spec())
                &&& b@.inlined == T::layout_spec().fits(Layout::of::<S>())
                &&& acquired(alloc, b@.inlined, T::layout_spec(), b@.alloc)
            },
    {
        match Inner::try_new_uninit_in(alloc) {
            Ok(inner) => Ok(SmallBox(inner)),
            Err(error) => Err(error),
        }
    }

    /// A box with room for a `T`; every byte is zero. Inline storage needs
    /// nothing from `alloc` and cannot fail.
    pub fn try_new_zeroed_in(alloc: A) -> (boxed: Result<Self, AllocError>)
        ensures
            T::layout_spec().fits(Layout::of::<S>()) ==> boxed is Ok,
            boxed matches Ok(b) ==> {
                &&& b@.metadata == Metadata::sized(T::layout_spec())
                &&& b@.image == zeros(T::layout_spec().size as nat)
                &&& b@.inlined == T::layout_spec().fits(Layout::of::<S>())
                &&& acquired(alloc, b@.inlined, T::layout_spec(), b@.alloc)
            },
    {
        match Inner::try_new_zeroed_in(alloc) {
            Ok(inner) => Ok(SmallBox(inner)),
            Err(error) => Err(error),
        }
    }

    /// Declares the value written. That the bytes are the image of a `T` is
    /// the caller's to show.
    pub fn assume_init(self) -> (boxed: SmallBox<T, S, A>)
        requires
            T::is_image(self@.image),
        ensures
            boxed@ == self@,
    {
        SmallBox(self.0.assume_init())
    }

    /// Writes `value` into the room and declares it written.
    pub fn write(self, value: T) -> (boxed: SmallBox<T, S, A>)
        ensures
            boxed@ == (InnerView { image: value.image(), ..self@ }),
            boxed.value() == value,
    {
        let mut uninit = self;
        let bytes = value.to_bytes();
        proof {
            T::lemma_image(value);
            use_type_invariant(&uninit.0);
            uninit.0.lemma_wf();
        }
        let ghost before = uninit@.image;
        uninit.0.write(0, &bytes);
        assert(before.take(0) + bytes@ + before.skip(0usize + bytes@.len()) =~= value.image());
        uninit.assume_init()
    }
}

impl<T: Value, S, A: Allocator + Default> SmallBox<MaybeUninit<T>, S, A> {
    /// A box with room for a `T`, in the default allocation capability; the
    /// bytes are unspecified.
    pub fn try_new_uninit() -> (boxed: Result<Self, AllocError>)
        ensures
            T::layout_spec().fits(Layout::of::<S>()) ==> boxed is Ok,
            boxed matches Ok(b) ==> {
                &&& b@.metadata == Metadata::sized(T::layout_spec())
                &&& b@.inlined == T::layout_spec().fits(Layout::of::<S>())
                &&& exists|alloc: A| #[trigger]
                    defaulted(alloc) && acquired(alloc, b@.inlined, T::layout_spec(), b@.alloc)
            },
    {
        let alloc = A::default();
        assert(defaulted(alloc));
        Self::try_new_uninit_in(alloc)
    }

    /// A box with room for a `T`, in the default allocation capability;
    /// every byte is zero.
    pub fn try_new_zeroed() -> (boxed: Result<Self, AllocError>)
        ensures
            T::layout_spec().fits(Layout::of::<S>()) ==> boxed is Ok,
            boxed matches Ok(b) ==> {
                &&& b@.metadata == Metadata::sized(T::layout_spec())
                &&& b@.image == zeros(T::layout_spec().size as nat)
                &&& b@.inlined == T::layout_spec().fits(Layout::of::<S>())
                &&& exists|alloc: A| #[trigger]
                    defaulted(alloc) && acquired(alloc, b@.inlined, T::layout_spec(), b@.alloc)
            },
    {
        let alloc = A::default();
        assert(defaulted(alloc));
        Self::try_new_zeroed_in(alloc)
    }
}

impl<T: Value, S, A: Allocator> SmallBox<T, S, A> {
    /// The value in the box.
    pub open spec fn value(&self) -> T {
        T::value(self@.image)
    }

    /// Whether a `T` is held inline by a box of capacity marker `S`.
    pub fn inlined() -> (inline: bool)
        ensures
            inline == T::layout_spec().fits(Layout::of::<S>()),
    {
        Inner::<T, S, A>::inlined(Metadata::new_sized(T::layout()))
    }

    /// A box that holds `value`. Inline storage needs nothing from `alloc`
    /// and cannot fail.
    pub fn try_new_in(value: T, alloc: A) -> (boxed: Result<Self, AllocError>)
        ensures
            T::layout_spec().fits(Layout::of::<S>()) ==> boxed is Ok,
            boxed matches Ok(b) ==> {
                &&& b@.metadata == Metadata::sized(T::layout_spec())
                &&& b@.image == value.image()
                &&& b.value() == value
                &&& b@.inlined == T::layout_spec().fits(Layout::of::<S>())
                &&& acquired(alloc, b@.inlined, T::layout_spec(), b@.alloc)
            },
    {
        match SmallBox::<MaybeUninit<T>, S, A>::try_new_uninit_in(alloc) {
            Ok(uninit) => Ok(uninit.write(value)),
            Err(error) => Err(error),
        }
    }

    /// Reads the value.
    pub fn get(&self) -> (value: T)
        ensures
            value == self.value(),
    {
        T::from_bytes(self.0.as_bytes())
    }

    /// Writes `value` over the value. Descriptor, storage form and
    /// allocation capability stay.
    pub fn set(&mut self, value: T)
        ensures
            final(self)@ == (InnerView { image: value.image(), ..old(self)@ }),
            final(self).value() == value,
    {
        let bytes = value.to_bytes();
        proof {
            T::lemma_image(value);
            use_type_invariant(&self.0);
            self.0.lemma_wf();
        }
        let ghost before = self@.image;
        assert(before.take(0) + bytes@ + before.skip(0usize + bytes@.len()) =~= value.image());
        self.0.write(0, &bytes);
    }

    /// Takes the value out of the box and tears the box down.
    pub fn into_inner(boxed: Self) -> (value: T)
        ensures
            value == boxed.value(),
    {
        let value = boxed.get();
        let _ = boxed.0.drop();
        value
    }

    /// Gives the box up as room for a `T`: the bytes stay, but are no longer
    /// taken for a value.
    pub fn uninit(boxed: Self) -> (room: SmallBox<MaybeUninit<T>, S, A>)
        ensures
            room@ == boxed@,
    {
        proof {
            use_type_invariant(&boxed.0);
            boxed.0.lemma_wf();
        }
        SmallBox(boxed.0.reinterpret_unchecked())
    }

    /// Erases the type of the value. The descriptor becomes that of an
    /// erased value: the layout stays and the tag of `T` is added. The
    /// bytes are not touched, nothing is allocated, nothing can fail.
    pub fn coerce(boxed: Self) -> (erased: SmallBox<Erased, S, A>)
        ensures
            erased@ == coerced::<T, A>(boxed@),
    {
        SmallBox(boxed.0.coerce())
    }
}

impl<T: Value, S, A: Allocator + Default> SmallBox<T, S, A> {
    /// A box that holds `value`, in the default allocation capability.
    pub fn try_new(value: T) -> (boxed: Result<Self, AllocError>)
        ensures
            T::layout_spec().fits(Layout::of::<S>()) ==> boxed is Ok,
            boxed matches Ok(b) ==> {
                &&& b@.metadata == Metadata::sized(T::layout_spec())
                &&& b@.image == value.image()
                &&& b.value() == value
                &&& b@.inlined == T::layout_spec().fits(Layout::of::<S>())
                &&& exists|alloc: A| #[trigger]
                    defaulted(alloc) && acquired(alloc, b@.inlined, T::layout_spec(), b@.alloc)
            },
    {
        let alloc = A::default();
        assert(defaulted(alloc));
        Self::try_new_in(value, alloc)
    }
}

} // verus!
