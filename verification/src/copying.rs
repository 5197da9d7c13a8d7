//! Boxes made as deep copies of values that live elsewhere.

use vstd::prelude::*;
use vstd::utf8::encode_utf8;
use core::mem::MaybeUninit;
use crate::allocator::{AllocError, Allocator};
use crate::layout::{Layout, Metadata};
use crate::pointee::{element, lemma_replaced, Pointee};
use crate::sequence::{length, lemma_byte_elements, lemma_slice_size};
use crate::value::Value;
use crate::inner::InnerView;
use crate::inner::acquired;
use crate::{defaulted, SmallBox};

verus! {

/// Boxes that can be made as a clone of a `T`.
pub trait CloneFrom<T: ?Sized, A: Allocator>: Sized {
    /// Whether a clone of `data` would be held inline, so that making the
    /// box cannot fail.
    spec fn clone_inlined(data: &T) -> bool;

    /// Whether `new` is a box of a clone of `data`, made with the
    /// allocation capability `alloc`.
    spec fn cloned_from(data: &T, alloc: A, new: Self) -> bool;

    /// A box that holds a clone of `data`.
    fn try_new_clone_from_in(data: &T, alloc: A) -> (boxed: Result<Self, AllocError>)
        ensures
            Self::clone_inlined(data) ==> boxed is Ok,
            boxed matches Ok(new) ==> Self::cloned_from(data, alloc, new),
    ;
}

/// Boxes that can be made as a bitwise copy of a `T`.
pub trait CopyFrom<T: ?Sized, A: Allocator>: Sized {
    /// Whether a copy of `data` would be held inline, so that making the box
    /// cannot fail.
    spec fn copy_inlined(data: &T) -> bool;

    /// Whether `new` is a box of a copy of `data`, made with the allocation
    /// capability `alloc`.
    spec fn copied_from(data: &T, alloc: A, new: Self) -> bool;

    /// A box that holds a copy of `data`.
    fn try_new_copy_from_in(data: &T, alloc: A) -> (boxed: Result<Self, AllocError>)
        ensures
            Self::copy_inlined(data) ==> boxed is Ok,
            boxed matches Ok(new) ==> Self::copied_from(data, alloc, new),
    ;
}

impl<T: Value + Clone, S, A: Allocator> CloneFrom<T, A> for SmallBox<T, S, A> {
    open spec fn clone_inlined(data: &T) -> bool {
        T::layout_spec().fits(Layout::of::<S>())
    }

    open spec fn cloned_from(data: &T, alloc: A, new: Self) -> bool {
        &&& cloned::<T>(*data, new.value())
        &&& new@.image == new.value().image()
        &&& new@.metadata == Metadata::sized(T::layout_spec())
        &&& new@.inlined == T::layout_spec().fits(Layout::of::<S>())
        &&& acquired(alloc, new@.inlined, T::layout_spec(), new@.alloc)
    }

    fn try_new_clone_from_in(data: &T, alloc: A) -> (boxed: Result<Self, AllocError>) {
        Self::try_new_in(data.clone(), alloc)
    }
}

impl<T: Value + Copy, S, A: Allocator> CopyFrom<T, A> for SmallBox<T, S, A> {
    open spec fn copy_inlined(data: &T) -> bool {
        T::layout_spec().fits(Layout::of::<S>())
    }

    open spec fn copied_from(data: &T, alloc: A, new: Self) -> bool {
        &&& new.value() == *data
        &&& new@.image == data.image()
        &&& new@.metadata == Metadata::sized(T::layout_spec())
        &&& new@.inlined == T::layout_spec().fits(Layout::of::<S>())
        &&& acquired(alloc, new@.inlined, T::layout_spec(), new@.alloc)
    }

    fn try_new_copy_from_in(data: &T, alloc: A) -> (boxed: Result<Self, AllocError>) {
        Self::try_new_in(*data, alloc)
    }
}

impl<T: Value + Clone, S, A: Allocator> CloneFrom<[T], A> for SmallBox<[T], S, A> {
    open spec fn clone_inlined(data: &[T]) -> bool {
        &&& T::layout_spec().array_size(data@.len() as usize) <= isize::MAX
        &&& Metadata::slice(T::layout_spec(), data@.len() as usize).layout.fits(Layout::of::<S>())
    }

    open spec fn cloned_from(data: &[T], alloc: A, new: Self) -> bool {
        &&& new.elements().len() == data@.len()
        &&& forall|i: int| 0 <= i < data@.len() ==> cloned::<T>(data@[i], #[trigger] new.elements()[i])
        &&& new@.metadata == Metadata::slice(T::layout_spec(), data@.len() as usize)
        &&& new@.inlined == new@.metadata.layout.fits(Layout::of::<S>())
        &&& acquired(alloc, new@.inlined, new@.metadata.layout, new@.alloc)
    }

    fn try_new_clone_from_in(data: &[T], alloc: A) -> (boxed: Result<Self, AllocError>) {
        let len = data.len();
        let mut room = match SmallBox::<[MaybeUninit<T>], S, A>::try_new_uninit_slice_in(
            len,
            alloc,
        ) {
            Ok(room) => room,
            Err(error) => {
                return Err(error);
            },
        };
        let ghost size = T::layout_spec().size;
        let ghost mut clones: Seq<T> = Seq::empty();
        let ghost made = room@;
        proof {
            lemma_slice_size(T::layout_spec(), len);
            use_type_invariant(&room.0);
            room.0.lemma_wf();
        }
        let mut i: usize = 0;
        while i < len
            invariant
                i <= len,
                len == data@.len(),
                size == T::layout_spec().size,
                room@.metadata == made.metadata,
                room@.inlined == made.inlined,
                room@.alloc == made.alloc,
                made.metadata == Metadata::slice(T::layout_spec(), len),
                length(made.metadata) == len,
                room@.image.len() == len * size,
                clones.len() == i,
                forall|j: int| 0 <= j < i ==> cloned::<T>(data@[j], #[trigger] clones[j]),
                forall|j: int|
                    0 <= j < i ==> #[trigger] element(room@.image, size, j) == clones[j].image(),
            decreases len - i,
        {
            let value = data[i].clone();
            let ghost before = room@.image;
            proof {
                T::lemma_image(value);
                lemma_replaced(before, size, len, i as int, value.image());
                clones = clones.push(value);
            }
            let written = room.write_at(i, value);
            i = i + 1;
        }
        proof {
            assert forall|j: int| 0 <= j < len implies T::is_image(
                #[trigger] element(room@.image, T::layout_spec().size, j),
            ) by {
                T::lemma_image(clones[j]);
            }
        }
        let boxed = room.assume_init();
        proof {
            assert forall|j: int| 0 <= j < len implies cloned::<T>(
                data@[j],
                #[trigger] boxed.elements()[j],
            ) by {
                T::lemma_image(clones[j]);
            }
        }
        Ok(boxed)
    }
}

impl<T: Value + Copy, S, A: Allocator> CopyFrom<[T], A> for SmallBox<[T], S, A> {
    open spec fn copy_inlined(data: &[T]) -> bool {
        &&& T::layout_spec().array_size(data@.len() as usize) <= isize::MAX
        &&& Metadata::slice(T::layout_spec(), data@.len() as usize).layout.fits(Layout::of::<S>())
    }

    open spec fn copied_from(data: &[T], alloc: A, new: Self) -> bool {
        &&& new.elements() == data@
        &&& new@.metadata == Metadata::slice(T::layout_spec(), data@.len() as usize)
        &&& new@.inlined == new@.metadata.layout.fits(Layout::of::<S>())
        &&& acquired(alloc, new@.inlined, new@.metadata.layout, new@.alloc)
    }

    fn try_new_copy_from_in(data: &[T], alloc: A) -> (boxed: Result<Self, AllocError>) {
        let len = data.len();
        let mut room = match SmallBox::<[MaybeUninit<T>], S, A>::try_new_uninit_slice_in(
            len,
            alloc,
        ) {
            Ok(room) => room,
            Err(error) => {
                return Err(error);
            },
        };
        let ghost size = T::layout_spec().size;
        let ghost made = room@;
        proof {
            lemma_slice_size(T::layout_spec(), len);
            use_type_invariant(&room.0);
            room.0.lemma_wf();
        }
        let mut i: usize = 0;
        while i < len
            invariant
                i <= len,
                len == data@.len(),
                size == T::layout_spec().size,
                room@.metadata == made.metadata,
                room@.inlined == made.inlined,
                room@.alloc == made.alloc,
                made.metadata == Metadata::slice(T::layout_spec(), len),
                length(made.metadata) == len,
                room@.image.len() == len * size,
                forall|j: int|
                    0 <= j < i ==> #[trigger] element(room@.image, size, j) == data@[j].image(),
            decreases len - i,
        {
            let value = data[i];
            let ghost before = room@.image;
            proof {
                T::lemma_image(value);
                lemma_replaced(before, size, len, i as int, value.image());
            }
            let written = room.write_at(i, value);
            i = i + 1;
        }
        proof {
            assert forall|j: int| 0 <= j < len implies T::is_image(
                #[trigger] element(room@.image, T::layout_spec().size, j),
            ) by {
                T::lemma_image(data@[j]);
            }
        }
        let boxed = room.assume_init();
        proof {
            assert forall|j: int| 0 <= j < len implies #[trigger] boxed.elements()[j]
                == data@[j] by {
                T::lemma_image(data@[j]);
            }
            assert(boxed.elements() =~= data@);
        }
        Ok(boxed)
    }
}

impl<S, A: Allocator> CopyFrom<str, A> for SmallBox<str, S, A> {
    open spec fn copy_inlined(data: &str) -> bool {
        &&& encode_utf8(data@).len() <= isize::MAX
        &&& Metadata::slice(Layout::of::<u8>(), encode_utf8(data@).len() as usize).layout.fits(
            Layout::of::<S>(),
        )
    }

    open spec fn copied_from(data: &str, alloc: A, new: Self) -> bool {
        &&& new.text() == data@
        &&& new@.image == encode_utf8(data@)
        &&& new@.metadata == Metadata::slice(Layout::of::<u8>(), new@.image.len() as usize)
        &&& new@.inlined == new@.metadata.layout.fits(Layout::of::<S>())
        &&& acquired(alloc, new@.inlined, new@.metadata.layout, new@.alloc)
    }

    fn try_new_copy_from_in(data: &str, alloc: A) -> (boxed: Result<Self, AllocError>) {
        broadcast use {
            vstd::layout::layout_of_primitives,
            vstd::utf8::encode_utf8_valid_utf8,
            vstd::utf8::encode_utf8_decode_utf8,
        };

        let bytes = data.as_bytes();
        let len = bytes.len();
        assert(Layout::of::<u8>().array_size(len) == len) by {
            assert(Layout::of::<u8>().size == 1);
        }
        let copied = match SmallBox::<[u8], S, A>::try_new_copy_from_in(bytes, alloc) {
            Ok(copied) => copied,
            Err(error) => {
                return Err(error);
            },
        };
        proof {
            use_type_invariant(&copied.0);
            copied.0.lemma_wf();
            lemma_slice_size(Layout::of::<u8>(), len);
            lemma_byte_elements(copied@.image, len);
        }
        Ok(SmallBox::from_utf8_unchecked(copied))
    }
}

impl<S, A: Allocator> CloneFrom<str, A> for SmallBox<str, S, A> {
    open spec fn clone_inlined(data: &str) -> bool {
        <Self as CopyFrom<str, A>>::copy_inlined(data)
    }

    open spec fn cloned_from(data: &str, alloc: A, new: Self) -> bool {
        <Self as CopyFrom<str, A>>::copied_from(data, alloc, new)
    }

    fn try_new_clone_from_in(data: &str, alloc: A) -> (boxed: Result<Self, AllocError>) {
        Self::try_new_copy_from_in(data, alloc)
    }
}

impl<T: Value + Clone, S, A: Allocator> SmallBox<T, S, A> {
    /// A box that holds a clone of the value of this one, made with the
    /// allocation capability `alloc`.
    pub fn try_clone_in(&self, alloc: A) -> (boxed: Result<Self, AllocError>)
        ensures
            T::layout_spec().fits(Layout::of::<S>()) ==> boxed is Ok,
            boxed matches Ok(new) ==> <Self as CloneFrom<T, A>>::cloned_from(
                &self.value(),
                alloc,
                new,
            ),
    {
        let value = self.get();
        Self::try_new_clone_from_in(&value, alloc)
    }

    /// A box that holds a clone of the value of this one, made with a clone
    /// of its allocation capability.
    pub fn try_clone(&self) -> (boxed: Result<Self, AllocError>) where A: Clone
        ensures
            T::layout_spec().fits(Layout::of::<S>()) ==> boxed is Ok,
            boxed matches Ok(new) ==> exists|alloc: A| #[trigger]
                cloned::<A>(self@.alloc, alloc) && <Self as CloneFrom<T, A>>::cloned_from(
                    &self.value(),
                    alloc,
                    new,
                ),
    {
        let alloc = SmallBox::allocator(self).clone();
        assert(cloned::<A>(self@.alloc, alloc));
        self.try_clone_in(alloc)
    }

    /// Writes a clone of the value of `source` over the value of this box.
    /// Descriptor, storage form and allocation capability stay.
    pub fn clone_assign(&mut self, source: &Self)
        ensures
            cloned::<T>(source.value(), final(self).value()),
            final(self)@ == (InnerView { image: final(self).value().image(), ..old(self)@ }),
    {
        let value = source.get();
        self.set(value.clone());
    }
}

impl<T: Value + Clone, S, A: Allocator> SmallBox<[T], S, A> {
    /// A box that holds clones of the elements of this one, made with the
    /// allocation capability `alloc`.
    pub fn try_clone_in(&self, alloc: A) -> (boxed: Result<Self, AllocError>)
        ensures
            self@.inlined ==> boxed is Ok,
            boxed matches Ok(new) ==> {
                &&& new.elements().len() == self.elements().len()
                &&& forall|i: int|
                    0 <= i < self.elements().len() ==> cloned::<T>(
                        self.elements()[i],
                        #[trigger] new.elements()[i],
                    )
                &&& new@.metadata == self@.metadata
                &&& new@.inlined == self@.inlined
                &&& acquired(alloc, new@.inlined, new@.metadata.layout, new@.alloc)
            },
    {
        let all = self.to_vec();
        let len = self.len();
        proof {
            use_type_invariant(&self.0);
            self.0.lemma_wf();
        }
        Self::try_new_clone_from_in(all.as_slice(), alloc)
    }

    /// A box that holds clones of the elements of this one, made with a
    /// clone of its allocation capability.
    pub fn try_clone(&self) -> (boxed: Result<Self, AllocError>) where A: Clone
        ensures
            self@.inlined ==> boxed is Ok,
            boxed matches Ok(new) ==> {
                &&& new.elements().len() == self.elements().len()
                &&& forall|i: int|
                    0 <= i < self.elements().len() ==> cloned::<T>(
                        self.elements()[i],
                        #[trigger] new.elements()[i],
                    )
                &&& new@.metadata == self@.metadata
                &&& new@.inlined == self@.inlined
                &&& exists|alloc: A| #[trigger]
                    cloned::<A>(self@.alloc, alloc) && acquired(
                        alloc,
                        new@.inlined,
                        new@.metadata.layout,
                        new@.alloc,
                    )
            },
    {
        let alloc = SmallBox::allocator(self).clone();
        assert(cloned::<A>(self@.alloc, alloc));
        self.try_clone_in(alloc)
    }

    /// Makes the elements of this box clones of the elements of `source`.
    /// Where both have as many elements, each is written over in place:
    /// descriptor, storage form and allocation capability stay, and nothing
    /// can fail. Where they do not, the box is replaced by one made of
    /// `source` with a clone of the allocation capability of `source`, and
    /// is torn down; if that box cannot be made, this one stays as it was.
    pub fn try_clone_assign(&mut self, source: &Self) -> (done: Result<(), AllocError>) where
        A: Clone,

        ensures
            old(self).elements().len() == source.elements().len() || source@.inlined
                ==> done is Ok,
            done is Ok ==> {
                &&& final(self).elements().len() == source.elements().len()
                &&& forall|i: int|
                    0 <= i < source.elements().len() ==> cloned::<T>(
                        source.elements()[i],
                        #[trigger] final(self).elements()[i],
                    )
            },
            old(self).elements().len() == source.elements().len() ==> {
                &&& final(self)@.metadata == old(self)@.metadata
                &&& final(self)@.inlined == old(self)@.inlined
                &&& final(self)@.alloc == old(self)@.alloc
            },
            old(self).elements().len() != source.elements().len() ==> match done {
                Ok(_) => {
                    &&& final(self)@.metadata == source@.metadata
                    &&& final(self)@.inlined == source@.inlined
                    &&& exists|alloc: A| #[trigger]
                        cloned::<A>(source@.alloc, alloc) && acquired(
                            alloc,
                            final(self)@.inlined,
                            final(self)@.metadata.layout,
                            final(self)@.alloc,
                        )
                },
                Err(_) => *final(self) == *old(self),
            },
    {
        let len = source.len();
        if self.len() == len {
            let all = source.to_vec();
            let mut index: usize = 0;
            while index < len
                invariant
                    index <= len,
                    len == source.elements().len(),
                    all@ == source.elements(),
                    self.elements().len() == len,
                    self@.metadata == old(self)@.metadata,
                    self@.inlined == old(self)@.inlined,
                    self@.alloc == old(self)@.alloc,
                    forall|i: int|
                        0 <= i < index ==> cloned::<T>(
                            source.elements()[i],
                            #[trigger] self.elements()[i],
                        ),
                decreases len - index,
            {
                let value = all[index].clone();
                let written = self.set(index, value);
                index = index + 1;
            }
            Ok(())
        } else {
            match source.try_clone() {
                Ok(fresh) => {
                    let mut fresh = fresh;
                    core::mem::swap(self, &mut fresh);
                    let _ = SmallBox::drop(fresh);
                    Ok(())
                },
                Err(error) => Err(error),
            }
        }
    }
}

impl<S, A: Allocator> SmallBox<str, S, A> {
    /// A box that holds a copy of the text of this one, made with the
    /// allocation capability `alloc`.
    pub fn try_clone_in(&self, alloc: A) -> (boxed: Result<Self, AllocError>)
        ensures
            self@.inlined ==> boxed is Ok,
            boxed matches Ok(new) ==> {
                &&& new@.image == self@.image
                &&& new.text() == self.text()
                &&& new@.metadata == self@.metadata
                &&& new@.inlined == self@.inlined
                &&& acquired(alloc, new@.inlined, new@.metadata.layout, new@.alloc)
            },
    {
        let bytes = SmallBox::as_bytes(self);
        let len = bytes.len();
        proof {
            broadcast use vstd::layout::layout_of_primitives;

            use_type_invariant(&self.0);
            self.0.lemma_wf();
            lemma_slice_size(Layout::of::<u8>(), length(self@.metadata));
            assert(Layout::of::<u8>().size == 1);
            assert(len == length(self@.metadata));
            assert(Layout::of::<u8>().array_size(len) == len);
        }
        match SmallBox::<[u8], S, A>::try_new_copy_from_in(bytes, alloc) {
            Ok(copied) => {
                proof {
                    broadcast use vstd::layout::layout_of_primitives;

                    use_type_invariant(&copied.0);
                    copied.0.lemma_wf();
                    lemma_byte_elements(copied@.image, len);
                }
                Ok(SmallBox::from_utf8_unchecked(copied))
            },
            Err(error) => Err(error),
        }
    }

    /// A box that holds a copy of the text of this one, made with a clone of
    /// its allocation capability.
    pub fn try_clone(&self) -> (boxed: Result<Self, AllocError>) where A: Clone
        ensures
            self@.inlined ==> boxed is Ok,
            boxed matches Ok(new) ==> {
                &&& new@.image == self@.image
                &&& new.text() == self.text()
                &&& new@.metadata == self@.metadata
                &&& new@.inlined == self@.inlined
                &&& exists|alloc: A| #[trigger]
                    cloned::<A>(self@.alloc, alloc) && acquired(
                        alloc,
                        new@.inlined,
                        new@.metadata.layout,
                        new@.alloc,
                    )
            },
    {
        let alloc = SmallBox::allocator(self).clone();
        assert(cloned::<A>(self@.alloc, alloc));
        self.try_clone_in(alloc)
    }

    /// Makes the text of this box a copy of the text of `source`. Where both
    /// have as many bytes, they are written over in place: descriptor,
    /// storage form and allocation capability stay, and nothing can fail.
    /// Where they do not, the box is replaced by one made of `source` with a
    /// clone of the allocation capability of `source`, and is torn down; if
    /// that box cannot be made, this one stays as it was.
    pub fn try_clone_assign(&mut self, source: &Self) -> (done: Result<(), AllocError>) where
        A: Clone,

        ensures
            old(self)@.image.len() == source@.image.len() || source@.inlined ==> done is Ok,
            done is Ok ==> final(self)@.image == source@.image && final(self).text()
                == source.text(),
            old(self)@.image.len() == source@.image.len() ==> {
                &&& final(self)@.metadata == old(self)@.metadata
                &&& final(self)@.inlined == old(self)@.inlined
                &&& final(self)@.alloc == old(self)@.alloc
            },
            old(self)@.image.len() != source@.image.len() ==> match done {
                Ok(_) => {
                    &&& final(self)@.metadata == source@.metadata
                    &&& final(self)@.inlined == source@.inlined
                    &&& exists|alloc: A| #[trigger]
                        cloned::<A>(source@.alloc, alloc) && acquired(
                            alloc,
                            final(self)@.inlined,
                            final(self)@.metadata.layout,
                            final(self)@.alloc,
                        )
                },
                Err(_) => *final(self) == *old(self),
            },
    {
        if self.len() == source.len() {
            let bytes = vstd::slice::slice_to_vec(SmallBox::as_bytes(source));
            proof {
                use_type_invariant(&self.0);
                self.0.lemma_wf();
                use_type_invariant(&source.0);
                source.0.lemma_wf();
            }
            let ghost before = self@.image;
            assert(before.take(0) + bytes@ + before.skip(0usize + bytes@.len()) =~= source@.image);
            self.0.write(0, &bytes);
            Ok(())
        } else {
            match source.try_clone() {
                Ok(fresh) => {
                    let mut fresh = fresh;
                    core::mem::swap(self, &mut fresh);
                    let _ = SmallBox::drop(fresh);
                    Ok(())
                },
                Err(error) => Err(error),
            }
        }
    }
}

impl<T: ?Sized + Pointee, S, A: Allocator + Default> SmallBox<T, S, A> where
    Self: CloneFrom<T, A>,
 {
    /// A box that holds a clone of `data`, in the default allocation
    /// capability.
    pub fn try_clone_from(data: &T) -> (boxed: Result<Self, AllocError>)
        ensures
            Self::clone_inlined(data) ==> boxed is Ok,
            boxed matches Ok(new) ==> exists|alloc: A| #[trigger]
                defaulted(alloc) && Self::cloned_from(data, alloc, new),
    {
        let alloc = A::default();
        assert(defaulted(alloc));
        Self::try_new_clone_from_in(data, alloc)
    }
}

impl<T: ?Sized + Pointee, S, A: Allocator + Default> SmallBox<T, S, A> where
    Self: CopyFrom<T, A>,
 {
    /// A box that holds a copy of `data`, in the default allocation
    /// capability.
    pub fn try_copy_from(data: &T) -> (boxed: Result<Self, AllocError>)
        ensures
            Self::copy_inlined(data) ==> boxed is Ok,
            boxed matches Ok(new) ==> exists|alloc: A| #[trigger]
                defaulted(alloc) && Self::copied_from(data, alloc, new),
    {
        let alloc = A::default();
        assert(defaulted(alloc));
        Self::try_new_copy_from_in(data, alloc)
    }
}

} // verus!
