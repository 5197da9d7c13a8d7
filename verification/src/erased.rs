//! Boxes of values whose concrete type has been erased, and the way back to
//! the concrete type.

use vstd::prelude::*;
use crate::allocator::Allocator;
use crate::inner::InnerView;
use crate::layout::{Descriptor, Metadata};
use crate::pointee::Erased;
use crate::value::Value;
use crate::SmallBox;

verus! {

/// Whether an erased value of descriptor `metadata` and bytes `image` is a
/// value of type `U`: it carries the tag and the layout of `U`, and its
/// bytes are the image of a `U`.
pub open spec fn holds<U: Value>(metadata: Metadata, image: Seq<u8>) -> bool {
    &&& metadata == Metadata::erased(U::layout_spec(), U::tag_spec())
    &&& U::is_image(image)
}

/// What a box of a `T` amounts to once the type of its value is erased: the
/// descriptor carries the layout and the tag of `T`; the rest stays.
pub open spec fn coerced<T: Value, A>(view: InnerView<A>) -> InnerView<A> {
    InnerView { metadata: Metadata::erased(T::layout_spec(), T::tag_spec()), ..view }
}

/// What a box of an erased value amounts to once it is given back as a box
/// of a `U`, where its value is one of type `U`: the descriptor is that of a
/// `U`; the rest stays.
pub open spec fn downcasted<U: Value, A>(view: InnerView<A>) -> Option<InnerView<A>> {
    if holds::<U>(view.metadata, view.image) {
        Some(InnerView { metadata: Metadata::sized(U::layout_spec()), ..view })
    } else {
        None
    }
}

/// Erasing the type of the value of a box and then asking for the same type
/// gives the box back as it was: the same descriptor, the same bytes and so
/// the same value, the same storage form, the same allocation capability.
/// Asking for a type of another tag gives nothing.
pub proof fn lemma_coerce_downcast<T: Value, U: Value, A>(view: InnerView<A>)
    requires
        view.metadata == Metadata::sized(T::layout_spec()),
        T::is_image(view.image),
    ensures
        downcasted::<T, A>(coerced::<T, A>(view)) == Some(view),
        U::tag_spec() != T::tag_spec() ==> downcasted::<U, A>(coerced::<T, A>(view)) is None,
{
}

impl<S, A: Allocator> SmallBox<Erased, S, A> {
    /// Checks whether the value is one of type `U`.
    pub fn is<U: Value>(&self) -> (is: bool)
        ensures
            is == holds::<U>(self@.metadata, self@.image),
    {
        let metadata = SmallBox::metadata(self);
        let tag = U::tag();
        let layout = U::layout();
        let tagged = match metadata.descriptor {
            Descriptor::Dispatch(found) => found == tag,
            _ => false,
        };
        tagged && metadata.layout == layout && U::check(SmallBox::as_bytes(self))
    }

    /// Takes the value for one of type `U`. Nothing is checked: that the
    /// value has the layout of `U`, and that its bytes are the image of a
    /// `U`, is the caller's to show.
    pub fn downcast_unchecked<U: Value>(self) -> (boxed: SmallBox<U, S, A>)
        requires
            self@.metadata.layout == U::layout_spec(),
            U::is_image(self@.image),
        ensures
            boxed@ == (InnerView { metadata: Metadata::sized(U::layout_spec()), ..self@ }),
    {
        SmallBox(self.0.downcast_unchecked::<U>())
    }

    /// Gives the box back as one of a `U` where the value is one of type
    /// `U`: bytes, storage form and allocation capability stay. Where it is
    /// not, the box comes back as it was.
    pub fn downcast<U: Value>(self) -> (boxed: Result<SmallBox<U, S, A>, Self>)
        ensures
            match boxed {
                Ok(b) => downcasted::<U, A>(self@) == Some(b@),
                Err(same) => downcasted::<U, A>(self@) is None && same == self,
            },
    {
        if self.is::<U>() {
            Ok(self.downcast_unchecked())
        } else {
            Err(self)
        }
    }

    /// Reads the value where it is one of type `U`.
    pub fn downcast_ref<U: Value>(&self) -> (value: Option<U>)
        ensures
            value == if holds::<U>(self@.metadata, self@.image) {
                Some(U::value(self@.image))
            } else {
                None::<U>
            },
    {
        if self.is::<U>() {
            Some(U::from_bytes(SmallBox::as_bytes(self)))
        } else {
            None
        }
    }

    /// Writes `value` over the value where that is one of type `U`; says
    /// whether it is. Descriptor, storage form and allocation capability
    /// stay.
    pub fn downcast_set<U: Value>(&mut self, value: U) -> (written: bool)
        ensures
            written == holds::<U>(old(self)@.metadata, old(self)@.image),
            written ==> final(self)@ == (InnerView { image: value.image(), ..old(self)@ }),
            !written ==> final(self)@ == old(self)@,
    {
        if !self.is::<U>() {
            return false;
        }
        let bytes = value.to_bytes();
        proof {
            use_type_invariant(&self.0);
            self.0.lemma_wf();
            U::lemma_image(value);
        }
        let ghost before = self@.image;
        assert(before.take(0) + bytes@ + before.skip(0usize + bytes@.len()) =~= value.image());
        self.0.write(0, &bytes);
        true
    }
}

} // verus!
