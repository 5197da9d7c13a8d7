//! Equality and order of boxes: those of the values in them, whatever the
//! storage form and the capacity.

use vstd::prelude::*;
use vstd::std_specs::cmp::{PartialEqSpec, PartialEqSpecImpl, PartialOrdSpec, PartialOrdSpecImpl};
use core::cmp::Ordering;
use crate::allocator::Allocator;
use crate::value::Value;
use crate::SmallBox;

verus! {

impl<T: Value + PartialEq, S, A: Allocator> PartialEq for SmallBox<T, S, A> {
    /// Two boxes are equal where the values in them are.
    fn eq(&self, other: &Self) -> (equal: bool) {
        self.get() == other.get()
    }
}

impl<T: Value + PartialEq, S, A: Allocator> PartialEqSpecImpl for SmallBox<T, S, A> {
    open spec fn obeys_eq_spec() -> bool {
        T::obeys_eq_spec()
    }

    open spec fn eq_spec(&self, other: &Self) -> bool {
        self.value().eq_spec(&other.value())
    }
}

impl<T: Value + PartialOrd, S, A: Allocator> PartialOrd for SmallBox<T, S, A> {
    /// Two boxes are ordered as the values in them are.
    fn partial_cmp(&self, other: &Self) -> (order: Option<Ordering>) {
        self.get().partial_cmp(&other.get())
    }
}

impl<T: Value + PartialOrd, S, A: Allocator> PartialOrdSpecImpl for SmallBox<T, S, A> {
    open spec fn obeys_partial_cmp_spec() -> bool {
        T::obeys_partial_cmp_spec()
    }

    open spec fn partial_cmp_spec(&self, other: &Self) -> Option<Ordering> {
        self.value().partial_cmp_spec(&other.value())
    }
}

impl<T: Value + PartialEq, S, A: Allocator> PartialEq for SmallBox<[T], S, A> {
    /// Two boxes of sequences are equal where they have as many elements
    /// and each element of the one equals the element of the other in its
    /// place.
    fn eq(&self, other: &Self) -> (equal: bool) {
        let len = self.len();
        if len != other.len() {
            return false;
        }
        let ours = self.to_vec();
        let theirs = other.to_vec();
        let mut index: usize = 0;
        while index < len
            invariant
                index <= len,
                len == ours@.len(),
                len == theirs@.len(),
                ours@ == self.elements(),
                theirs@ == other.elements(),
                T::obeys_eq_spec() ==> forall|i: int|
                    0 <= i < index ==> (#[trigger] ours@[i]).eq_spec(&theirs@[i]),
            decreases len - index,
        {
            if !(ours[index] == theirs[index]) {
                return false;
            }
            index = index + 1;
        }
        true
    }
}

impl<T: Value + PartialEq, S, A: Allocator> PartialEqSpecImpl for SmallBox<[T], S, A> {
    open spec fn obeys_eq_spec() -> bool {
        T::obeys_eq_spec()
    }

    open spec fn eq_spec(&self, other: &Self) -> bool {
        &&& self.elements().len() == other.elements().len()
        &&& forall|i: int|
            0 <= i < self.elements().len() ==> (#[trigger] self.elements()[i]).eq_spec(
                &other.elements()[i],
            )
    }
}

impl<S, A: Allocator> PartialEq for SmallBox<str, S, A> {
    /// Two boxes of text are equal where their texts have the same bytes.
    fn eq(&self, other: &Self) -> (equal: bool) {
        let ours = SmallBox::as_bytes(self);
        let theirs = SmallBox::as_bytes(other);
        let len = ours.len();
        if len != theirs.len() {
            return false;
        }
        let mut index: usize = 0;
        while index < len
            invariant
                index <= len,
                len == ours@.len(),
                len == theirs@.len(),
                ours@ == self@.image,
                theirs@ == other@.image,
                ours@.take(index as int) == theirs@.take(index as int),
            decreases len - index,
        {
            if ours[index] != theirs[index] {
                assert(self@.image[index as int] != other@.image[index as int]);
                return false;
            }
            index = index + 1;
            assert(ours@.take(index as int) =~= theirs@.take(index as int)) by {
                assert(ours@.take(index as int) =~= ours@.take(index - 1).push(ours@[index - 1]));
                assert(theirs@.take(index as int) =~= theirs@.take(index - 1).push(
                    theirs@[index - 1],
                ));
            }
        }
        assert(ours@.take(len as int) =~= ours@);
        assert(theirs@.take(len as int) =~= theirs@);
        true
    }
}

impl<S, A: Allocator> PartialEqSpecImpl for SmallBox<str, S, A> {
    open spec fn obeys_eq_spec() -> bool {
        true
    }

    open spec fn eq_spec(&self, other: &Self) -> bool {
        self@.image == other@.image
    }
}

impl<T: Value + Eq, S, A: Allocator> Eq for SmallBox<T, S, A> {

}

impl<T: Value + Eq, S, A: Allocator> Eq for SmallBox<[T], S, A> {

}

impl<S, A: Allocator> Eq for SmallBox<str, S, A> {

}

} // verus!
