//! What the type parameter of a container stands for: which shape
//! descriptors, and which bytes, belong to a value of that type.

use vstd::prelude::*;
use core::mem::MaybeUninit;
use crate::layout::{Descriptor, Layout, Metadata};
use crate::value::Value;

verus! {

/// Stands for a value whose concrete type has been erased: what is left of
/// the type is its tag and its layout, in the shape descriptor.
#[derive(Debug)]
pub struct Erased;

/// The bytes of the element at `index` in the image of a sequence whose
/// elements are `size` bytes each.
pub open spec fn element(image: Seq<u8>, size: usize, index: int) -> Seq<u8> {
    image.subrange(index * size, (index + 1) * size)
}

/// A type that the value of a container can have.
pub trait Pointee {
    /// Whether `metadata` is the shape descriptor of a value of this type.
    spec fn describes(metadata: Metadata) -> bool;

    /// Whether `image` holds a value of this type, of the shape that
    /// `metadata` describes.
    spec fn inhabits(metadata: Metadata, image: Seq<u8>) -> bool;
}

/// A fixed-size value has a thin descriptor with the layout of its type, and
/// its bytes are its byte image.
impl<T: Value> Pointee for T {
    open spec fn describes(metadata: Metadata) -> bool {
        metadata == Metadata::sized(T::layout_spec())
    }

    open spec fn inhabits(metadata: Metadata, image: Seq<u8>) -> bool {
        T::is_image(image)
    }
}

/// Room for a fixed-size value that may not have been written yet: the
/// descriptor of the value, and any bytes.
impl<T: Value> Pointee for MaybeUninit<T> {
    open spec fn describes(metadata: Metadata) -> bool {
        metadata == Metadata::sized(T::layout_spec())
    }

    open spec fn inhabits(metadata: Metadata, image: Seq<u8>) -> bool {
        true
    }
}

/// A sequence records its length; its bytes are the images of its elements,
/// one after the other.
impl<T: Value> Pointee for [T] {
    open spec fn describes(metadata: Metadata) -> bool {
        &&& metadata.descriptor matches Descriptor::Length(len)
        &&& T::layout_spec().array_size(len) <= isize::MAX
        &&& metadata == Metadata::slice(T::layout_spec(), len)
    }

    open spec fn inhabits(metadata: Metadata, image: Seq<u8>) -> bool {
        metadata.descriptor matches Descriptor::Length(len) ==> forall|i: int|
            0 <= i < len ==> T::is_image(#[trigger] element(image, T::layout_spec().size, i))
    }
}

/// Room for a sequence whose elements may not have been written yet.
impl<T: Value> Pointee for [MaybeUninit<T>] {
    open spec fn describes(metadata: Metadata) -> bool {
        &&& metadata.descriptor matches Descriptor::Length(len)
        &&& T::layout_spec().array_size(len) <= isize::MAX
        &&& metadata == Metadata::slice(T::layout_spec(), len)
    }

    open spec fn inhabits(metadata: Metadata, image: Seq<u8>) -> bool {
        true
    }
}

/// A text is laid out as the sequence of its bytes, which are valid UTF-8.
impl Pointee for str {
    open spec fn describes(metadata: Metadata) -> bool {
        &&& metadata.descriptor matches Descriptor::Length(len)
        &&& Layout::of::<u8>().array_size(len) <= isize::MAX
        &&& metadata == Metadata::slice(Layout::of::<u8>(), len)
    }

    open spec fn inhabits(metadata: Metadata, image: Seq<u8>) -> bool {
        vstd::utf8::valid_utf8(image)
    }
}

/// A value of an erased type records the tag of its concrete type.
impl Pointee for Erased {
    open spec fn describes(metadata: Metadata) -> bool {
        metadata.descriptor is Dispatch
    }

    open spec fn inhabits(metadata: Metadata, image: Seq<u8>) -> bool {
        true
    }
}

/// The element at `index` of `len` elements of `size` bytes each lies within
/// the bytes of the sequence.
pub proof fn lemma_element_bounds(size: usize, len: usize, index: int)
    requires
        0 <= index < len,
    ensures
        0 <= index * size,
        (index + 1) * size == index * size + size,
        (index + 1) * size <= len * size,
{
    assert((index + 1) * size == index * size + size) by (nonlinear_arith);
    assert(0 <= index * size) by (nonlinear_arith)
        requires
            0 <= index,
    ;
    assert((index + 1) * size <= len * size) by (nonlinear_arith)
        requires
            index + 1 <= len,
    ;
}

/// The image of a sequence in which the bytes of the element at `index`
/// have been replaced by `piece`.
pub open spec fn replaced(image: Seq<u8>, size: usize, index: int, piece: Seq<u8>) -> Seq<u8> {
    image.take(index * size) + piece + image.skip((index + 1) * size)
}

/// Replacing the bytes of one element changes that element and no other.
pub proof fn lemma_replaced(image: Seq<u8>, size: usize, len: usize, index: int, piece: Seq<u8>)
    requires
        0 <= index < len,
        image.len() == len * size,
        piece.len() == size,
    ensures
        replaced(image, size, index, piece).len() == image.len(),
        forall|i: int|
            0 <= i < len ==> #[trigger] element(replaced(image, size, index, piece), size, i) == if i
                == index {
                piece
            } else {
                element(image, size, i)
            },
{
    lemma_element_bounds(size, len, index);
    let new = replaced(image, size, index, piece);
    assert(new.len() == image.len());
    assert forall|i: int| 0 <= i < len implies #[trigger] element(new, size, i) == if i == index {
        piece
    } else {
        element(image, size, i)
    } by {
        lemma_element_bounds(size, len, i);
        if i == index {
            assert(element(new, size, i) =~= piece);
        } else if i < index {
            assert((i + 1) * size <= index * size) by (nonlinear_arith)
                requires
                    i + 1 <= index,
            ;
            assert(element(new, size, i) =~= element(image, size, i));
        } else {
            assert((index + 1) * size <= i * size) by (nonlinear_arith)
                requires
                    index + 1 <= i,
            ;
            assert(element(new, size, i) =~= element(image, size, i));
        }
    }
}

} // verus!
