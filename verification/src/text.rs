//! Boxes of text: the bytes of a string, which are valid UTF-8.

use vstd::prelude::*;
use vstd::utf8::{
    decode_utf8, length_of_first_scalar, pop_first_scalar, valid_first_scalar, valid_utf8,
};
use crate::allocator::Allocator;
use crate::pointee::{element, lemma_element_bounds};
use crate::sequence::{length, lemma_slice_size};
use crate::layout::Layout;
use crate::value::Value;
use crate::SmallBox;

verus! {

/// The number of bytes that the scalar value encoded at the start of `bytes`
/// takes; none where `bytes` does not start with a well-formed encoding of
/// a scalar value.
pub open spec fn first_scalar_width(bytes: Seq<u8>) -> usize {
    if valid_first_scalar(bytes) {
        length_of_first_scalar(bytes) as usize
    } else {
        0
    }
}

/// Measures the scalar value encoded in `bytes` from `at` on: the number of
/// its bytes, or none where no well-formed encoding starts there.
///
/// An encoding is well formed where its leading byte and as many
/// continuation bytes as that announces are there, the value is not one
/// that a shorter encoding has, and the value is no surrogate.
pub fn scalar_width(bytes: &[u8], at: usize) -> (width: usize)
    requires
        at < bytes@.len(),
    ensures
        width == first_scalar_width(bytes@.skip(at as int)),
        width <= 4,
        at + width <= bytes@.len(),
{
    let ghost rest = bytes@.skip(at as int);
    let len = bytes.len();
    let first = bytes[at];
    assert(rest[0] == first);
    if first <= 0x7f {
        let scalar = (first & 0x7F) as u32;
        if 0xD800 <= scalar && scalar <= 0xDFFF {
            0
        } else {
            1
        }
    } else if 0xc0 <= first && first <= 0xdf {
        if len - at < 2 {
            return 0;
        }
        let second = bytes[at + 1];
        assert(rest[1] == second);
        if !(0x80 <= second && second <= 0xbf) {
            return 0;
        }
        let scalar = (((first & 0x1F) as u32) << 6) | ((second & 0x3f) as u32);
        if scalar < 0x80 || (0xD800 <= scalar && scalar <= 0xDFFF) {
            0
        } else {
            2
        }
    } else if 0xe0 <= first && first <= 0xef {
        if len - at < 3 {
            return 0;
        }
        let second = bytes[at + 1];
        let third = bytes[at + 2];
        assert(rest[1] == second);
        assert(rest[2] == third);
        if !(0x80 <= second && second <= 0xbf) || !(0x80 <= third && third <= 0xbf) {
            return 0;
        }
        let scalar = (((first & 0x0F) as u32) << 12) | (((second & 0x3f) as u32) << 6) | ((third
            & 0x3f) as u32);
        if scalar < 0x800 || (0xD800 <= scalar && scalar <= 0xDFFF) {
            0
        } else {
            3
        }
    } else if 0xf0 <= first && first <= 0xf7 {
        if len - at < 4 {
            return 0;
        }
        let second = bytes[at + 1];
        let third = bytes[at + 2];
        let fourth = bytes[at + 3];
        assert(rest[1] == second);
        assert(rest[2] == third);
        assert(rest[3] == fourth);
        if !(0x80 <= second && second <= 0xbf) || !(0x80 <= third && third <= 0xbf) || !(0x80
            <= fourth && fourth <= 0xbf) {
            return 0;
        }
        let scalar = (((first & 0x07) as u32) << 18) | (((second & 0x3f) as u32) << 12) | (((third
            & 0x3f) as u32) << 6) | ((fourth & 0x3f) as u32);
        if scalar < 0x10000 || scalar > 0x10ffff || (0xD800 <= scalar && scalar <= 0xDFFF) {
            0
        } else {
            4
        }
    } else {
        0
    }
}

/// Decides whether `bytes` are valid UTF-8: one well-formed encoding of a
/// scalar value after the other, and nothing else.
pub fn is_utf8(bytes: &[u8]) -> (valid: bool)
    ensures
        valid == valid_utf8(bytes@),
{
    let len = bytes.len();
    let mut at: usize = 0;
    assert(bytes@.skip(0) =~= bytes@);
    while at < len
        invariant
            at <= len,
            len == bytes@.len(),
            valid_utf8(bytes@) == valid_utf8(bytes@.skip(at as int)),
        decreases len - at,
    {
        let ghost rest = bytes@.skip(at as int);
        let width = scalar_width(bytes, at);
        if width == 0 {
            assert(!valid_utf8(rest));
            return false;
        }
        assert(pop_first_scalar(rest) =~= bytes@.skip(at + width));
        at = at + width;
    }
    assert(bytes@.skip(at as int).len() == 0);
    true
}

impl<S, A: Allocator> SmallBox<str, S, A> {
    /// Gives a box of bytes back as a box of text where the bytes are valid
    /// UTF-8; where they are not, the box comes back as it was.
    pub fn from_utf8(boxed: SmallBox<[u8], S, A>) -> (text: Result<Self, SmallBox<[u8], S, A>>)
        ensures
            match text {
                Ok(t) => valid_utf8(boxed@.image) && t@ == boxed@,
                Err(same) => !valid_utf8(boxed@.image) && same == boxed,
            },
    {
        if is_utf8(SmallBox::as_bytes(&boxed)) {
            Ok(Self::from_utf8_unchecked(boxed))
        } else {
            Err(boxed)
        }
    }

    /// The characters of the text.
    pub open spec fn text(&self) -> Seq<char> {
        decode_utf8(self@.image)
    }

    /// Takes a box of bytes for a box of text. Nothing is checked: that the
    /// bytes are valid UTF-8 is the caller's to show.
    pub fn from_utf8_unchecked(boxed: SmallBox<[u8], S, A>) -> (text: Self)
        requires
            valid_utf8(boxed@.image),
        ensures
            text@ == boxed@,
    {
        proof {
            use_type_invariant(&boxed.0);
            boxed.0.lemma_wf();
        }
        SmallBox(boxed.0.reinterpret_unchecked())
    }

    /// Gives the text up as a box of its bytes.
    pub fn into_bytes(self) -> (bytes: SmallBox<[u8], S, A>)
        ensures
            bytes@ == self@,
            valid_utf8(bytes@.image),
    {
        proof {
            broadcast use vstd::layout::layout_of_primitives;

            use_type_invariant(&self.0);
            self.0.lemma_wf();
            let len = length(self@.metadata);
            lemma_slice_size(Layout::of::<u8>(), len);
            assert forall|i: int| 0 <= i < len implies u8::is_image(
                #[trigger] element(self@.image, u8::layout_spec().size, i),
            ) by {
                lemma_element_bounds(1usize, len, i);
            }
        }
        SmallBox(self.0.reinterpret_unchecked())
    }

    /// The number of bytes of the text.
    pub fn len(&self) -> (len: usize)
        ensures
            len == self@.image.len(),
    {
        proof {
            use_type_invariant(&self.0);
            self.0.lemma_wf();
        }
        SmallBox::metadata(self).layout.size
    }
}

} // verus!
