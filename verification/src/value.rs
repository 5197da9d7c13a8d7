//! The values that a container can hold: plain data with a fixed layout and
//! a byte image.

use vstd::prelude::*;
use vstd::bytes::{
    lemma_auto_spec_u128_to_from_le_bytes, lemma_auto_spec_u16_to_from_le_bytes,
    lemma_auto_spec_u32_to_from_le_bytes, lemma_auto_spec_u64_to_from_le_bytes,
    spec_u128_from_le_bytes, spec_u128_to_le_bytes, spec_u16_from_le_bytes,
    spec_u16_to_le_bytes, spec_u32_from_le_bytes, spec_u32_to_le_bytes, spec_u64_from_le_bytes,
    spec_u64_to_le_bytes, u128_from_le_bytes, u128_to_le_bytes, u16_from_le_bytes,
    u16_to_le_bytes, u32_from_le_bytes, u32_to_le_bytes, u64_from_le_bytes, u64_to_le_bytes,
};
use crate::layout::{Layout, TypeTag};

verus! {

/// A fixed-size value that is fully described by its bytes.
///
/// Each value has one byte image, as long as the size of its layout, and the
/// value is recovered from its image. Not every byte sequence of that
/// length need be an image.
pub trait Value: Sized {
    /// The identity of this type among the types whose values are held
    /// behind an erased type. Two types that are told apart that way have
    /// different tags.
    spec fn tag_spec() -> TypeTag;

    /// The layout of the values of this type.
    spec fn layout_spec() -> Layout;

    /// The byte image of a value.
    spec fn image(self) -> Seq<u8>;

    /// Whether `bytes` is the image of a value.
    spec fn is_image(bytes: Seq<u8>) -> bool;

    /// The value that `bytes` is the image of.
    spec fn value(bytes: Seq<u8>) -> Self;

    /// An image is as long as the layout says, and gives the value back.
    proof fn lemma_image(value: Self)
        ensures
            value.image().len() == Self::layout_spec().size,
            Self::is_image(value.image()),
            Self::value(value.image()) == value,
    ;

    /// Whatever is an image is the image of the value it gives.
    proof fn lemma_is_image(bytes: Seq<u8>)
        requires
            Self::is_image(bytes),
        ensures
            bytes.len() == Self::layout_spec().size,
            Self::value(bytes).image() == bytes,
    ;

    fn tag() -> (tag: TypeTag)
        ensures
            tag == Self::tag_spec(),
    ;

    fn layout() -> (layout: Layout)
        ensures
            layout == Self::layout_spec(),
    ;

    /// Writes the value out as its image.
    fn to_bytes(&self) -> (bytes: Vec<u8>)
        ensures
            bytes@ == self.image(),
    ;

    /// Reads a value back from its image.
    fn from_bytes(bytes: &[u8]) -> (value: Self)
        requires
            Self::is_image(bytes@),
        ensures
            value == Self::value(bytes@),
    ;

    /// Decides whether `bytes` is the image of a value.
    fn check(bytes: &[u8]) -> (valid: bool)
        ensures
            valid == Self::is_image(bytes@),
    ;
}

impl Value for () {
    open spec fn tag_spec() -> TypeTag {
        0
    }

    open spec fn layout_spec() -> Layout {
        Layout::of::<()>()
    }

    open spec fn image(self) -> Seq<u8> {
        Seq::empty()
    }

    open spec fn is_image(bytes: Seq<u8>) -> bool {
        bytes.len() == 0
    }

    open spec fn value(bytes: Seq<u8>) -> Self {
        ()
    }

    proof fn lemma_image(value: Self) {
        broadcast use vstd::layout::layout_of_unit_tuple;

    }

    proof fn lemma_is_image(bytes: Seq<u8>) {
        broadcast use vstd::layout::layout_of_unit_tuple;

        assert(bytes =~= Seq::<u8>::empty());
    }

    fn tag() -> (tag: TypeTag) {
        0
    }

    fn layout() -> (layout: Layout) {
        Layout::new::<()>()
    }

    fn to_bytes(&self) -> (bytes: Vec<u8>) {
        Vec::new()
    }

    fn from_bytes(bytes: &[u8]) -> (value: Self) {
        ()
    }

    fn check(bytes: &[u8]) -> (valid: bool) {
        bytes.len() == 0
    }
}

impl Value for bool {
    open spec fn tag_spec() -> TypeTag {
        1
    }

    open spec fn layout_spec() -> Layout {
        Layout::of::<bool>()
    }

    open spec fn image(self) -> Seq<u8> {
        seq![if self { 1u8 } else { 0u8 }]
    }

    open spec fn is_image(bytes: Seq<u8>) -> bool {
        bytes.len() == 1 && bytes[0] <= 1
    }

    open spec fn value(bytes: Seq<u8>) -> Self {
        bytes[0] == 1
    }

    proof fn lemma_image(value: Self) {
        broadcast use vstd::layout::layout_of_primitives;

    }

    proof fn lemma_is_image(bytes: Seq<u8>) {
        broadcast use vstd::layout::layout_of_primitives;

        assert(Self::value(bytes).image() =~= bytes);
    }

    fn tag() -> (tag: TypeTag) {
        1
    }

    fn layout() -> (layout: Layout) {
        Layout::new::<bool>()
    }

    fn to_bytes(&self) -> (bytes: Vec<u8>) {
        let mut bytes: Vec<u8> = Vec::new();
        bytes.push(if *self { 1u8 } else { 0u8 });
        assert(bytes@ =~= self.image());
        bytes
    }

    fn from_bytes(bytes: &[u8]) -> (value: Self) {
        bytes[0] == 1
    }

    fn check(bytes: &[u8]) -> (valid: bool) {
        bytes.len() == 1 && bytes[0] <= 1
    }
}

impl Value for u8 {
    open spec fn tag_spec() -> TypeTag {
        2
    }

    open spec fn layout_spec() -> Layout {
        Layout::of::<u8>()
    }

    open spec fn image(self) -> Seq<u8> {
        seq![self]
    }

    open spec fn is_image(bytes: Seq<u8>) -> bool {
        bytes.len() == 1
    }

    open spec fn value(bytes: Seq<u8>) -> Self {
        bytes[0]
    }

    proof fn lemma_image(value: Self) {
        broadcast use vstd::layout::layout_of_primitives;

    }

    proof fn lemma_is_image(bytes: Seq<u8>) {
        broadcast use vstd::layout::layout_of_primitives;

        assert(Self::value(bytes).image() =~= bytes);
    }

    fn tag() -> (tag: TypeTag) {
        2
    }

    fn layout() -> (layout: Layout) {
        Layout::new::<u8>()
    }

    fn to_bytes(&self) -> (bytes: Vec<u8>) {
        let mut bytes: Vec<u8> = Vec::new();
        bytes.push(*self);
        assert(bytes@ =~= self.image());
        bytes
    }

    fn from_bytes(bytes: &[u8]) -> (value: Self) {
        bytes[0]
    }

    fn check(bytes: &[u8]) -> (valid: bool) {
        bytes.len() == 1
    }
}

impl Value for u16 {
    open spec fn tag_spec() -> TypeTag {
        3
    }

    open spec fn layout_spec() -> Layout {
        Layout::of::<u16>()
    }

    open spec fn image(self) -> Seq<u8> {
        spec_u16_to_le_bytes(self)
    }

    open spec fn is_image(bytes: Seq<u8>) -> bool {
        bytes.len() == 2
    }

    open spec fn value(bytes: Seq<u8>) -> Self {
        spec_u16_from_le_bytes(bytes)
    }

    proof fn lemma_image(value: Self) {
        broadcast use vstd::layout::layout_of_primitives;

        lemma_auto_spec_u16_to_from_le_bytes();
    }

    proof fn lemma_is_image(bytes: Seq<u8>) {
        broadcast use vstd::layout::layout_of_primitives;

        lemma_auto_spec_u16_to_from_le_bytes();
    }

    fn tag() -> (tag: TypeTag) {
        3
    }

    fn layout() -> (layout: Layout) {
        Layout::new::<u16>()
    }

    fn to_bytes(&self) -> (bytes: Vec<u8>) {
        u16_to_le_bytes(*self)
    }

    fn from_bytes(bytes: &[u8]) -> (value: Self) {
        u16_from_le_bytes(bytes)
    }

    fn check(bytes: &[u8]) -> (valid: bool) {
        bytes.len() == 2
    }
}

impl Value for u32 {
    open spec fn tag_spec() -> TypeTag {
        4
    }

    open spec fn layout_spec() -> Layout {
        Layout::of::<u32>()
    }

    open spec fn image(self) -> Seq<u8> {
        spec_u32_to_le_bytes(self)
    }

    open spec fn is_image(bytes: Seq<u8>) -> bool {
        bytes.len() == 4
    }

    open spec fn value(bytes: Seq<u8>) -> Self {
        spec_u32_from_le_bytes(bytes)
    }

    proof fn lemma_image(value: Self) {
        broadcast use vstd::layout::layout_of_primitives;

        lemma_auto_spec_u32_to_from_le_bytes();
    }

    proof fn lemma_is_image(bytes: Seq<u8>) {
        broadcast use vstd::layout::layout_of_primitives;

        lemma_auto_spec_u32_to_from_le_bytes();
    }

    fn tag() -> (tag: TypeTag) {
        4
    }

    fn layout() -> (layout: Layout) {
        Layout::new::<u32>()
    }

    fn to_bytes(&self) -> (bytes: Vec<u8>) {
        u32_to_le_bytes(*self)
    }

    fn from_bytes(bytes: &[u8]) -> (value: Self) {
        u32_from_le_bytes(bytes)
    }

    fn check(bytes: &[u8]) -> (valid: bool) {
        bytes.len() == 4
    }
}

impl Value for u64 {
    open spec fn tag_spec() -> TypeTag {
        5
    }

    open spec fn layout_spec() -> Layout {
        Layout::of::<u64>()
    }

    open spec fn image(self) -> Seq<u8> {
        spec_u64_to_le_bytes(self)
    }

    open spec fn is_image(bytes: Seq<u8>) -> bool {
        bytes.len() == 8
    }

    open spec fn value(bytes: Seq<u8>) -> Self {
        spec_u64_from_le_bytes(bytes)
    }

    proof fn lemma_image(value: Self) {
        broadcast use vstd::layout::layout_of_primitives;

        lemma_auto_spec_u64_to_from_le_bytes();
    }

    proof fn lemma_is_image(bytes: Seq<u8>) {
        broadcast use vstd::layout::layout_of_primitives;

        lemma_auto_spec_u64_to_from_le_bytes();
    }

    fn tag() -> (tag: TypeTag) {
        5
    }

    fn layout() -> (layout: Layout) {
        Layout::new::<u64>()
    }

    fn to_bytes(&self) -> (bytes: Vec<u8>) {
        u64_to_le_bytes(*self)
    }

    fn from_bytes(bytes: &[u8]) -> (value: Self) {
        u64_from_le_bytes(bytes)
    }

    fn check(bytes: &[u8]) -> (valid: bool) {
        bytes.len() == 8
    }
}

impl Value for usize {
    open spec fn tag_spec() -> TypeTag {
        6
    }

    open spec fn layout_spec() -> Layout {
        Layout::of::<usize>()
    }

    open spec fn image(self) -> Seq<u8> {
        if usize::BITS == 64 {
            spec_u64_to_le_bytes(self as u64)
        } else {
            spec_u32_to_le_bytes(self as u32)
        }
    }

    open spec fn is_image(bytes: Seq<u8>) -> bool {
        bytes.len() * 8 == usize::BITS
    }

    open spec fn value(bytes: Seq<u8>) -> Self {
        if usize::BITS == 64 {
            spec_u64_from_le_bytes(bytes) as usize
        } else {
            spec_u32_from_le_bytes(bytes) as usize
        }
    }

    proof fn lemma_image(value: Self) {
        broadcast use vstd::layout::layout_of_primitives;

        lemma_auto_spec_u64_to_from_le_bytes();
        lemma_auto_spec_u32_to_from_le_bytes();
    }

    proof fn lemma_is_image(bytes: Seq<u8>) {
        broadcast use vstd::layout::layout_of_primitives;

        lemma_auto_spec_u64_to_from_le_bytes();
        lemma_auto_spec_u32_to_from_le_bytes();
    }

    fn tag() -> (tag: TypeTag) {
        6
    }

    fn layout() -> (layout: Layout) {
        Layout::new::<usize>()
    }

    fn to_bytes(&self) -> (bytes: Vec<u8>) {
        if usize::BITS == 64 {
            u64_to_le_bytes(*self as u64)
        } else {
            u32_to_le_bytes(*self as u32)
        }
    }

    fn from_bytes(bytes: &[u8]) -> (value: Self) {
        if usize::BITS == 64 {
            u64_from_le_bytes(bytes) as usize
        } else {
            u32_from_le_bytes(bytes) as usize
        }
    }

    fn check(bytes: &[u8]) -> (valid: bool) {
        if usize::BITS == 64 {
            bytes.len() == 8
        } else {
            bytes.len() == 4
        }
    }
}

impl Value for u128 {
    open spec fn tag_spec() -> TypeTag {
        7
    }

    open spec fn layout_spec() -> Layout {
        Layout::of::<u128>()
    }

    open spec fn image(self) -> Seq<u8> {
        spec_u128_to_le_bytes(self)
    }

    open spec fn is_image(bytes: Seq<u8>) -> bool {
        bytes.len() == 16
    }

    open spec fn value(bytes: Seq<u8>) -> Self {
        spec_u128_from_le_bytes(bytes)
    }

    proof fn lemma_image(value: Self) {
        broadcast use vstd::layout::layout_of_primitives;

        lemma_auto_spec_u128_to_from_le_bytes();
    }

    proof fn lemma_is_image(bytes: Seq<u8>) {
        broadcast use vstd::layout::layout_of_primitives;

        lemma_auto_spec_u128_to_from_le_bytes();
    }

    fn tag() -> (tag: TypeTag) {
        7
    }

    fn layout() -> (layout: Layout) {
        Layout::new::<u128>()
    }

    fn to_bytes(&self) -> (bytes: Vec<u8>) {
        u128_to_le_bytes(*self)
    }

    fn from_bytes(bytes: &[u8]) -> (value: Self) {
        u128_from_le_bytes(bytes)
    }

    fn check(bytes: &[u8]) -> (valid: bool) {
        bytes.len() == 16
    }
}

impl Value for i8 {
    open spec fn tag_spec() -> TypeTag {
        8
    }

    open spec fn layout_spec() -> Layout {
        Layout::of::<i8>()
    }

    open spec fn image(self) -> Seq<u8> {
        seq![self as u8]
    }

    open spec fn is_image(bytes: Seq<u8>) -> bool {
        bytes.len() == 1
    }

    open spec fn value(bytes: Seq<u8>) -> Self {
        bytes[0] as i8
    }

    proof fn lemma_image(value: Self) {
        broadcast use vstd::layout::layout_of_primitives;

        assert((value as u8) as i8 == value) by (bit_vector);
    }

    proof fn lemma_is_image(bytes: Seq<u8>) {
        broadcast use vstd::layout::layout_of_primitives;

        let byte = bytes[0];
        assert((byte as i8) as u8 == byte) by (bit_vector);
        assert(Self::value(bytes).image() =~= bytes);
    }

    fn tag() -> (tag: TypeTag) {
        8
    }

    fn layout() -> (layout: Layout) {
        Layout::new::<i8>()
    }

    fn to_bytes(&self) -> (bytes: Vec<u8>) {
        let mut bytes: Vec<u8> = Vec::new();
        bytes.push(*self as u8);
        assert(bytes@ =~= self.image());
        bytes
    }

    fn from_bytes(bytes: &[u8]) -> (value: Self) {
        bytes[0] as i8
    }

    fn check(bytes: &[u8]) -> (valid: bool) {
        bytes.len() == 1
    }
}

impl Value for i16 {
    open spec fn tag_spec() -> TypeTag {
        9
    }

    open spec fn layout_spec() -> Layout {
        Layout::of::<i16>()
    }

    open spec fn image(self) -> Seq<u8> {
        spec_u16_to_le_bytes(self as u16)
    }

    open spec fn is_image(bytes: Seq<u8>) -> bool {
        bytes.len() == 2
    }

    open spec fn value(bytes: Seq<u8>) -> Self {
        spec_u16_from_le_bytes(bytes) as i16
    }

    proof fn lemma_image(value: Self) {
        broadcast use vstd::layout::layout_of_primitives;

        lemma_auto_spec_u16_to_from_le_bytes();
        assert((value as u16) as i16 == value) by (bit_vector);
    }

    proof fn lemma_is_image(bytes: Seq<u8>) {
        broadcast use vstd::layout::layout_of_primitives;

        lemma_auto_spec_u16_to_from_le_bytes();
        let word = spec_u16_from_le_bytes(bytes);
        assert((word as i16) as u16 == word) by (bit_vector);
    }

    fn tag() -> (tag: TypeTag) {
        9
    }

    fn layout() -> (layout: Layout) {
        Layout::new::<i16>()
    }

    fn to_bytes(&self) -> (bytes: Vec<u8>) {
        u16_to_le_bytes(*self as u16)
    }

    fn from_bytes(bytes: &[u8]) -> (value: Self) {
        u16_from_le_bytes(bytes) as i16
    }

    fn check(bytes: &[u8]) -> (valid: bool) {
        bytes.len() == 2
    }
}

impl Value for i32 {
    open spec fn tag_spec() -> TypeTag {
        10
    }

    open spec fn layout_spec() -> Layout {
        Layout::of::<i32>()
    }

    open spec fn image(self) -> Seq<u8> {
        spec_u32_to_le_bytes(self as u32)
    }

    open spec fn is_image(bytes: Seq<u8>) -> bool {
        bytes.len() == 4
    }

    open spec fn value(bytes: Seq<u8>) -> Self {
        spec_u32_from_le_bytes(bytes) as i32
    }

    proof fn lemma_image(value: Self) {
        broadcast use vstd::layout::layout_of_primitives;

        lemma_auto_spec_u32_to_from_le_bytes();
        assert((value as u32) as i32 == value) by (bit_vector);
    }

    proof fn lemma_is_image(bytes: Seq<u8>) {
        broadcast use vstd::layout::layout_of_primitives;

        lemma_auto_spec_u32_to_from_le_bytes();
        let word = spec_u32_from_le_bytes(bytes);
        assert((word as i32) as u32 == word) by (bit_vector);
    }

    fn tag() -> (tag: TypeTag) {
        10
    }

    fn layout() -> (layout: Layout) {
        Layout::new::<i32>()
    }

    fn to_bytes(&self) -> (bytes: Vec<u8>) {
        u32_to_le_bytes(*self as u32)
    }

    fn from_bytes(bytes: &[u8]) -> (value: Self) {
        u32_from_le_bytes(bytes) as i32
    }

    fn check(bytes: &[u8]) -> (valid: bool) {
        bytes.len() == 4
    }
}

impl Value for i64 {
    open spec fn tag_spec() -> TypeTag {
        11
    }

    open spec fn layout_spec() -> Layout {
        Layout::of::<i64>()
    }

    open spec fn image(self) -> Seq<u8> {
        spec_u64_to_le_bytes(self as u64)
    }

    open spec fn is_image(bytes: Seq<u8>) -> bool {
        bytes.len() == 8
    }

    open spec fn value(bytes: Seq<u8>) -> Self {
        spec_u64_from_le_bytes(bytes) as i64
    }

    proof fn lemma_image(value: Self) {
        broadcast use vstd::layout::layout_of_primitives;

        lemma_auto_spec_u64_to_from_le_bytes();
        assert((value as u64) as i64 == value) by (bit_vector);
    }

    proof fn lemma_is_image(bytes: Seq<u8>) {
        broadcast use vstd::layout::layout_of_primitives;

        lemma_auto_spec_u64_to_from_le_bytes();
        let word = spec_u64_from_le_bytes(bytes);
        assert((word as i64) as u64 == word) by (bit_vector);
    }

    fn tag() -> (tag: TypeTag) {
        11
    }

    fn layout() -> (layout: Layout) {
        Layout::new::<i64>()
    }

    fn to_bytes(&self) -> (bytes: Vec<u8>) {
        u64_to_le_bytes(*self as u64)
    }

    fn from_bytes(bytes: &[u8]) -> (value: Self) {
        u64_from_le_bytes(bytes) as i64
    }

    fn check(bytes: &[u8]) -> (valid: bool) {
        bytes.len() == 8
    }
}

impl Value for i128 {
    open spec fn tag_spec() -> TypeTag {
        12
    }

    open spec fn layout_spec() -> Layout {
        Layout::of::<i128>()
    }

    open spec fn image(self) -> Seq<u8> {
        spec_u128_to_le_bytes(self as u128)
    }

    open spec fn is_image(bytes: Seq<u8>) -> bool {
        bytes.len() == 16
    }

    open spec fn value(bytes: Seq<u8>) -> Self {
        spec_u128_from_le_bytes(bytes) as i128
    }

    proof fn lemma_image(value: Self) {
        broadcast use vstd::layout::layout_of_primitives;

        lemma_auto_spec_u128_to_from_le_bytes();
        assert((value as u128) as i128 == value) by (bit_vector);
    }

    proof fn lemma_is_image(bytes: Seq<u8>) {
        broadcast use vstd::layout::layout_of_primitives;

        lemma_auto_spec_u128_to_from_le_bytes();
        let word = spec_u128_from_le_bytes(bytes);
        assert((word as i128) as u128 == word) by (bit_vector);
    }

    fn tag() -> (tag: TypeTag) {
        12
    }

    fn layout() -> (layout: Layout) {
        Layout::new::<i128>()
    }

    fn to_bytes(&self) -> (bytes: Vec<u8>) {
        u128_to_le_bytes(*self as u128)
    }

    fn from_bytes(bytes: &[u8]) -> (value: Self) {
        u128_from_le_bytes(bytes) as i128
    }

    fn check(bytes: &[u8]) -> (valid: bool) {
        bytes.len() == 16
    }
}

impl Value for isize {
    open spec fn tag_spec() -> TypeTag {
        13
    }

    open spec fn layout_spec() -> Layout {
        Layout::of::<isize>()
    }

    open spec fn image(self) -> Seq<u8> {
        if isize::BITS == 64 {
            (self as i64).image()
        } else {
            (self as i32).image()
        }
    }

    open spec fn is_image(bytes: Seq<u8>) -> bool {
        bytes.len() * 8 == isize::BITS
    }

    open spec fn value(bytes: Seq<u8>) -> Self {
        if isize::BITS == 64 {
            i64::value(bytes) as isize
        } else {
            i32::value(bytes) as isize
        }
    }

    proof fn lemma_image(value: Self) {
        broadcast use vstd::layout::layout_of_primitives;

        i64::lemma_image(value as i64);
        i32::lemma_image(value as i32);
    }

    proof fn lemma_is_image(bytes: Seq<u8>) {
        broadcast use vstd::layout::layout_of_primitives;

        if isize::BITS == 64 {
            i64::lemma_is_image(bytes);
        } else {
            i32::lemma_is_image(bytes);
        }
    }

    fn tag() -> (tag: TypeTag) {
        13
    }

    fn layout() -> (layout: Layout) {
        Layout::new::<isize>()
    }

    fn to_bytes(&self) -> (bytes: Vec<u8>) {
        if isize::BITS == 64 {
            (*self as i64).to_bytes()
        } else {
            (*self as i32).to_bytes()
        }
    }

    fn from_bytes(bytes: &[u8]) -> (value: Self) {
        if isize::BITS == 64 {
            i64::from_bytes(bytes) as isize
        } else {
            i32::from_bytes(bytes) as isize
        }
    }

    fn check(bytes: &[u8]) -> (valid: bool) {
        if isize::BITS == 64 {
            bytes.len() == 8
        } else {
            bytes.len() == 4
        }
    }
}

} // verus!
