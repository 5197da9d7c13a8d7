//! Layouts, shape descriptors and the storage decision.

use vstd::prelude::*;

verus! {

/// Size and alignment of a region of memory, in bytes.
#[derive(Clone, Copy, Debug, PartialEq, Eq, Structural)]
pub struct Layout {
    pub size: usize,
    pub align: usize,
}

impl Layout {
    /// The layout of the type `T`.
    pub open spec fn of<T>() -> Layout {
        Layout {
            size: vstd::layout::size_of::<T>() as usize,
            align: vstd::layout::align_of::<T>() as usize,
        }
    }

    /// The storage decision: a value of this layout is held inline in a
    /// buffer of layout `store` exactly if neither its size nor its
    /// alignment exceeds the buffer's.
    pub open spec fn fits(self, store: Layout) -> bool {
        self.size <= store.size && self.align <= store.align
    }

    /// The size of `len` consecutive elements of this layout.
    pub open spec fn array_size(self, len: usize) -> int {
        self.size * len
    }

    pub fn from_size_align(size: usize, align: usize) -> (layout: Layout)
        ensures
            layout == (Layout { size, align }),
    {
        Layout { size, align }
    }

    /// Computes the layout of `T`.
    pub fn new<T>() -> (layout: Layout)
        ensures
            layout == Layout::of::<T>(),
            layout.size == vstd::layout::size_of::<T>(),
            layout.align == vstd::layout::align_of::<T>(),
            layout.align >= 1,
    {
        broadcast use vstd::layout::align_nonzero;

        Layout { size: core::mem::size_of::<T>(), align: core::mem::align_of::<T>() }
    }

    pub fn size(&self) -> (size: usize)
        ensures
            size == self.size,
    {
        self.size
    }

    pub fn align(&self) -> (align: usize)
        ensures
            align == self.align,
    {
        self.align
    }

    /// Computes the layout of `len` consecutive elements of this layout.
    /// There is none where their size would exceed `isize::MAX`.
    pub fn array(&self, len: usize) -> (layout: Option<Layout>)
        ensures
            layout == if self.array_size(len) <= isize::MAX {
                Some(Layout { size: self.array_size(len) as usize, align: self.align })
            } else {
                None::<Layout>
            },
    {
        let limit: usize = isize::MAX as usize;
        if self.size == 0 || len == 0 {
            assert(self.size * len == 0) by (nonlinear_arith)
                requires
                    self.size == 0 || len == 0,
            ;
            return Some(Layout { size: 0, align: self.align });
        }
        if len > limit / self.size {
            assert(self.size * len > isize::MAX) by (nonlinear_arith)
                requires
                    self.size > 0,
                    len > (isize::MAX as int) / (self.size as int),
            ;
            None
        } else {
            assert(self.size * len <= isize::MAX) by (nonlinear_arith)
                requires
                    self.size > 0,
                    len <= (isize::MAX as int) / (self.size as int),
            ;
            Some(Layout { size: self.size * len, align: self.align })
        }
    }

    /// Decides whether a value of this layout is held inline in a buffer
    /// of layout `store`.
    pub fn fits_in(&self, store: &Layout) -> (fits: bool)
        ensures
            fits == self.fits(*store),
    {
        self.size <= store.size && self.align <= store.align
    }
}

/// Identifies the concrete type of a value whose type has been erased.
pub type TypeTag = u64;

/// The part of a shape descriptor that the kind of value decides.
#[derive(Clone, Copy, Debug, PartialEq, Eq, Structural)]
pub enum Descriptor {
    /// A fixed-size value: nothing more is recorded.
    Thin,
    /// A sequence or a text: its number of elements.
    Length(usize),
    /// A value behind an erased type: the identity of its concrete type.
    Dispatch(TypeTag),
}

/// The shape descriptor that a container carries beside the bytes of its
/// value: the layout of the value, and what its kind adds to it.
#[derive(Clone, Copy, Debug, PartialEq, Eq, Structural)]
pub struct Metadata {
    pub layout: Layout,
    pub descriptor: Descriptor,
}

impl Metadata {
    /// The descriptor of a fixed-size value of the given layout.
    pub open spec fn sized(layout: Layout) -> Metadata {
        Metadata { layout, descriptor: Descriptor::Thin }
    }

    /// The descriptor of `len` elements of layout `element`.
    pub open spec fn slice(element: Layout, len: usize) -> Metadata {
        Metadata {
            layout: Layout { size: element.array_size(len) as usize, align: element.align },
            descriptor: Descriptor::Length(len),
        }
    }

    /// The descriptor of a value of the given layout whose concrete type,
    /// identified by `tag`, has been erased.
    pub open spec fn erased(layout: Layout, tag: TypeTag) -> Metadata {
        Metadata { layout, descriptor: Descriptor::Dispatch(tag) }
    }

    pub fn new_sized(layout: Layout) -> (metadata: Metadata)
        ensures
            metadata == Metadata::sized(layout),
    {
        Metadata { layout, descriptor: Descriptor::Thin }
    }

    /// The descriptor of `len` elements of layout `element`, where such a
    /// sequence has a layout.
    pub fn new_slice(element: Layout, len: usize) -> (metadata: Option<Metadata>)
        ensures
            metadata == if element.array_size(len) <= isize::MAX {
                Some(Metadata::slice(element, len))
            } else {
                None::<Metadata>
            },
    {
        match element.array(len) {
            Some(layout) => Some(Metadata { layout, descriptor: Descriptor::Length(len) }),
            None => None,
        }
    }

    pub fn new_erased(layout: Layout, tag: TypeTag) -> (metadata: Metadata)
        ensures
            metadata == Metadata::erased(layout, tag),
    {
        Metadata { layout, descriptor: Descriptor::Dispatch(tag) }
    }
}

/// The layout of the value that `metadata` describes.
pub fn layout_from_metadata(metadata: Metadata) -> (layout: Layout)
    ensures
        layout == metadata.layout,
{
    metadata.layout
}

/// The descriptor under which a fixed-size value is seen once its concrete
/// type, identified by `tag`, is erased: the layout stays, the tag is added.
pub fn coerce_metadata(metadata: Metadata, tag: TypeTag) -> (coerced: Metadata)
    ensures
        coerced == Metadata::erased(metadata.layout, tag),
{
    Metadata { layout: metadata.layout, descriptor: Descriptor::Dispatch(tag) }
}

} // verus!
