//! The allocation capability that a container draws its heap blocks from.

use vstd::prelude::*;
use crate::layout::Layout;

verus! {

/// The one way an operation of this library fails: the allocation
/// capability could not satisfy a request.
#[derive(Clone, Copy, Debug, PartialEq, Eq, Structural)]
pub struct AllocError;

/// A sequence of `len` zero bytes.
pub open spec fn zeros(len: nat) -> Seq<u8> {
    Seq::new(len, |i: int| 0u8)
}

/// A memory provider. A block is handed out as an owned buffer of exactly
/// the size requested and is handed back with the layout it was requested
/// with.
///
/// Whether a request is granted is the provider's decision: nothing here
/// says when.
pub trait Allocator: Sized {
    /// Whether `post` is a state this provider may be in after it has
    /// granted one request for `layout` in state `self`.
    spec fn granted(&self, layout: Layout, post: &Self) -> bool;

    /// Whether `post` is a state this provider may be in after a block of
    /// `layout` has been returned to it in state `self`.
    spec fn released(&self, layout: Layout, post: &Self) -> bool;

    /// Requests a block of `layout`. Its contents are unspecified. A request
    /// that is refused leaves the provider as it was.
    fn allocate(&mut self, layout: Layout) -> (block: Result<Vec<u8>, AllocError>)
        ensures
            match block {
                Ok(bytes) => bytes@.len() == layout.size && old(self).granted(
                    layout,
                    final(self),
                ),
                Err(_) => *final(self) == *old(self),
            },
    ;

    /// Requests a block of `layout` whose bytes are all zero. A request that
    /// is refused leaves the provider as it was.
    fn allocate_zeroed(&mut self, layout: Layout) -> (block: Result<Vec<u8>, AllocError>)
        ensures
            match block {
                Ok(bytes) => bytes@ == zeros(layout.size as nat) && old(self).granted(
                    layout,
                    final(self),
                ),
                Err(_) => *final(self) == *old(self),
            },
    ;

    /// Returns a block to the provider, with the layout it was requested with.
    fn deallocate(&mut self, block: Vec<u8>, layout: Layout)
        requires
            block@.len() == layout.size,
        ensures
            old(self).released(layout, final(self)),
    ;
}

/// The default provider: blocks come from the program's heap.
#[derive(Clone, Copy, Debug, PartialEq, Eq, Structural)]
pub struct Global;

impl Global {
    /// Asks the program's heap for room for `size` bytes: an empty buffer
    /// that has the room where it was given, the failure where it was not.
    /// For more than `isize::MAX` bytes the heap is not asked: there is no
    /// such room.
    fn reserve(size: usize) -> (room: Result<Vec<u8>, AllocError>)
        ensures
            size > isize::MAX ==> room is Err,
            room matches Ok(bytes) ==> bytes@.len() == 0,
    {
        if size > isize::MAX as usize {
            return Err(AllocError);
        }
        let mut bytes: Vec<u8> = Vec::new();
        match bytes.try_reserve(size) {
            Ok(_) => Ok(bytes),
            Err(_) => Err(AllocError),
        }
    }

    /// What a reservation comes to: a block of `size` zero bytes in the room
    /// that was given, the failure where none was. No block is larger than
    /// `isize::MAX` bytes.
    pub fn zeroed_block(room: Result<Vec<u8>, AllocError>, size: usize) -> (block: Result<
        Vec<u8>,
        AllocError,
    >)
        requires
            room matches Ok(bytes) ==> bytes@.len() == 0,
        ensures
            match room {
                Ok(_) => if size <= isize::MAX {
                    block matches Ok(bytes) && bytes@ == zeros(size as nat)
                } else {
                    block is Err
                },
                Err(error) => block == Err::<Vec<u8>, AllocError>(error),
            },
    {
        match room {
            Ok(bytes) => {
                if size > isize::MAX as usize {
                    return Err(AllocError);
                }
                let mut bytes = bytes;
                bytes.resize(size, 0u8);
                assert(bytes@ =~= zeros(size as nat));
                Ok(bytes)
            },
            Err(error) => Err(error),
        }
    }
}

impl Allocator for Global {
    open spec fn granted(&self, layout: Layout, post: &Self) -> bool {
        true
    }

    open spec fn released(&self, layout: Layout, post: &Self) -> bool {
        true
    }

    /// A block from the program's heap. A request for more than
    /// `isize::MAX` bytes is refused; whether another is granted is the
    /// heap's decision.
    fn allocate(&mut self, layout: Layout) -> (block: Result<Vec<u8>, AllocError>)
        ensures
            layout.size > isize::MAX ==> block is Err,
    {
        Global::zeroed_block(Global::reserve(layout.size), layout.size)
    }

    /// A block of zero bytes from the program's heap. A request for more
    /// than `isize::MAX` bytes is refused; whether another is granted is the
    /// heap's decision.
    fn allocate_zeroed(&mut self, layout: Layout) -> (block: Result<Vec<u8>, AllocError>)
        ensures
            layout.size > isize::MAX ==> block is Err,
    {
        Global::zeroed_block(Global::reserve(layout.size), layout.size)
    }

    fn deallocate(&mut self, block: Vec<u8>, layout: Layout) {
    }
}

impl Default for Global {
    fn default() -> (alloc: Global)
        ensures
            alloc == Global,
    {
        Global
    }
}

} // verus!
