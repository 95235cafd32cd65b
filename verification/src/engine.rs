//! Opaque tokens of the foreign engine.
//!
//! The engine's own value cells and stream descriptors are never interpreted
//! here: they are carried through as opaque bytes, sized as the engine lays
//! them out, and only the foreign entry points (which live in the embedding
//! host, outside this library) ever look inside them.

#![allow(non_camel_case_types)]

use vstd::prelude::*;

verus! {

/// The engine's value cell. Sixteen opaque bytes on the platforms the engine
/// supports; this library never reads or writes a meaning into them.
pub struct zval {
    _data: [u8; 16],
}

impl zval {
    /// True when every byte of the cell is zero, the engine's "empty" cell.
    pub closed spec fn is_cleared(&self) -> bool {
        forall|i: int| 0 <= i < 16 ==> self._data[i] == 0u8
    }
}

impl Default for zval {
    /// A cleared value cell, ready to be handed to the engine.
    fn default() -> (r: Self)
        ensures
            r.is_cleared(),
    {
        let r = zval { _data: [0u8; 16] };
        r
    }
}

/// The engine's interned string type. Only ever seen behind a reference
/// handed back by the engine, so it carries no data of its own here.
pub struct zend_string {
    _opaque: (),
}

/// How the engine is told to open a script: by file name, through an open
/// file, or through a stream it manages itself.
pub enum zend_stream_type {
    ZEND_HANDLE_FILENAME,
    ZEND_HANDLE_FP,
    ZEND_HANDLE_STREAM,
}

/// Whether the foreign engine's entry points are linked into this library.
///
/// They never are: the library holds the logic around the engine, and the
/// embedding host supplies the link to the engine itself. A host that has no
/// such link must treat every execution request as unavailable.
pub fn is_embed_available() -> (r: bool)
    ensures
        !r,
{
    false
}

} // verus!
