//! `@assembly`: machine code that the assembler collaborator produced.
use vstd::prelude::*;

verus! {

/// An `@assembly` block, holding the code assembled from its body.
pub struct AssemblyBlock {
    pub line_number: usize,
    pub compiled: Vec<u8>,
}

} // verus!
