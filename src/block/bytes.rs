//! Lines of byte items.
pub mod parser;
pub mod translate;

use crate::block::bytes::parser::{items_model, line_items, parse_bytes, BytesItem, ItemModel};
use crate::error::{EvaluationError, Fault};
use vstd::prelude::*;

verus! {

/// A line of byte items.
pub struct BytesBlock {
    pub line_number: usize,
    pub items: Vec<BytesItem>,
}

impl BytesBlock {
    /// Parses `line` into its items; an error is stamped with `line_number`.
    pub fn new(line_number: usize, line: String) -> (r: Result<Self, EvaluationError>)
        ensures
            match r {
                Ok(b) => b.line_number == line_number && line_items(line@) == Ok::<
                    Seq<ItemModel>,
                    Fault,
                >(items_model(b.items@)),
                Err(e) => e.line == line_number && line_items(line@) == Err::<
                    Seq<ItemModel>,
                    Fault,
                >(e.what@),
            },
    {
        match parse_bytes(line.as_str()) {
            Ok(items) => Ok(BytesBlock { line_number, items }),
            Err(e) => Err(e.at(line_number)),
        }
    }
}

} // verus!
