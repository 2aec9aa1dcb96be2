//! The blocks of a script: what the parser builds and the evaluator walks.
pub mod assembly;
pub mod bytes;
pub mod define;
pub mod repeat;

use crate::block::assembly::AssemblyBlock;
use crate::block::bytes::parser::{items_model, ItemModel};
use crate::block::bytes::BytesBlock;
use crate::block::define::DefineBlock;
use crate::block::repeat::RepeatBlock;
use crate::error::{EvaluationError, Fault};
use vstd::prelude::*;

verus! {

/// One block of a script, with the number of the line it starts on.
pub enum Block {
    /// A line of byte items.
    Bytes(BytesBlock),
    /// `@define`: registers an expansion, produces no bytes.
    Define(DefineBlock),
    /// `@repeat`: its body's bytes, a number of times.
    Repeat(RepeatBlock),
    /// `@assembly`: machine code assembled while parsing.
    Assembly(AssemblyBlock),
}

/// The mathematical model of a [`Block`].
pub enum BlockModel {
    /// The line number and the items.
    Bytes(nat, Seq<ItemModel>),
    /// The line number, the name, the parameter names and the body.
    Define(nat, Seq<char>, Seq<Seq<char>>, Seq<BlockModel>),
    /// The line number, the repetition count and the body.
    Repeat(nat, nat, Seq<BlockModel>),
    /// The line number and the machine code.
    Assembly(nat, Seq<u8>),
}

/// The models of a list of names.
pub open spec fn names_model(s: Seq<String>) -> Seq<Seq<char>> {
    s.map_values(|n: String| n@)
}

pub open spec fn block_model(b: Block) -> BlockModel
    decreases b,
{
    match b {
        Block::Bytes(x) => BlockModel::Bytes(x.line_number as nat, items_model(x.items@)),
        Block::Define(x) => BlockModel::Define(
            x.line_number as nat,
            x.definition.name@,
            names_model(x.definition.parameters@),
            blocks_model(x.definition.blocks@),
        ),
        Block::Repeat(x) => BlockModel::Repeat(
            x.line_number as nat,
            x.repeat_count as nat,
            blocks_model(x.blocks@),
        ),
        Block::Assembly(x) => BlockModel::Assembly(x.line_number as nat, x.compiled@),
    }
}

pub open spec fn blocks_model(s: Seq<Block>) -> Seq<BlockModel>
    decreases s,
{
    if s.len() == 0 {
        Seq::empty()
    } else {
        blocks_model(s.drop_last()).push(block_model(s.last()))
    }
}

/// A macro header whose body is parsed into blocks (`@repeat`, `@define`).
pub trait MacroBlock {
    /// The block, or the error, that the header's arguments and the body make
    /// on line `line`.
    spec fn allocated(line: nat, args: Seq<Seq<char>>, body: Seq<BlockModel>) -> Result<
        BlockModel,
        (nat, Fault),
    >;

    /// Builds the block from the header's arguments and the parsed body.
    fn allocate(line_number: usize, args: Vec<String>, blocks: Vec<Block>) -> (r: Result<
        Block,
        EvaluationError,
    >)
        ensures
            match r {
                Ok(b) => Self::allocated(line_number as nat, names_model(args@), blocks_model(blocks@))
                    == Ok::<BlockModel, (nat, Fault)>(block_model(b)),
                Err(e) => Self::allocated(
                    line_number as nat,
                    names_model(args@),
                    blocks_model(blocks@),
                ) == Err::<BlockModel, (nat, Fault)>(e@),
            },
    ;
}

} // verus!
