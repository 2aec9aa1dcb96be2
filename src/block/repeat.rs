//! `@repeat`: a body's bytes, a number of times.
use crate::block::bytes::translate::{decimal_integer, integer_from_decimal};
use crate::block::{Block, BlockModel, MacroBlock};
use crate::error::{ErrorKind, EvaluationError, Fault};
use vstd::prelude::*;

verus! {

/// A `@repeat` block.
pub struct RepeatBlock {
    pub line_number: usize,
    pub repeat_count: usize,
    pub blocks: Vec<Block>,
}

/// The block that `@repeat` with `args` and `body` makes on line `line`: exactly
/// one argument, a count as std reads an unsigned integer.
pub open spec fn repeat_allocated(line: nat, args: Seq<Seq<char>>, body: Seq<BlockModel>) -> Result<
    BlockModel,
    (nat, Fault),
> {
    if args.len() != 1 {
        Err((line, Fault::RepeatArgumentCount))
    } else {
        match decimal_integer(args[0]) {
            Ok(count) => Ok(BlockModel::Repeat(line, count, body)),
            Err(_) => Err((line, Fault::InvalidRepeatCount(args[0]))),
        }
    }
}

impl MacroBlock for RepeatBlock {
    open spec fn allocated(line: nat, args: Seq<Seq<char>>, body: Seq<BlockModel>) -> Result<
        BlockModel,
        (nat, Fault),
    > {
        repeat_allocated(line, args, body)
    }

    fn allocate(line_number: usize, args: Vec<String>, blocks: Vec<Block>) -> (r: Result<
        Block,
        EvaluationError,
    >) {
        if args.len() != 1 {
            return Err(EvaluationError::new(line_number, ErrorKind::RepeatArgumentCount));
        }
        let arg = &args[0];
        match integer_from_decimal(arg.as_str()) {
            Ok(repeat_count) => Ok(Block::Repeat(RepeatBlock { line_number, repeat_count, blocks })),
            Err(_) => Err(
                EvaluationError::new(line_number, ErrorKind::InvalidRepeatCount(arg.clone())),
            ),
        }
    }
}

} // verus!
