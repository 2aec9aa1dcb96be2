//! `@define`: named, parameterised byte templates.
use crate::block::{names_model, Block, BlockModel, MacroBlock};
use crate::error::{ErrorKind, EvaluationError, Fault};
use std::rc::Rc;
use vstd::prelude::*;

verus! {

/// What a `@define` header and its body say: shared by every expansion of it.
pub struct Definition {
    pub name: String,
    pub parameters: Vec<String>,
    pub blocks: Vec<Block>,
}

/// A `@define` block.
pub struct DefineBlock {
    pub line_number: usize,
    pub definition: Rc<Definition>,
}

/// The block that `@define` with `args` and `body` makes on line `line`: the
/// first argument names it, the others are its parameters.
pub open spec fn define_allocated(line: nat, args: Seq<Seq<char>>, body: Seq<BlockModel>) -> Result<
    BlockModel,
    (nat, Fault),
> {
    if args.len() == 0 {
        Err((line, Fault::MissingDefinitionName))
    } else {
        Ok(BlockModel::Define(line, args[0], args.drop_first(), body))
    }
}

impl MacroBlock for DefineBlock {
    open spec fn allocated(line: nat, args: Seq<Seq<char>>, body: Seq<BlockModel>) -> Result<
        BlockModel,
        (nat, Fault),
    > {
        define_allocated(line, args, body)
    }

    fn allocate(line_number: usize, args: Vec<String>, blocks: Vec<Block>) -> (r: Result<
        Block,
        EvaluationError,
    >) {
        let mut args = args;
        if args.len() < 1 {
            return Err(EvaluationError::new(line_number, ErrorKind::MissingDefinitionName));
        }
        let ghost all = args@;
        let name = args.remove(0);
        assert(names_model(args@) =~= names_model(all).drop_first());
        let definition = Definition { name, parameters: args, blocks };
        Ok(Block::Define(DefineBlock { line_number, definition: Rc::new(definition) }))
    }
}

} // verus!
