//! Expansions: the values that names are bound to.
use crate::block::define::Definition;
use crate::block::{blocks_model, names_model, BlockModel};
use crate::error::{bytes_outcome, AnonymousEvaluationError, ErrorKind, Fault};
use std::rc::Rc;
use vstd::prelude::*;

verus! {

/// A name bound to literal bytes; it takes no arguments.
pub struct InlineExpansion {
    pub name: String,
    pub value: Vec<u8>,
}

/// A `@define`d macro, with the scope it was defined in.
pub struct DefineExpansion {
    pub definition: Rc<Definition>,
    pub scope: usize,
}

/// What a name is bound to.
pub enum Expansion {
    Inline(InlineExpansion),
    Define(DefineExpansion),
}

/// The mathematical model of an [`Expansion`].
pub enum ExpansionModel {
    /// The name and the bytes.
    Inline(Seq<char>, Seq<u8>),
    /// The name, the parameter names, the body and the defining scope.
    Define(Seq<char>, Seq<Seq<char>>, Seq<BlockModel>, nat),
}

pub open spec fn expansion_model(x: Expansion) -> ExpansionModel {
    match x {
        Expansion::Inline(i) => ExpansionModel::Inline(i.name@, i.value@),
        Expansion::Define(d) => ExpansionModel::Define(
            d.definition.name@,
            names_model(d.definition.parameters@),
            blocks_model(d.definition.blocks@),
            d.scope as nat,
        ),
    }
}

/// What an inline expansion gives for `argc` arguments.
pub open spec fn inline_expansion(name: Seq<char>, value: Seq<u8>, argc: nat) -> Result<
    Seq<u8>,
    Fault,
> {
    if argc == 0 {
        Ok(value)
    } else {
        Err(Fault::ArityMismatch(name, 0, argc))
    }
}

/// A copy of `v`.
pub fn copy_bytes(v: &Vec<u8>) -> (r: Vec<u8>)
    ensures
        r@ == v@,
{
    let mut r: Vec<u8> = Vec::new();
    let mut i: usize = 0;
    while i < v.len()
        invariant
            i <= v@.len(),
            r@ == v@.subrange(0, i as int),
        decreases v@.len() - i,
    {
        r.push(v[i]);
        i += 1;
        assert(r@ =~= v@.subrange(0, i as int));
    }
    assert(v@.subrange(0, v@.len() as int) =~= v@);
    r
}

/// Relies on `Rc::clone`: the new pointer refers to the same value.
#[verifier::external_body]
pub(crate) fn share_definition(d: &Rc<Definition>) -> (r: Rc<Definition>)
    ensures
        r == *d,
{
    Rc::clone(d)
}

impl InlineExpansion {
    pub fn new(name: String, value: Vec<u8>) -> (r: Self)
        ensures
            r.name == name,
            r.value == value,
    {
        Self { name, value }
    }

    /// The bound bytes; any argument is an arity error.
    pub fn expand(&self, args: &Vec<Vec<u8>>) -> (r: Result<Vec<u8>, AnonymousEvaluationError>)
        ensures
            bytes_outcome(r) == inline_expansion(self.name@, self.value@, args@.len()),
    {
        if args.len() != 0 {
            Err(
                AnonymousEvaluationError::new(
                    ErrorKind::ArityMismatch(self.name.clone(), 0, args.len()),
                ),
            )
        } else {
            Ok(copy_bytes(&self.value))
        }
    }
}

impl DefineExpansion {
    pub fn new(definition: Rc<Definition>, scope: usize) -> (r: Self)
        ensures
            r.definition == definition,
            r.scope == scope,
    {
        Self { definition, scope }
    }
}

impl Expansion {
    /// A copy of this expansion; a macro's definition is shared, not copied.
    pub fn duplicate(&self) -> (r: Expansion)
        ensures
            expansion_model(r) == expansion_model(*self),
    {
        match self {
            Expansion::Inline(i) => Expansion::Inline(
                InlineExpansion::new(i.name.clone(), copy_bytes(&i.value)),
            ),
            Expansion::Define(d) => Expansion::Define(
                DefineExpansion::new(share_definition(&d.definition), d.scope),
            ),
        }
    }
}

} // verus!
