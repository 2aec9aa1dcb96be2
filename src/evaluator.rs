//! The evaluator: walks blocks against a scope and produces bytes.
//!
//! Each call of a `@define`d macro evaluates its body in a fresh frame whose
//! parent is the frame the macro was defined in (lexical scoping); the frame,
//! and everything made while the call ran, is discarded when it returns.
//! Expansions nest at most [`MAX_EXPANSION_DEPTH`] deep, so that a macro that
//! calls itself ends in an error rather than in stack exhaustion. An error in a
//! macro's body is reported on the calling line, and carries the body's error
//! with its own line ([`Fault::InExpansion`]).
pub mod expansion;
pub mod scope;

use crate::block::bytes::parser::{groups_model, item_model, items_model, BytesItem, ItemModel};
use crate::block::define::Definition;
use crate::block::{block_model, blocks_model, names_model, Block, BlockModel};
use crate::error::{located_bytes_outcome, ErrorKind, EvaluationError, Fault};
use crate::evaluator::expansion::{
    copy_bytes, share_definition, inline_expansion, DefineExpansion, Expansion, ExpansionModel,
    InlineExpansion,
};
use crate::evaluator::scope::{
    extends, lemma_extends_refl, lemma_extends_trans, lemma_release_extension, lookup, option_nat,
    released, root_scope, with_binding, with_child, EvaluatorScope, ScopeModel,
};
use vstd::prelude::*;

verus! {

/// How deep expansions may nest.
pub const MAX_EXPANSION_DEPTH: usize = 256;

/// `out` with its bytes from `start` on reversed.
pub open spec fn reverse_from(out: Seq<u8>, start: nat) -> Seq<u8> {
    if start <= out.len() {
        out.subrange(0, start as int) + out.subrange(start as int, out.len() as int).reverse()
    } else {
        out
    }
}

/// `out` with the open flip region, if any, reversed.
pub open spec fn close_flip(out: Seq<u8>, flip: Option<nat>) -> Seq<u8> {
    match flip {
        Some(start) => reverse_from(out, start),
        None => out,
    }
}

/// `b`, `n` times over.
pub open spec fn repeat_bytes(b: Seq<u8>, n: nat) -> Seq<u8>
    decreases n,
{
    if n == 0 {
        Seq::empty()
    } else {
        repeat_bytes(b, (n - 1) as nat) + b
    }
}

/// Whether a macro with `params` parameters takes `argc` arguments: as many,
/// or none when it has exactly one.
pub open spec fn arity_ok(params: nat, argc: nat) -> bool {
    (params == 1 && argc == 0) || params == argc
}

/// The bindings of a call's frame: each parameter to its argument's bytes;
/// the single parameter of a call without arguments to no bytes.
pub open spec fn parameter_bindings(frame: nat, params: Seq<Seq<char>>, argv: Seq<Seq<u8>>) -> Seq<
    (nat, Seq<char>, ExpansionModel),
> {
    if params.len() == 1 && argv.len() == 0 {
        seq![(frame, params[0], ExpansionModel::Inline(params[0], Seq::empty()))]
    } else {
        Seq::new(params.len(), |i: int| (frame, params[i], ExpansionModel::Inline(params[i], argv[i])))
    }
}

/// The scope in which a call's body runs: a new frame under `captured`, with
/// the parameters bound in it.
pub open spec fn call_scope(
    s: ScopeModel,
    captured: nat,
    params: Seq<Seq<char>>,
    argv: Seq<Seq<u8>>,
) -> ScopeModel {
    ScopeModel {
        parents: s.parents.push(Some(captured)),
        bindings: s.bindings + parameter_bindings(s.parents.len(), params, argv),
    }
}

/// A call of a macro with `params` and `body`, defined in frame `captured`:
/// the body's bytes, evaluated in [`call_scope`]; the scope is then cut back.
pub open spec fn expand_define(
    s: ScopeModel,
    params: Seq<Seq<char>>,
    body: Seq<BlockModel>,
    captured: nat,
    argv: Seq<Seq<u8>>,
    depth: nat,
) -> Result<(Seq<u8>, ScopeModel), (nat, Fault)>
    decreases depth, 1int, body, 6int,
{
    match eval_blocks(call_scope(s, captured, params, argv), s.parents.len(), body, depth) {
        Err(e) => Err(e),
        Ok((out, s2)) => Ok((out, released(s2, s.parents.len(), s.bindings.len()))),
    }
}

/// The bytes of `blocks` evaluated in order in frame `f`, and the scope after.
pub open spec fn eval_blocks(s: ScopeModel, f: nat, blocks: Seq<BlockModel>, depth: nat) -> Result<
    (Seq<u8>, ScopeModel),
    (nat, Fault),
>
    decreases depth, 1int, blocks, 5int,
{
    blocks_run(s, f, Seq::empty(), blocks, depth)
}

pub open spec fn blocks_run(
    s: ScopeModel,
    f: nat,
    acc: Seq<u8>,
    blocks: Seq<BlockModel>,
    depth: nat,
) -> Result<(Seq<u8>, ScopeModel), (nat, Fault)>
    decreases depth, 1int, blocks, 4int,
{
    if blocks.len() == 0 {
        Ok((acc, s))
    } else {
        match eval_block(s, f, blocks[0], depth) {
            Err(e) => Err(e),
            Ok((out, s1)) => blocks_run(s1, f, acc + out, blocks.drop_first(), depth),
        }
    }
}

/// The bytes of one block evaluated in frame `f`, and the scope after.
pub open spec fn eval_block(s: ScopeModel, f: nat, b: BlockModel, depth: nat) -> Result<
    (Seq<u8>, ScopeModel),
    (nat, Fault),
>
    decreases depth, 1int, b, 3int,
{
    match b {
        BlockModel::Bytes(line, items) => eval_items(s, f, items, line, depth),
        BlockModel::Define(_, name, params, body) => Ok(
            (Seq::empty(), with_binding(s, f, name, ExpansionModel::Define(name, params, body, f))),
        ),
        BlockModel::Repeat(_, count, body) => match eval_blocks(s, f, body, depth) {
            Err(e) => Err(e),
            Ok((out, s1)) => Ok((repeat_bytes(out, count), s1)),
        },
        BlockModel::Assembly(_, code) => Ok((code, s)),
    }
}

/// The bytes of a line's items evaluated in frame `f`; errors without a line
/// get `line`.
pub open spec fn eval_items(
    s: ScopeModel,
    f: nat,
    items: Seq<ItemModel>,
    line: nat,
    depth: nat,
) -> Result<(Seq<u8>, ScopeModel), (nat, Fault)>
    decreases depth, 0int, items, 2int,
{
    items_run(s, f, Seq::empty(), None, items, line, depth)
}

pub open spec fn items_run(
    s: ScopeModel,
    f: nat,
    out: Seq<u8>,
    flip: Option<nat>,
    items: Seq<ItemModel>,
    line: nat,
    depth: nat,
) -> Result<(Seq<u8>, ScopeModel), (nat, Fault)>
    decreases depth, 0int, items, 1int,
{
    if items.len() == 0 {
        Ok((close_flip(out, flip), s))
    } else {
        match item_step(s, f, out, flip, items[0], line, depth) {
            Err(e) => Err(e),
            Ok((out1, flip1, s1)) => items_run(s1, f, out1, flip1, items.drop_first(), line, depth),
        }
    }
}

/// One item: the output so far, the open flip region and the scope after it.
pub open spec fn item_step(
    s: ScopeModel,
    f: nat,
    out: Seq<u8>,
    flip: Option<nat>,
    item: ItemModel,
    line: nat,
    depth: nat,
) -> Result<(Seq<u8>, Option<nat>, ScopeModel), (nat, Fault)>
    decreases depth, 0int, item, 0int,
{
    match item {
        ItemModel::Left => {
            let closed = close_flip(out, flip);
            Ok((closed, Some(closed.len()), s))
        },
        ItemModel::Right => Ok((close_flip(out, flip), None, s)),
        ItemModel::Literal(b) => Ok((out + b, flip, s)),
        ItemModel::Expansion(name, args) => match args_run(s, f, Seq::empty(), args, line, depth) {
            Err(e) => Err(e),
            Ok((argv, s1)) => match lookup(s1, f as int, name) {
                None => Err((line, Fault::UndefinedVariable(name))),
                Some(ExpansionModel::Inline(n, value)) => match inline_expansion(
                    n,
                    value,
                    argv.len(),
                ) {
                    Err(fault) => Err((line, fault)),
                    Ok(b) => Ok((out + b, flip, s1)),
                },
                Some(ExpansionModel::Define(n, params, body, captured)) => if !arity_ok(
                    params.len(),
                    argv.len(),
                ) {
                    Err((line, Fault::ArityMismatch(n, params.len(), argv.len())))
                } else if depth == 0 {
                    Err((line, Fault::ExpansionTooDeep(n)))
                } else {
                    match expand_define(s1, params, body, captured, argv, (depth - 1) as nat) {
                        Err((inner_line, fault)) => Err(
                            (line, Fault::InExpansion(inner_line, Box::new(fault))),
                        ),
                        Ok((b, s2)) => Ok((out + b, flip, s2)),
                    }
                },
            },
        },
    }
}

/// The bytes of each argument group, in order.
pub open spec fn args_run(
    s: ScopeModel,
    f: nat,
    acc: Seq<Seq<u8>>,
    args: Seq<Seq<ItemModel>>,
    line: nat,
    depth: nat,
) -> Result<(Seq<Seq<u8>>, ScopeModel), (nat, Fault)>
    decreases depth, 0int, args, 2int,
{
    if args.len() == 0 {
        Ok((acc, s))
    } else {
        match eval_items(s, f, args[0], line, depth) {
            Err(e) => Err(e),
            Ok((b, s1)) => args_run(s1, f, acc.push(b), args.drop_first(), line, depth),
        }
    }
}

/// The output of a whole script: its blocks evaluated in a fresh scope.
pub open spec fn script_bytes(blocks: Seq<BlockModel>) -> Result<Seq<u8>, (nat, Fault)> {
    match eval_blocks(root_scope(), 0, blocks, MAX_EXPANSION_DEPTH as nat) {
        Ok((out, _)) => Ok(out),
        Err(e) => Err(e),
    }
}

pub open spec fn run_outcome(r: Result<Vec<u8>, EvaluationError>, s: ScopeModel) -> Result<
    (Seq<u8>, ScopeModel),
    (nat, Fault),
> {
    match r {
        Ok(v) => Ok((v@, s)),
        Err(e) => Err(e@),
    }
}

proof fn lemma_items_model(s: Seq<BytesItem>)
    ensures
        items_model(s).len() == s.len(),
        forall|i: int| 0 <= i < s.len() ==> #[trigger] items_model(s)[i] == item_model(s[i]),
    decreases s.len(),
{
    if s.len() > 0 {
        lemma_items_model(s.drop_last());
    }
}

proof fn lemma_groups_model(s: Seq<Vec<BytesItem>>)
    ensures
        groups_model(s).len() == s.len(),
        forall|i: int| 0 <= i < s.len() ==> #[trigger] groups_model(s)[i] == items_model(s[i]@),
    decreases s.len(),
{
    if s.len() > 0 {
        lemma_groups_model(s.drop_last());
    }
}

proof fn lemma_blocks_model(s: Seq<Block>)
    ensures
        blocks_model(s).len() == s.len(),
        forall|i: int| 0 <= i < s.len() ==> #[trigger] blocks_model(s)[i] == block_model(s[i]),
    decreases s.len(),
{
    if s.len() > 0 {
        lemma_blocks_model(s.drop_last());
    }
}

/// Reverses the bytes of `vector` from `from` on.
pub fn reverse_tail(vector: &mut Vec<u8>, from: usize)
    ensures
        final(vector)@ == reverse_from(old(vector)@, from as nat),
{
    let len = vector.len();
    if from > len {
        return;
    }
    let mut result: Vec<u8> = Vec::new();
    let mut i: usize = 0;
    while i < from
        invariant
            from <= len == vector@.len(),
            i <= from,
            result@ == vector@.subrange(0, i as int),
        decreases from - i,
    {
        result.push(vector[i]);
        i += 1;
        assert(result@ =~= vector@.subrange(0, i as int));
    }
    let ghost tail = vector@.subrange(from as int, len as int);
    let mut k: usize = len;
    while k > from
        invariant
            from <= k <= len == vector@.len(),
            tail == vector@.subrange(from as int, len as int),
            result@ =~= vector@.subrange(0, from as int) + tail.reverse().subrange(
                0,
                (len - k) as int,
            ),
        decreases k,
    {
        result.push(vector[k - 1]);
        k -= 1;
        assert(result@ =~= vector@.subrange(0, from as int) + tail.reverse().subrange(
            0,
            (len - k) as int,
        ));
    }
    assert(tail.reverse().subrange(0, (len - from) as int) =~= tail.reverse());
    *vector = result;
}

/// Evaluates `blocks` in order in frame `f`.
fn run_blocks(scope: &mut EvaluatorScope, f: usize, blocks: &Vec<Block>, depth: usize) -> (r: Result<
    Vec<u8>,
    EvaluationError,
>)
    ensures
        run_outcome(r, final(scope)@) == eval_blocks(old(scope)@, f as nat, blocks_model(blocks@), depth as nat),
        extends(old(scope)@, final(scope)@),
    decreases depth, 1int, blocks@, 5int,
{
    proof {
        lemma_blocks_model(blocks@);
    }
    let ghost whole = blocks_model(blocks@);
    let mut out: Vec<u8> = Vec::new();
    let mut i: usize = 0;
    assert(whole.skip(0) =~= whole);
    assert(out@ =~= Seq::<u8>::empty());
    proof {
        lemma_extends_refl(old(scope)@);
    }
    while i < blocks.len()
        invariant
            i <= blocks@.len(),
            whole == blocks_model(blocks@),
            whole.len() == blocks@.len(),
            forall|j: int| 0 <= j < blocks@.len() ==> #[trigger] whole[j] == block_model(blocks@[j]),
            extends(old(scope)@, scope@),
            eval_blocks(old(scope)@, f as nat, whole, depth as nat) == blocks_run(
                scope@,
                f as nat,
                out@,
                whole.skip(i as int),
                depth as nat,
            ),
        decreases blocks@.len() - i,
    {
        assert(whole.skip(i as int)[0] == whole[i as int]);
        assert(whole.skip(i as int).drop_first() =~= whole.skip(i + 1));
        let ghost before = scope@;
        let res = run_block(scope, f, &blocks[i], depth);
        proof {
            lemma_extends_trans(old(scope)@, before, scope@);
        }
        let mut o = match res {
            Ok(o) => o,
            Err(e) => {
                return Err(e);
            },
        };
        out.append(&mut o);
        i += 1;
    }
    Ok(out)
}

/// Evaluates one block in frame `f`.
fn run_block(scope: &mut EvaluatorScope, f: usize, block: &Block, depth: usize) -> (r: Result<
    Vec<u8>,
    EvaluationError,
>)
    ensures
        run_outcome(r, final(scope)@) == eval_block(old(scope)@, f as nat, block_model(*block), depth as nat),
        extends(old(scope)@, final(scope)@),
    decreases depth, 1int, *block, 3int,
{
    proof {
        lemma_extends_refl(old(scope)@);
    }
    match block {
        Block::Bytes(x) => run_items(scope, f, &x.items, x.line_number, depth),
        Block::Define(x) => {
            let expansion = Expansion::Define(
                DefineExpansion::new(share_definition(&x.definition), f),
            );
            scope.set(f, &x.definition.name, expansion);
            Ok(Vec::new())
        },
        Block::Repeat(x) => {
            let body = match run_blocks(scope, f, &x.blocks, depth) {
                Ok(b) => b,
                Err(e) => {
                    return Err(e);
                },
            };
            let mut out: Vec<u8> = Vec::new();
            let mut k: usize = 0;
            while k < x.repeat_count
                invariant
                    k <= x.repeat_count,
                    out@ == repeat_bytes(body@, k as nat),
                decreases x.repeat_count - k,
            {
                let mut copy = copy_bytes(&body);
                out.append(&mut copy);
                k += 1;
            }
            Ok(out)
        },
        Block::Assembly(x) => Ok(copy_bytes(&x.compiled)),
    }
}

/// Evaluates a line's items in frame `f`.
fn run_items(
    scope: &mut EvaluatorScope,
    f: usize,
    items: &Vec<BytesItem>,
    line: usize,
    depth: usize,
) -> (r: Result<Vec<u8>, EvaluationError>)
    ensures
        run_outcome(r, final(scope)@) == eval_items(
            old(scope)@,
            f as nat,
            items_model(items@),
            line as nat,
            depth as nat,
        ),
        extends(old(scope)@, final(scope)@),
    decreases depth, 0int, items@, 2int,
{
    proof {
        lemma_items_model(items@);
    }
    let ghost whole = items_model(items@);
    let mut out: Vec<u8> = Vec::new();
    let mut flip: Option<usize> = None;
    let mut i: usize = 0;
    proof {
        lemma_extends_refl(old(scope)@);
    }
    assert(whole.skip(0) =~= whole);
    assert(out@ =~= Seq::<u8>::empty());
    while i < items.len()
        invariant
            i <= items@.len(),
            whole == items_model(items@),
            whole.len() == items@.len(),
            forall|j: int| 0 <= j < items@.len() ==> #[trigger] whole[j] == item_model(items@[j]),
            extends(old(scope)@, scope@),
            eval_items(old(scope)@, f as nat, whole, line as nat, depth as nat) == items_run(
                scope@,
                f as nat,
                out@,
                option_nat(flip),
                whole.skip(i as int),
                line as nat,
                depth as nat,
            ),
        decreases items@.len() - i,
    {
        assert(whole.skip(i as int)[0] == whole[i as int]);
        assert(whole.skip(i as int).drop_first() =~= whole.skip(i + 1));
        let ghost before = scope@;
        let res = run_step(scope, f, &mut out, &mut flip, &items[i], line, depth);
        proof {
            lemma_extends_trans(old(scope)@, before, scope@);
        }
        match res {
            Ok(()) => {},
            Err(e) => {
                return Err(e);
            },
        }
        i += 1;
    }
    if let Some(start) = flip {
        reverse_tail(&mut out, start);
    }
    Ok(out)
}

/// Evaluates one item, appending to `out` and moving the flip region.
fn run_step(
    scope: &mut EvaluatorScope,
    f: usize,
    out: &mut Vec<u8>,
    flip: &mut Option<usize>,
    item: &BytesItem,
    line: usize,
    depth: usize,
) -> (r: Result<(), EvaluationError>)
    ensures
        match r {
            Ok(_) => item_step(
                old(scope)@,
                f as nat,
                old(out)@,
                option_nat(*old(flip)),
                item_model(*item),
                line as nat,
                depth as nat,
            ) == Ok::<(Seq<u8>, Option<nat>, ScopeModel), (nat, Fault)>(
                (final(out)@, option_nat(*final(flip)), final(scope)@),
            ),
            Err(e) => item_step(
                old(scope)@,
                f as nat,
                old(out)@,
                option_nat(*old(flip)),
                item_model(*item),
                line as nat,
                depth as nat,
            ) == Err::<(Seq<u8>, Option<nat>, ScopeModel), (nat, Fault)>(e@),
        },
        extends(old(scope)@, final(scope)@),
    decreases depth, 0int, *item, 0int,
{
    proof {
        lemma_extends_refl(old(scope)@);
    }
    match item {
        BytesItem::Left => {
            if let Some(start) = *flip {
                reverse_tail(out, start);
            }
            *flip = Some(out.len());
            Ok(())
        },
        BytesItem::Right => {
            if let Some(start) = *flip {
                reverse_tail(out, start);
            }
            *flip = None;
            Ok(())
        },
        BytesItem::Literal(b) => {
            let mut copy = copy_bytes(b);
            out.append(&mut copy);
            Ok(())
        },
        BytesItem::Expansion(name, args) => {
            let argv = match run_args(scope, f, args, line, depth) {
                Ok(a) => a,
                Err(e) => {
                    return Err(e);
                },
            };
            let found = match scope.get(f, name) {
                Some(x) => x.duplicate(),
                None => {
                    return Err(EvaluationError::new(line, ErrorKind::UndefinedVariable(name.clone())));
                },
            };
            match found {
                Expansion::Inline(x) => {
                    let mut b = match x.expand(&argv) {
                        Ok(b) => b,
                        Err(e) => {
                            return Err(e.at(line));
                        },
                    };
                    out.append(&mut b);
                    Ok(())
                },
                Expansion::Define(x) => {
                    let definition: &Definition = &x.definition;
                    let params = definition.parameters.len();
                    let argc = argv.len();
                    if !((params == 1 && argc == 0) || params == argc) {
                        return Err(
                            EvaluationError::new(
                                line,
                                ErrorKind::ArityMismatch(definition.name.clone(), params, argc),
                            ),
                        );
                    }
                    if depth == 0 {
                        return Err(
                            EvaluationError::new(
                                line,
                                ErrorKind::ExpansionTooDeep(definition.name.clone()),
                            ),
                        );
                    }
                    let mut b = match run_call(scope, definition, x.scope, &argv, depth - 1) {
                        Ok(b) => b,
                        Err(e) => {
                            return Err(
                                EvaluationError::new(line, ErrorKind::InExpansion(Box::new(e))),
                            );
                        },
                    };
                    out.append(&mut b);
                    Ok(())
                },
            }
        },
    }
}

/// Evaluates each argument group in frame `f`.
fn run_args(
    scope: &mut EvaluatorScope,
    f: usize,
    args: &Vec<Vec<BytesItem>>,
    line: usize,
    depth: usize,
) -> (r: Result<Vec<Vec<u8>>, EvaluationError>)
    ensures
        match r {
            Ok(v) => args_run(old(scope)@, f as nat, Seq::empty(), groups_model(args@), line as nat, depth as nat)
                == Ok::<(Seq<Seq<u8>>, ScopeModel), (nat, Fault)>(
                (v@.map_values(|b: Vec<u8>| b@), final(scope)@),
            ),
            Err(e) => args_run(old(scope)@, f as nat, Seq::empty(), groups_model(args@), line as nat, depth as nat)
                == Err::<(Seq<Seq<u8>>, ScopeModel), (nat, Fault)>(e@),
        },
        extends(old(scope)@, final(scope)@),
    decreases depth, 0int, args@, 2int,
{
    proof {
        lemma_groups_model(args@);
    }
    let ghost whole = groups_model(args@);
    let mut argv: Vec<Vec<u8>> = Vec::new();
    let mut i: usize = 0;
    proof {
        lemma_extends_refl(old(scope)@);
    }
    assert(whole.skip(0) =~= whole);
    assert(argv@.map_values(|b: Vec<u8>| b@) =~= Seq::<Seq<u8>>::empty());
    while i < args.len()
        invariant
            i <= args@.len(),
            whole == groups_model(args@),
            whole.len() == args@.len(),
            forall|j: int| 0 <= j < args@.len() ==> #[trigger] whole[j] == items_model(args@[j]@),
            extends(old(scope)@, scope@),
            args_run(old(scope)@, f as nat, Seq::empty(), whole, line as nat, depth as nat)
                == args_run(
                scope@,
                f as nat,
                argv@.map_values(|b: Vec<u8>| b@),
                whole.skip(i as int),
                line as nat,
                depth as nat,
            ),
        decreases args@.len() - i,
    {
        assert(whole.skip(i as int)[0] == whole[i as int]);
        assert(whole.skip(i as int).drop_first() =~= whole.skip(i + 1));
        let ghost before = scope@;
        let res = run_items(scope, f, &args[i], line, depth);
        proof {
            lemma_extends_trans(old(scope)@, before, scope@);
        }
        let b = match res {
            Ok(b) => b,
            Err(e) => {
                return Err(e);
            },
        };
        let ghost before = argv@;
        argv.push(b);
        assert(argv@.map_values(|b: Vec<u8>| b@) =~= before.map_values(|b: Vec<u8>| b@).push(b@));
        i += 1;
    }
    Ok(argv)
}

/// Calls a macro: its body in a new frame under `captured`, with the
/// parameters bound; the frame is discarded afterwards.
fn run_call(
    scope: &mut EvaluatorScope,
    definition: &Definition,
    captured: usize,
    argv: &Vec<Vec<u8>>,
    depth: usize,
) -> (r: Result<Vec<u8>, EvaluationError>)
    requires
        arity_ok(definition.parameters@.len(), argv@.len()),
    ensures
        run_outcome(r, final(scope)@) == expand_define(
            old(scope)@,
            names_model(definition.parameters@),
            blocks_model(definition.blocks@),
            captured as nat,
            argv@.map_values(|b: Vec<u8>| b@),
            depth as nat,
        ),
        final(scope)@ == old(scope)@,
    decreases depth, 1int, definition.blocks@, 6int,
{
    let ghost params = names_model(definition.parameters@);
    let ghost values = argv@.map_values(|b: Vec<u8>| b@);
    let mark = scope.mark();
    let frame = scope.child(captured);
    let ghost start = scope@;
    let parameters = &definition.parameters;
    if parameters.len() == 1 && argv.len() == 0 {
        let name = &parameters[0];
        scope.set(frame, name, Expansion::Inline(InlineExpansion::new(name.clone(), Vec::new())));
        assert(scope@.bindings =~= start.bindings + parameter_bindings(frame as nat, params, values));
    } else {
        let mut i: usize = 0;
        while i < parameters.len()
            invariant
                i <= parameters@.len() == argv@.len(),
                params == names_model(parameters@),
                values == argv@.map_values(|b: Vec<u8>| b@),
                scope@.parents == start.parents,
                scope@.bindings =~= start.bindings + parameter_bindings(frame as nat, params, values).subrange(0, i as int),
                !(params.len() == 1 && values.len() == 0),
            decreases parameters@.len() - i,
        {
            let name = &parameters[i];
            let value = copy_bytes(&argv[i]);
            scope.set(frame, name, Expansion::Inline(InlineExpansion::new(name.clone(), value)));
            i += 1;
            assert(scope@.bindings =~= start.bindings + parameter_bindings(frame as nat, params, values).subrange(0, i as int));
        }
        assert(parameter_bindings(frame as nat, params, values).subrange(0, i as int) =~= parameter_bindings(frame as nat, params, values));
    }
    assert(scope@.parents =~= start.parents);
    proof {
        assert(scope@.parents.subrange(0, start.parents.len() as int) =~= start.parents);
        assert(scope@.bindings.subrange(0, start.bindings.len() as int) =~= start.bindings);
        lemma_extends_trans(old(scope)@, start, scope@);
    }
    let ghost before_body = scope@;
    let r = run_blocks(scope, frame, &definition.blocks, depth);
    proof {
        lemma_extends_trans(old(scope)@, before_body, scope@);
        lemma_release_extension(old(scope)@, scope@);
    }
    scope.release(mark);
    r
}

/// A run of blocks in a fresh frame under the root of `s`; the frame, and
/// what the blocks defined, is discarded afterwards.
pub open spec fn session_run(s: ScopeModel, blocks: Seq<BlockModel>) -> Result<
    (Seq<u8>, ScopeModel),
    (nat, Fault),
> {
    match eval_blocks(with_child(s, 0), s.parents.len(), blocks, MAX_EXPANSION_DEPTH as nat) {
        Ok((out, s2)) => Ok((out, released(s2, s.parents.len(), s.bindings.len()))),
        Err(e) => Err(e),
    }
}

/// An evaluator that keeps a root scope across runs.
pub struct Evaluator {
    pub scope: EvaluatorScope,
}

impl Evaluator {
    pub fn new() -> (r: Self)
        ensures
            r.scope@ == root_scope(),
    {
        Self { scope: EvaluatorScope::new() }
    }

    /// Evaluates `blocks` in a fresh frame under the root frame.
    pub fn evaluate(&mut self, blocks: &Vec<Block>) -> (r: Result<Vec<u8>, EvaluationError>)
        ensures
            run_outcome(r, final(self).scope@) == session_run(old(self).scope@, blocks_model(blocks@)),
            final(self).scope@ == old(self).scope@,
    {
        let mark = self.scope.mark();
        let frame = self.scope.child(0);
        let ghost before_body = self.scope@;
        let r = run_blocks(&mut self.scope, frame, blocks, MAX_EXPANSION_DEPTH);
        proof {
            lemma_extends_trans(old(self).scope@, before_body, self.scope@);
            lemma_release_extension(old(self).scope@, self.scope@);
        }
        self.scope.release(mark);
        r
    }
}

/// The bytes of a script: its blocks evaluated in a fresh scope.
pub fn evaluate(blocks: &Vec<Block>) -> (r: Result<Vec<u8>, EvaluationError>)
    ensures
        located_bytes_outcome(r) == script_bytes(blocks_model(blocks@)),
{
    let mut scope = EvaluatorScope::new();
    run_blocks(&mut scope, 0, blocks, MAX_EXPANSION_DEPTH)
}

} // verus!

verus! {

/// Calling a `@define`d macro with a number of arguments that it does not
/// take is a scope error at the calling line, naming the macro, the number of
/// its parameters and the number of arguments it got.
pub proof fn arity_mismatch_fails(
    s: ScopeModel,
    f: nat,
    out: Seq<u8>,
    flip: Option<nat>,
    name: Seq<char>,
    args: Seq<Seq<ItemModel>>,
    line: nat,
    depth: nat,
    argv: Seq<Seq<u8>>,
    s1: ScopeModel,
    macro_name: Seq<char>,
    params: Seq<Seq<char>>,
    body: Seq<BlockModel>,
    captured: nat,
)
    requires
        args_run(s, f, Seq::empty(), args, line, depth) == Ok::<
            (Seq<Seq<u8>>, ScopeModel),
            (nat, Fault),
        >((argv, s1)),
        lookup(s1, f as int, name) == Some(ExpansionModel::Define(macro_name, params, body, captured)),
        !arity_ok(params.len(), argv.len()),
    ensures
        item_step(s, f, out, flip, ItemModel::Expansion(name, args), line, depth) == Err::<
            (Seq<u8>, Option<nat>, ScopeModel),
            (nat, Fault),
        >((line, Fault::ArityMismatch(macro_name, params.len(), argv.len()))),
{
}

} // verus!

verus! {

/// An error in the body of a called macro is reported on the calling line,
/// and carries the line and the fault of the error in the body.
pub proof fn body_error_reported_at_call(
    s: ScopeModel,
    f: nat,
    out: Seq<u8>,
    flip: Option<nat>,
    name: Seq<char>,
    args: Seq<Seq<ItemModel>>,
    line: nat,
    depth: nat,
    argv: Seq<Seq<u8>>,
    s1: ScopeModel,
    macro_name: Seq<char>,
    params: Seq<Seq<char>>,
    body: Seq<BlockModel>,
    captured: nat,
    body_line: nat,
    fault: Fault,
)
    requires
        args_run(s, f, Seq::empty(), args, line, depth) == Ok::<
            (Seq<Seq<u8>>, ScopeModel),
            (nat, Fault),
        >((argv, s1)),
        lookup(s1, f as int, name) == Some(ExpansionModel::Define(macro_name, params, body, captured)),
        arity_ok(params.len(), argv.len()),
        depth > 0,
        expand_define(s1, params, body, captured, argv, (depth - 1) as nat) == Err::<
            (Seq<u8>, ScopeModel),
            (nat, Fault),
        >((body_line, fault)),
    ensures
        item_step(s, f, out, flip, ItemModel::Expansion(name, args), line, depth) == Err::<
            (Seq<u8>, Option<nat>, ScopeModel),
            (nat, Fault),
        >((line, Fault::InExpansion(body_line, Box::new(fault)))),
{
}

} // verus!
