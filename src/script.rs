//! The whole compiler: lines of a script to bytes.
use crate::block::BlockModel;
use crate::error::{EvaluationError, Fault};
use crate::evaluator::{evaluate, script_bytes};
use crate::parser::cursor::strings_model;
use crate::parser::indentation::{level_under, run_has, Indentation};
use crate::parser::{
    parse, parse_script, parse_seq, raw_lines, unit_before, OutcomeModel, ParseOutcome, Source,
    StopModel,
};
use vstd::prelude::*;

verus! {

/// The result of compiling a script.
#[derive(Debug)]
pub enum CompileOutcome {
    /// The bytes of the script.
    Bytes(Vec<u8>),
    /// The `@assembly` block on this line needs this source assembled first.
    NeedsAssembly(usize, String),
    /// The first error of the script.
    Failed(EvaluationError),
}

/// The model of a [`CompileOutcome`].
pub enum CompiledModel {
    Bytes(Seq<u8>),
    NeedsAssembly(nat, Seq<char>),
    Failed(nat, Fault),
}

pub open spec fn compile_model(o: CompileOutcome) -> CompiledModel {
    match o {
        CompileOutcome::Bytes(b) => CompiledModel::Bytes(b@),
        CompileOutcome::NeedsAssembly(line, source) => CompiledModel::NeedsAssembly(
            line as nat,
            source@,
        ),
        CompileOutcome::Failed(e) => CompiledModel::Failed(e.line as nat, e.what@),
    }
}

/// What compiling a script gives: its blocks, evaluated in a fresh scope.
pub open spec fn compiled(src: Source) -> CompiledModel {
    match parse_script(src) {
        OutcomeModel::Parsed(blocks) => match script_bytes(blocks) {
            Ok(out) => CompiledModel::Bytes(out),
            Err((line, f)) => CompiledModel::Failed(line, f),
        },
        OutcomeModel::NeedsAssembly(line, source) => CompiledModel::NeedsAssembly(line, source),
        OutcomeModel::Failed(line, f) => CompiledModel::Failed(line, f),
    }
}

/// What the compiler reads from its arguments.
pub open spec fn source_of(lines: Seq<String>, read_failed: bool, assembled: Seq<Vec<u8>>) -> Source {
    Source {
        lines: strings_model(lines),
        read_failed,
        assembled: assembled.map_values(|b: Vec<u8>| b@),
    }
}

/// Compiles a script given as its lines: parses it, then evaluates it.
/// `read_failed` says that reading stopped on an error after the last of
/// `lines`; `assembled` holds the machine code of the first `@assembly`
/// blocks, in document order.
pub fn compile(lines: &Vec<String>, read_failed: bool, assembled: &Vec<Vec<u8>>) -> (r: CompileOutcome)
    ensures
        compile_model(r) == compiled(source_of(lines@, read_failed, assembled@)),
{
    match parse(lines, read_failed, assembled) {
        ParseOutcome::Parsed(blocks) => match evaluate(&blocks) {
            Ok(out) => CompileOutcome::Bytes(out),
            Err(e) => CompileOutcome::Failed(e),
        },
        ParseOutcome::NeedsAssembly(line, source) => CompileOutcome::NeedsAssembly(line, source),
        ParseOutcome::Failed(e) => CompileOutcome::Failed(e),
    }
}

/// Compiling is deterministic: two compilations of the same script, with the
/// same assembled code, give the same outcome.
pub proof fn compile_is_deterministic(
    lines: Seq<String>,
    read_failed: bool,
    assembled: Seq<Vec<u8>>,
    first: CompileOutcome,
    second: CompileOutcome,
)
    requires
        compile_model(first) == compiled(source_of(lines, read_failed, assembled)),
        compile_model(second) == compiled(source_of(lines, read_failed, assembled)),
    ensures
        compile_model(first) == compile_model(second),
{
}

/// A line whose leading run mixes spaces and tabs, in either order, has no
/// level, whatever the indentation unit.
pub proof fn mixed_indentation_fails(unit: Option<Indentation>, line: Seq<char>)
    requires
        run_has(line, ' '),
        run_has(line, '\t'),
    ensures
        level_under(unit, line) == Err::<nat, Fault>(Fault::MixedIndentation),
{
}

/// Wherever the parser meets a line whose leading run mixes spaces and tabs,
/// in either order, as a line of a block or of an `@assembly` body, it stops
/// there with the mixed-indentation error.
pub proof fn mixed_line_stops_parsing(src: Source, pos: int, used: nat, level: nat)
    requires
        0 <= pos < src.lines.len(),
        run_has(src.lines[pos], ' '),
        run_has(src.lines[pos], '\t'),
    ensures
        parse_seq(src, pos, used, level) == Err::<(Seq<BlockModel>, int, nat), StopModel>(
            StopModel::Failed((pos + 1) as nat, Fault::MixedIndentation),
        ),
        raw_lines(src, pos, level) == Err::<(Seq<Seq<char>>, int), StopModel>(
            StopModel::Failed((pos + 1) as nat, Fault::MixedIndentation),
        ),
{
    mixed_indentation_fails(unit_before(src.lines, pos + 1), src.lines[pos]);
}

/// A script whose first line's leading run mixes spaces and tabs, in either
/// order, fails on that line with the mixed-indentation error.
pub proof fn mixed_first_line_fails(
    first: Seq<char>,
    rest: Seq<Seq<char>>,
    read_failed: bool,
    assembled: Seq<Seq<u8>>,
)
    requires
        run_has(first, ' '),
        run_has(first, '\t'),
    ensures
        parse_script(Source { lines: seq![first] + rest, read_failed, assembled })
            == OutcomeModel::Failed(1, Fault::MixedIndentation),
{
    let src = Source { lines: seq![first] + rest, read_failed, assembled };
    assert(src.lines[0] == first);
    assert(unit_before(src.lines, 0) == None::<Indentation>);
    mixed_indentation_fails(unit_before(src.lines, 1), first);
}

} // verus!
