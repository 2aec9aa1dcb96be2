//! The block builder: lines of a script to a forest of blocks.
//!
//! A block's body is the run of following lines one level deeper; a line at
//! the block's own level, or shallower, ends it. `@assembly` bodies are taken
//! verbatim and handed to the assembler collaborator, whose results come in as
//! `assembled`, one for each `@assembly` block in document order: where one is
//! still missing, parsing stops and asks for it ([`ParseOutcome::NeedsAssembly`]).
pub mod cursor;
pub mod indentation;

use crate::block::bytes::parser::{index_of, line_items, space_end};
use crate::block::define::{define_allocated, DefineBlock};
use crate::block::repeat::{repeat_allocated, RepeatBlock};
use crate::block::assembly::AssemblyBlock;
use crate::block::bytes::BytesBlock;
use crate::block::{block_model, blocks_model, Block, BlockModel, MacroBlock};
use crate::error::{AnonymousEvaluationError, ErrorKind, EvaluationError, Fault};
use crate::evaluator::expansion::copy_bytes;
use crate::parser::cursor::{lines_model, strings_model, ParserCursor};
use crate::parser::indentation::{
    level_under, trimmed, unit_update, Indentation, ParserIndentation,
};
use crate::text::{ascii_space, is_ascii_space, is_unicode_space, string_of, unicode_space};
use vstd::prelude::*;

verus! {

/// What the parser reads: the lines, whether reading failed after the last of
/// them, and the machine code of the `@assembly` blocks assembled so far.
pub struct Source {
    pub lines: Seq<Seq<char>>,
    pub read_failed: bool,
    pub assembled: Seq<Seq<u8>>,
}

/// Why parsing stopped short of a forest of blocks.
pub enum StopModel {
    /// An error, with its line.
    Failed(nat, Fault),
    /// The `@assembly` block on the given line needs its source assembled.
    NeedsAssembly(nat, Seq<char>),
}

/// Why parsing stopped short of a forest of blocks.
pub enum ParseStop {
    Failed(EvaluationError),
    NeedsAssembly(usize, String),
}

impl View for ParseStop {
    type V = StopModel;

    open spec fn view(&self) -> StopModel {
        match self {
            ParseStop::Failed(e) => StopModel::Failed(e.line as nat, e.what@),
            ParseStop::NeedsAssembly(line, source) => StopModel::NeedsAssembly(
                *line as nat,
                source@,
            ),
        }
    }
}

/// The result of parsing a script.
pub enum ParseOutcome {
    /// The whole script, as blocks.
    Parsed(Vec<Block>),
    /// The `@assembly` block on this line needs this source assembled: parse
    /// again with its machine code added to `assembled`.
    NeedsAssembly(usize, String),
    /// The first error in the script.
    Failed(EvaluationError),
}

/// The model of a [`ParseOutcome`].
pub enum OutcomeModel {
    Parsed(Seq<BlockModel>),
    NeedsAssembly(nat, Seq<char>),
    Failed(nat, Fault),
}

/// The indentation unit once lines `0..i` have been seen.
pub open spec fn unit_before(lines: Seq<Seq<char>>, i: int) -> Option<Indentation>
    decreases i,
{
    if i <= 0 || i > lines.len() {
        None
    } else {
        unit_update(unit_before(lines, i - 1), lines[i - 1])
    }
}

/// The level of line `pos`.
pub open spec fn level_of(lines: Seq<Seq<char>>, pos: int) -> Result<nat, Fault> {
    level_under(unit_before(lines, pos + 1), lines[pos])
}

/// The first position from `p` on that holds no Unicode whitespace.
pub open spec fn lead_end(s: Seq<char>, p: int) -> int
    decreases s.len() - p,
{
    if p < 0 || p >= s.len() || !is_unicode_space(s[p]) {
        p
    } else {
        lead_end(s, p + 1)
    }
}

/// The end of `s[..e]` without its trailing Unicode whitespace.
pub open spec fn trail_start(s: Seq<char>, e: int) -> int
    decreases e,
{
    if e <= 0 || e > s.len() || !is_unicode_space(s[e - 1]) {
        e
    } else {
        trail_start(s, e - 1)
    }
}

/// `s` without leading and trailing Unicode whitespace.
pub open spec fn trim_ws(s: Seq<char>) -> Seq<char> {
    let a = lead_end(s, 0);
    let b = trail_start(s, s.len() as int);
    if 0 <= a < b <= s.len() {
        s.subrange(a, b)
    } else {
        Seq::empty()
    }
}

/// The first position from `p` on that holds ASCII whitespace, or the end.
pub open spec fn word_end(s: Seq<char>, p: int) -> int
    decreases s.len() - p,
{
    if p < 0 || p >= s.len() || is_ascii_space(s[p]) {
        p
    } else {
        word_end(s, p + 1)
    }
}

/// The words of `s` from `p` on, separated by ASCII whitespace.
pub open spec fn words_from(s: Seq<char>, p: int) -> Seq<Seq<char>>
    decreases s.len() - p,
{
    let a = space_end(s, p);
    if a < p || a >= s.len() {
        Seq::empty()
    } else {
        let b = word_end(s, a);
        if b <= a || b > s.len() {
            Seq::empty()
        } else {
            seq![s.subrange(a, b)] + words_from(s, b)
        }
    }
}

/// The words of a macro line, up to a `#` comment.
pub open spec fn macro_words(text: Seq<char>) -> Seq<Seq<char>> {
    let t = match index_of(text, '#', 0) {
        Some(k) => text.subrange(0, k),
        None => text,
    };
    words_from(t, 0)
}

/// Lines, each followed by a newline.
pub open spec fn join_lines(ls: Seq<Seq<char>>) -> Seq<char>
    decreases ls.len(),
{
    if ls.len() == 0 {
        Seq::empty()
    } else {
        join_lines(ls.drop_last()) + ls.last() + seq!['\n']
    }
}

pub open spec fn prepend_block(
    b: BlockModel,
    r: Result<(Seq<BlockModel>, int, nat), StopModel>,
) -> Result<(Seq<BlockModel>, int, nat), StopModel> {
    match r {
        Ok((bs, p, u)) => Ok((seq![b] + bs, p, u)),
        Err(e) => Err(e),
    }
}

pub open spec fn prepend_blocks(
    a: Seq<BlockModel>,
    r: Result<(Seq<BlockModel>, int, nat), StopModel>,
) -> Result<(Seq<BlockModel>, int, nat), StopModel> {
    match r {
        Ok((bs, p, u)) => Ok((a + bs, p, u)),
        Err(e) => Err(e),
    }
}

pub open spec fn prepend_line(
    l: Seq<char>,
    r: Result<(Seq<Seq<char>>, int), StopModel>,
) -> Result<(Seq<Seq<char>>, int), StopModel> {
    match r {
        Ok((ls, p)) => Ok((seq![l] + ls, p)),
        Err(e) => Err(e),
    }
}

/// The past-the-end answer: nothing more, or the read error.
pub open spec fn at_end<T>(src: Source, pos: int, done: T) -> Result<T, StopModel> {
    if src.read_failed {
        Err(StopModel::Failed(pos as nat, Fault::ReadFailure))
    } else {
        Ok(done)
    }
}

/// The blocks at `level` from line `pos` on, the line where they end and the
/// number of assembled codes used by then.
pub open spec fn parse_seq(src: Source, pos: int, used: nat, level: nat) -> Result<
    (Seq<BlockModel>, int, nat),
    StopModel,
>
    decreases src.lines.len() - pos, 1int,
{
    if pos < 0 || pos >= src.lines.len() {
        at_end(src, pos, (Seq::empty(), pos, used))
    } else {
        match level_of(src.lines, pos) {
            Err(f) => Err(StopModel::Failed((pos + 1) as nat, f)),
            Ok(l) => if l > level {
                Err(StopModel::Failed((pos + 1) as nat, Fault::UnexpectedIndentation))
            } else if l < level {
                Ok((Seq::empty(), pos, used))
            } else {
                match parse_line(src, pos, used, level) {
                    Err(e) => Err(e),
                    Ok((b, next, used_next)) => if pos < next <= src.lines.len() {
                        prepend_block(b, parse_seq(src, next, used_next, level))
                    } else {
                        Err(StopModel::Failed((pos + 1) as nat, Fault::UnexpectedIndentation))
                    },
                }
            },
        }
    }
}

/// The block that starts on line `pos`, which is at `level`.
pub open spec fn parse_line(src: Source, pos: int, used: nat, level: nat) -> Result<
    (BlockModel, int, nat),
    StopModel,
>
    decreases src.lines.len() - pos, 0int,
{
    let n = (pos + 1) as nat;
    if pos < 0 || pos >= src.lines.len() {
        at_end(src, pos, (BlockModel::Bytes(n, Seq::empty()), pos, used))
    } else {
    let text = trim_ws(src.lines[pos]);
    if text.len() > 0 && text[0] == '@' {
        let words = macro_words(text);
        if words.len() == 0 {
            Err(StopModel::Failed(n, Fault::MissingCommand))
        } else {
            let command = words[0];
            let args = words.drop_first();
            if command == "@repeat"@ || command == "@define"@ {
                match parse_seq(src, pos + 1, used, level + 1) {
                    Err(e) => Err(e),
                    Ok((body, next, used_next)) => {
                        let made = if command == "@repeat"@ {
                            repeat_allocated(n, args, body)
                        } else {
                            define_allocated(n, args, body)
                        };
                        match made {
                            Err((line, f)) => Err(StopModel::Failed(line, f)),
                            Ok(b) => Ok((b, next, used_next)),
                        }
                    },
                }
            } else if command == "@assembly"@ {
                match raw_lines(src, pos + 1, level + 1) {
                    Err(e) => Err(e),
                    Ok((ls, next)) => if used < src.assembled.len() {
                        Ok((BlockModel::Assembly(n, src.assembled[used as int]), next, used + 1))
                    } else {
                        Err(StopModel::NeedsAssembly(n, join_lines(ls)))
                    },
                }
            } else {
                Err(StopModel::Failed(n, Fault::UnknownMacro(command)))
            }
        }
    } else {
        match line_items(text) {
            Err(f) => Err(StopModel::Failed(n, f)),
            Ok(items) => Ok((BlockModel::Bytes(n, items), pos + 1, used)),
        }
    }
    }
}

/// The verbatim lines at `level` or deeper from line `pos` on, without their
/// first `level` units of indentation, and the line where they end.
pub open spec fn raw_lines(src: Source, pos: int, level: nat) -> Result<
    (Seq<Seq<char>>, int),
    StopModel,
>
    decreases src.lines.len() - pos,
{
    if pos < 0 || pos >= src.lines.len() {
        at_end(src, pos, (Seq::empty(), pos))
    } else {
        match level_of(src.lines, pos) {
            Err(f) => Err(StopModel::Failed((pos + 1) as nat, f)),
            Ok(l) => if l >= level {
                prepend_line(
                    trimmed(unit_before(src.lines, pos + 1), src.lines[pos], level),
                    raw_lines(src, pos + 1, level),
                )
            } else {
                Ok((Seq::empty(), pos))
            },
        }
    }
}

/// What parsing a whole script gives.
pub open spec fn parse_script(src: Source) -> OutcomeModel {
    match parse_seq(src, 0, 0, 0) {
        Ok((blocks, _, _)) => OutcomeModel::Parsed(blocks),
        Err(StopModel::Failed(line, f)) => OutcomeModel::Failed(line, f),
        Err(StopModel::NeedsAssembly(line, source)) => OutcomeModel::NeedsAssembly(line, source),
    }
}

pub open spec fn outcome_model(o: ParseOutcome) -> OutcomeModel {
    match o {
        ParseOutcome::Parsed(bs) => OutcomeModel::Parsed(blocks_model(bs@)),
        ParseOutcome::NeedsAssembly(line, source) => OutcomeModel::NeedsAssembly(
            line as nat,
            source@,
        ),
        ParseOutcome::Failed(e) => OutcomeModel::Failed(e.line as nat, e.what@),
    }
}

/// The state of the block builder.
pub struct Parser {
    pub cursor: ParserCursor,
    pub indentation: ParserIndentation,
    pub used: usize,
}

impl Parser {
    /// The lines and the assembled codes as the parser reads them.
    pub open spec fn source(&self, assembled: Seq<Vec<u8>>) -> Source {
        Source {
            lines: lines_model(self.cursor.lines@),
            read_failed: self.cursor.read_failed,
            assembled: assembled.map_values(|b: Vec<u8>| b@),
        }
    }

    /// The unit is what the lines before the current one fix, or also the
    /// current one once it has been looked at.
    pub open spec fn inv(&self) -> bool {
        let lines = lines_model(self.cursor.lines@);
        let pos = self.cursor.position as int;
        &&& pos <= lines.len()
        &&& (self.indentation.indentation == unit_before(lines, pos) || (pos < lines.len()
            && self.indentation.indentation == unit_before(lines, pos + 1)))
    }

    pub fn new(lines: &Vec<String>, read_failed: bool) -> (r: Self)
        ensures
            lines_model(r.cursor.lines@) == strings_model(lines@),
            r.cursor.read_failed == read_failed,
            r.cursor.position == 0,
            r.used == 0,
            r.inv(),
    {
        Parser {
            cursor: ParserCursor::new(lines, read_failed),
            indentation: ParserIndentation::new(),
            used: 0,
        }
    }
}

proof fn lemma_lines_model(lines: Seq<Vec<char>>)
    ensures
        lines_model(lines).len() == lines.len(),
        forall|i: int| 0 <= i < lines.len() ==> #[trigger] lines_model(lines)[i] == lines[i]@,
{
}

/// `line` without leading and trailing Unicode whitespace.
fn trim_line(line: &Vec<char>) -> (r: Vec<char>)
    ensures
        r@ == trim_ws(line@),
{
    let len = line.len();
    let mut a: usize = 0;
    while a < len && unicode_space(line[a])
        invariant
            a <= len == line@.len(),
            lead_end(line@, 0) == lead_end(line@, a as int),
        decreases len - a,
    {
        a += 1;
    }
    let mut b: usize = len;
    while b > 0 && unicode_space(line[b - 1])
        invariant
            b <= len == line@.len(),
            trail_start(line@, len as int) == trail_start(line@, b as int),
        decreases b,
    {
        b -= 1;
    }
    if a < b {
        crate::text::slice_chars(line, a, b)
    } else {
        Vec::new()
    }
}

/// The words of a macro line, up to a `#` comment.
pub fn tokenize_macro(line: &Vec<char>) -> (r: Vec<String>)
    ensures
        strings_model(r@) == macro_words(line@),
{
    let end: usize = match crate::block::bytes::parser::index_of_first(line, '#') {
        Some(k) => k,
        None => line.len(),
    };
    let t = crate::text::slice_chars(line, 0, end);
    proof {
        assert(t@ == match index_of(line@, '#', 0) {
            Some(k) => line@.subrange(0, k),
            None => line@,
        }) by {
            if index_of(line@, '#', 0) is None {
                assert(line@.subrange(0, line@.len() as int) =~= line@);
            }
        }
    }
    let mut words: Vec<String> = Vec::new();
    let mut p: usize = 0;
    assert(strings_model(words@) =~= Seq::<Seq<char>>::empty());
    loop
        invariant
            p <= t@.len(),
            macro_words(line@) == strings_model(words@) + words_from(t@, p as int),
        decreases t@.len() - p,
    {
        let a = crate::block::bytes::parser::skip_spaces(&t, p);
        if a >= t.len() {
            assert(strings_model(words@) + Seq::<Seq<char>>::empty() =~= strings_model(words@));
            return words;
        }
        let mut b: usize = a;
        while b < t.len() && !ascii_space(t[b])
            invariant
                a <= b <= t@.len(),
                word_end(t@, a as int) == word_end(t@, b as int),
            decreases t@.len() - b,
        {
            b += 1;
        }
        assert(word_end(t@, b as int) == b);
        let ghost before = strings_model(words@);
        words.push(string_of(&t, a, b));
        assert(strings_model(words@) =~= before.push(t@.subrange(a as int, b as int)));
        assert(before + (seq![t@.subrange(a as int, b as int)] + words_from(t@, b as int))
            =~= strings_model(words@) + words_from(t@, b as int));
        p = b;
    }
}

fn join_source(ls: &Vec<Vec<char>>) -> (r: String)
    ensures
        r@ == join_lines(lines_model(ls@)),
{
    let mut all: Vec<char> = Vec::new();
    let mut i: usize = 0;
    proof {
        lemma_lines_model(ls@);
    }
    while i < ls.len()
        invariant
            i <= ls@.len(),
            lines_model(ls@).len() == ls@.len(),
            forall|j: int| 0 <= j < ls@.len() ==> #[trigger] lines_model(ls@)[j] == ls@[j]@,
            all@ == join_lines(lines_model(ls@).subrange(0, i as int)),
        decreases ls@.len() - i,
    {
        let line = &ls[i];
        let mut k: usize = 0;
        let ghost start = all@;
        while k < line.len()
            invariant
                k <= line@.len(),
                all@ == start + line@.subrange(0, k as int),
            decreases line@.len() - k,
        {
            all.push(line[k]);
            k += 1;
            assert(all@ =~= start + line@.subrange(0, k as int));
        }
        all.push('\n');
        proof {
            let s = lines_model(ls@).subrange(0, i + 1);
            assert(s.drop_last() =~= lines_model(ls@).subrange(0, i as int));
            assert(line@.subrange(0, line@.len() as int) =~= line@);
            assert(all@ =~= join_lines(s));
        }
        i += 1;
    }
    assert(lines_model(ls@).subrange(0, ls@.len() as int) =~= lines_model(ls@));
    string_of(&all, 0, all.len())
}

fn failed(line: usize, e: AnonymousEvaluationError) -> (r: ParseStop)
    ensures
        r@ == StopModel::Failed(line as nat, e@),
{
    ParseStop::Failed(e.at(line))
}

/// Whether `s` is the text `t`.
fn same_text(s: &String, t: &str) -> (r: bool)
    ensures
        r == (s@ == t@),
{
    let other = String::from_str(t);
    *s == other
}

/// The blocks at `level` from the current line on, as [`parse_seq`] says.
fn parse_level(p: &mut Parser, assembled: &Vec<Vec<u8>>, level: usize) -> (r: Result<
    Vec<Block>,
    ParseStop,
>)
    requires
        old(p).inv(),
        level <= old(p).cursor.position,
    ensures
        final(p).inv(),
        final(p).cursor.lines == old(p).cursor.lines,
        final(p).cursor.read_failed == old(p).cursor.read_failed,
        old(p).cursor.position <= final(p).cursor.position,
        match r {
            Ok(bs) => parse_seq(
                old(p).source(assembled@),
                old(p).cursor.position as int,
                old(p).used as nat,
                level as nat,
            ) == Ok::<(Seq<BlockModel>, int, nat), StopModel>(
                (blocks_model(bs@), final(p).cursor.position as int, final(p).used as nat),
            ),
            Err(e) => parse_seq(
                old(p).source(assembled@),
                old(p).cursor.position as int,
                old(p).used as nat,
                level as nat,
            ) == Err::<(Seq<BlockModel>, int, nat), StopModel>(e@),
        },
    decreases old(p).cursor.lines@.len() - old(p).cursor.position, 1int,
{
    let ghost src = p.source(assembled@);
    let ghost pos0 = p.cursor.position as int;
    let ghost used0 = p.used as nat;
    let mut result: Vec<Block> = Vec::new();
    proof {
        lemma_lines_model(p.cursor.lines@);
        assert(blocks_model(result@) =~= Seq::<BlockModel>::empty());
        assert(Seq::<BlockModel>::empty() + Seq::<BlockModel>::empty() =~= Seq::<BlockModel>::empty());
    }
    loop
        invariant
            p.inv(),
            src == p.source(assembled@),
            src == old(p).source(assembled@),
            p.cursor.lines == old(p).cursor.lines,
            p.cursor.read_failed == old(p).cursor.read_failed,
            pos0 == old(p).cursor.position,
            used0 == old(p).used,
            lines_model(p.cursor.lines@).len() == p.cursor.lines@.len(),
            forall|j: int| 0 <= j < p.cursor.lines@.len() ==> #[trigger] lines_model(p.cursor.lines@)[j] == p.cursor.lines@[j]@,
            pos0 <= p.cursor.position,
            level <= p.cursor.position,
            parse_seq(src, pos0, used0, level as nat) == prepend_blocks(
                blocks_model(result@),
                parse_seq(src, p.cursor.position as int, p.used as nat, level as nat),
            ),
        decreases p.cursor.lines@.len() - p.cursor.position,
    {
        let ghost pos = p.cursor.position as int;
        match p.cursor.has_line() {
            Err(e) => {
                return Err(ParseStop::Failed(e));
            },
            Ok(false) => {
                assert(blocks_model(result@) + Seq::<BlockModel>::empty() =~= blocks_model(result@));
                return Ok(result);
            },
            Ok(true) => {},
        }
        let line_number = p.cursor.get_line_number();
        let at_level = match p.indentation.eq(p.cursor.get_line(), level) {
            Ok(b) => b,
            Err(e) => {
                return Err(failed(line_number, e));
            },
        };
        proof {
            assert(p.indentation.indentation == unit_before(src.lines, pos + 1));
        }
        if !at_level {
            assert(blocks_model(result@) + Seq::<BlockModel>::empty() =~= blocks_model(result@));
            return Ok(result);
        }
        let block = match parse_line_at(p, assembled, level) {
            Ok(b) => b,
            Err(e) => {
                return Err(e);
            },
        };
        let ghost before = result@;
        result.push(block);
        proof {
            assert(result@.drop_last() =~= before);
            let rest = parse_seq(src, p.cursor.position as int, p.used as nat, level as nat);
            match rest {
                Ok((bs, q, u)) => {
                    assert(blocks_model(before) + (seq![block_model(block)] + bs) =~= blocks_model(
                        result@,
                    ) + bs);
                },
                Err(_) => {},
            }
        }
    }
}

/// The block on the current line, which is at `level`, as [`parse_line`] says.
fn parse_line_at(p: &mut Parser, assembled: &Vec<Vec<u8>>, level: usize) -> (r: Result<
    Block,
    ParseStop,
>)
    requires
        old(p).inv(),
        old(p).cursor.position < old(p).cursor.lines@.len(),
        old(p).indentation.indentation == unit_before(
            lines_model(old(p).cursor.lines@),
            old(p).cursor.position + 1,
        ),
        level <= old(p).cursor.position,
    ensures
        final(p).inv(),
        final(p).cursor.lines == old(p).cursor.lines,
        final(p).cursor.read_failed == old(p).cursor.read_failed,
        old(p).cursor.position < final(p).cursor.position,
        match r {
            Ok(b) => parse_line(
                old(p).source(assembled@),
                old(p).cursor.position as int,
                old(p).used as nat,
                level as nat,
            ) == Ok::<(BlockModel, int, nat), StopModel>(
                (block_model(b), final(p).cursor.position as int, final(p).used as nat),
            ),
            Err(e) => parse_line(
                old(p).source(assembled@),
                old(p).cursor.position as int,
                old(p).used as nat,
                level as nat,
            ) == Err::<(BlockModel, int, nat), StopModel>(e@),
        },
    decreases old(p).cursor.lines@.len() - old(p).cursor.position, 0int,
{
    proof {
        lemma_lines_model(p.cursor.lines@);
    }
    let line_number = p.cursor.get_line_number();
    let text = trim_line(p.cursor.get_line());
    p.cursor.advance();
    if text.len() > 0 && text[0] == '@' {
        let mut words = tokenize_macro(&text);
        if words.len() == 0 {
            return Err(ParseStop::Failed(EvaluationError::new(line_number, ErrorKind::MissingCommand)));
        }
        let ghost all = strings_model(words@);
        let command = words.remove(0);
        assert(strings_model(words@) =~= all.drop_first());
        let repeat = same_text(&command, "@repeat");
        let define = same_text(&command, "@define");
        if repeat || define {
            let body = match parse_level(p, assembled, level + 1) {
                Ok(b) => b,
                Err(e) => {
                    return Err(e);
                },
            };
            let made = if repeat {
                RepeatBlock::allocate(line_number, words, body)
            } else {
                DefineBlock::allocate(line_number, words, body)
            };
            match made {
                Ok(b) => Ok(b),
                Err(e) => Err(ParseStop::Failed(e)),
            }
        } else if same_text(&command, "@assembly") {
            let lines = match raw_lines_at(p, assembled, level + 1) {
                Ok(ls) => ls,
                Err(e) => {
                    return Err(e);
                },
            };
            if p.used < assembled.len() {
                let compiled = copy_bytes(&assembled[p.used]);
                p.used = p.used + 1;
                Ok(Block::Assembly(AssemblyBlock { line_number, compiled }))
            } else {
                Err(ParseStop::NeedsAssembly(line_number, join_source(&lines)))
            }
        } else {
            Err(ParseStop::Failed(EvaluationError::new(line_number, ErrorKind::UnknownMacro(command))))
        }
    } else {
        let s = string_of(&text, 0, text.len());
        assert(text@.subrange(0, text@.len() as int) =~= text@);
        match BytesBlock::new(line_number, s) {
            Ok(b) => Ok(Block::Bytes(b)),
            Err(e) => Err(ParseStop::Failed(e)),
        }
    }
}

/// The verbatim lines at `level` or deeper, as [`raw_lines`] says.
fn raw_lines_at(p: &mut Parser, assembled: &Vec<Vec<u8>>, level: usize) -> (r: Result<Vec<Vec<char>>, ParseStop>)
    requires
        old(p).inv(),
    ensures
        final(p).inv(),
        final(p).cursor.lines == old(p).cursor.lines,
        final(p).cursor.read_failed == old(p).cursor.read_failed,
        final(p).used == old(p).used,
        old(p).cursor.position <= final(p).cursor.position,
        match r {
            Ok(ls) => raw_lines(
                old(p).source(assembled@),
                old(p).cursor.position as int,
                level as nat,
            ) == Ok::<(Seq<Seq<char>>, int), StopModel>(
                (lines_model(ls@), final(p).cursor.position as int),
            ),
            Err(e) => raw_lines(
                old(p).source(assembled@),
                old(p).cursor.position as int,
                level as nat,
            ) == Err::<(Seq<Seq<char>>, int), StopModel>(e@),
        },
{
    let ghost src = p.source(assembled@);
    let ghost pos0 = p.cursor.position as int;
    let mut result: Vec<Vec<char>> = Vec::new();
    proof {
        lemma_lines_model(p.cursor.lines@);
        assert(lines_model(result@) =~= Seq::<Seq<char>>::empty());
    }
    loop
        invariant
            p.inv(),
            src == p.source(assembled@),
            src == old(p).source(assembled@),
            pos0 == old(p).cursor.position,
            p.cursor.read_failed == old(p).cursor.read_failed,
            p.used == old(p).used,
            p.cursor.lines == old(p).cursor.lines,
            lines_model(p.cursor.lines@).len() == p.cursor.lines@.len(),
            forall|j: int| 0 <= j < p.cursor.lines@.len() ==> #[trigger] lines_model(p.cursor.lines@)[j] == p.cursor.lines@[j]@,
            pos0 <= p.cursor.position,
            raw_lines(src, pos0, level as nat) == prepend_lines(
                lines_model(result@),
                raw_lines(src, p.cursor.position as int, level as nat),
            ),
        decreases p.cursor.lines@.len() - p.cursor.position,
    {
        let ghost pos = p.cursor.position as int;
        match p.cursor.has_line() {
            Err(e) => {
                return Err(ParseStop::Failed(e));
            },
            Ok(false) => {
                assert(lines_model(result@) + Seq::<Seq<char>>::empty() =~= lines_model(result@));
                return Ok(result);
            },
            Ok(true) => {},
        }
        let line_number = p.cursor.get_line_number();
        let deep = match p.indentation.ge(p.cursor.get_line(), level) {
            Ok(b) => b,
            Err(e) => {
                return Err(failed(line_number, e));
            },
        };
        proof {
            assert(p.indentation.indentation == unit_before(src.lines, pos + 1));
        }
        if !deep {
            assert(lines_model(result@) + Seq::<Seq<char>>::empty() =~= lines_model(result@));
            return Ok(result);
        }
        let content = p.indentation.trim(p.cursor.get_line(), level);
        let ghost before = result@;
        result.push(content);
        p.cursor.advance();
        proof {
            assert(lines_model(result@) =~= lines_model(before).push(content@));
            let rest = raw_lines(src, p.cursor.position as int, level as nat);
            match rest {
                Ok((ls, q)) => {
                    assert(lines_model(before) + (seq![content@] + ls) =~= lines_model(result@)
                        + ls);
                },
                Err(_) => {},
            }
        }
    }
}

pub open spec fn prepend_lines(
    a: Seq<Seq<char>>,
    r: Result<(Seq<Seq<char>>, int), StopModel>,
) -> Result<(Seq<Seq<char>>, int), StopModel> {
    match r {
        Ok((ls, p)) => Ok((a + ls, p)),
        Err(e) => Err(e),
    }
}

/// Parses a script given as its lines. `read_failed` says that reading the
/// script stopped on an error after the last of `lines`; `assembled` holds the
/// machine code of the first `@assembly` blocks, in document order.
pub fn parse(lines: &Vec<String>, read_failed: bool, assembled: &Vec<Vec<u8>>) -> (r: ParseOutcome)
    ensures
        outcome_model(r) == parse_script(
            Source {
                lines: strings_model(lines@),
                read_failed,
                assembled: assembled@.map_values(|b: Vec<u8>| b@),
            },
        ),
{
    let mut parser = Parser::new(lines, read_failed);
    match parse_level(&mut parser, assembled, 0) {
        Ok(blocks) => ParseOutcome::Parsed(blocks),
        Err(ParseStop::Failed(e)) => ParseOutcome::Failed(e),
        Err(ParseStop::NeedsAssembly(line, source)) => ParseOutcome::NeedsAssembly(line, source),
    }
}

} // verus!
