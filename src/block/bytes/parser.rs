//! The byte-expression grammar: one line of items.
//!
//! Items are separated by ASCII whitespace, and `#` starts a comment that runs
//! to the end of the line:
//! - a number: a run of characters up to the next delimiter, read by
//!   [`decode_number`];
//! - a string: double-quoted, with the escapes `\\ \n \r \t \"`;
//! - `<` and `>`: the start and the end of a flip region;
//! - an expansion: `$name` followed by zero or more argument groups, each an
//!   item list in parentheses.
use crate::block::bytes::translate::{
    all_hex, is_hex_digit, number_bytes, number_bytes_of, number_integer, number_integer_of,
};
use crate::error::{bytes_outcome, AnonymousEvaluationError, ErrorKind, Fault};
use crate::text::{ascii_space, is_ascii_space, slice_chars, string_of};
use vstd::prelude::*;

verus! {

/// One item of a byte expression.
pub enum BytesItem {
    /// A call of the named expansion with its argument groups.
    Expansion(String, Vec<Vec<BytesItem>>),
    /// Bytes that stand for themselves.
    Literal(Vec<u8>),
    /// `<`: the start of a flip region.
    Left,
    /// `>`: the end of a flip region.
    Right,
}

/// The mathematical model of a [`BytesItem`].
pub enum ItemModel {
    Expansion(Seq<char>, Seq<Seq<ItemModel>>),
    Literal(Seq<u8>),
    Left,
    Right,
}

pub open spec fn item_model(it: BytesItem) -> ItemModel
    decreases it,
{
    match it {
        BytesItem::Expansion(name, args) => ItemModel::Expansion(name@, groups_model(args@)),
        BytesItem::Literal(b) => ItemModel::Literal(b@),
        BytesItem::Left => ItemModel::Left,
        BytesItem::Right => ItemModel::Right,
    }
}

pub open spec fn items_model(s: Seq<BytesItem>) -> Seq<ItemModel>
    decreases s,
{
    if s.len() == 0 {
        Seq::empty()
    } else {
        items_model(s.drop_last()).push(item_model(s.last()))
    }
}

pub open spec fn groups_model(s: Seq<Vec<BytesItem>>) -> Seq<Seq<ItemModel>>
    decreases s,
{
    if s.len() == 0 {
        Seq::empty()
    } else {
        groups_model(s.drop_last()).push(items_model(s.last()@))
    }
}

/// Characters that end a number.
pub open spec fn is_delimiter(c: char) -> bool {
    is_ascii_space(c) || c == '#' || c == '"' || c == '$' || c == '<' || c == '>' || c == '('
        || c == ')'
}

/// Characters of an expansion's name.
pub open spec fn is_name_char(c: char) -> bool {
    ('a' <= c && c <= 'z') || ('A' <= c && c <= 'Z') || ('0' <= c && c <= '9') || c == '_'
}

/// The first position from `p` on that holds a delimiter, or the end.
pub open spec fn token_end(s: Seq<char>, p: int) -> int
    decreases s.len() - p,
{
    if p < 0 || p >= s.len() || is_delimiter(s[p]) {
        p
    } else {
        token_end(s, p + 1)
    }
}

/// The first position from `p` on that holds no name character, or the end.
pub open spec fn name_end(s: Seq<char>, p: int) -> int
    decreases s.len() - p,
{
    if p < 0 || p >= s.len() || !is_name_char(s[p]) {
        p
    } else {
        name_end(s, p + 1)
    }
}

/// The first position from `p` on that holds no ASCII whitespace, or the end.
pub open spec fn space_end(s: Seq<char>, p: int) -> int
    decreases s.len() - p,
{
    if p < 0 || p >= s.len() || !is_ascii_space(s[p]) {
        p
    } else {
        space_end(s, p + 1)
    }
}

/// The first position from `p` on that holds `c`.
pub open spec fn index_of(s: Seq<char>, c: char, p: int) -> Option<int>
    decreases s.len() - p,
{
    if p < 0 || p >= s.len() {
        None
    } else if s[p] == c {
        Some(p)
    } else {
        index_of(s, c, p + 1)
    }
}

/// The character that an escape `\c` stands for.
pub open spec fn escape_of(c: char) -> Option<char> {
    if c == '\\' {
        Some('\\')
    } else if c == 'n' {
        Some('\n')
    } else if c == 'r' {
        Some('\r')
    } else if c == 't' {
        Some('\t')
    } else if c == '"' {
        Some('"')
    } else {
        None
    }
}

/// The contents of a string literal whose opening quote stands before `p`,
/// with its escapes resolved, and the position after its closing quote.
pub open spec fn string_from(s: Seq<char>, p: int) -> Result<(Seq<char>, int), Fault>
    decreases s.len() - p,
{
    if p < 0 || p >= s.len() {
        Err(Fault::UnterminatedString)
    } else if s[p] == '"' {
        Ok((Seq::empty(), p + 1))
    } else if s[p] == '\\' {
        if p + 1 >= s.len() {
            Err(Fault::UnterminatedString)
        } else {
            match escape_of(s[p + 1]) {
                None => Err(Fault::InvalidEscape(s[p + 1])),
                Some(e) => prepend_chars(seq![e], string_from(s, p + 2)),
            }
        }
    } else {
        prepend_chars(seq![s[p]], string_from(s, p + 1))
    }
}

pub open spec fn prepend_chars(a: Seq<char>, r: Result<(Seq<char>, int), Fault>) -> Result<
    (Seq<char>, int),
    Fault,
> {
    match r {
        Ok((t, q)) => Ok((a + t, q)),
        Err(f) => Err(f),
    }
}

/// The first position from `i` on of a character above 255.
pub open spec fn wide_from(t: Seq<char>, i: int) -> Option<nat>
    decreases t.len() - i,
{
    if i < 0 || i >= t.len() {
        None
    } else if t[i] as u32 > 255 {
        Some(i as nat)
    } else {
        wide_from(t, i + 1)
    }
}

/// The bytes of a string's characters: one for each, each at most 255.
#[verifier::opaque]
pub open spec fn string_bytes(t: Seq<char>) -> Result<Seq<u8>, Fault> {
    match wide_from(t, 0) {
        Some(column) => Err(Fault::InvalidCharacter(column)),
        None => Ok(Seq::new(t.len(), |i: int| t[i] as u32 as u8)),
    }
}

/// `b` cut or zero-padded to `size` bytes at its end: its leading bytes stay.
pub open spec fn anchored_left(b: Seq<u8>, size: nat) -> Seq<u8> {
    if b.len() >= size {
        b.subrange(0, size as int)
    } else {
        b + Seq::new((size - b.len()) as nat, |i: int| 0u8)
    }
}

/// `b` cut or zero-padded to `size` bytes at its front: its trailing bytes stay.
pub open spec fn anchored_right(b: Seq<u8>, size: nat) -> Seq<u8> {
    if b.len() >= size {
        b.subrange(b.len() - size, b.len() as int)
    } else {
        Seq::new((size - b.len()) as nat, |i: int| 0u8) + b
    }
}

/// The bytes of a number item: `[size]VALUE` keeps the trailing bytes of a
/// leniently read value, `VALUE[size]` its leading bytes, and a bare value is
/// read strictly.
#[verifier::opaque]
pub open spec fn number_item(s: Seq<char>) -> Result<Seq<u8>, Fault> {
    if s.len() > 0 && s[0] == '[' {
        match index_of(s, ']', 0) {
            None => Err(Fault::InvalidPadding(s)),
            Some(k) => match number_integer(s.subrange(1, k)) {
                Err(f) => Err(f),
                Ok(size) => match number_bytes(s.subrange(k + 1, s.len() as int), false) {
                    Err(f) => Err(f),
                    Ok(b) => Ok(anchored_right(b, size)),
                },
            },
        }
    } else if s.len() > 0 && s.last() == ']' {
        match index_of(s, '[', 0) {
            None => Err(Fault::InvalidPadding(s)),
            Some(k) => match number_integer(s.subrange(k + 1, s.len() - 1)) {
                Err(f) => Err(f),
                Ok(size) => match number_bytes(s.subrange(0, k), false) {
                    Err(f) => Err(f),
                    Ok(b) => Ok(anchored_left(b, size)),
                },
            },
        }
    } else {
        number_bytes(s, true)
    }
}

pub open spec fn prepend_item(x: ItemModel, r: Result<(Seq<ItemModel>, int), Fault>) -> Result<
    (Seq<ItemModel>, int),
    Fault,
> {
    match r {
        Ok((v, q)) => Ok((seq![x] + v, q)),
        Err(f) => Err(f),
    }
}

pub open spec fn prepend_items(a: Seq<ItemModel>, r: Result<(Seq<ItemModel>, int), Fault>) -> Result<
    (Seq<ItemModel>, int),
    Fault,
> {
    match r {
        Ok((v, q)) => Ok((a + v, q)),
        Err(f) => Err(f),
    }
}

pub open spec fn prepend_groups(
    a: Seq<Seq<ItemModel>>,
    r: Result<(Seq<Seq<ItemModel>>, int), Fault>,
) -> Result<(Seq<Seq<ItemModel>>, int), Fault> {
    match r {
        Ok((v, q)) => Ok((a + v, q)),
        Err(f) => Err(f),
    }
}

pub open spec fn advances(s: Seq<char>, p: int, q: int) -> bool {
    p < q <= s.len()
}

/// The items from position `pos` on, and the position where they end. Inside
/// an argument group (`nested`) they end after the closing parenthesis, and
/// the end of the line before it is an error; outside they end with the line.
pub open spec fn items_from(s: Seq<char>, pos: int, nested: bool) -> Result<
    (Seq<ItemModel>, int),
    Fault,
>
    decreases s.len() - pos, 2int,
{
    if pos < 0 || pos >= s.len() {
        if nested {
            Err(Fault::UnterminatedArguments)
        } else {
            Ok((Seq::empty(), s.len() as int))
        }
    } else {
        let c = s[pos];
        if is_ascii_space(c) {
            items_from(s, pos + 1, nested)
        } else if c == '#' {
            if nested {
                Err(Fault::UnterminatedArguments)
            } else {
                Ok((Seq::empty(), s.len() as int))
            }
        } else if c == ')' {
            if nested {
                Ok((Seq::empty(), pos + 1))
            } else {
                Err(Fault::UnexpectedCharacter(c))
            }
        } else if c == '(' {
            Err(Fault::UnexpectedCharacter(c))
        } else if c == '<' {
            prepend_item(ItemModel::Left, items_from(s, pos + 1, nested))
        } else if c == '>' {
            prepend_item(ItemModel::Right, items_from(s, pos + 1, nested))
        } else if c == '"' {
            match string_from(s, pos + 1) {
                Err(f) => Err(f),
                Ok((t, q)) => match string_bytes(t) {
                    Err(f) => Err(f),
                    Ok(b) => if advances(s, pos, q) {
                        prepend_item(ItemModel::Literal(b), items_from(s, q, nested))
                    } else {
                        Err(Fault::UnterminatedString)
                    },
                },
            }
        } else if c == '$' {
            let ne = name_end(s, pos + 1);
            if !advances(s, pos + 1, ne) {
                Err(Fault::MissingExpansionName)
            } else {
                match args_from(s, ne) {
                    Err(f) => Err(f),
                    Ok((groups, q)) => if advances(s, pos, q) {
                        prepend_item(
                            ItemModel::Expansion(s.subrange(pos + 1, ne), groups),
                            items_from(s, q, nested),
                        )
                    } else {
                        Err(Fault::UnterminatedArguments)
                    },
                }
            }
        } else {
            let e = token_end(s, pos);
            if !advances(s, pos, e) {
                Err(Fault::UnexpectedCharacter(c))
            } else {
                match number_item(s.subrange(pos, e)) {
                    Err(f) => Err(f),
                    Ok(b) => prepend_item(ItemModel::Literal(b), items_from(s, e, nested)),
                }
            }
        }
    }
}

/// The argument groups that follow an expansion's name, which ends before
/// `p`, and the position after the last of them.
pub open spec fn args_from(s: Seq<char>, p: int) -> Result<(Seq<Seq<ItemModel>>, int), Fault>
    decreases s.len() - p, 1int,
{
    let q = space_end(s, p);
    if 0 <= p <= q && q < s.len() && s[q] == '(' {
        match items_from(s, q + 1, true) {
            Err(f) => Err(f),
            Ok((g, r)) => if advances(s, p, r) {
                prepend_groups(seq![g], args_from(s, r))
            } else {
                Err(Fault::UnterminatedArguments)
            },
        }
    } else {
        Ok((Seq::empty(), p))
    }
}

/// The items of a whole line.
pub open spec fn line_items(s: Seq<char>) -> Result<Seq<ItemModel>, Fault> {
    match items_from(s, 0, false) {
        Ok((v, _)) => Ok(v),
        Err(f) => Err(f),
    }
}

pub open spec fn items_outcome(r: Result<(Vec<BytesItem>, usize), AnonymousEvaluationError>) -> Result<
    (Seq<ItemModel>, int),
    Fault,
> {
    match r {
        Ok((v, e)) => Ok((items_model(v@), e as int)),
        Err(x) => Err(x@),
    }
}

pub open spec fn groups_outcome(
    r: Result<(Vec<Vec<BytesItem>>, usize), AnonymousEvaluationError>,
) -> Result<(Seq<Seq<ItemModel>>, int), Fault> {
    match r {
        Ok((v, e)) => Ok((groups_model(v@), e as int)),
        Err(x) => Err(x@),
    }
}

pub open spec fn line_outcome(r: Result<Vec<BytesItem>, AnonymousEvaluationError>) -> Result<
    Seq<ItemModel>,
    Fault,
> {
    match r {
        Ok(v) => Ok(items_model(v@)),
        Err(x) => Err(x@),
    }
}

/// Cuts or zero-pads `literal` to `size` bytes at its front.
pub fn resize_anchored_right(literal: &mut Vec<u8>, size: usize)
    ensures
        final(literal)@ == anchored_right(old(literal)@, size as nat),
{
    let len = literal.len();
    let mut result: Vec<u8> = Vec::new();
    if len >= size {
        let mut i: usize = len - size;
        while i < len
            invariant
                len == literal@.len(),
                len >= size,
                len - size <= i <= len,
                result@ == literal@.subrange(len - size, i as int),
            decreases len - i,
        {
            result.push(literal[i]);
            i += 1;
            assert(result@ =~= literal@.subrange(len - size, i as int));
        }
    } else {
        let mut k: usize = 0;
        while k < size - len
            invariant
                len < size,
                k <= size - len,
                result@ =~= Seq::new(k as nat, |i: int| 0u8),
            decreases size - len - k,
        {
            result.push(0);
            k += 1;
            assert(result@ =~= Seq::new(k as nat, |i: int| 0u8));
        }
        let mut i: usize = 0;
        let ghost pad = result@;
        while i < len
            invariant
                len == literal@.len(),
                i <= len,
                result@ == pad + literal@.subrange(0, i as int),
            decreases len - i,
        {
            result.push(literal[i]);
            i += 1;
            assert(result@ =~= pad + literal@.subrange(0, i as int));
        }
        assert(literal@.subrange(0, len as int) =~= literal@);
    }
    *literal = result;
}

/// Cuts or zero-pads `literal` to `size` bytes at its end.
pub fn resize_anchored_left(literal: &mut Vec<u8>, size: usize)
    ensures
        final(literal)@ == anchored_left(old(literal)@, size as nat),
{
    let len = literal.len();
    if len >= size {
        literal.truncate(size);
    } else {
        let ghost start = literal@;
        let mut k: usize = 0;
        while k < size - len
            invariant
                len < size,
                start.len() == len,
                k <= size - len,
                literal@ =~= start + Seq::new(k as nat, |i: int| 0u8),
            decreases size - len - k,
        {
            literal.push(0);
            k += 1;
            assert(literal@ =~= start + Seq::new(k as nat, |i: int| 0u8));
        }
    }
}

pub fn index_of_first(s: &Vec<char>, c: char) -> (r: Option<usize>)
    ensures
        match r {
            Some(k) => index_of(s@, c, 0) == Some(k as int),
            None => index_of(s@, c, 0) == None::<int>,
        },
        r matches Some(k) ==> k < s@.len() && s@[k as int] == c,
{
    let mut i: usize = 0;
    while i < s.len()
        invariant
            i <= s@.len(),
            index_of(s@, c, 0) == index_of(s@, c, i as int),
        decreases s@.len() - i,
    {
        if s[i] == c {
            return Some(i);
        }
        i += 1;
    }
    None
}

/// The bytes of a number item given as characters.
#[verifier::rlimit(80)]
fn number_item_of(s: &Vec<char>) -> (r: Result<Vec<u8>, AnonymousEvaluationError>)
    ensures
        bytes_outcome(r) == number_item(s@),
{
    reveal(number_item);
    let len = s.len();
    if len > 0 && s[0] == '[' {
        match index_of_first(s, ']') {
            None => Err(AnonymousEvaluationError::new(ErrorKind::InvalidPadding(crate::text::string_from_chars(s)))),
            Some(k) => {
                assert(s@[k as int] == ']');
                let size = match number_integer_of(&slice_chars(s, 1, k)) {
                    Ok(n) => n,
                    Err(e) => {
                        return Err(e);
                    },
                };
                let mut result = match number_bytes_of(&slice_chars(s, k + 1, len), false) {
                    Ok(b) => b,
                    Err(e) => {
                        return Err(e);
                    },
                };
                resize_anchored_right(&mut result, size);
                Ok(result)
            },
        }
    } else if len > 0 && s[len - 1] == ']' {
        match index_of_first(s, '[') {
            None => Err(AnonymousEvaluationError::new(ErrorKind::InvalidPadding(crate::text::string_from_chars(s)))),
            Some(k) => {
                // the last character is `]`, so the `[` stands before it
                assert(k + 1 <= len - 1);
                let size = match number_integer_of(&slice_chars(s, k + 1, len - 1)) {
                    Ok(n) => n,
                    Err(e) => {
                        return Err(e);
                    },
                };
                let mut result = match number_bytes_of(&slice_chars(s, 0, k), false) {
                    Ok(b) => b,
                    Err(e) => {
                        return Err(e);
                    },
                };
                resize_anchored_left(&mut result, size);
                Ok(result)
            },
        }
    } else {
        number_bytes_of(s, true)
    }
}

/// The bytes of a number item, as [`number_item`] reads it.
pub fn decode_number(string: &str) -> (r: Result<Vec<u8>, AnonymousEvaluationError>)
    ensures
        bytes_outcome(r) == number_item(string@),
{
    number_item_of(&crate::text::chars_of(string))
}

fn string_bytes_of(t: &Vec<char>) -> (r: Result<Vec<u8>, AnonymousEvaluationError>)
    ensures
        bytes_outcome(r) == string_bytes(t@),
{
    reveal(string_bytes);
    let mut result: Vec<u8> = Vec::new();
    let mut i: usize = 0;
    while i < t.len()
        invariant
            i <= t@.len(),
            wide_from(t@, 0) == wide_from(t@, i as int),
            result@ =~= Seq::new(i as nat, |j: int| t@[j] as u32 as u8),
        decreases t@.len() - i,
    {
        let c = t[i];
        if c as u32 > 255 {
            assert(t@[i as int] as u32 > 255);
            assert(wide_from(t@, i as int) == Some(i as nat));
            reveal(string_bytes);
            return Err(AnonymousEvaluationError::new(ErrorKind::InvalidCharacter(i)));
        }
        result.push(c as u32 as u8);
        i += 1;
        assert(result@ =~= Seq::new(i as nat, |j: int| t@[j] as u32 as u8));
    }
    Ok(result)
}

/// The bytes of a string's characters, as [`string_bytes`] reads them.
pub fn decode_string(string: &str) -> (r: Result<Vec<u8>, AnonymousEvaluationError>)
    ensures
        bytes_outcome(r) == string_bytes(string@),
{
    string_bytes_of(&crate::text::chars_of(string))
}

fn escape_char(c: char) -> (r: Option<char>)
    ensures
        r == escape_of(c),
{
    if c == '\\' {
        Some('\\')
    } else if c == 'n' {
        Some('\n')
    } else if c == 'r' {
        Some('\r')
    } else if c == 't' {
        Some('\t')
    } else if c == '"' {
        Some('"')
    } else {
        None
    }
}

/// The contents of the string literal whose opening quote stands before `p`.
fn scan_string(s: &Vec<char>, p: usize) -> (r: Result<(Vec<char>, usize), AnonymousEvaluationError>)
    requires
        p <= s@.len(),
    ensures
        match r {
            Ok((t, q)) => string_from(s@, p as int) == Ok::<(Seq<char>, int), Fault>(
                (t@, q as int),
            ) && p < q <= s@.len(),
            Err(e) => string_from(s@, p as int) == Err::<(Seq<char>, int), Fault>(e@),
        },
{
    let mut acc: Vec<char> = Vec::new();
    let mut i: usize = p;
    while i < s.len()
        invariant
            p <= i <= s@.len(),
            string_from(s@, p as int) == prepend_chars(acc@, string_from(s@, i as int)),
        decreases s@.len() - i,
    {
        let c = s[i];
        if c == '"' {
            assert(acc@ + Seq::<char>::empty() =~= acc@);
            return Ok((acc, i + 1));
        } else if c == '\\' {
            if i + 1 >= s.len() {
                return Err(AnonymousEvaluationError::new(ErrorKind::UnterminatedString));
            }
            match escape_char(s[i + 1]) {
                None => {
                    return Err(AnonymousEvaluationError::new(ErrorKind::InvalidEscape(s[i + 1])));
                },
                Some(e) => {
                    let ghost before = acc@;
                    acc.push(e);
                    proof {
                        assert(acc@ =~= before + seq![e]);
                        lemma_prepend_chars_assoc(before, seq![e], string_from(s@, i + 2));
                    }
                    i += 2;
                },
            }
        } else {
            let ghost before = acc@;
            acc.push(c);
            proof {
                assert(acc@ =~= before + seq![c]);
                lemma_prepend_chars_assoc(before, seq![c], string_from(s@, i + 1));
            }
            i += 1;
        }
    }
    Err(AnonymousEvaluationError::new(ErrorKind::UnterminatedString))
}

proof fn lemma_prepend_chars_assoc(a: Seq<char>, b: Seq<char>, r: Result<(Seq<char>, int), Fault>)
    ensures
        prepend_chars(a, prepend_chars(b, r)) == prepend_chars(a + b, r),
{
    match r {
        Ok((t, q)) => {
            assert(a + (b + t) =~= (a + b) + t);
        },
        Err(_) => {},
    }
}

proof fn lemma_prepend_items_push(a: Seq<BytesItem>, x: BytesItem, r: Result<(Seq<ItemModel>, int), Fault>)
    ensures
        prepend_items(items_model(a), prepend_item(item_model(x), r)) == prepend_items(
            items_model(a.push(x)),
            r,
        ),
{
    assert(a.push(x).drop_last() =~= a);
    match r {
        Ok((v, q)) => {
            assert(items_model(a) + (seq![item_model(x)] + v) =~= items_model(a).push(
                item_model(x),
            ) + v);
        },
        Err(_) => {},
    }
}

proof fn lemma_prepend_groups_push(
    a: Seq<Vec<BytesItem>>,
    x: Vec<BytesItem>,
    r: Result<(Seq<Seq<ItemModel>>, int), Fault>,
)
    ensures
        prepend_groups(groups_model(a), prepend_groups(seq![items_model(x@)], r))
            == prepend_groups(groups_model(a.push(x)), r),
{
    assert(a.push(x).drop_last() =~= a);
    match r {
        Ok((v, q)) => {
            assert(groups_model(a) + (seq![items_model(x@)] + v) =~= groups_model(a).push(
                items_model(x@),
            ) + v);
        },
        Err(_) => {},
    }
}

fn is_delimiter_char(c: char) -> (r: bool)
    ensures
        r == is_delimiter(c),
{
    ascii_space(c) || c == '#' || c == '"' || c == '$' || c == '<' || c == '>' || c == '(' || c
        == ')'
}

fn is_name_character(c: char) -> (r: bool)
    ensures
        r == is_name_char(c),
{
    ('a' <= c && c <= 'z') || ('A' <= c && c <= 'Z') || ('0' <= c && c <= '9') || c == '_'
}

fn scan_token(s: &Vec<char>, p: usize) -> (r: usize)
    requires
        p <= s@.len(),
    ensures
        r as int == token_end(s@, p as int),
        p <= r <= s@.len(),
        p < s@.len() && !is_delimiter(s@[p as int]) ==> p < r,
{
    let mut i: usize = p;
    while i < s.len() && !is_delimiter_char(s[i])
        invariant
            p <= i <= s@.len(),
            token_end(s@, p as int) == token_end(s@, i as int),
        decreases s@.len() - i,
    {
        i += 1;
    }
    i
}

fn scan_name(s: &Vec<char>, p: usize) -> (r: usize)
    requires
        p <= s@.len(),
    ensures
        r as int == name_end(s@, p as int),
        p <= r <= s@.len(),
{
    let mut i: usize = p;
    while i < s.len() && is_name_character(s[i])
        invariant
            p <= i <= s@.len(),
            name_end(s@, p as int) == name_end(s@, i as int),
        decreases s@.len() - i,
    {
        i += 1;
    }
    i
}

pub fn skip_spaces(s: &Vec<char>, p: usize) -> (r: usize)
    requires
        p <= s@.len(),
    ensures
        r as int == space_end(s@, p as int),
        p <= r <= s@.len(),
        r < s@.len() ==> !is_ascii_space(s@[r as int]),
{
    let mut i: usize = p;
    while i < s.len() && ascii_space(s[i])
        invariant
            p <= i <= s@.len(),
            space_end(s@, p as int) == space_end(s@, i as int),
        decreases s@.len() - i,
    {
        i += 1;
    }
    i
}

/// The items from `pos` on, as [`items_from`] reads them.
#[verifier::rlimit(80)]
fn parse_items_at(s: &Vec<char>, pos: usize, nested: bool) -> (r: Result<
    (Vec<BytesItem>, usize),
    AnonymousEvaluationError,
>)
    requires
        pos <= s@.len(),
    ensures
        items_outcome(r) == items_from(s@, pos as int, nested),
        r matches Ok((_, e)) ==> pos <= e <= s@.len(),
    decreases s@.len() - pos, 2int,
{
    let mut acc: Vec<BytesItem> = Vec::new();
    let mut p: usize = pos;
    loop
        invariant
            pos <= p <= s@.len(),
            items_from(s@, pos as int, nested) == prepend_items(
                items_model(acc@),
                items_from(s@, p as int, nested),
            ),
        decreases s@.len() - p,
    {
        if p >= s.len() {
            if nested {
                return Err(AnonymousEvaluationError::new(ErrorKind::UnterminatedArguments));
            } else {
                assert(items_model(acc@) + Seq::<ItemModel>::empty() =~= items_model(acc@));
                return Ok((acc, s.len()));
            }
        }
        let c = s[p];
        if ascii_space(c) {
            p += 1;
        } else if c == '#' {
            if nested {
                return Err(AnonymousEvaluationError::new(ErrorKind::UnterminatedArguments));
            } else {
                assert(items_model(acc@) + Seq::<ItemModel>::empty() =~= items_model(acc@));
                return Ok((acc, s.len()));
            }
        } else if c == ')' {
            if nested {
                assert(items_model(acc@) + Seq::<ItemModel>::empty() =~= items_model(acc@));
                return Ok((acc, p + 1));
            } else {
                return Err(AnonymousEvaluationError::new(ErrorKind::UnexpectedCharacter(c)));
            }
        } else if c == '(' {
            return Err(AnonymousEvaluationError::new(ErrorKind::UnexpectedCharacter(c)));
        } else if c == '<' || c == '>' {
            let item = if c == '<' {
                BytesItem::Left
            } else {
                BytesItem::Right
            };
            proof {
                lemma_prepend_items_push(acc@, item, items_from(s@, p + 1, nested));
            }
            acc.push(item);
            p += 1;
        } else if c == '"' {
            let (t, q) = match scan_string(s, p + 1) {
                Ok(x) => x,
                Err(e) => {
                    return Err(e);
                },
            };
            let bytes = match string_bytes_of(&t) {
                Ok(b) => b,
                Err(e) => {
                    return Err(e);
                },
            };
            let item = BytesItem::Literal(bytes);
            proof {
                lemma_prepend_items_push(acc@, item, items_from(s@, q as int, nested));
            }
            acc.push(item);
            p = q;
        } else if c == '$' {
            let ne = scan_name(s, p + 1);
            if ne == p + 1 {
                return Err(AnonymousEvaluationError::new(ErrorKind::MissingExpansionName));
            }
            let (groups, q) = match parse_args_at(s, ne) {
                Ok(x) => x,
                Err(e) => {
                    return Err(e);
                },
            };
            let name = string_of(s, p + 1, ne);
            let item = BytesItem::Expansion(name, groups);
            proof {
                lemma_prepend_items_push(acc@, item, items_from(s@, q as int, nested));
            }
            acc.push(item);
            p = q;
        } else {
            let e = scan_token(s, p);
            let bytes = match number_item_of(&slice_chars(s, p, e)) {
                Ok(b) => b,
                Err(x) => {
                    return Err(x);
                },
            };
            let item = BytesItem::Literal(bytes);
            proof {
                lemma_prepend_items_push(acc@, item, items_from(s@, e as int, nested));
            }
            acc.push(item);
            p = e;
        }
    }
}

/// The argument groups from `p` on, as [`args_from`] reads them.
fn parse_args_at(s: &Vec<char>, p: usize) -> (r: Result<
    (Vec<Vec<BytesItem>>, usize),
    AnonymousEvaluationError,
>)
    requires
        p <= s@.len(),
    ensures
        groups_outcome(r) == args_from(s@, p as int),
        r matches Ok((_, e)) ==> p <= e <= s@.len(),
    decreases s@.len() - p, 1int,
{
    let mut acc: Vec<Vec<BytesItem>> = Vec::new();
    let mut i: usize = p;
    loop
        invariant
            p <= i <= s@.len(),
            args_from(s@, p as int) == prepend_groups(groups_model(acc@), args_from(s@, i as int)),
        decreases s@.len() - i,
    {
        let q = skip_spaces(s, i);
        if q < s.len() && s[q] == '(' {
            let (group, r) = match parse_items_at(s, q + 1, true) {
                Ok(x) => x,
                Err(e) => {
                    return Err(e);
                },
            };
            proof {
                lemma_prepend_groups_push(acc@, group, args_from(s@, r as int));
            }
            acc.push(group);
            i = r;
        } else {
            assert(groups_model(acc@) + Seq::<Seq<ItemModel>>::empty() =~= groups_model(acc@));
            return Ok((acc, i));
        }
    }
}

/// The items of a line, as [`line_items`] reads them.
pub fn parse_bytes(line: &str) -> (r: Result<Vec<BytesItem>, AnonymousEvaluationError>)
    ensures
        line_outcome(r) == line_items(line@),
{
    let chars = crate::text::chars_of(line);
    match parse_items_at(&chars, 0, false) {
        Ok((items, _)) => Ok(items),
        Err(e) => Err(e),
    }
}

} // verus!

verus! {

/// A bare hexadecimal literal of odd length is an encoding error that names
/// the odd length.
pub proof fn odd_hex_fails(digits: Seq<char>)
    requires
        all_hex(digits),
        digits.len() % 2 == 1,
    ensures
        number_item(seq!['0', 'x'] + digits) == Err::<Seq<u8>, Fault>(Fault::OddHexLength(digits)),
{
    reveal(number_item);
    reveal(number_bytes);
    let s = seq!['0', 'x'] + digits;
    assert(s[0] == '0');
    assert(s.last() == digits.last());
    assert(is_hex_digit(digits[digits.len() - 1]));
    assert(s.skip(2) =~= digits);
}

} // verus!
