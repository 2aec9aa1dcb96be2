use hex_to_raw::error::{ErrorCategory, ErrorKind, EvaluationError};
use hex_to_raw::script::{compile, CompileOutcome};

fn script(lines: &[&str]) -> Vec<String> {
    lines.iter().map(|l| l.to_string()).collect()
}

fn run(lines: &[&str]) -> CompileOutcome {
    compile(&script(lines), false, &Vec::new())
}

fn bytes_of(lines: &[&str]) -> Vec<u8> {
    match run(lines) {
        CompileOutcome::Bytes(b) => b,
        other => panic!("expected bytes, got {:?}", other),
    }
}

/// The error inside the innermost macro call, and the chain of calling lines.
fn innermost(e: &EvaluationError) -> (&EvaluationError, Vec<usize>) {
    let mut calls = Vec::new();
    let mut current = e;
    while let ErrorKind::InExpansion(inner) = &current.what {
        calls.push(current.line);
        current = inner;
    }
    (current, calls)
}

fn error_of(lines: &[&str]) -> EvaluationError {
    match run(lines) {
        CompileOutcome::Failed(e) => e,
        other => panic!("expected an error, got {:?}", other),
    }
}

#[test]
fn plain_hex_bytes() {
    assert_eq!(bytes_of(&["00 01 FF"]), vec![0x00, 0x01, 0xFF]);
}

#[test]
fn decimal_and_binary_literals() {
    assert_eq!(bytes_of(&["0d255"]), vec![0xFF]);
    assert_eq!(bytes_of(&["0b00000011"]), vec![0x03]);
}

#[test]
fn right_anchored_padding() {
    assert_eq!(bytes_of(&["[4]0x1"]), vec![0x00, 0x00, 0x00, 0x01]);
}

#[test]
fn left_anchored_padding() {
    assert_eq!(bytes_of(&["0x1[4]"]), vec![0x01, 0x00, 0x00, 0x00]);
}

#[test]
fn padding_truncates() {
    assert_eq!(bytes_of(&["[2]0x010203"]), vec![0x02, 0x03]);
    assert_eq!(bytes_of(&["0x010203[2]"]), vec![0x01, 0x02]);
    assert_eq!(bytes_of(&["[0]0x01"]), Vec::<u8>::new());
}

#[test]
fn flip_region_reverses() {
    assert_eq!(bytes_of(&["< 01 02 03 >"]), vec![0x03, 0x02, 0x01]);
}

#[test]
fn unterminated_flip_closes_at_end_of_line() {
    assert_eq!(bytes_of(&["AA < 01 02"]), vec![0xAA, 0x02, 0x01]);
}

#[test]
fn new_flip_closes_the_open_one() {
    assert_eq!(bytes_of(&["< 01 02 < 03 04 >"]), vec![0x02, 0x01, 0x04, 0x03]);
}

#[test]
fn define_then_call() {
    assert_eq!(
        bytes_of(&["@define greet", "  48 65 6C 6C 6F", "$greet"]),
        vec![0x48, 0x65, 0x6C, 0x6C, 0x6F]
    );
}

#[test]
fn repeat_three_times() {
    assert_eq!(bytes_of(&["@repeat 3", "  AA"]), vec![0xAA, 0xAA, 0xAA]);
}

#[test]
fn arity_mismatch_names_counts() {
    let e = error_of(&["@define add x y", "  $x $y", "$add(01)"]);
    assert_eq!(e.line, 3);
    assert_eq!(e.what, ErrorKind::ArityMismatch("add".to_string(), 2, 1));
    assert_eq!(e.what.category(), ErrorCategory::Scope);
    assert!(e.message().contains("expected 2 args, got 1"));
}

#[test]
fn single_parameter_without_arguments_binds_nothing() {
    assert_eq!(bytes_of(&["@define one x", "  $x 02", "$one"]), vec![0x02]);
}

#[test]
fn arguments_are_bound_to_parameters() {
    assert_eq!(
        bytes_of(&["@define add x y", "  $y $x", "$add(01)(02 03)"]),
        vec![0x02, 0x03, 0x01]
    );
}

#[test]
fn mixed_indentation_space_then_tab() {
    let e = error_of(&["@repeat 1", " \t01"]);
    assert_eq!(e.line, 2);
    assert_eq!(e.what, ErrorKind::MixedIndentation);
    assert_eq!(e.what.category(), ErrorCategory::Shape);
}

#[test]
fn mixed_indentation_tab_then_space() {
    let e = error_of(&["@repeat 1", "\t 01"]);
    assert_eq!(e.line, 2);
    assert_eq!(e.what, ErrorKind::MixedIndentation);
}

#[test]
fn mixed_indentation_on_first_line() {
    let e = error_of(&[" \t01"]);
    assert_eq!(e.line, 1);
    assert_eq!(e.what, ErrorKind::MixedIndentation);
    let e = error_of(&["\t 01"]);
    assert_eq!(e.what, ErrorKind::MixedIndentation);
}

#[test]
fn other_kind_than_the_unit_is_mixed() {
    let e = error_of(&["@repeat 1", "  01", "@repeat 1", "\t02"]);
    assert_eq!(e.line, 4);
    assert_eq!(e.what, ErrorKind::MixedIndentation);
}

#[test]
fn compiling_twice_gives_the_same_bytes() {
    let lines = ["@define two a", "  $a $a", "@repeat 2", "  $two(0x0102)", "< 01 02 >"];
    assert_eq!(bytes_of(&lines), bytes_of(&lines));
    assert_eq!(bytes_of(&lines), vec![1, 2, 1, 2, 1, 2, 1, 2, 2, 1]);
}

#[test]
fn odd_hex_length_is_an_encoding_error() {
    let e = error_of(&["0x1"]);
    assert_eq!(e.line, 1);
    assert_eq!(e.what, ErrorKind::OddHexLength("1".to_string()));
    assert_eq!(e.what.category(), ErrorCategory::Encoding);
    assert!(e.message().contains("divisible by two"));
}

#[test]
fn empty_script_gives_no_bytes() {
    assert_eq!(bytes_of(&[]), Vec::<u8>::new());
    assert_eq!(bytes_of(&[""]), Vec::<u8>::new());
}

#[test]
fn comments_are_ignored() {
    assert_eq!(bytes_of(&["# a comment", "01 # trailing", "@repeat 2 # twice", "  02"]), vec![1, 2, 2]);
}

#[test]
fn strings_with_escapes() {
    assert_eq!(bytes_of(&["\"AB\\n\\t\\\"\\\\\""]), vec![0x41, 0x42, 0x0A, 0x09, 0x22, 0x5C]);
}

#[test]
fn invalid_escape() {
    assert_eq!(error_of(&["\"a\\q\""]).what, ErrorKind::InvalidEscape('q'));
}

#[test]
fn wide_character_in_string() {
    let e = error_of(&["\"ab\u{100}\""]);
    assert_eq!(e.what, ErrorKind::InvalidCharacter(2));
    assert_eq!(e.message(), "Runtime error on line 1: encountered invalid character in column 2");
}

#[test]
fn unterminated_string() {
    assert_eq!(error_of(&["\"abc"]).what, ErrorKind::UnterminatedString);
}

#[test]
fn unterminated_argument_group() {
    assert_eq!(error_of(&["@define f x", "  $x", "$f(01"]).what, ErrorKind::UnterminatedArguments);
}

#[test]
fn undefined_variable() {
    let e = error_of(&["01", "$nope"]);
    assert_eq!(e.line, 2);
    assert_eq!(e.what, ErrorKind::UndefinedVariable("nope".to_string()));
    assert_eq!(e.message(), "Runtime error on line 2: undefined variable nope");
}

#[test]
fn unknown_macro() {
    let e = error_of(&["@nope 1"]);
    assert_eq!(e.what, ErrorKind::UnknownMacro("@nope".to_string()));
}

#[test]
fn repeat_needs_one_count() {
    assert_eq!(error_of(&["@repeat", "  01"]).what, ErrorKind::RepeatArgumentCount);
    assert_eq!(error_of(&["@repeat 1 2", "  01"]).what, ErrorKind::RepeatArgumentCount);
    assert_eq!(
        error_of(&["@repeat x", "  01"]).what,
        ErrorKind::InvalidRepeatCount("x".to_string())
    );
    assert_eq!(bytes_of(&["@repeat +2", "  01"]), vec![1, 1]);
    assert_eq!(bytes_of(&["@repeat 0", "  01"]), Vec::<u8>::new());
}

#[test]
fn define_needs_a_name() {
    assert_eq!(error_of(&["@define"]).what, ErrorKind::MissingDefinitionName);
}

#[test]
fn unexpected_indentation() {
    let e = error_of(&["01", "  02"]);
    assert_eq!(e.line, 2);
    assert_eq!(e.what, ErrorKind::UnexpectedIndentation);
}

#[test]
fn uneven_indentation() {
    let e = error_of(&["@repeat 1", "  01", "@repeat 1", "   02"]);
    assert_eq!(e.line, 4);
    assert_eq!(e.what, ErrorKind::UnevenIndentation);
}

#[test]
fn tab_indentation() {
    assert_eq!(bytes_of(&["@repeat 2", "\t01", "\t@repeat 2", "\t\t02"]), vec![1, 2, 2, 1, 2, 2]);
}

#[test]
fn dedent_returns_to_the_parent() {
    assert_eq!(bytes_of(&["@repeat 2", "    01", "02"]), vec![1, 1, 2]);
}

#[test]
fn repeat_body_runs_once() {
    assert_eq!(bytes_of(&["@repeat 3", "  @define x", "    01", "$x"]), vec![1]);
}

#[test]
fn macro_sees_later_definitions_of_its_scope() {
    assert_eq!(bytes_of(&["@define a", "  $b", "@define b", "  07", "$a"]), vec![7]);
}

#[test]
fn later_definition_shadows() {
    assert_eq!(bytes_of(&["@define a", "  01", "$a", "@define a", "  02", "$a"]), vec![1, 2]);
}

#[test]
fn definitions_are_not_visible_before() {
    assert_eq!(error_of(&["$a", "@define a", "  01"]).what, ErrorKind::UndefinedVariable("a".to_string()));
}

#[test]
fn scoping_is_lexical() {
    // `inner` is defined inside `outer`'s body and is not visible at the top.
    let e = error_of(&["@define outer", "  @define inner", "    01", "  $inner", "$outer", "$inner"]);
    assert_eq!(e.line, 6);
    assert_eq!(e.what, ErrorKind::UndefinedVariable("inner".to_string()));
    // a parameter of the caller is not visible in the callee
    let e = error_of(&["@define show", "  $p", "@define call p", "  $show", "$call(01)"]);
    let (inner, calls) = innermost(&e);
    assert_eq!(calls, vec![5, 4]);
    assert_eq!(inner.line, 2);
    assert_eq!(inner.what, ErrorKind::UndefinedVariable("p".to_string()));
}

#[test]
fn recursion_is_bounded() {
    let e = error_of(&["@define f", "  $f", "$f"]);
    assert_eq!(e.line, 3);
    let (inner, calls) = innermost(&e);
    assert_eq!(calls.len(), 256);
    assert_eq!(inner.line, 2);
    assert_eq!(inner.what, ErrorKind::ExpansionTooDeep("f".to_string()));
    assert_eq!(e.what.category(), ErrorCategory::Scope);
}

#[test]
fn inline_takes_no_arguments() {
    let e = error_of(&["@define f x", "  $x(01)", "$f(02)"]);
    assert_eq!(e.line, 3);
    let (inner, calls) = innermost(&e);
    assert_eq!(calls, vec![3]);
    assert_eq!(inner.line, 2);
    assert_eq!(inner.what, ErrorKind::ArityMismatch("x".to_string(), 0, 1));
}

#[test]
fn body_error_is_reported_at_the_call() {
    let e = error_of(&["@define m", "  $nope", "$m"]);
    assert_eq!(e.line, 3);
    assert_eq!(
        e.what,
        ErrorKind::InExpansion(Box::new(EvaluationError::new(
            2,
            ErrorKind::UndefinedVariable("nope".to_string())
        )))
    );
    assert_eq!(e.what.category(), ErrorCategory::Scope);
    assert_eq!(
        e.message(),
        "Runtime error on line 3: error while expanding definition:\nRuntime error on line 2: undefined variable nope"
    );
}

#[test]
fn assembly_is_asked_for_then_used() {
    let lines = script(&["@assembly", "  nop", "    ret", "01"]);
    match compile(&lines, false, &Vec::new()) {
        CompileOutcome::NeedsAssembly(line, source) => {
            assert_eq!(line, 1);
            assert_eq!(source, "nop\n  ret\n");
        }
        other => panic!("expected a request, got {:?}", other),
    }
    match compile(&lines, false, &vec![vec![0x90, 0xC3]]) {
        CompileOutcome::Bytes(b) => assert_eq!(b, vec![0x90, 0xC3, 0x01]),
        other => panic!("expected bytes, got {:?}", other),
    }
}

#[test]
fn read_failure_after_last_line() {
    match compile(&script(&["01", "02"]), true, &Vec::new()) {
        CompileOutcome::Failed(e) => {
            assert_eq!(e.line, 2);
            assert_eq!(e.what, ErrorKind::ReadFailure);
        }
        other => panic!("expected an error, got {:?}", other),
    }
}

#[test]
fn earlier_error_wins() {
    let e = error_of(&["0xZZ", "$nope"]);
    assert_eq!(e.line, 1);
    assert_eq!(e.what, ErrorKind::InvalidHexDigit("ZZ".to_string()));
}

#[test]
fn nested_expansion_arguments() {
    assert_eq!(
        bytes_of(&["@define id x", "  $x", "@define two a b", "  $a $b", "$two($id(01))(\"A\")"]),
        vec![0x01, 0x41]
    );
}
