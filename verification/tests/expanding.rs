use migraine::parse::err::{FilePos, ParserError};
use migraine::parse::preproc::{process, process_with_spaces};
use migraine::parse::text::{classify, TextBuf};

fn expanded(src: &str) -> String {
    *process(src.to_string()).unwrap()
}

#[test]
fn text_without_macros_is_copied() {
    assert_eq!(expanded("@main { +++. }"), "@main { +++. }");
    assert_eq!(expanded(""), "");
}

#[test]
fn builtin_macro_is_expanded() {
    assert_eq!(expanded("a$FUNNY!b"), "a420 69b");
}

#[test]
fn macro_call_at_end_of_text_is_expanded() {
    assert_eq!(expanded("^$FUNNY!"), "^420 69");
}

#[test]
fn definition_is_removed_and_call_replaced() {
    let src = "macrodef greet Hi macroend\n@main { \"$greet!\" }";
    assert_eq!(expanded(src), "@main { \"Hi\" }");
}

#[test]
fn body_is_taken_verbatim() {
    let src = "macrodef three +\n+ +\nmacroend\n[$three!]";
    assert_eq!(expanded(src), "[+\n+ +]");
}

#[test]
fn inserted_body_is_not_scanned_again() {
    // `outer` holds a call of the built-in macro, which was read as plain
    // body text: it reaches the output as it stands.
    let src = "macrodef inner x macroend\nmacrodef outer $FUNNY! macroend\n$outer!";
    assert_eq!(expanded(src), "420 69$FUNNY!");
}

#[test]
fn call_before_definition_is_left_alone() {
    let src = "$late!macrodef late x macroend\n$late!";
    assert_eq!(expanded(src), "$late!x");
}

#[test]
fn first_defined_macro_wins() {
    let src = "macrodef a 1 macroend\nmacrodef a 2 macroend\n$a!";
    assert_eq!(expanded(src), "1");
}

#[test]
fn empty_body_gives_empty_text() {
    let src = "macrodef none macroend\n<$none!>";
    assert_eq!(expanded(src), "<>");
}

#[test]
fn open_definition_swallows_the_rest() {
    assert_eq!(expanded("abmacrodef rest cd"), "ab");
    assert_eq!(expanded("abmacrodef rest"), "ab");
}

#[test]
fn name_may_hold_wide_characters() {
    let src = "macrodef é ü macroend\n$é!";
    assert_eq!(expanded(src), "ü");
}

#[test]
fn nested_definition_is_an_error() {
    let src = "macrodef a macrodef b x macroend\n";
    assert_eq!(
        process(src.to_string()),
        Err(ParserError::NoSubMacros(FilePos { line: 1, column: 12 }))
    );
}

#[test]
fn end_without_definition_is_an_error() {
    assert_eq!(
        process("+\nmacroend\n".to_string()),
        Err(ParserError::NoMacroDef(FilePos { line: 2, column: 2 }))
    );
}

#[test]
fn text_buffer_collects_characters_and_strings() {
    let mut buf = TextBuf::new();
    buf.push('a');
    buf.push('é');
    buf.push_str("bc");
    buf.push('\n');
    assert_eq!(buf.finish(), "aébc\n");
    assert_eq!(TextBuf::new().finish(), "");
}

#[test]
fn white_space_is_marked_character_by_character() {
    assert_eq!(
        classify("a b\n\u{A0}c\t"),
        vec![false, true, false, true, true, false, true]
    );
    assert_eq!(classify(""), Vec::<bool>::new());
    assert_eq!(classify("é$@"), vec![false, false, false]);
}

#[test]
fn given_marks_end_the_name_of_a_definition() {
    let src = "macrodef a-b macroend\n$a!";
    let mut spaces = vec![false; src.chars().count()];
    spaces[10] = true;
    assert_eq!(process_with_spaces(src.to_string(), spaces), Ok(Box::new("b".to_string())));
    // with no mark at all the name runs to the end of the text
    let spaces = vec![false; src.chars().count()];
    assert_eq!(process_with_spaces(src.to_string(), spaces), Ok(Box::new(String::new())));
}

#[test]
fn given_marks_agree_with_unicode_marks() {
    let src = "macrodef greet Hi macroend\n@main { \"$greet!\" }";
    assert_eq!(
        process_with_spaces(src.to_string(), classify(src)),
        process(src.to_string())
    );
}

#[test]
fn keyword_needs_its_last_character() {
    // the opening keyword ends with a blank and the closing keyword with a
    // line feed: without them the text is plain text
    assert_eq!(expanded("macrodef"), "macrodef");
    assert_eq!(expanded("macroend"), "macroend");
    assert_eq!(expanded("macroend "), "macroend ");
    assert_eq!(expanded("macrodef a b macroend c"), "");
}

#[test]
fn macro_call_inside_a_definition_is_written_out() {
    assert_eq!(expanded("macrodef a $FUNNY! macroend\n"), "420 69");
}
