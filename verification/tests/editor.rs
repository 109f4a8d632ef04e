use ci_lisp::gui::eval_block::EditEvent;
use ci_lisp::gui::{LispEditor, LispEvalBlock};
use ci_lisp::parsers::CIStreamingLexer;

fn typed(text: &str) -> LispEvalBlock {
    let mut block = LispEvalBlock::default();
    block.insert_text(text);
    block
}

fn state(block: &LispEvalBlock) -> (String, usize) {
    (block.get_input_text(), block.cursor_pos())
}

#[test]
fn plain_characters_are_put_in_at_the_cursor() {
    let mut block = typed("ac");
    block.handle_input(EditEvent::Left);
    block.insert_char('b');
    assert_eq!(state(&block), ("abc".to_string(), 2));
}

#[test]
fn an_opener_brings_its_closer() {
    assert_eq!(state(&typed("(")), ("()".to_string(), 1));
    assert_eq!(state(&typed("[")), ("[]".to_string(), 1));
    assert_eq!(state(&typed("{")), ("{}".to_string(), 1));
    assert_eq!(state(&typed("\"")), ("\"\"".to_string(), 1));
    assert_eq!(state(&typed("(a")), ("(a)".to_string(), 2));
}

#[test]
fn a_closer_steps_over_itself() {
    assert_eq!(state(&typed("(a)")), ("(a)".to_string(), 3));
    assert_eq!(state(&typed("{[]}")), ("{[]}".to_string(), 4));
    assert_eq!(state(&typed("a)")), ("a)".to_string(), 2));
    assert_eq!(state(&typed("(]")), ("(])".to_string(), 2));
}

#[test]
fn backspace_between_a_pair_takes_both() {
    let mut block = typed("(");
    block.handle_backspace();
    assert_eq!(state(&block), (String::new(), 0));
    let mut block = typed("a\"");
    block.handle_backspace();
    assert_eq!(state(&block), ("a".to_string(), 1));
}

#[test]
fn backspace_elsewhere_takes_one() {
    let mut block = typed("ab");
    block.handle_backspace();
    assert_eq!(state(&block), ("a".to_string(), 1));
    let mut block = typed("(a");
    block.handle_backspace();
    assert_eq!(state(&block), ("()".to_string(), 1));
    let mut block = typed("(a)");
    block.handle_backspace();
    assert_eq!(state(&block), ("(a".to_string(), 2));
}

#[test]
fn backspace_at_the_start_does_nothing() {
    let mut block = typed("ab");
    block.handle_input(EditEvent::Left);
    block.handle_input(EditEvent::Left);
    block.handle_input(EditEvent::Backspace);
    assert_eq!(state(&block), ("ab".to_string(), 0));
}

#[test]
fn the_cursor_stays_in_the_text() {
    let mut block = typed("ab");
    block.handle_input(EditEvent::Right);
    assert_eq!(block.cursor_pos(), 2);
    block.handle_input(EditEvent::Left);
    block.handle_input(EditEvent::Left);
    block.handle_input(EditEvent::Left);
    assert_eq!(block.cursor_pos(), 0);
    block.handle_input(EditEvent::Right);
    assert_eq!(block.cursor_pos(), 1);
}

#[test]
fn clear_empties_the_block() {
    let mut block = typed("(a b)");
    block.handle_input(EditEvent::Clear);
    assert_eq!(state(&block), (String::new(), 0));
}

#[test]
fn set_input_text_keeps_the_cursor_in_the_text() {
    let mut block = typed("abcdef");
    block.set_input_text("xy".to_string());
    assert_eq!(state(&block), ("xy".to_string(), 2));
    let mut block = typed("a");
    block.set_input_text("wxyz".to_string());
    assert_eq!(state(&block), ("wxyz".to_string(), 1));
}

#[test]
fn tokens_are_spaced_for_reading() {
    let tokens = CIStreamingLexer::default()
        .parse("(add  2 {3 mul 4})x".to_string())
        .unwrap();
    let mut line = String::new();
    for i in 0..tokens.len() {
        line.push_str(&LispEvalBlock::token_str(i, &tokens));
    }
    assert_eq!(line, "(add 2 {3 mul 4}) x ");
    assert_eq!(LispEvalBlock::token_str(0, &tokens), "(");
    assert_eq!(LispEvalBlock::token_str(1, &tokens), "add ");
    assert_eq!(LispEvalBlock::token_str(6, &tokens), "4");
    assert_eq!(LispEvalBlock::token_str(7, &tokens), "}");
    assert_eq!(LispEvalBlock::token_str(8, &tokens), ") ");
}

#[test]
fn a_new_editor_has_one_selected_block() {
    let editor = LispEditor::new();
    assert_eq!(editor.len(), 1);
    assert_eq!(editor.selected_block(), 0);
    assert_eq!(editor.text_of(0), "");
}

#[test]
fn blocks_are_added_at_the_end_and_selected() {
    let mut editor = LispEditor::new();
    editor.add_block();
    editor.add_block();
    assert_eq!(editor.len(), 3);
    assert_eq!(editor.selected_block(), 2);
}

#[test]
fn selection_goes_round() {
    let mut editor = LispEditor::new();
    editor.add_block();
    editor.add_block();
    editor.next_block();
    assert_eq!(editor.selected_block(), 0);
    editor.next_block();
    assert_eq!(editor.selected_block(), 1);
    editor.prev_block();
    editor.prev_block();
    assert_eq!(editor.selected_block(), 2);
    editor.select_block(1);
    assert_eq!(editor.selected_block(), 1);
}

#[test]
fn removing_selects_the_block_that_takes_the_place() {
    let mut editor = LispEditor::new();
    editor.handle_input(EditEvent::Text("a".to_string()));
    editor.add_block();
    editor.handle_input(EditEvent::Text("b".to_string()));
    editor.add_block();
    editor.handle_input(EditEvent::Text("c".to_string()));
    editor.select_block(1);
    editor.rm_cur_block();
    assert_eq!(editor.len(), 2);
    assert_eq!(editor.selected_block(), 1);
    assert_eq!(editor.text_of(1), "c");
    editor.rm_cur_block();
    assert_eq!(editor.len(), 1);
    assert_eq!(editor.selected_block(), 0);
    assert_eq!(editor.text_of(0), "a");
}

#[test]
fn typing_goes_to_the_selected_block() {
    let mut editor = LispEditor::new();
    editor.add_block();
    editor.handle_input(EditEvent::Text("(x".to_string()));
    assert_eq!(editor.text_of(0), "");
    assert_eq!(editor.text_of(1), "(x)");
    assert_eq!(editor.cursor_of(1), 2);
}
