use bfpp::lexer::{LexError, Lexer};
use bfpp::op::Op;

fn chars(text: &str) -> Vec<char> {
    text.chars().collect()
}

fn lex(text: &str) -> Vec<Op> {
    Lexer::new(chars(text)).run()
}

#[test]
fn folds_a_run_into_one_instruction() {
    assert_eq!(lex("+++++"), vec![Op::ValueInc(5)]);
    assert_eq!(lex("---"), vec![Op::ValueDec(3)]);
    assert_eq!(lex(">>>>"), vec![Op::PointerInc(4)]);
    assert_eq!(lex("<"), vec![Op::PointerDec(1)]);
}

#[test]
fn folds_a_long_run() {
    let text: String = std::iter::repeat('+').take(1000).collect();
    assert_eq!(lex(&text), vec![Op::ValueInc(1000)]);
}

#[test]
fn keeps_adjacent_runs_apart() {
    assert_eq!(lex("+++--"), vec![Op::ValueInc(3), Op::ValueDec(2)]);
    assert_eq!(lex("><<"), vec![Op::PointerInc(1), Op::PointerDec(2)]);
    assert_eq!(lex("+>+"), vec![Op::ValueInc(1), Op::PointerInc(1), Op::ValueInc(1)]);
}

#[test]
fn a_blank_ends_a_run() {
    assert_eq!(lex("++ ++"), vec![Op::ValueInc(2), Op::ValueInc(2)]);
    assert_eq!(lex("+\n+"), vec![Op::ValueInc(1), Op::ValueInc(1)]);
}

#[test]
fn skips_blanks() {
    assert_eq!(lex(" \t\r\n"), vec![]);
    assert_eq!(lex(""), vec![]);
    assert_eq!(lex("  .  "), vec![Op::Output]);
}

#[test]
fn gives_one_instruction_for_each_single_symbol() {
    assert_eq!(lex(".,[]"), vec![Op::Output, Op::Input, Op::LLoop, Op::RLoop]);
    assert_eq!(lex(".."), vec![Op::Output, Op::Output]);
    assert_eq!(lex("[["), vec![Op::LLoop, Op::LLoop]);
}

#[test]
fn takes_other_characters_as_procedure_names() {
    assert_eq!(lex("!@!"), vec![Op::Proc('!'), Op::Proc('@'), Op::Proc('!')]);
    assert_eq!(lex("!!"), vec![Op::Proc('!'), Op::Proc('!')]);
    assert_eq!(lex("\u{2192}_"), vec![Op::Proc('\u{2192}'), Op::Proc('_')]);
}

#[test]
fn no_instruction_carries_a_run_of_zero() {
    for op in lex("+ - > < ++--  >><< .,[]!") {
        match op {
            Op::PointerInc(n) | Op::PointerDec(n) | Op::ValueInc(n) | Op::ValueDec(n) => {
                assert!(n >= 1)
            }
            _ => {}
        }
    }
}

#[test]
fn rejects_an_alphanumeric_character() {
    let mut lexer = Lexer::new(chars("+ a"));
    assert_eq!(
        lexer.try_run(),
        Err(LexError::IllegalCharacter { position: 2, character: 'a' })
    );
    let mut lexer = Lexer::new(chars("7"));
    assert_eq!(
        lexer.try_run(),
        Err(LexError::IllegalCharacter { position: 0, character: '7' })
    );
    let mut lexer = Lexer::new(chars("+.\u{e9}"));
    assert_eq!(
        lexer.try_run(),
        Err(LexError::IllegalCharacter { position: 2, character: '\u{e9}' })
    );
}

#[test]
fn reports_the_first_illegal_character() {
    let mut lexer = Lexer::new(chars("++x+y"));
    assert_eq!(lexer.first_illegal(), Some(2));
    assert_eq!(
        lexer.try_run(),
        Err(LexError::IllegalCharacter { position: 2, character: 'x' })
    );
    assert_eq!(Lexer::new(chars("+-<>.,[]!? \n")).first_illegal(), None);
}

#[test]
fn a_failed_try_run_leaves_the_cursor() {
    let mut lexer = Lexer::new(chars("+q"));
    assert!(lexer.try_run().is_err());
    assert_eq!(lexer.peek(), Some(&'+'));
    assert_eq!(lexer.get_op(), Some(Op::ValueInc(1)));
}

#[test]
fn try_run_reads_a_legal_source() {
    let mut lexer = Lexer::new(chars("+[-]!"));
    assert_eq!(
        lexer.try_run(),
        Ok(vec![Op::ValueInc(1), Op::LLoop, Op::ValueDec(1), Op::RLoop, Op::Proc('!')])
    );
    assert_eq!(lexer.peek(), None);
}

#[test]
fn first_illegal_looks_from_the_cursor_on() {
    let mut lexer = Lexer::new(chars("a+b"));
    assert_eq!(lexer.eat(), Some(&'a'));
    assert_eq!(lexer.first_illegal(), Some(2));
}

#[test]
fn peek_does_not_move() {
    let lexer = Lexer::new(chars("+-"));
    assert_eq!(lexer.peek(), Some(&'+'));
    assert_eq!(lexer.peek(), Some(&'+'));
    assert_eq!(Lexer::new(Vec::new()).peek(), None);
}

#[test]
fn eat_moves_by_one() {
    let mut lexer = Lexer::new(chars("+-"));
    assert_eq!(lexer.eat(), Some(&'+'));
    assert_eq!(lexer.eat(), Some(&'-'));
    assert_eq!(lexer.eat(), None);
    assert_eq!(lexer.eat(), None);
    assert_eq!(lexer.peek(), None);
}

#[test]
fn eat_while_same_stops_at_another_character() {
    let mut lexer = Lexer::new(chars("+++-"));
    assert_eq!(lexer.eat_while_same(&'+'), Op::ValueInc(3));
    assert_eq!(lexer.peek(), Some(&'-'));
    assert_eq!(lexer.eat_while_same(&'-'), Op::ValueDec(1));
    assert_eq!(lexer.peek(), None);
}

#[test]
fn eat_while_same_names_the_instruction_by_the_symbol() {
    assert_eq!(Lexer::new(chars(">>")).eat_while_same(&'>'), Op::PointerInc(2));
    assert_eq!(Lexer::new(chars("<<<")).eat_while_same(&'<'), Op::PointerDec(3));
    let mut lexer = Lexer::new(chars("+"));
    assert_eq!(lexer.eat_while_same(&'>'), Op::PointerInc(0));
    assert_eq!(lexer.peek(), Some(&'+'));
}

#[test]
fn get_op_reads_one_instruction_at_a_time() {
    let mut lexer = Lexer::new(chars("  ++ [ ."));
    assert_eq!(lexer.get_op(), Some(Op::ValueInc(2)));
    assert_eq!(lexer.peek(), Some(&' '));
    assert_eq!(lexer.get_op(), Some(Op::LLoop));
    assert_eq!(lexer.get_op(), Some(Op::Output));
    assert_eq!(lexer.get_op(), None);
    assert_eq!(lexer.get_op(), None);
}

#[test]
fn get_op_skips_trailing_blanks() {
    let mut lexer = Lexer::new(chars("+  \n"));
    assert_eq!(lexer.get_op(), Some(Op::ValueInc(1)));
    assert_eq!(lexer.get_op(), None);
    assert_eq!(lexer.peek(), None);
}

#[test]
fn run_goes_on_from_the_cursor() {
    let mut lexer = Lexer::new(chars("+-."));
    assert_eq!(lexer.get_op(), Some(Op::ValueInc(1)));
    assert_eq!(lexer.run(), vec![Op::ValueDec(1), Op::Output]);
    assert_eq!(lexer.run(), vec![]);
}

#[test]
fn eat_moves_the_cursor_past_the_end() {
    let mut lexer = Lexer::new(chars("+"));
    assert_eq!(lexer.eat(), Some(&'+'));
    assert_eq!(lexer.eat(), None);
    assert_eq!(lexer.eat(), None);
    assert_eq!(lexer.peek(), None);
    assert_eq!(lexer.get_op(), None);
    assert_eq!(lexer.first_illegal(), None);
    assert_eq!(lexer.eat_while_same(&'+'), Op::ValueInc(0));
    assert_eq!(lexer.run(), vec![]);
    assert_eq!(lexer.try_run(), Ok(vec![]));
}

#[test]
fn among_the_first_128_characters_digits_and_letters_are_illegal() {
    for code in 0u8..128 {
        let c = char::from(code);
        let digit_or_letter = matches!(c, '0'..='9' | 'A'..='Z' | 'a'..='z');
        let found = Lexer::new(vec![c]).first_illegal();
        assert_eq!(found, if digit_or_letter { Some(0) } else { None }, "{:?}", c);
        let outcome = Lexer::new(vec!['+', c]).try_run();
        if digit_or_letter {
            assert_eq!(outcome, Err(LexError::IllegalCharacter { position: 1, character: c }));
        } else {
            assert!(outcome.is_ok(), "{:?}", c);
        }
    }
}
