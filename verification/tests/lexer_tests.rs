use cnone::lexer::keywords::Keyword;
use cnone::lexer::literalvalue::Literal;
use cnone::lexer::operators::Operator;
use cnone::lexer::symbols::Symbol;
use cnone::lexer::types::Type;
use cnone::lexer::{get_tokens, try_get_tokens, Lexer, TokenType};

#[test]
fn test_lexer() {
    let mut lexer = Lexer::new(r#"
    function main () {
        int a = 9;
        print(a);
    }
    function print(int args){
        if (a<0){echo("a>0");}
        else{}
        echo(a);
    }
    
    "#);
    let mut tokens = Vec::new();
    loop {
        let token = lexer.get_next_token();
        tokens.push(token.clone());
        if token.get_token_type() == TokenType::EOF {
            break;
        }
    }
    println!("{:#?}", tokens);
}

fn kinds(source: &str) -> Vec<TokenType> {
    let mut lexer = Lexer::new(source);
    get_tokens(&mut lexer).unwrap().iter().map(|t| t.get_token_type()).collect()
}

#[test]
fn lexes_a_declaration() {
    assert_eq!(
        kinds("int a = 9;"),
        vec![
            TokenType::Type(Type::Int),
            TokenType::Identifer("a".to_string()),
            TokenType::Operater(Operator::Assign),
            TokenType::Constant(Literal::Interage(9)),
            TokenType::Symbol(Symbol::Semicolon),
            TokenType::EOF,
        ]
    );
}

#[test]
fn two_character_operators_win() {
    assert_eq!(
        kinds("a+=b->c<<2"),
        vec![
            TokenType::Identifer("a".to_string()),
            TokenType::Operater(Operator::PlusAssign),
            TokenType::Identifer("b".to_string()),
            TokenType::Operater(Operator::Arrow),
            TokenType::Identifer("c".to_string()),
            TokenType::Operater(Operator::Shl),
            TokenType::Constant(Literal::Interage(2)),
            TokenType::EOF,
        ]
    );
}

#[test]
fn tilde_reads_as_bitwise_not() {
    assert_eq!(kinds("~"), vec![TokenType::Operater(Operator::Tilde), TokenType::EOF]);
    assert_eq!(kinds("!"), vec![TokenType::Operater(Operator::LogicNot), TokenType::EOF]);
}

#[test]
fn keywords_and_void() {
    assert_eq!(
        kinds("void function return"),
        vec![
            TokenType::Type(Type::Noreturn),
            TokenType::Keyword(Keyword::Function),
            TokenType::Keyword(Keyword::Return),
            TokenType::EOF,
        ]
    );
}

#[test]
fn numbers_floats_and_overflow() {
    assert_eq!(
        kinds("12.50 7. 99999999999999999999"),
        vec![
            TokenType::Constant(Literal::Float("12.50".to_string())),
            TokenType::Constant(Literal::Interage(7)),
            TokenType::Operater(Operator::Dot),
            TokenType::Constant(Literal::Interage(0)),
            TokenType::EOF,
        ]
    );
}

#[test]
fn strings_and_chars_with_escapes() {
    assert_eq!(
        kinds(r#""a\n\"b" '\t' 'x'"#),
        vec![
            TokenType::Constant(Literal::String("a\n\"b".to_string())),
            TokenType::Constant(Literal::Char('\t')),
            TokenType::Constant(Literal::Char('x')),
            TokenType::EOF,
        ]
    );
}

#[test]
fn token_position_is_where_the_lexer_stops() {
    let mut lexer = Lexer::new("ab\n  cd");
    let tokens = get_tokens(&mut lexer).unwrap();
    assert_eq!((tokens[0].get_line(), tokens[0].get_column()), (1, 3));
    assert_eq!((tokens[1].get_line(), tokens[1].get_column()), (2, 5));
    assert_eq!(tokens[2].get_token_type(), TokenType::EOF);
}

#[test]
fn unknown_character_is_refused() {
    let mut lexer = Lexer::new("a @ b");
    assert!(try_get_tokens(&mut lexer).is_none());
}

#[test]
fn tokens_end_with_a_single_eof() {
    let ks = kinds("int a = 1; char b;");
    assert_eq!(ks.last(), Some(&TokenType::EOF));
    assert_eq!(ks.iter().filter(|k| **k == TokenType::EOF).count(), 1);
    assert_eq!(kinds(""), vec![TokenType::EOF]);
}

#[test]
fn unicode_whitespace_separates_words() {
    let ks = kinds("a\u{3000}b\u{85}c");
    assert_eq!(ks.len(), 4);
    assert_eq!(ks[3], TokenType::EOF);
}
