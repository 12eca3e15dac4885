use cnone::ast::block::Block;
use cnone::ast::declarations::{Decl, FunctionDecl, VaribleDecl};
use cnone::ast::expr::Expr;
use cnone::ast::operators::{BinaryOp, UnaryOp};
use cnone::ast::program::Program;
use cnone::ast::stmt::Stmt;
use cnone::ast::Parser;
use cnone::ast::Type;
use cnone::ir::code_generator::CodeGenerator;
use cnone::lexer::{get_tokens, Lexer};
use cnone::preprocessor::{PreprocessError, Preprocessor};

fn run_preprocessor(source: &str) -> Result<String, PreprocessError> {
    let included: Vec<String> = Vec::new();
    let mut p = Preprocessor::new(source);
    match p.try_preprocess(&included) {
        Ok(()) => {
            let mut q = Preprocessor::new(source);
            Ok(q.preprocess(&included).to_string())
        }
        Err(e) => Err(e),
    }
}

fn main_with(stmts: Vec<Stmt>) -> Program {
    Program {
        decls: vec![Decl::Function(FunctionDecl {
            return_type: Type::Int,
            name: "main".to_string(),
            params: vec![],
            body: Some(Block { stmts }),
        })],
    }
}

fn binary(op: BinaryOp, l: i64, r: i64) -> Stmt {
    Stmt::Expr(Expr::BinaryExp(op, Box::new(Expr::Integer(l)), Box::new(Expr::Integer(r))))
}

fn parse(source: &str) -> Option<Program> {
    let mut lexer = Lexer::new(source);
    let tokens = get_tokens(&mut lexer).unwrap();
    let mut parser = Parser::new(tokens);
    parser.try_parse()
}

fn bytecode(source: &str) -> Vec<String> {
    let program = parse(source).unwrap();
    let mut generator = CodeGenerator::new(program);
    let code = generator.generate().unwrap();
    code.iter().map(|i| format!("{:?}", i)).collect()
}

#[test]
fn comments_are_removed_and_lines_kept() {
    let source = "a // one\nb /* two\nthree */ c\n";
    let out = run_preprocessor(source).unwrap();
    assert_eq!(out, "a \nb \n c\n");
    assert_eq!(out.matches('\n').count(), source.matches('\n').count());
}

#[test]
fn unterminated_comment_is_an_error() {
    assert_eq!(run_preprocessor("a /* b"), Err(PreprocessError::UnterminatedComment));
}

#[test]
fn define_replaces_whole_words() {
    let out = run_preprocessor("#define N 10\nint x = N;\nint NN = N1;\n").unwrap();
    assert_eq!(out, "int x = 10;\nint NN = N1;\n");
}

#[test]
fn defined_name_is_seen_by_ifdef() {
    let out = run_preprocessor("#define A 1\n#ifdef A\nyes\n#else\nno\n#endif\n").unwrap();
    assert_eq!(out, "yes\n");
}

#[test]
fn undefined_name_is_gone() {
    let out = run_preprocessor("#define A 1\n#undef A\n#ifdef A\nyes\n#else\nno\n#endif\n").unwrap();
    assert_eq!(out, "no\n");
}

#[test]
fn ifndef_takes_its_branch_for_an_unknown_name() {
    let out = run_preprocessor("#ifndef B\nkept\n#endif\nafter\n").unwrap();
    assert_eq!(out, "kept\nafter\n");
}

#[test]
fn conditional_errors() {
    assert_eq!(run_preprocessor("#endif\n"), Err(PreprocessError::EndifWithoutIf));
    assert_eq!(run_preprocessor("#else\n"), Err(PreprocessError::ElseWithoutIf));
    assert_eq!(run_preprocessor("#elif\n"), Err(PreprocessError::ElifWithoutIf));
    assert_eq!(run_preprocessor("#ifdef A\nx\n"), Err(PreprocessError::UnterminatedIf));
    assert_eq!(run_preprocessor("#if 1\n#endif\n"), Err(PreprocessError::UnsupportedIf));
    assert_eq!(run_preprocessor("#pragma once\n"), Err(PreprocessError::UnknownDirective));
    assert_eq!(run_preprocessor("#undef\n"), Err(PreprocessError::UndefWithoutName));
}

#[test]
fn include_paths_and_included_text() {
    let source = "#include \"a.h\"\n#include <b.h>\nint x;\n";
    let p = Preprocessor::new(source);
    assert_eq!(p.include_paths(), vec!["a.h".to_string(), "b.h".to_string()]);
    let mut p = Preprocessor::new(source);
    let included = vec!["int a;\n".to_string(), "int b;\n".to_string()];
    let out = p.preprocess(&included).to_string();
    assert_eq!(out, "int a;\nint b;\nint x;\n");
}

#[test]
fn parses_a_variable_with_precedence() {
    let program = parse("int x = 1 + 2 * 3;").unwrap();
    let expected = Program {
        decls: vec![Decl::Varible(VaribleDecl {
            typ: Type::Int,
            name: "x".to_string(),
            init: Some(Expr::BinaryExp(
                BinaryOp::Add,
                Box::new(Expr::Integer(1)),
                Box::new(Expr::BinaryExp(
                    BinaryOp::Mul,
                    Box::new(Expr::Integer(2)),
                    Box::new(Expr::Integer(3)),
                )),
            )),
        })],
    };
    assert_eq!(program, expected);
}

#[test]
fn parses_a_function_with_a_call() {
    let program = parse("int main() { ECHO(7); }").unwrap();
    assert_eq!(program.decls.len(), 1);
    match &program.decls[0] {
        Decl::Function(FunctionDecl { name, params, body, .. }) => {
            assert_eq!(name, "main");
            assert!(params.is_empty());
            let body = body.as_ref().unwrap();
            assert_eq!(
                body.stmts,
                vec![Stmt::Expr(Expr::CallFunction("ECHO".to_string(), vec![Expr::Integer(7)]))]
            );
        }
        other => panic!("not a function: {:?}", other),
    }
}

#[test]
fn function_keyword_is_not_a_type() {
    assert_eq!(parse("function main () { }"), None);
}

#[test]
fn generates_a_global_and_an_echo() {
    let code = bytecode("int x = 5;\nint main() { ECHO(1 + 2); }");
    assert_eq!(
        code,
        vec![
            "PUSH(Value { typ: INT, content: 5, extend: None, length: None })",
            "STORE(2)",
            "PUSH(Value { typ: INT, content: 1, extend: None, length: None })",
            "PUSH(Value { typ: INT, content: 2, extend: None, length: None })",
            "ADD",
            "CALL(\"ECHO\")",
        ]
    );
}

#[test]
fn generates_a_default_value_and_a_load() {
    let code = bytecode("int main() { float f; f; }");
    assert_eq!(
        code,
        vec![
            "PUSH(Value { typ: FLOAT, content: 0, extend: Some(0), length: Some(1) })",
            "STORE(2)",
            "LOAD(2)",
        ]
    );
}

#[test]
fn generates_an_assignment_and_a_jump() {
    let code = bytecode("int x;\nint main() { x = 'A'; run(); }");
    assert_eq!(
        code,
        vec![
            "PUSH(Value { typ: INT, content: 0, extend: None, length: None })",
            "STORE(1)",
            "PUSH(Value { typ: CHAR, content: 65, extend: None, length: None })",
            "PUSH(Value { typ: INT, content: 0, extend: None, length: None })",
            "STORE(4)",
            "JUMP(FunctionLabel { name: \"run\", position: 7, instructions: [] })",
        ]
    );
}

#[test]
fn generates_a_string_last_character_first() {
    let code = bytecode("int main() { \"ab\"; }");
    assert_eq!(
        code,
        vec![
            "PUSH(Value { typ: CHAR, content: 98, extend: None, length: None })",
            "PUSH(Value { typ: CHAR, content: 97, extend: None, length: None })",
        ]
    );
}

#[test]
fn generates_a_floating_constant() {
    let code = bytecode("int main() { 2.05; }");
    assert_eq!(
        code,
        vec!["PUSH(Value { typ: FLOAT, content: 2, extend: Some(5), length: Some(2) })"]
    );
}

#[test]
fn and_is_generated_as_a_product() {
    let mut generator = CodeGenerator::new(main_with(vec![binary(BinaryOp::And, 1, 0)]));
    let code = generator.generate().unwrap();
    assert_eq!(format!("{:?}", code.last().unwrap()), "MUL");
}

fn program_error(program: Program) -> (u32, String) {
    let mut generator = CodeGenerator::new(program);
    let e = generator.generate().unwrap_err();
    (e.code, e.msg)
}

fn generation_error(source: &str) -> (u32, String) {
    program_error(parse(source).unwrap())
}

#[test]
fn generation_errors() {
    assert_eq!(generation_error("int main() { x = 1; }"), (2, "Undefined Variable".to_string()));
    let assign_to_constant =
        Stmt::Expr(Expr::Assign(Box::new(Expr::Integer(1)), Box::new(Expr::Integer(2))));
    assert_eq!(
        program_error(main_with(vec![assign_to_constant])),
        (3, "Left expr should be a identifier".to_string())
    );
    assert_eq!(generation_error("int main() { y; }"), (4, "Undefined Variable".to_string()));
    let negation = Stmt::Expr(Expr::UnaryExp(UnaryOp::Neg, Box::new(Expr::Integer(1))));
    assert_eq!(program_error(main_with(vec![negation])), (6, "Unsupported Expr".to_string()));
    assert_eq!(generation_error("int a;\nint a;"), (7, "Existed Variable".to_string()));
    assert_eq!(
        program_error(main_with(vec![Stmt::Break])),
        (1, "Unsupported Statement Exception".to_string())
    );
}

#[test]
fn untranslated_statements_give_none() {
    let program = parse("int main() { if (1) { } }").unwrap();
    let mut generator = CodeGenerator::new(program);
    assert!(generator.try_generate().is_none());
    let mut generator = CodeGenerator::new(main_with(vec![binary(BinaryOp::BitOr, 1, 2)]));
    assert!(generator.try_generate().is_none());
}

#[test]
fn earlier_code_stays_in_front() {
    let program = parse("int main() { ECHO(1); }").unwrap();
    let mut generator = CodeGenerator::new(program);
    let first = generator.generate().unwrap();
    let second = generator.generate().unwrap();
    assert_eq!(first.len(), 2);
    assert_eq!(second.len(), 4);
    for k in 0..first.len() {
        assert_eq!(format!("{:?}", first[k]), format!("{:?}", second[k]));
    }
}

#[test]
fn test_ast() {
    let mut lexer = Lexer::new(
        r#"
    function main(){
        int a= 9;
        print(a);
    }
    "#,
    );
    let mut tokens = Vec::new();
    loop {
        let token = lexer.get_next_token();
        tokens.push(token.clone());
        if token.get_token_type() == cnone::lexer::TokenType::EOF {
            break;
        }
    }
    let mut parser = Parser::new(tokens);
    let program = parser.try_parse();
    println!("{:#?}", program);
    // `function` is a keyword, not a type: the declaration does not parse.
    assert!(program.is_none());
}

#[test]
fn tilde_is_bitwise_not_and_double_ampersand_is_and() {
    let program = parse("int x = ~a && b;").unwrap();
    let expected = Program {
        decls: vec![Decl::Varible(VaribleDecl {
            typ: Type::Int,
            name: "x".to_string(),
            init: Some(Expr::BinaryExp(
                BinaryOp::And,
                Box::new(Expr::UnaryExp(UnaryOp::BitNot, Box::new(Expr::Identifier("a".to_string())))),
                Box::new(Expr::Identifier("b".to_string())),
            )),
        })],
    };
    assert_eq!(program, expected);
}

#[test]
fn parsed_and_is_generated_as_a_product() {
    let code = bytecode("int main() { 1 && 0; }");
    assert_eq!(code.last().unwrap(), "MUL");
}

#[test]
fn a_plain_source_comes_out_line_by_line() {
    let out = run_preprocessor("int a;\n  b = c;\nx").unwrap();
    assert_eq!(out, "int a;\n  b = c;\nx\n");
}

#[test]
fn no_comment_is_left_behind() {
    let out = run_preprocessor("a /**/ / b // c\n/*x*/ / /").unwrap();
    assert!(!out.contains("//"));
    assert!(!out.contains("/*"));
    assert_eq!(out, "a   / b \n  / /\n");
}

#[test]
fn replacing_a_name_by_itself_or_an_absent_name_changes_nothing() {
    let out = run_preprocessor("#define N N\n#define M 3\nint N1 = N;\n").unwrap();
    assert_eq!(out, "int N1 = N;\n");
}

#[test]
fn undef_undoes_a_define() {
    let out = run_preprocessor("#define A 1\n#undef A\nA\n").unwrap();
    assert_eq!(out, "A\n");
}
