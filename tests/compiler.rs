use equation_parser::{CompileError, Compiler, OptionalSymbols, TokenizerError};
use regex::escape;
use std::error::Error;

#[derive(Debug, Hash, Clone, Copy, Eq, PartialEq)]
enum Tokens {
    OpenBrackets,
    CloseBrackets,
    Add,
    Sub,
    Mul,
    Div,
    Pow,
    Log,
    Ln,
    Cos,
    Sin,
    Comma,
    Float,
    Int,
    Var,
    Param,
}

#[derive(Debug, Hash, Clone, Copy, Eq, PartialEq)]
enum Symbol {
    Program,
    Value,
}

#[derive(Debug, PartialEq)]
enum Operators {
    Add,
    Sub,
    Mul,
    Div,
    Pow,
}

#[derive(Debug, PartialEq)]
enum MathematicalFunctions {
    Ln,
    Cos,
    Sin,
}

#[derive(Debug, PartialEq)]
enum Node {
    Operator(Operators, Box<Node>, Box<Node>),
    Functions(MathematicalFunctions, Box<Node>),
    Var,
    Param(String),
    Scalar(f32),
}

#[derive(Debug)]
enum CompilerError {
    OperatorWithOperator,
    NotEnoughItems,
}

impl std::fmt::Display for CompilerError {
    fn fmt(&self, f: &mut std::fmt::Formatter<'_>) -> std::fmt::Result {
        match self {
            CompilerError::OperatorWithOperator => f.write_str("error"),
            CompilerError::NotEnoughItems => f.write_str("error"),
        }
    }
}
impl Error for CompilerError {}

#[derive(Debug)]
enum NodeResult {
    Function(MathematicalFunctions),
    Operator(Operators),
    Node(Node),
    Log,
    OpenBrackets,
    CloseBrackets,
    Comma,
}

type Reducer = fn(Vec<NodeResult>) -> Result<NodeResult, Box<dyn Error>>;
type TokenValue = fn(Tokens, &str) -> NodeResult;
type PatternType = (Symbol, Vec<OptionalSymbols<Symbol, Tokens>>, Reducer);

fn operator_pattern(mut items: Vec<NodeResult>) -> Result<NodeResult, Box<dyn Error>> {
    if items.len() != 3 {
        return Err(Box::new(CompilerError::NotEnoughItems));
    }
    let value2 = match items.pop().ok_or_else(|| CompilerError::NotEnoughItems)? {
        NodeResult::Node(e) => e,
        _ => return Err(Box::new(CompilerError::OperatorWithOperator)),
    };
    let op = match items.pop().ok_or_else(|| CompilerError::NotEnoughItems)? {
        NodeResult::Operator(e) => e,
        _ => return Err(Box::new(CompilerError::OperatorWithOperator)),
    };
    let value1 = match items.pop().ok_or_else(|| CompilerError::NotEnoughItems)? {
        NodeResult::Node(e) => e,
        _ => return Err(Box::new(CompilerError::OperatorWithOperator)),
    };
    Ok(NodeResult::Node(Node::Operator(op, Box::new(value1), Box::new(value2))))
}

fn func_pattern(mut items: Vec<NodeResult>) -> Result<NodeResult, Box<dyn Error>> {
    if items.len() != 4 {
        return Err(Box::new(CompilerError::NotEnoughItems));
    }
    match items.pop().ok_or_else(|| CompilerError::NotEnoughItems)? {
        NodeResult::CloseBrackets => {}
        _ => return Err(Box::new(CompilerError::OperatorWithOperator)),
    };
    let value = match items.pop().ok_or_else(|| CompilerError::NotEnoughItems)? {
        NodeResult::Node(e) => e,
        _ => return Err(Box::new(CompilerError::OperatorWithOperator)),
    };
    match items.pop().ok_or_else(|| CompilerError::NotEnoughItems)? {
        NodeResult::OpenBrackets => {}
        _ => return Err(Box::new(CompilerError::OperatorWithOperator)),
    };
    let function = match items.pop().ok_or_else(|| CompilerError::NotEnoughItems)? {
        NodeResult::Function(e) => e,
        _ => return Err(Box::new(CompilerError::OperatorWithOperator)),
    };
    Ok(NodeResult::Node(Node::Functions(function, Box::new(value))))
}

fn token_value(token: Tokens, word: &str) -> NodeResult {
    match token {
        Tokens::OpenBrackets => NodeResult::OpenBrackets,
        Tokens::CloseBrackets => NodeResult::CloseBrackets,
        Tokens::Add => NodeResult::Operator(Operators::Add),
        Tokens::Sub => NodeResult::Operator(Operators::Sub),
        Tokens::Mul => NodeResult::Operator(Operators::Mul),
        Tokens::Div => NodeResult::Operator(Operators::Div),
        Tokens::Pow => NodeResult::Operator(Operators::Pow),
        Tokens::Log => NodeResult::Log,
        Tokens::Ln => NodeResult::Function(MathematicalFunctions::Ln),
        Tokens::Cos => NodeResult::Function(MathematicalFunctions::Cos),
        Tokens::Sin => NodeResult::Function(MathematicalFunctions::Sin),
        Tokens::Comma => NodeResult::Comma,
        Tokens::Int => NodeResult::Node(Node::Scalar(word.trim().parse::<i32>().unwrap() as f32)),
        Tokens::Float => NodeResult::Node(Node::Scalar(word.trim().parse::<f32>().unwrap())),
        Tokens::Var => NodeResult::Node(Node::Var),
        Tokens::Param => NodeResult::Node(Node::Param(word.to_string())),
    }
}

fn binary(op: Tokens) -> PatternType {
    (
        Symbol::Value,
        vec![
            OptionalSymbols::Symbol(Symbol::Value),
            OptionalSymbols::Token(op),
            OptionalSymbols::Symbol(Symbol::Value),
        ],
        operator_pattern,
    )
}

fn log_to_node(val: Node, base: Node) -> Node {
    Node::Operator(
        Operators::Mul,
        Box::new(Node::Functions(MathematicalFunctions::Ln, Box::new(val))),
        Box::new(Node::Functions(MathematicalFunctions::Ln, Box::new(base))),
    )
}

fn log10_pattern(mut items: Vec<NodeResult>) -> Result<NodeResult, Box<dyn Error>> {
    if items.len() != 4 {
        return Err(Box::new(CompilerError::NotEnoughItems));
    }
    match items.pop().ok_or_else(|| CompilerError::NotEnoughItems)? {
        NodeResult::CloseBrackets => {}
        _ => return Err(Box::new(CompilerError::OperatorWithOperator)),
    };
    let value = match items.pop().ok_or_else(|| CompilerError::NotEnoughItems)? {
        NodeResult::Node(e) => e,
        _ => return Err(Box::new(CompilerError::OperatorWithOperator)),
    };
    match items.pop().ok_or_else(|| CompilerError::NotEnoughItems)? {
        NodeResult::OpenBrackets => {}
        _ => return Err(Box::new(CompilerError::OperatorWithOperator)),
    };
    match items.pop().ok_or_else(|| CompilerError::NotEnoughItems)? {
        NodeResult::Log => {}
        _ => return Err(Box::new(CompilerError::OperatorWithOperator)),
    };
    Ok(NodeResult::Node(log_to_node(value, Node::Scalar(10f32))))
}

fn log_pattern(mut items: Vec<NodeResult>) -> Result<NodeResult, Box<dyn Error>> {
    if items.len() != 4 {
        return Err(Box::new(CompilerError::NotEnoughItems));
    }
    match items.pop().ok_or_else(|| CompilerError::NotEnoughItems)? {
        NodeResult::CloseBrackets => {}
        _ => return Err(Box::new(CompilerError::OperatorWithOperator)),
    };
    let base = match items.pop().ok_or_else(|| CompilerError::NotEnoughItems)? {
        NodeResult::Node(e) => e,
        _ => return Err(Box::new(CompilerError::OperatorWithOperator)),
    };
    match items.pop().ok_or_else(|| CompilerError::NotEnoughItems)? {
        NodeResult::Comma => {}
        _ => return Err(Box::new(CompilerError::OperatorWithOperator)),
    };
    let value = match items.pop().ok_or_else(|| CompilerError::NotEnoughItems)? {
        NodeResult::Node(e) => e,
        _ => return Err(Box::new(CompilerError::OperatorWithOperator)),
    };
    match items.pop().ok_or_else(|| CompilerError::NotEnoughItems)? {
        NodeResult::OpenBrackets => {}
        _ => return Err(Box::new(CompilerError::OperatorWithOperator)),
    };
    match items.pop().ok_or_else(|| CompilerError::NotEnoughItems)? {
        NodeResult::Log => {}
        _ => return Err(Box::new(CompilerError::OperatorWithOperator)),
    };
    Ok(NodeResult::Node(log_to_node(value, base)))
}

fn bracketed(head: Tokens, reducer: Reducer) -> PatternType {
    (
        Symbol::Value,
        vec![
            OptionalSymbols::Token(head),
            OptionalSymbols::Token(Tokens::OpenBrackets),
            OptionalSymbols::Symbol(Symbol::Value),
            OptionalSymbols::Token(Tokens::OpenBrackets),
        ],
        reducer,
    )
}

fn leaf(token: Tokens) -> PatternType {
    (Symbol::Value, vec![OptionalSymbols::Token(token)], |mut items| Ok(items.swap_remove(0)))
}

fn create_compiler() -> Compiler<Tokens, Symbol, NodeResult, Box<dyn Error>, Reducer, TokenValue>
{
    let tokens: Vec<(Tokens, String)> = vec![
        (Tokens::CloseBrackets, escape(")")),
        (Tokens::OpenBrackets, escape("(")),
        (Tokens::Mul, escape("*")),
        (Tokens::Div, escape("/")),
        (Tokens::Add, escape("+")),
        (Tokens::Sub, escape("-")),
        (Tokens::Pow, escape("^")),
        (Tokens::Log, escape("log")),
        (Tokens::Ln, escape("ln")),
        (Tokens::Cos, escape("cos")),
        (Tokens::Sin, escape("sin")),
        (Tokens::Comma, escape(",")),
        (Tokens::Float, String::from("\\d+\\.\\d+")),
        (Tokens::Int, String::from("\\d+")),
        (Tokens::Var, escape("t")),
        (Tokens::Param, String::from("[a-z|A-Z][a-z|A-z|0-9|_|-]*")),
    ];

    let patterns: Vec<PatternType> = vec![
        (
            Symbol::Program,
            vec![OptionalSymbols::Symbol(Symbol::Value), OptionalSymbols::EOF],
            |mut items| Ok(items.swap_remove(0)),
        ),
        binary(Tokens::Add),
        binary(Tokens::Sub),
        binary(Tokens::Mul),
        binary(Tokens::Div),
        binary(Tokens::Pow),
        bracketed(Tokens::Log, log10_pattern),
        (
            Symbol::Value,
            vec![
                OptionalSymbols::Token(Tokens::Log),
                OptionalSymbols::Token(Tokens::OpenBrackets),
                OptionalSymbols::Symbol(Symbol::Value),
                OptionalSymbols::Token(Tokens::Comma),
                OptionalSymbols::Symbol(Symbol::Value),
                OptionalSymbols::Token(Tokens::OpenBrackets),
            ],
            log_pattern,
        ),
        bracketed(Tokens::Ln, func_pattern),
        bracketed(Tokens::Sin, func_pattern),
        bracketed(Tokens::Cos, func_pattern),
        (
            Symbol::Value,
            vec![
                OptionalSymbols::Token(Tokens::OpenBrackets),
                OptionalSymbols::Symbol(Symbol::Value),
                OptionalSymbols::Token(Tokens::OpenBrackets),
            ],
            |mut items| Ok(items.swap_remove(1)),
        ),
        leaf(Tokens::Int),
        leaf(Tokens::Float),
        leaf(Tokens::Param),
        leaf(Tokens::Var),
    ];

    Compiler::new(
        tokens,
        vec![" ", "\n", "\t"],
        patterns,
        Symbol::Program,
        token_value as TokenValue,
    )
    .unwrap()
}

#[test]
fn test_compile_scalar() {
    let compiler = create_compiler();

    let t = compiler.compile("5").unwrap();
    let t = match t {
        NodeResult::Node(e) => e,
        _ => panic!("error"),
    };
    assert_eq!(t, Node::Scalar(5f32));
}

#[test]
fn test_compile_add() {
    let compiler = create_compiler();

    let t = compiler.compile("5.0+5.0").unwrap();
    let t = match t {
        NodeResult::Node(e) => e,
        _ => panic!("error"),
    };
    assert_eq!(
        t,
        Node::Operator(
            Operators::Add,
            Box::new(Node::Scalar(5f32)),
            Box::new(Node::Scalar(5f32))
        )
    );
}

#[test]
fn compile_reports_tokenizer_failure() {
    let compiler = create_compiler();
    match compiler.compile("5 $ 3") {
        Err(CompileError::Tokenizer(TokenizerError::NoMatchError(s))) => assert_eq!(s, "$ 3"),
        _ => panic!("error"),
    }
}

#[test]
fn compile_reports_trailing_tokens() {
    let compiler = create_compiler();
    assert!(matches!(compiler.compile("5 5"), Err(CompileError::Analyze(_))));
}

#[derive(Debug, Clone, Copy, PartialEq, Eq)]
enum Lex {
    RParen,
    LParen,
    Plus,
    Num,
}

#[derive(Debug, Clone, Copy, PartialEq, Eq)]
enum Nt {
    Program,
    Value,
}

#[derive(Debug, PartialEq)]
enum Tree {
    Num(i64),
    Add(Box<Tree>, Box<Tree>),
    Mark,
}

type TreeReducer = fn(Vec<Tree>) -> Result<Tree, String>;

fn tree_token(token: Lex, word: &str) -> Tree {
    match token {
        Lex::Num => Tree::Num(word.parse::<i64>().unwrap()),
        _ => Tree::Mark,
    }
}

#[test]
fn parenthesised_sum_end_to_end() {
    let tokens = vec![
        (Lex::RParen, String::from("\\)")),
        (Lex::LParen, String::from("\\(")),
        (Lex::Plus, String::from("\\+")),
        (Lex::Num, String::from("\\d+")),
    ];
    let grammar: Vec<(Nt, Vec<OptionalSymbols<Nt, Lex>>, TreeReducer)> = {
        vec![
            (Nt::Program, vec![OptionalSymbols::Symbol(Nt::Value), OptionalSymbols::EOF], |mut items| Ok(items.swap_remove(0))),
            (
                Nt::Value,
                vec![
                    OptionalSymbols::Symbol(Nt::Value),
                    OptionalSymbols::Token(Lex::Plus),
                    OptionalSymbols::Symbol(Nt::Value),
                ],
                |mut items| {
                    let right = items.pop().unwrap();
                    items.pop();
                    let left = items.pop().unwrap();
                    Ok(Tree::Add(Box::new(left), Box::new(right)))
                },
            ),
            (
                Nt::Value,
                vec![
                    OptionalSymbols::Token(Lex::LParen),
                    OptionalSymbols::Symbol(Nt::Value),
                    OptionalSymbols::Token(Lex::RParen),
                ],
                |mut items| Ok(items.swap_remove(1)),
            ),
            (Nt::Value, vec![OptionalSymbols::Token(Lex::Num)], |mut items| Ok(items.swap_remove(0))),
        ]
    };
    let compiler = Compiler::new(tokens, vec![" "], grammar, Nt::Program, tree_token).unwrap();
    assert_eq!(
        compiler.compile("(1+2)+3"),
        Ok(Tree::Add(
            Box::new(Tree::Add(Box::new(Tree::Num(1)), Box::new(Tree::Num(2)))),
            Box::new(Tree::Num(3))
        ))
    );
}
