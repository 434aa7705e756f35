use radix_engine::ast::{Fields, Instruction, Value};
use radix_engine::parser::{Parser, ParserError, Token, TokenKind};
use radix_engine::text::{address_from_text, decimal_from_text};
use radix_engine::types::{AddressKind, Bid, Decimal, Rid};

fn toks(kinds: Vec<TokenKind>) -> Vec<Token> {
    kinds
        .into_iter()
        .enumerate()
        .map(|(i, kind)| Token { kind, start: i, end: i + 1 })
        .collect()
}

fn s(v: &str) -> TokenKind {
    TokenKind::String(v.to_string())
}

const ACCOUNT: &str = "02000102030405060708090a0b0c0d0e0f10111213141516171819";
const RESOURCE: &str = "03ffffffffffffffffffffffffffffffffffffffffffffffffffff";

fn address(text: &str) -> Vec<TokenKind> {
    vec![TokenKind::Address, TokenKind::OpenParenthesis, s(text), TokenKind::CloseParenthesis]
}

fn decimal(text: &str) -> Vec<TokenKind> {
    vec![TokenKind::Decimal, TokenKind::OpenParenthesis, s(text), TokenKind::CloseParenthesis]
}

#[test]
fn decimal_text_forms() {
    assert_eq!(decimal_from_text(b"400"), Some(400_000_000_000_000_000_000));
    assert_eq!(decimal_from_text(b"1.5"), Some(1_500_000_000_000_000_000));
    assert_eq!(decimal_from_text(b"-2"), Some(-2_000_000_000_000_000_000));
    assert_eq!(decimal_from_text(b"0.000000000000000001"), Some(1));
    assert_eq!(decimal_from_text(b"99999999999999999999"), Some(99_999_999_999_999_999_999_000_000_000_000_000_000));
    assert_eq!(decimal_from_text(b"1."), None);
    assert_eq!(decimal_from_text(b".5"), None);
    assert_eq!(decimal_from_text(b""), None);
    assert_eq!(decimal_from_text(b"1a"), None);
    assert_eq!(decimal_from_text(b"0.0000000000000000001"), None);
    assert_eq!(decimal_from_text(b"100000000000000000000"), Some(100_000_000_000_000_000_000_000_000_000_000_000_000));
    assert_eq!(decimal_from_text(b"170141183460469231731.687303715884105727"), Some(i128::MAX));
    assert_eq!(decimal_from_text(b"170141183460469231731.687303715884105728"), None);
    assert_eq!(decimal_from_text(b"170141183460469231732"), None);
}

#[test]
fn address_text_form() {
    let (kind, hash) = address_from_text(ACCOUNT.as_bytes()).unwrap();
    assert_eq!(kind, AddressKind::Component);
    assert_eq!(hash.len(), 26);
    assert_eq!(hash[0], 0);
    assert_eq!(hash[25], 0x19);
    let (kind, hash) = address_from_text(RESOURCE.as_bytes()).unwrap();
    assert_eq!(kind, AddressKind::ResourceDef);
    assert_eq!(hash[3], 0xff);
    assert!(address_from_text(b"04ffffffffffffffffffffffffffffffffffffffffffffffffffff").is_none());
    assert!(address_from_text(b"02ff").is_none());
    assert!(address_from_text(b"02gfffffffffffffffffffffffffffffffffffffffffffffffffff").is_none());
}

#[test]
fn parse_call_method_withdraw() {
    let mut kinds = vec![TokenKind::CallMethod];
    kinds.extend(address(ACCOUNT));
    kinds.push(s("withdraw"));
    kinds.extend(decimal("400"));
    kinds.extend(address(RESOURCE));
    kinds.push(TokenKind::Semicolon);
    kinds.push(TokenKind::DepositAllBuckets);
    kinds.extend(address(ACCOUNT));
    kinds.push(TokenKind::Semicolon);
    let mut p = Parser::new(toks(kinds));
    let tx = p.parse_transaction().ok().unwrap();
    assert!(p.is_eof());
    assert_eq!(tx.instructions.len(), 2);
    match &tx.instructions[0] {
        Instruction::CallMethod { component_address, method, args } => {
            assert_eq!(component_address.kind, AddressKind::Component);
            assert_eq!(method, "withdraw");
            assert_eq!(args.len(), 2);
            assert!(matches!(args[0], Value::Decimal(Decimal(400_000_000_000_000_000_000))));
            assert!(matches!(&args[1], Value::Address(a) if a.kind == AddressKind::ResourceDef));
        }
        _ => panic!("expected a method call"),
    }
    assert!(matches!(&tx.instructions[1], Instruction::DepositAllBuckets { account } if account.kind == AddressKind::Component));
}

#[test]
fn parse_named_buckets() {
    let mut kinds = vec![TokenKind::DeclareTempBucket, s("b1"), TokenKind::Semicolon];
    kinds.extend(vec![TokenKind::DeclareTempBucketRef, s("r1"), TokenKind::Semicolon]);
    kinds.push(TokenKind::TakeFromContext);
    kinds.extend(decimal("10"));
    kinds.extend(address(RESOURCE));
    kinds.extend(vec![TokenKind::Bucket, TokenKind::OpenParenthesis, s("b1"), TokenKind::CloseParenthesis]);
    kinds.push(TokenKind::Semicolon);
    kinds.push(TokenKind::BorrowFromContext);
    kinds.extend(decimal("1"));
    kinds.extend(address(RESOURCE));
    kinds.extend(vec![TokenKind::BucketRef, TokenKind::OpenParenthesis, TokenKind::U32(5), TokenKind::CloseParenthesis]);
    kinds.push(TokenKind::Semicolon);
    kinds.push(TokenKind::DropAllBucketRefs);
    kinds.push(TokenKind::Semicolon);
    let mut p = Parser::new(toks(kinds));
    let tx = p.parse_transaction().ok().unwrap();
    assert_eq!(tx.instructions.len(), 5);
    assert!(matches!(&tx.instructions[2], Instruction::TakeFromContext { to: Bid(0), .. }));
    assert!(matches!(&tx.instructions[3], Instruction::BorrowFromContext { to: Rid(5), .. }));
    assert!(matches!(&tx.instructions[4], Instruction::DropAllBucketRefs));
}

#[test]
fn parse_undeclared_bucket_name() {
    let mut kinds = vec![TokenKind::TakeFromContext];
    kinds.extend(decimal("10"));
    kinds.extend(address(RESOURCE));
    kinds.extend(vec![TokenKind::Bucket, TokenKind::OpenParenthesis, s("nope"), TokenKind::CloseParenthesis]);
    kinds.push(TokenKind::Semicolon);
    let mut p = Parser::new(toks(kinds));
    assert!(matches!(p.parse_transaction(), Err(ParserError::UndeclaredBucket(n)) if n == "nope"));
}

#[test]
fn parse_errors() {
    let mut p = Parser::new(toks(vec![TokenKind::Comma]));
    assert!(matches!(p.parse_transaction(), Err(ParserError::UnexpectedToken(t)) if matches!(t.kind, TokenKind::Comma)));
    let mut p = Parser::new(toks(vec![TokenKind::DropAllBucketRefs]));
    assert!(matches!(p.parse_transaction(), Err(ParserError::UnexpectedEof)));
    let mut kinds = vec![TokenKind::DepositAllBuckets];
    kinds.extend(decimal("1.2.3"));
    let mut p = Parser::new(toks(kinds));
    assert!(matches!(p.parse_transaction(), Err(ParserError::UnexpectedToken(_))));
    let mut p = Parser::new(toks(decimal("1.2.3")));
    assert!(matches!(p.parse_decimal(), Err(ParserError::InvalidDecimal(v)) if v == "1.2.3"));
    let mut p = Parser::new(toks(address("02zz")));
    assert!(matches!(p.parse_address(), Err(ParserError::InvalidAddress(_))));
    let mut p = Parser::new(toks(vec![]));
    assert!(p.is_eof());
    assert!(p.parse_transaction().ok().unwrap().instructions.is_empty());
}

#[test]
fn parse_values_and_structs() {
    let kinds = vec![
        TokenKind::Struct,
        TokenKind::OpenParenthesis,
        TokenKind::U8(1),
        TokenKind::Comma,
        TokenKind::True,
        TokenKind::Comma,
        TokenKind::Enum,
        TokenKind::OpenParenthesis,
        TokenKind::U8(2),
        TokenKind::CloseParenthesis,
        TokenKind::OpenParenthesis,
        TokenKind::CloseParenthesis,
        TokenKind::CloseParenthesis,
    ];
    let mut p = Parser::new(toks(kinds));
    match p.parse_value().ok().unwrap() {
        Value::Struct(Fields::Named(vs)) => {
            assert_eq!(vs.len(), 3);
            assert!(matches!(vs[0], Value::U8(1)));
            assert!(matches!(vs[1], Value::Bool(true)));
            assert!(matches!(&vs[2], Value::Enum(2, Fields::Named(inner)) if inner.is_empty()));
        }
        _ => panic!("expected a struct"),
    }
    assert!(p.is_eof());
    let mut p = Parser::new(toks(vec![TokenKind::I64(-3), s("x")]));
    assert!(matches!(p.parse_value(), Ok(Value::I64(-3))));
    assert!(matches!(p.parse_value(), Ok(Value::String(v)) if v == "x"));
    assert!(matches!(p.parse_value(), Err(ParserError::UnexpectedEof)));
    let mut p = Parser::new(toks(vec![TokenKind::Semicolon]));
    assert!(matches!(p.parse_value(), Err(ParserError::UnexpectedToken(_))));
    let mut p = Parser::new(toks(vec![TokenKind::OpenParenthesis, TokenKind::U8(1), TokenKind::U8(2)]));
    assert!(matches!(p.parse_values(), Err(ParserError::UnexpectedToken(_))));
}

#[test]
fn peek_and_advance() {
    let mut p = Parser::new(toks(vec![s("a"), TokenKind::Comma]));
    assert!(matches!(p.peek(), Ok(t) if matches!(&t.kind, TokenKind::String(v) if v == "a")));
    assert!(matches!(p.parse_string(), Ok(v) if v == "a"));
    assert!(matches!(p.advance(), Ok(t) if t.start == 1));
    assert!(matches!(p.advance(), Err(ParserError::UnexpectedEof)));
    let mut p = Parser::new(toks(vec![TokenKind::Bucket, TokenKind::OpenParenthesis, TokenKind::U32(3), TokenKind::CloseParenthesis]));
    assert!(matches!(p.parse_bucket(), Ok(Bid(3))));
    let mut p = Parser::new(toks(vec![TokenKind::BucketRef, TokenKind::OpenParenthesis, s("r"), TokenKind::CloseParenthesis]));
    assert!(matches!(p.parse_bucket_ref(), Err(ParserError::UndeclaredBucketRef(_))));
}

#[test]
fn parse_single_drop_instruction() {
    let mut p = Parser::new(toks(vec![TokenKind::DropAllBucketRefs, TokenKind::Semicolon]));
    let tx = p.parse_transaction().ok().unwrap();
    assert_eq!(tx.instructions.len(), 1);
    assert!(matches!(tx.instructions[0], Instruction::DropAllBucketRefs));
    assert!(p.is_eof());
}

#[test]
fn parse_value_lists_and_positions() {
    let mut p = Parser::new(toks(vec![
        TokenKind::OpenParenthesis,
        TokenKind::U8(1),
        TokenKind::Comma,
        TokenKind::U8(2),
        TokenKind::CloseParenthesis,
    ]));
    let vs = p.parse_values().ok().unwrap();
    assert_eq!(vs.len(), 2);
    assert!(matches!(vs[0], Value::U8(1)));
    assert!(matches!(vs[1], Value::U8(2)));
    assert!(p.is_eof());
    let mut p = Parser::new(toks(vec![TokenKind::Comma]));
    assert!(matches!(p.parse_value(), Err(ParserError::UnexpectedToken(_))));
    assert!(matches!(p.peek(), Ok(t) if matches!(t.kind, TokenKind::Comma)));
    let mut p = Parser::new(toks(decimal("400")));
    assert!(matches!(p.parse_value(), Ok(Value::Decimal(Decimal(400_000_000_000_000_000_000)))));
    assert!(p.is_eof());
    let mut p = Parser::new(toks(vec![
        TokenKind::Enum,
        TokenKind::OpenParenthesis,
        TokenKind::U8(2),
        TokenKind::CloseParenthesis,
        TokenKind::OpenParenthesis,
        TokenKind::U8(1),
        TokenKind::CloseParenthesis,
    ]));
    assert!(matches!(p.parse_enum(), Ok(Value::Enum(2, Fields::Named(vs))) if vs.len() == 1 && matches!(vs[0], Value::U8(1))));
    assert!(p.is_eof());
}
