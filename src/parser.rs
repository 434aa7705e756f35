use vstd::prelude::*;
use crate::ast::{Fields, Instruction, Transaction, Value};
use crate::grammar::{lemma_prepend_tx, prepend_tx, models_instr, models_instrs, sp_instr, sp_tx, InstrModel, lemma_prepend_all, prepend_all, sp_elems, models_value, models_values, sp_address, sp_advance, sp_args, sp_decimal, sp_enum, sp_expect, sp_handle, sp_string, sp_struct, sp_value, sp_values, ValueModel};
use crate::text::{address_from_text, decimal_from_text};
use crate::types::{Address, AddressKind, Bid, Decimal, Rid};

verus! {

/// The kinds of manifest tokens.
#[derive(Debug, Clone)]
pub enum TokenKind {
    U8(u8),
    U16(u16),
    U32(u32),
    U64(u64),
    U128(u128),
    I8(i8),
    I16(i16),
    I32(i32),
    I64(i64),
    I128(i128),
    String(String),
    Unit,
    True,
    False,
    Struct,
    Enum,
    Decimal,
    Address,
    Bucket,
    BucketRef,
    OpenParenthesis,
    CloseParenthesis,
    Comma,
    Semicolon,
    DeclareTempBucket,
    DeclareTempBucketRef,
    TakeFromContext,
    BorrowFromContext,
    CallFunction,
    CallMethod,
    DropAllBucketRefs,
    DepositAllBuckets,
}

/// A token with the byte range of the source text it came from.
#[derive(Debug, Clone)]
pub struct Token {
    pub kind: TokenKind,
    pub start: usize,
    pub end: usize,
}

impl TokenKind {
    pub fn duplicate(&self) -> (r: TokenKind)
        ensures
            r == *self,
    {
        match self {
            TokenKind::U8(v) => TokenKind::U8(*v),
            TokenKind::U16(v) => TokenKind::U16(*v),
            TokenKind::U32(v) => TokenKind::U32(*v),
            TokenKind::U64(v) => TokenKind::U64(*v),
            TokenKind::U128(v) => TokenKind::U128(*v),
            TokenKind::I8(v) => TokenKind::I8(*v),
            TokenKind::I16(v) => TokenKind::I16(*v),
            TokenKind::I32(v) => TokenKind::I32(*v),
            TokenKind::I64(v) => TokenKind::I64(*v),
            TokenKind::I128(v) => TokenKind::I128(*v),
            TokenKind::String(s) => TokenKind::String(s.clone()),
            TokenKind::Unit => TokenKind::Unit,
            TokenKind::True => TokenKind::True,
            TokenKind::False => TokenKind::False,
            TokenKind::Struct => TokenKind::Struct,
            TokenKind::Enum => TokenKind::Enum,
            TokenKind::Decimal => TokenKind::Decimal,
            TokenKind::Address => TokenKind::Address,
            TokenKind::Bucket => TokenKind::Bucket,
            TokenKind::BucketRef => TokenKind::BucketRef,
            TokenKind::OpenParenthesis => TokenKind::OpenParenthesis,
            TokenKind::CloseParenthesis => TokenKind::CloseParenthesis,
            TokenKind::Comma => TokenKind::Comma,
            TokenKind::Semicolon => TokenKind::Semicolon,
            TokenKind::DeclareTempBucket => TokenKind::DeclareTempBucket,
            TokenKind::DeclareTempBucketRef => TokenKind::DeclareTempBucketRef,
            TokenKind::TakeFromContext => TokenKind::TakeFromContext,
            TokenKind::BorrowFromContext => TokenKind::BorrowFromContext,
            TokenKind::CallFunction => TokenKind::CallFunction,
            TokenKind::CallMethod => TokenKind::CallMethod,
            TokenKind::DropAllBucketRefs => TokenKind::DropAllBucketRefs,
            TokenKind::DepositAllBuckets => TokenKind::DepositAllBuckets,
        }
    }
}

impl Token {
    pub fn duplicate(&self) -> (r: Token)
        ensures
            r == *self,
    {
        Token { kind: self.kind.duplicate(), start: self.start, end: self.end }
    }
}

/// Represents an error when parsing a manifest.
#[derive(Debug)]
pub enum ParserError {
    UnexpectedEof,
    UnexpectedToken(Token),
    InvalidDecimal(String),
    InvalidAddress(String),
    UndeclaredBucket(String),
    UndeclaredBucketRef(String),
}

/// The value a scalar token stands for, if it is one.
pub open spec fn scalar_value(k: TokenKind) -> Option<Value> {
    match k {
        TokenKind::Unit => Some(Value::Unit),
        TokenKind::True => Some(Value::Bool(true)),
        TokenKind::False => Some(Value::Bool(false)),
        TokenKind::U8(v) => Some(Value::U8(v)),
        TokenKind::U16(v) => Some(Value::U16(v)),
        TokenKind::U32(v) => Some(Value::U32(v)),
        TokenKind::U64(v) => Some(Value::U64(v)),
        TokenKind::U128(v) => Some(Value::U128(v)),
        TokenKind::I8(v) => Some(Value::I8(v)),
        TokenKind::I16(v) => Some(Value::I16(v)),
        TokenKind::I32(v) => Some(Value::I32(v)),
        TokenKind::I64(v) => Some(Value::I64(v)),
        TokenKind::I128(v) => Some(Value::I128(v)),
        TokenKind::String(s) => Some(Value::String(s)),
        _ => None,
    }
}



/// Index of the latest declaration of `name` in `names`, if any.
pub open spec fn name_index(names: Seq<String>, name: Seq<char>) -> Option<int>
    decreases names.len(),
{
    if names.len() == 0 {
        None
    } else if names.last()@ == name {
        Some(names.len() - 1)
    } else {
        name_index(names.drop_last(), name)
    }
}

/// Whether a token kind carries no payload.
pub open spec fn is_plain(k: TokenKind) -> bool {
    !(k is U8 || k is U16 || k is U32 || k is U64 || k is U128 || k is I8 || k is I16 || k is I32
        || k is I64 || k is I128 || k is String)
}




/// A recursive-descent parser over a token list.
pub struct Parser {
    tokens: Vec<Token>,
    current: usize,
    buckets: Vec<String>,
    bucket_refs: Vec<String>,
}

impl Parser {
    pub closed spec fn toks(&self) -> Seq<Token> {
        self.tokens@
    }

    pub closed spec fn pos(&self) -> int {
        self.current as int
    }

    pub closed spec fn bucket_names(&self) -> Seq<String> {
        self.buckets@
    }

    pub closed spec fn ref_names(&self) -> Seq<String> {
        self.bucket_refs@
    }

    pub open spec fn wf(&self) -> bool {
        &&& 0 <= self.pos() <= self.toks().len()
        &&& self.bucket_names().len() <= u32::MAX
        &&& self.ref_names().len() <= u32::MAX
    }

    /// The tokens and the declared names are those of `o`.
    pub open spec fn same_input(&self, o: &Parser) -> bool {
        &&& self.toks() == o.toks()
        &&& self.bucket_names() == o.bucket_names()
        &&& self.ref_names() == o.ref_names()
    }

    pub open spec fn at(&self) -> TokenKind {
        self.toks()[self.pos()].kind
    }

    pub fn new(tokens: Vec<Token>) -> (r: Parser)
        ensures
            r.wf(),
            r.toks() == tokens@,
            r.pos() == 0,
            r.bucket_names().len() == 0,
            r.ref_names().len() == 0,
    {
        Parser { tokens, current: 0, buckets: Vec::new(), bucket_refs: Vec::new() }
    }

    pub fn is_eof(&self) -> (r: bool)
        ensures
            r == (self.pos() == self.toks().len()),
    {
        self.current == self.tokens.len()
    }

    pub fn peek(&mut self) -> (r: Result<Token, ParserError>)
        ensures
            *final(self) == *old(self),
            0 <= old(self).pos() < old(self).toks().len() ==> r == Ok::<Token, ParserError>(
                old(self).toks()[old(self).pos()],
            ),
            !(0 <= old(self).pos() < old(self).toks().len()) ==> r == Err::<Token, ParserError>(
                ParserError::UnexpectedEof,
            ),
    {
        if self.current < self.tokens.len() {
            Ok(self.tokens[self.current].duplicate())
        } else {
            Err(ParserError::UnexpectedEof)
        }
    }

    pub fn advance(&mut self) -> (r: Result<Token, ParserError>)
        requires
            old(self).wf(),
        ensures
            (r, final(self).pos()) == sp_advance(old(self).toks(), old(self).pos()),
            final(self).wf(),
            final(self).same_input(old(self)),
            old(self).pos() < old(self).toks().len() ==> r == Ok::<Token, ParserError>(
                old(self).toks()[old(self).pos()],
            ) && final(self).pos() == old(self).pos() + 1,
            old(self).pos() == old(self).toks().len() ==> r == Err::<Token, ParserError>(
                ParserError::UnexpectedEof,
            ) && final(self).pos() == old(self).pos(),
    {
        if self.current < self.tokens.len() {
            let token = self.tokens[self.current].duplicate();
            self.current = self.current + 1;
            Ok(token)
        } else {
            Err(ParserError::UnexpectedEof)
        }
    }

    /// Consumes one token that must be of the payload-free kind `want`.
    fn expect(&mut self, want: TokenKind) -> (r: Result<(), ParserError>)
        requires
            old(self).wf(),
            is_plain(want),
        ensures
            (r, final(self).pos()) == sp_expect(old(self).toks(), old(self).pos(), want),
            final(self).wf(),
            final(self).same_input(old(self)),
            old(self).pos() < old(self).toks().len() ==> final(self).pos() == old(self).pos() + 1 && (
            if old(self).at() == want {
                r is Ok
            } else {
                r == Err::<(), ParserError>(ParserError::UnexpectedToken(old(self).toks()[old(self).pos()]))
            }),
            old(self).pos() == old(self).toks().len() ==> r == Err::<(), ParserError>(
                ParserError::UnexpectedEof,
            ) && final(self).pos() == old(self).pos(),
    {
        let token = self.advance()?;
        if same_plain_kind(&token.kind, &want) {
            Ok(())
        } else {
            Err(ParserError::UnexpectedToken(token))
        }
    }

    /// Whether the next token is of the payload-free kind `want`; fails at
    /// the end of input.
    fn next_is(&mut self, want: TokenKind) -> (r: Result<bool, ParserError>)
        requires
            is_plain(want),
        ensures
            *final(self) == *old(self),
            0 <= old(self).pos() < old(self).toks().len() ==> r == Ok::<bool, ParserError>(
                old(self).at() == want,
            ),
            !(0 <= old(self).pos() < old(self).toks().len()) ==> r == Err::<bool, ParserError>(
                ParserError::UnexpectedEof,
            ),
    {
        let token = self.peek()?;
        Ok(same_plain_kind(&token.kind, &want))
    }
}

/// Whether `a` is the payload-free kind `b`.
fn same_plain_kind(a: &TokenKind, b: &TokenKind) -> (r: bool)
    requires
        is_plain(*b),
    ensures
        r == (*a == *b),
{
    match b {
        TokenKind::Unit => matches!(a, TokenKind::Unit),
        TokenKind::True => matches!(a, TokenKind::True),
        TokenKind::False => matches!(a, TokenKind::False),
        TokenKind::Struct => matches!(a, TokenKind::Struct),
        TokenKind::Enum => matches!(a, TokenKind::Enum),
        TokenKind::Decimal => matches!(a, TokenKind::Decimal),
        TokenKind::Address => matches!(a, TokenKind::Address),
        TokenKind::Bucket => matches!(a, TokenKind::Bucket),
        TokenKind::BucketRef => matches!(a, TokenKind::BucketRef),
        TokenKind::OpenParenthesis => matches!(a, TokenKind::OpenParenthesis),
        TokenKind::CloseParenthesis => matches!(a, TokenKind::CloseParenthesis),
        TokenKind::Comma => matches!(a, TokenKind::Comma),
        TokenKind::Semicolon => matches!(a, TokenKind::Semicolon),
        TokenKind::DeclareTempBucket => matches!(a, TokenKind::DeclareTempBucket),
        TokenKind::DeclareTempBucketRef => matches!(a, TokenKind::DeclareTempBucketRef),
        TokenKind::TakeFromContext => matches!(a, TokenKind::TakeFromContext),
        TokenKind::BorrowFromContext => matches!(a, TokenKind::BorrowFromContext),
        TokenKind::CallFunction => matches!(a, TokenKind::CallFunction),
        TokenKind::CallMethod => matches!(a, TokenKind::CallMethod),
        TokenKind::DropAllBucketRefs => matches!(a, TokenKind::DropAllBucketRefs),
        TokenKind::DepositAllBuckets => matches!(a, TokenKind::DepositAllBuckets),
        _ => false,
    }
}

/// The index of the latest declaration of `name`, if any.
fn find_name(names: &Vec<String>, name: &String) -> (r: Option<u32>)
    requires
        names@.len() <= u32::MAX,
    ensures
        r == match name_index(names@, name@) {
            Some(i) => Some(i as u32),
            None => None::<u32>,
        },
{
    let mut i: usize = names.len();
    assert(names@.subrange(0, i as int) =~= names@);
    while i > 0
        invariant
            0 <= i <= names@.len() <= u32::MAX,
            name_index(names@, name@) == name_index(names@.subrange(0, i as int), name@),
        decreases i,
    {
        let ghost pre = names@.subrange(0, i as int);
        assert(pre.drop_last() =~= names@.subrange(0, i - 1));
        if names[i - 1] == *name {
            return Some((i - 1) as u32);
        }
        i = i - 1;
    }
    None
}

impl Parser {
    pub fn parse_string(&mut self) -> (r: Result<String, ParserError>)
        requires
            old(self).wf(),
        ensures
            (r, final(self).pos()) == sp_string(old(self).toks(), old(self).pos()),
            final(self).wf(),
            final(self).same_input(old(self)),
            old(self).pos() == old(self).toks().len() ==> r == Err::<String, ParserError>(
                ParserError::UnexpectedEof,
            ) && final(self).pos() == old(self).pos(),
            old(self).pos() < old(self).toks().len() ==> final(self).pos() == old(self).pos() + 1 && (
            match old(self).at() {
                TokenKind::String(v) => r == Ok::<String, ParserError>(v),
                _ => r == Err::<String, ParserError>(
                    ParserError::UnexpectedToken(old(self).toks()[old(self).pos()]),
                ),
            }),
    {
        let token = self.advance()?;
        match token.kind {
            TokenKind::String(value) => Ok(value),
            _ => Err(ParserError::UnexpectedToken(token)),
        }
    }

    /// Grammar: `Decimal ( "text" )`.
    pub fn parse_decimal(&mut self) -> (r: Result<Decimal, ParserError>)
        requires
            old(self).wf(),
        ensures
            match r {
                Ok(d) => sp_decimal(old(self).toks(), old(self).pos()) == (Ok::<int, ParserError>(d.0 as int), final(self).pos()),
                Err(e) => sp_decimal(old(self).toks(), old(self).pos()) == (Err::<int, ParserError>(e), final(self).pos()),
            },
            final(self).wf(),
            final(self).same_input(old(self)),
            old(self).pos() <= final(self).pos(),
    {
        self.expect(TokenKind::Decimal)?;
        self.expect(TokenKind::OpenParenthesis)?;
        let s = self.parse_string()?;
        self.expect(TokenKind::CloseParenthesis)?;
        match decimal_from_text(s.as_str().as_bytes()) {
            Some(v) => Ok(Decimal(v)),
            None => Err(ParserError::InvalidDecimal(s)),
        }
    }

    /// Grammar: `Address ( "hex" )`.
    pub fn parse_address(&mut self) -> (r: Result<Address, ParserError>)
        requires
            old(self).wf(),
        ensures
            match r {
                Ok(a) => sp_address(old(self).toks(), old(self).pos()) == (Ok::<(AddressKind, Seq<u8>), ParserError>(a@), final(self).pos()),
                Err(e) => sp_address(old(self).toks(), old(self).pos()) == (Err::<(AddressKind, Seq<u8>), ParserError>(e), final(self).pos()),
            },
            final(self).wf(),
            final(self).same_input(old(self)),
            old(self).pos() <= final(self).pos(),
    {
        self.expect(TokenKind::Address)?;
        self.expect(TokenKind::OpenParenthesis)?;
        let s = self.parse_string()?;
        self.expect(TokenKind::CloseParenthesis)?;
        match address_from_text(s.as_str().as_bytes()) {
            Some((kind, hash)) => Ok(Address::new(kind, hash)),
            None => Err(ParserError::InvalidAddress(s)),
        }
    }

    /// Grammar: `Bucket ( n )` or `Bucket ( "name" )` of a declared name.
    pub fn parse_bucket(&mut self) -> (r: Result<Bid, ParserError>)
        requires
            old(self).wf(),
        ensures
            match r {
                Ok(b) => sp_handle(old(self).toks(), old(self).pos(), TokenKind::Bucket, old(self).bucket_names(), false) == (Ok::<u32, ParserError>(b.0), final(self).pos()),
                Err(e) => sp_handle(old(self).toks(), old(self).pos(), TokenKind::Bucket, old(self).bucket_names(), false) == (Err::<u32, ParserError>(e), final(self).pos()),
            },
            final(self).wf(),
            final(self).same_input(old(self)),
            old(self).pos() <= final(self).pos(),
    {
        self.expect(TokenKind::Bucket)?;
        self.expect(TokenKind::OpenParenthesis)?;
        let token = self.advance()?;
        let bid = match &token.kind {
            TokenKind::String(value) => match find_name(&self.buckets, value) {
                Some(i) => Bid(i),
                None => {
                    return Err(ParserError::UndeclaredBucket(value.clone()));
                },
            },
            TokenKind::U32(value) => Bid(*value),
            _ => {
                return Err(ParserError::UnexpectedToken(token));
            },
        };
        self.expect(TokenKind::CloseParenthesis)?;
        Ok(bid)
    }

    /// Grammar: `BucketRef ( n )` or `BucketRef ( "name" )` of a declared name.
    pub fn parse_bucket_ref(&mut self) -> (r: Result<Rid, ParserError>)
        requires
            old(self).wf(),
        ensures
            match r {
                Ok(b) => sp_handle(old(self).toks(), old(self).pos(), TokenKind::BucketRef, old(self).ref_names(), true) == (Ok::<u32, ParserError>(b.0), final(self).pos()),
                Err(e) => sp_handle(old(self).toks(), old(self).pos(), TokenKind::BucketRef, old(self).ref_names(), true) == (Err::<u32, ParserError>(e), final(self).pos()),
            },
            final(self).wf(),
            final(self).same_input(old(self)),
            old(self).pos() <= final(self).pos(),
    {
        self.expect(TokenKind::BucketRef)?;
        self.expect(TokenKind::OpenParenthesis)?;
        let token = self.advance()?;
        let rid = match &token.kind {
            TokenKind::String(value) => match find_name(&self.bucket_refs, value) {
                Some(i) => Rid(i),
                None => {
                    return Err(ParserError::UndeclaredBucketRef(value.clone()));
                },
            },
            TokenKind::U32(value) => Rid(*value),
            _ => {
                return Err(ParserError::UnexpectedToken(token));
            },
        };
        self.expect(TokenKind::CloseParenthesis)?;
        Ok(rid)
    }
}

impl Parser {
    pub fn parse_value(&mut self) -> (r: Result<Value, ParserError>)
        requires
            old(self).wf(),
        ensures
            sp_value(old(self).toks(), old(self).pos(), old(self).bucket_names(), old(self).ref_names()).1 == final(self).pos(),
            match r {
                Ok(v) => sp_value(old(self).toks(), old(self).pos(), old(self).bucket_names(), old(self).ref_names()).0 is Ok && models_value(v, sp_value(old(self).toks(), old(self).pos(), old(self).bucket_names(), old(self).ref_names()).0->Ok_0),
                Err(e) => sp_value(old(self).toks(), old(self).pos(), old(self).bucket_names(), old(self).ref_names()).0 == Err::<ValueModel, ParserError>(e),
            },
            final(self).wf(),
            final(self).same_input(old(self)),
            old(self).pos() <= final(self).pos(),
            r is Ok ==> old(self).pos() < final(self).pos(),
            old(self).pos() == old(self).toks().len() ==> r == Err::<Value, ParserError>(
                ParserError::UnexpectedEof,
            ),
        decreases old(self).toks().len() - old(self).pos(), 2nat,
    {
        let token = self.peek()?;
        match token.kind {
            TokenKind::Unit => {
                self.advance()?;
                Ok(Value::Unit)
            },
            TokenKind::True => {
                self.advance()?;
                Ok(Value::Bool(true))
            },
            TokenKind::False => {
                self.advance()?;
                Ok(Value::Bool(false))
            },
            TokenKind::U8(value) => {
                self.advance()?;
                Ok(Value::U8(value))
            },
            TokenKind::U16(value) => {
                self.advance()?;
                Ok(Value::U16(value))
            },
            TokenKind::U32(value) => {
                self.advance()?;
                Ok(Value::U32(value))
            },
            TokenKind::U64(value) => {
                self.advance()?;
                Ok(Value::U64(value))
            },
            TokenKind::U128(value) => {
                self.advance()?;
                Ok(Value::U128(value))
            },
            TokenKind::I8(value) => {
                self.advance()?;
                Ok(Value::I8(value))
            },
            TokenKind::I16(value) => {
                self.advance()?;
                Ok(Value::I16(value))
            },
            TokenKind::I32(value) => {
                self.advance()?;
                Ok(Value::I32(value))
            },
            TokenKind::I64(value) => {
                self.advance()?;
                Ok(Value::I64(value))
            },
            TokenKind::I128(value) => {
                self.advance()?;
                Ok(Value::I128(value))
            },
            TokenKind::String(value) => {
                self.advance()?;
                Ok(Value::String(value))
            },
            TokenKind::Struct => self.parse_struct(),
            TokenKind::Enum => self.parse_enum(),
            TokenKind::Decimal => {
                let d = self.parse_decimal()?;
                Ok(Value::Decimal(d))
            },
            TokenKind::Address => {
                let a = self.parse_address()?;
                Ok(Value::Address(a))
            },
            TokenKind::Bucket => {
                let b = self.parse_bucket()?;
                Ok(Value::Bucket(b))
            },
            TokenKind::BucketRef => {
                let b = self.parse_bucket_ref()?;
                Ok(Value::BucketRef(b))
            },
            _ => Err(ParserError::UnexpectedToken(token)),
        }
    }

    /// Grammar: `values = '(' ')' | '(' value (',' value)* ')'`.
    pub fn parse_values(&mut self) -> (r: Result<Vec<Value>, ParserError>)
        requires
            old(self).wf(),
        ensures
            sp_values(old(self).toks(), old(self).pos(), old(self).bucket_names(), old(self).ref_names()).1 == final(self).pos(),
            match r {
                Ok(vs) => sp_values(old(self).toks(), old(self).pos(), old(self).bucket_names(), old(self).ref_names()).0 is Ok && models_values(vs@, sp_values(old(self).toks(), old(self).pos(), old(self).bucket_names(), old(self).ref_names()).0->Ok_0),
                Err(e) => sp_values(old(self).toks(), old(self).pos(), old(self).bucket_names(), old(self).ref_names()).0 == Err::<Seq<ValueModel>, ParserError>(e),
            },
            final(self).wf(),
            final(self).same_input(old(self)),
            old(self).pos() <= final(self).pos(),
            old(self).pos() == old(self).toks().len() ==> r == Err::<Vec<Value>, ParserError>(
                ParserError::UnexpectedEof,
            ),
            old(self).pos() < old(self).toks().len() && !(old(self).at() is OpenParenthesis) ==> r == Err::<
                Vec<Value>,
                ParserError,
            >(ParserError::UnexpectedToken(old(self).toks()[old(self).pos()])),
            r is Ok ==> old(self).pos() + 2 <= final(self).pos() && old(self).at() is OpenParenthesis
                && final(self).toks()[final(self).pos() - 1].kind is CloseParenthesis,
        decreases old(self).toks().len() - old(self).pos(), 0nat,
    {
        let mut values: Vec<Value> = Vec::new();
        self.expect(TokenKind::OpenParenthesis)?;
        let ghost start = self.pos();
        let ghost t = self.toks();
        let ghost bn = self.bucket_names();
        let ghost rn = self.ref_names();
        let ghost mut acc: Seq<ValueModel> = Seq::empty();
        proof {
            lemma_prepend_all(acc, ValueModel::Plain(Value::Unit), sp_elems(t, start, bn, rn));
        }
        while !self.next_is(TokenKind::CloseParenthesis)?
            invariant
                self.wf(),
                self.same_input(old(self)),
                old(self).pos() < start <= self.pos(),
                old(self).pos() < old(self).toks().len(),
                old(self).at() is OpenParenthesis,
                t == old(self).toks(),
                bn == old(self).bucket_names(),
                rn == old(self).ref_names(),
                models_values(values@, acc),
                sp_values(t, old(self).pos(), bn, rn) == prepend_all(acc, sp_elems(t, self.pos(), bn, rn)),
            decreases self.toks().len() - self.pos(),
        {
            let ghost q = self.pos();
            let v = self.parse_value()?;
            let ghost m = sp_value(t, q, bn, rn).0->Ok_0;
            let ghost before = values@;
            values.push(v);
            proof {
                lemma_prepend_all(acc, m, sp_elems(t, self.pos(), bn, rn));
                lemma_prepend_all(acc, m, sp_elems(t, self.pos() + 1, bn, rn));
                acc = acc.push(m);
                assert(models_values(values@, acc)) by {
                    assert forall|i: int| 0 <= i < acc.len() implies models_value(#[trigger] values@[i], acc[i]) by {
                        if i < acc.len() - 1 {
                            assert(values@[i] == before[i]);
                        }
                    }
                }
            }
            if !self.next_is(TokenKind::CloseParenthesis)? {
                self.expect(TokenKind::Comma)?;
            }
        }
        self.expect(TokenKind::CloseParenthesis)?;
        proof {
            assert(acc + Seq::<ValueModel>::empty() =~= acc);
        }
        Ok(values)
    }

    /// Grammar: `struct = 'Struct' values`, read as named fields.
    pub fn parse_struct(&mut self) -> (r: Result<Value, ParserError>)
        requires
            old(self).wf(),
        ensures
            sp_struct(old(self).toks(), old(self).pos(), old(self).bucket_names(), old(self).ref_names()).1 == final(self).pos(),
            match r {
                Ok(v) => sp_struct(old(self).toks(), old(self).pos(), old(self).bucket_names(), old(self).ref_names()).0 is Ok && models_value(v, sp_struct(old(self).toks(), old(self).pos(), old(self).bucket_names(), old(self).ref_names()).0->Ok_0),
                Err(e) => sp_struct(old(self).toks(), old(self).pos(), old(self).bucket_names(), old(self).ref_names()).0 == Err::<ValueModel, ParserError>(e),
            },
            final(self).wf(),
            final(self).same_input(old(self)),
            old(self).pos() <= final(self).pos(),
            r is Ok ==> old(self).pos() < final(self).pos() && old(self).at() is Struct && r->Ok_0 is Struct
                && r->Ok_0->Struct_0 is Named,
            old(self).pos() == old(self).toks().len() ==> r == Err::<Value, ParserError>(
                ParserError::UnexpectedEof,
            ),
            old(self).pos() < old(self).toks().len() && !(old(self).at() is Struct) ==> r == Err::<
                Value,
                ParserError,
            >(ParserError::UnexpectedToken(old(self).toks()[old(self).pos()])),
        decreases old(self).toks().len() - old(self).pos(), 1nat,
    {
        self.expect(TokenKind::Struct)?;
        let values = self.parse_values()?;
        Ok(Value::Struct(Fields::Named(values)))
    }

    /// Grammar: `enum = 'Enum' '(' u8 ')' values`, read as named fields.
    pub fn parse_enum(&mut self) -> (r: Result<Value, ParserError>)
        requires
            old(self).wf(),
        ensures
            sp_enum(old(self).toks(), old(self).pos(), old(self).bucket_names(), old(self).ref_names()).1 == final(self).pos(),
            match r {
                Ok(v) => sp_enum(old(self).toks(), old(self).pos(), old(self).bucket_names(), old(self).ref_names()).0 is Ok && models_value(v, sp_enum(old(self).toks(), old(self).pos(), old(self).bucket_names(), old(self).ref_names()).0->Ok_0),
                Err(e) => sp_enum(old(self).toks(), old(self).pos(), old(self).bucket_names(), old(self).ref_names()).0 == Err::<ValueModel, ParserError>(e),
            },
            final(self).wf(),
            final(self).same_input(old(self)),
            old(self).pos() <= final(self).pos(),
            r is Ok ==> old(self).pos() + 4 < final(self).pos() && old(self).at() is Enum
                && old(self).toks()[old(self).pos() + 2].kind is U8 && r->Ok_0 is Enum && r->Ok_0->Enum_0
                == old(self).toks()[old(self).pos() + 2].kind->U8_0 && r->Ok_0->Enum_1 is Named,
            old(self).pos() == old(self).toks().len() ==> r == Err::<Value, ParserError>(
                ParserError::UnexpectedEof,
            ),
            old(self).pos() < old(self).toks().len() && !(old(self).at() is Enum) ==> r == Err::<
                Value,
                ParserError,
            >(ParserError::UnexpectedToken(old(self).toks()[old(self).pos()])),
        decreases old(self).toks().len() - old(self).pos(), 1nat,
    {
        self.expect(TokenKind::Enum)?;
        self.expect(TokenKind::OpenParenthesis)?;
        let token = self.advance()?;
        let tag = match token.kind {
            TokenKind::U8(v) => v,
            _ => {
                return Err(ParserError::UnexpectedToken(token));
            },
        };
        self.expect(TokenKind::CloseParenthesis)?;
        let values = self.parse_values()?;
        Ok(Value::Enum(tag, Fields::Named(values)))
    }
}

impl Parser {
    /// Arguments of a call: values up to, not including, the next `;`.
    fn parse_args(&mut self) -> (r: Result<Vec<Value>, ParserError>)
        requires
            old(self).wf(),
        ensures
            sp_args(old(self).toks(), old(self).pos(), old(self).bucket_names(), old(self).ref_names()).1 == final(self).pos(),
            match r {
                Ok(vs) => sp_args(old(self).toks(), old(self).pos(), old(self).bucket_names(), old(self).ref_names()).0 is Ok && models_values(vs@, sp_args(old(self).toks(), old(self).pos(), old(self).bucket_names(), old(self).ref_names()).0->Ok_0),
                Err(e) => sp_args(old(self).toks(), old(self).pos(), old(self).bucket_names(), old(self).ref_names()).0 == Err::<Seq<ValueModel>, ParserError>(e),
            },
            final(self).wf(),
            final(self).same_input(old(self)),
            old(self).pos() <= final(self).pos(),
            r is Ok ==> final(self).pos() < final(self).toks().len() && final(self).at() is Semicolon,
    {
        let mut args: Vec<Value> = Vec::new();
        let ghost t = self.toks();
        let ghost bn = self.bucket_names();
        let ghost rn = self.ref_names();
        let ghost mut acc: Seq<ValueModel> = Seq::empty();
        proof {
            lemma_prepend_all(acc, ValueModel::Plain(Value::Unit), sp_args(t, self.pos(), bn, rn));
        }
        while !self.next_is(TokenKind::Semicolon)?
            invariant
                self.wf(),
                self.same_input(old(self)),
                old(self).pos() <= self.pos(),
                t == old(self).toks(),
                bn == old(self).bucket_names(),
                rn == old(self).ref_names(),
                models_values(args@, acc),
                sp_args(t, old(self).pos(), bn, rn) == prepend_all(acc, sp_args(t, self.pos(), bn, rn)),
            decreases self.toks().len() - self.pos(),
        {
            let ghost q = self.pos();
            let v = self.parse_value()?;
            let ghost m = sp_value(t, q, bn, rn).0->Ok_0;
            let ghost before = args@;
            args.push(v);
            proof {
                lemma_prepend_all(acc, m, sp_args(t, self.pos(), bn, rn));
                acc = acc.push(m);
                assert(models_values(args@, acc)) by {
                    assert forall|i: int| 0 <= i < acc.len() implies models_value(#[trigger] args@[i], acc[i]) by {
                        if i < acc.len() - 1 {
                            assert(args@[i] == before[i]);
                        }
                    }
                }
            }
        }
        proof {
            assert(acc + Seq::<ValueModel>::empty() =~= acc);
        }
        Ok(args)
    }

    /// Declares a name and returns its id.
    fn declare(names: &mut Vec<String>, name: String) -> (r: Option<u32>)
        requires
            old(names)@.len() <= u32::MAX,
        ensures
            final(names)@.len() <= u32::MAX,
            match r {
                Some(i) => final(names)@ == old(names)@.push(name) && i == old(names)@.len(),
                None => final(names)@ == old(names)@ && old(names)@.len() == u32::MAX,
            },
    {
        if names.len() >= 0xffff_ffff {
            return None;
        }
        let id = names.len() as u32;
        names.push(name);
        Some(id)
    }

    /// Grammar: `transaction = { instruction ';' } EOF`.
    pub fn parse_transaction(&mut self) -> (r: Result<Transaction, ParserError>)
        requires
            old(self).wf(),
        ensures
            final(self).wf(),
            final(self).toks() == old(self).toks(),
            ({
                let sp = sp_tx(old(self).toks(), old(self).pos(), old(self).bucket_names(), old(self).ref_names());
                &&& sp.1 == final(self).pos()
                &&& sp.2 == final(self).bucket_names()
                &&& sp.3 == final(self).ref_names()
                &&& match r {
                    Ok(tx) => sp.0 is Ok && models_instrs(tx.instructions@, sp.0->Ok_0),
                    Err(e) => sp.0 == Err::<Seq<InstrModel>, ParserError>(e),
                }
            }),
            r is Ok ==> final(self).pos() == final(self).toks().len(),
    {
        let mut instructions = Vec::<Instruction>::new();
        let ghost t = self.toks();
        let ghost mut acc: Seq<InstrModel> = Seq::empty();
        proof {
            lemma_prepend_tx(acc, InstrModel::DropAllBucketRefs, sp_tx(t, self.pos(), self.bucket_names(), self.ref_names()));
        }
        while !self.is_eof()
            invariant
                self.wf(),
                t == old(self).toks(),
                self.toks() == t,
                models_instrs(instructions@, acc),
                sp_tx(t, old(self).pos(), old(self).bucket_names(), old(self).ref_names()) == prepend_tx(
                    acc,
                    sp_tx(t, self.pos(), self.bucket_names(), self.ref_names()),
                ),
            decreases self.toks().len() - self.pos(),
        {
            let ghost p = self.pos();
            let ghost bn = self.bucket_names();
            let ghost rn = self.ref_names();
            let ghost si = sp_instr(t, p, bn, rn);
            let token = self.advance()?;
            let ins: Instruction = match token.kind {
                TokenKind::DeclareTempBucket => {
                    let name = self.parse_string()?;
                    let stored = name.clone();
                    if Self::declare(&mut self.buckets, stored).is_none() {
                        return Err(ParserError::UnexpectedToken(token));
                    }
                    Instruction::DeclareTempBucket { name }
                },
                TokenKind::DeclareTempBucketRef => {
                    let name = self.parse_string()?;
                    let stored = name.clone();
                    if Self::declare(&mut self.bucket_refs, stored).is_none() {
                        return Err(ParserError::UnexpectedToken(token));
                    }
                    Instruction::DeclareTempBucketRef { name }
                },
                TokenKind::TakeFromContext => {
                    let amount = self.parse_decimal()?;
                    let resource_address = self.parse_address()?;
                    let to = self.parse_bucket()?;
                    Instruction::TakeFromContext { amount, resource_address, to }
                },
                TokenKind::BorrowFromContext => {
                    let amount = self.parse_decimal()?;
                    let resource_address = self.parse_address()?;
                    let to = self.parse_bucket_ref()?;
                    Instruction::BorrowFromContext { amount, resource_address, to }
                },
                TokenKind::CallFunction => {
                    let package_address = self.parse_address()?;
                    let blueprint_name = self.parse_string()?;
                    let function = self.parse_string()?;
                    let args = self.parse_args()?;
                    Instruction::CallFunction { package_address, blueprint_name, function, args }
                },
                TokenKind::CallMethod => {
                    let component_address = self.parse_address()?;
                    let method = self.parse_string()?;
                    let args = self.parse_args()?;
                    Instruction::CallMethod { component_address, method, args }
                },
                TokenKind::DropAllBucketRefs => Instruction::DropAllBucketRefs,
                TokenKind::DepositAllBuckets => {
                    let account = self.parse_address()?;
                    Instruction::DepositAllBuckets { account }
                },
                _ => {
                    return Err(ParserError::UnexpectedToken(token));
                },
            };
            assert(si.0 is Ok && models_instr(ins, si.0->Ok_0) && si.1 == self.pos() && si.2 == self.bucket_names()
                && si.3 == self.ref_names());
            let ghost m = si.0->Ok_0;
            let ghost before = instructions@;
            instructions.push(ins);
            proof {
                lemma_prepend_tx(acc, m, sp_tx(t, self.pos() + 1, self.bucket_names(), self.ref_names()));
                acc = acc.push(m);
                assert forall|i: int| 0 <= i < acc.len() implies models_instr(#[trigger] instructions@[i], acc[i]) by {
                    if i < acc.len() - 1 {
                        assert(instructions@[i] == before[i]);
                    }
                }
            }
            self.expect(TokenKind::Semicolon)?;
        }
        proof {
            assert(acc + Seq::<InstrModel>::empty() =~= acc);
        }
        Ok(Transaction { instructions })
    }
}

} // verus!
