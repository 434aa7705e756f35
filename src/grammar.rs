use vstd::prelude::*;
use crate::ast::{Fields, Instruction, Value};
use crate::parser::{name_index, scalar_value, ParserError, Token, TokenKind};
use crate::text::{address_of, decimal_of};
use crate::types::{AddressKind, Bid, Decimal, Rid};
use vstd::utf8::encode_utf8;

verus! {

/// Mathematical content of a parsed value.
pub enum ValueModel {
    /// A value with no nested values or byte vectors, as it is.
    Plain(Value),
    Address((AddressKind, Seq<u8>)),
    Struct(Seq<ValueModel>),
    Enum(u8, Seq<ValueModel>),
}

/// Whether `v` has the content `m`.
pub open spec fn models_value(v: Value, m: ValueModel) -> bool
    decreases m,
{
    match m {
        ValueModel::Plain(x) => v == x && !(x is Address) && !(x is Struct) && !(x is Enum),
        ValueModel::Address(a) => v is Address && v->Address_0@ == a,
        ValueModel::Struct(ms) => v is Struct && v->Struct_0 is Named && v->Struct_0->Named_0@.len() == ms.len()
            && forall|i: int| 0 <= i < ms.len() ==> models_value(#[trigger] v->Struct_0->Named_0@[i], ms[i]),
        ValueModel::Enum(tag, ms) => v is Enum && v->Enum_0 == tag && v->Enum_1 is Named && v->Enum_1->Named_0@.len()
            == ms.len() && forall|i: int| 0 <= i < ms.len() ==> models_value(#[trigger] v->Enum_1->Named_0@[i], ms[i]),
    }
}

/// Whether the values `vs` have the contents `ms`, in order.
pub open spec fn models_values(vs: Seq<Value>, ms: Seq<ValueModel>) -> bool {
    vs.len() == ms.len() && forall|i: int| 0 <= i < ms.len() ==> models_value(#[trigger] vs[i], ms[i])
}

/// An outcome with the position the parser stands at afterwards.
pub type Step<X> = (Result<X, ParserError>, int);

pub open spec fn prepend(m: ValueModel, s: Step<Seq<ValueModel>>) -> Step<Seq<ValueModel>> {
    match s.0 {
        Ok(ms) => (Ok(seq![m] + ms), s.1),
        Err(e) => (Err(e), s.1),
    }
}

/// `s` with `acc` put in front of its values.
pub open spec fn prepend_all(acc: Seq<ValueModel>, s: Step<Seq<ValueModel>>) -> Step<Seq<ValueModel>> {
    match s.0 {
        Ok(ms) => (Ok(acc + ms), s.1),
        Err(e) => (Err(e), s.1),
    }
}

pub proof fn lemma_prepend_all(acc: Seq<ValueModel>, m: ValueModel, s: Step<Seq<ValueModel>>)
    ensures
        prepend_all(acc, prepend(m, s)) == prepend_all(acc.push(m), s),
        prepend_all(Seq::empty(), s) == s,
{
    match s.0 {
        Ok(ms) => {
            assert(acc + (seq![m] + ms) =~= acc.push(m) + ms);
            assert(Seq::<ValueModel>::empty() + ms =~= ms);
        },
        Err(_) => {},
    }
}

/// One token, whatever it is.
pub open spec fn sp_advance(t: Seq<Token>, p: int) -> Step<Token> {
    if 0 <= p < t.len() {
        (Ok(t[p]), p + 1)
    } else {
        (Err(ParserError::UnexpectedEof), p)
    }
}

/// One token that must be of the kind `k`.
pub open spec fn sp_expect(t: Seq<Token>, p: int, k: TokenKind) -> Step<()> {
    if 0 <= p < t.len() {
        if t[p].kind == k {
            (Ok(()), p + 1)
        } else {
            (Err(ParserError::UnexpectedToken(t[p])), p + 1)
        }
    } else {
        (Err(ParserError::UnexpectedEof), p)
    }
}

/// A string literal.
pub open spec fn sp_string(t: Seq<Token>, p: int) -> Step<String> {
    if 0 <= p < t.len() {
        match t[p].kind {
            TokenKind::String(v) => (Ok(v), p + 1),
            _ => (Err(ParserError::UnexpectedToken(t[p])), p + 1),
        }
    } else {
        (Err(ParserError::UnexpectedEof), p)
    }
}

/// `<head> ( "text" )`: the text, once the four tokens are read.
pub open spec fn sp_wrapped_text(t: Seq<Token>, p: int, head: TokenKind) -> Step<String> {
    let a = sp_expect(t, p, head);
    if a.0 is Err {
        (Err(a.0->Err_0), a.1)
    } else {
        let b = sp_expect(t, a.1, TokenKind::OpenParenthesis);
        if b.0 is Err {
            (Err(b.0->Err_0), b.1)
        } else {
            let s = sp_string(t, b.1);
            if s.0 is Err {
                s
            } else {
                let c = sp_expect(t, s.1, TokenKind::CloseParenthesis);
                if c.0 is Err {
                    (Err(c.0->Err_0), c.1)
                } else {
                    (s.0, c.1)
                }
            }
        }
    }
}

/// `Decimal ( "text" )`: its raw value.
pub open spec fn sp_decimal(t: Seq<Token>, p: int) -> Step<int> {
    let w = sp_wrapped_text(t, p, TokenKind::Decimal);
    match w.0 {
        Err(e) => (Err(e), w.1),
        Ok(s) => match decimal_of(encode_utf8(s@)) {
            Some(v) => (Ok(v), w.1),
            None => (Err(ParserError::InvalidDecimal(s)), w.1),
        },
    }
}

/// `Address ( "hex" )`: its kind and hash bytes.
pub open spec fn sp_address(t: Seq<Token>, p: int) -> Step<(AddressKind, Seq<u8>)> {
    let w = sp_wrapped_text(t, p, TokenKind::Address);
    match w.0 {
        Err(e) => (Err(e), w.1),
        Ok(s) => match address_of(encode_utf8(s@)) {
            Some(a) => (Ok(a), w.1),
            None => (Err(ParserError::InvalidAddress(s)), w.1),
        },
    }
}

/// `<head> ( n )` or `<head> ( "name" )`, a name standing for the index of
/// its latest declaration in `names`; `is_ref` picks the error for an
/// undeclared name.
pub open spec fn sp_handle(t: Seq<Token>, p: int, head: TokenKind, names: Seq<String>, is_ref: bool) -> Step<u32> {
    let a = sp_expect(t, p, head);
    if a.0 is Err {
        (Err(a.0->Err_0), a.1)
    } else {
        let b = sp_expect(t, a.1, TokenKind::OpenParenthesis);
        if b.0 is Err {
            (Err(b.0->Err_0), b.1)
        } else {
            let c = sp_advance(t, b.1);
            match c.0 {
                Err(e) => (Err(e), c.1),
                Ok(tok) => {
                    let id: Result<u32, ParserError> = match tok.kind {
                        TokenKind::String(v) => match name_index(names, v@) {
                            Some(i) => Ok(i as u32),
                            None => Err(
                                if is_ref {
                                    ParserError::UndeclaredBucketRef(v)
                                } else {
                                    ParserError::UndeclaredBucket(v)
                                },
                            ),
                        },
                        TokenKind::U32(v) => Ok(v),
                        _ => Err(ParserError::UnexpectedToken(tok)),
                    };
                    if id is Err {
                        (id, c.1)
                    } else {
                        let d = sp_expect(t, c.1, TokenKind::CloseParenthesis);
                        if d.0 is Err {
                            (Err(d.0->Err_0), d.1)
                        } else {
                            (id, d.1)
                        }
                    }
                },
            }
        }
    }
}

/// One value of the grammar.
pub open spec fn sp_value(t: Seq<Token>, p: int, bn: Seq<String>, rn: Seq<String>) -> Step<ValueModel>
    decreases t.len() - p, 2nat,
{
    if !(0 <= p < t.len()) {
        (Err(ParserError::UnexpectedEof), p)
    } else {
        let k = t[p].kind;
        if scalar_value(k) is Some {
            (Ok(ValueModel::Plain(scalar_value(k)->0)), p + 1)
        } else if k is Struct {
            sp_struct(t, p, bn, rn)
        } else if k is Enum {
            sp_enum(t, p, bn, rn)
        } else if k is Decimal {
            let d = sp_decimal(t, p);
            match d.0 {
                Ok(v) => (Ok(ValueModel::Plain(Value::Decimal(Decimal(v as i128)))), d.1),
                Err(e) => (Err(e), d.1),
            }
        } else if k is Address {
            let a = sp_address(t, p);
            match a.0 {
                Ok(v) => (Ok(ValueModel::Address(v)), a.1),
                Err(e) => (Err(e), a.1),
            }
        } else if k is Bucket {
            let h = sp_handle(t, p, TokenKind::Bucket, bn, false);
            match h.0 {
                Ok(v) => (Ok(ValueModel::Plain(Value::Bucket(Bid(v)))), h.1),
                Err(e) => (Err(e), h.1),
            }
        } else if k is BucketRef {
            let h = sp_handle(t, p, TokenKind::BucketRef, rn, true);
            match h.0 {
                Ok(v) => (Ok(ValueModel::Plain(Value::BucketRef(Rid(v)))), h.1),
                Err(e) => (Err(e), h.1),
            }
        } else {
            (Err(ParserError::UnexpectedToken(t[p])), p)
        }
    }
}

/// `'Struct' values`.
pub open spec fn sp_struct(t: Seq<Token>, p: int, bn: Seq<String>, rn: Seq<String>) -> Step<ValueModel>
    decreases t.len() - p, 1nat,
{
    let a = sp_expect(t, p, TokenKind::Struct);
    if a.0 is Err || !(0 <= p < t.len()) {
        (Err(a.0->Err_0), a.1)
    } else {
        let vs = sp_values(t, p + 1, bn, rn);
        match vs.0 {
            Ok(ms) => (Ok(ValueModel::Struct(ms)), vs.1),
            Err(e) => (Err(e), vs.1),
        }
    }
}

/// `'Enum' '(' u8 ')' values`.
pub open spec fn sp_enum(t: Seq<Token>, p: int, bn: Seq<String>, rn: Seq<String>) -> Step<ValueModel>
    decreases t.len() - p, 1nat,
{
    let a = sp_expect(t, p, TokenKind::Enum);
    if a.0 is Err || !(0 <= p < t.len()) {
        (Err(a.0->Err_0), a.1)
    } else {
        let b = sp_expect(t, p + 1, TokenKind::OpenParenthesis);
        if b.0 is Err {
            (Err(b.0->Err_0), b.1)
        } else {
            let c = sp_advance(t, p + 2);
            match c.0 {
                Err(e) => (Err(e), c.1),
                Ok(tok) => if !(tok.kind is U8) {
                    (Err(ParserError::UnexpectedToken(tok)), c.1)
                } else {
                    let d = sp_expect(t, p + 3, TokenKind::CloseParenthesis);
                    if d.0 is Err {
                        (Err(d.0->Err_0), d.1)
                    } else {
                        let vs = sp_values(t, p + 4, bn, rn);
                        match vs.0 {
                            Ok(ms) => (Ok(ValueModel::Enum(tok.kind->U8_0, ms)), vs.1),
                            Err(e) => (Err(e), vs.1),
                        }
                    }
                },
            }
        }
    }
}

/// `values = '(' [ value { ',' value } ] ')'`.
pub open spec fn sp_values(t: Seq<Token>, p: int, bn: Seq<String>, rn: Seq<String>) -> Step<Seq<ValueModel>>
    decreases t.len() - p, 0nat,
{
    let a = sp_expect(t, p, TokenKind::OpenParenthesis);
    if a.0 is Err || !(0 <= p < t.len()) {
        (Err(a.0->Err_0), a.1)
    } else {
        sp_elems(t, p + 1, bn, rn)
    }
}

/// The rest of a value list after its `(`, up to and including its `)`.
pub open spec fn sp_elems(t: Seq<Token>, q: int, bn: Seq<String>, rn: Seq<String>) -> Step<Seq<ValueModel>>
    decreases t.len() - q, 3nat,
{
    if !(0 <= q < t.len()) {
        (Err(ParserError::UnexpectedEof), q)
    } else if t[q].kind is CloseParenthesis {
        (Ok(Seq::empty()), q + 1)
    } else {
        let v = sp_value(t, q, bn, rn);
        match v.0 {
            Err(e) => (Err(e), v.1),
            Ok(m) => if !(q < v.1 < t.len()) {
                (Err(ParserError::UnexpectedEof), v.1)
            } else if t[v.1].kind is CloseParenthesis {
                prepend(m, sp_elems(t, v.1, bn, rn))
            } else if t[v.1].kind is Comma {
                prepend(m, sp_elems(t, v.1 + 1, bn, rn))
            } else {
                (Err(ParserError::UnexpectedToken(t[v.1])), v.1 + 1)
            },
        }
    }
}

/// The arguments of a call: values up to, not including, the next `;`.
pub open spec fn sp_args(t: Seq<Token>, q: int, bn: Seq<String>, rn: Seq<String>) -> Step<Seq<ValueModel>>
    decreases t.len() - q, 3nat,
{
    if !(0 <= q < t.len()) {
        (Err(ParserError::UnexpectedEof), q)
    } else if t[q].kind is Semicolon {
        (Ok(Seq::empty()), q)
    } else {
        let v = sp_value(t, q, bn, rn);
        match v.0 {
            Err(e) => (Err(e), v.1),
            Ok(m) => if q < v.1 <= t.len() {
                prepend(m, sp_args(t, v.1, bn, rn))
            } else {
                (Err(ParserError::UnexpectedEof), v.1)
            },
        }
    }
}

/// Mathematical content of a parsed instruction.
pub enum InstrModel {
    DeclareTempBucket(String),
    DeclareTempBucketRef(String),
    TakeFromContext(int, (AddressKind, Seq<u8>), u32),
    BorrowFromContext(int, (AddressKind, Seq<u8>), u32),
    CallFunction((AddressKind, Seq<u8>), String, String, Seq<ValueModel>),
    CallMethod((AddressKind, Seq<u8>), String, Seq<ValueModel>),
    DropAllBucketRefs,
    DepositAllBuckets((AddressKind, Seq<u8>)),
}

/// Whether `ins` has the content `m`.
pub open spec fn models_instr(ins: Instruction, m: InstrModel) -> bool {
    match (ins, m) {
        (Instruction::DeclareTempBucket { name }, InstrModel::DeclareTempBucket(n)) => name == n,
        (Instruction::DeclareTempBucketRef { name }, InstrModel::DeclareTempBucketRef(n)) => name == n,
        (
            Instruction::TakeFromContext { amount, resource_address, to },
            InstrModel::TakeFromContext(d, a, h),
        ) => amount.0 as int == d && resource_address@ == a && to.0 == h,
        (
            Instruction::BorrowFromContext { amount, resource_address, to },
            InstrModel::BorrowFromContext(d, a, h),
        ) => amount.0 as int == d && resource_address@ == a && to.0 == h,
        (
            Instruction::CallFunction { package_address, blueprint_name, function, args },
            InstrModel::CallFunction(a, b, f, ms),
        ) => package_address@ == a && blueprint_name == b && function == f && models_values(args@, ms),
        (
            Instruction::CallMethod { component_address, method, args },
            InstrModel::CallMethod(a, f, ms),
        ) => component_address@ == a && method == f && models_values(args@, ms),
        (Instruction::DropAllBucketRefs, InstrModel::DropAllBucketRefs) => true,
        (Instruction::DepositAllBuckets { account }, InstrModel::DepositAllBuckets(a)) => account@ == a,
        _ => false,
    }
}

/// Whether the instructions `is` have the contents `ms`, in order.
pub open spec fn models_instrs(is: Seq<Instruction>, ms: Seq<InstrModel>) -> bool {
    is.len() == ms.len() && forall|i: int| 0 <= i < ms.len() ==> models_instr(#[trigger] is[i], ms[i])
}

/// An outcome, the position afterwards, and the declared bucket and
/// bucket-ref names afterwards.
pub type TxStep<X> = (Result<X, ParserError>, int, Seq<String>, Seq<String>);

/// One instruction at `p`, before its `;`.
pub open spec fn sp_instr(t: Seq<Token>, p: int, bn: Seq<String>, rn: Seq<String>) -> TxStep<InstrModel> {
    if !(0 <= p < t.len()) {
        (Err(ParserError::UnexpectedEof), p, bn, rn)
    } else {
        let tok = t[p];
        let q = p + 1;
        match tok.kind {
            TokenKind::DeclareTempBucket => {
                let s = sp_string(t, q);
                match s.0 {
                    Err(e) => (Err(e), s.1, bn, rn),
                    Ok(name) => if bn.len() >= u32::MAX {
                        (Err(ParserError::UnexpectedToken(tok)), s.1, bn, rn)
                    } else {
                        (Ok(InstrModel::DeclareTempBucket(name)), s.1, bn.push(name), rn)
                    },
                }
            },
            TokenKind::DeclareTempBucketRef => {
                let s = sp_string(t, q);
                match s.0 {
                    Err(e) => (Err(e), s.1, bn, rn),
                    Ok(name) => if rn.len() >= u32::MAX {
                        (Err(ParserError::UnexpectedToken(tok)), s.1, bn, rn)
                    } else {
                        (Ok(InstrModel::DeclareTempBucketRef(name)), s.1, bn, rn.push(name))
                    },
                }
            },
            TokenKind::TakeFromContext | TokenKind::BorrowFromContext => {
                let is_ref = tok.kind is BorrowFromContext;
                let d = sp_decimal(t, q);
                match d.0 {
                    Err(e) => (Err(e), d.1, bn, rn),
                    Ok(amount) => {
                        let a = sp_address(t, d.1);
                        match a.0 {
                            Err(e) => (Err(e), a.1, bn, rn),
                            Ok(addr) => {
                                let h = if is_ref {
                                    sp_handle(t, a.1, TokenKind::BucketRef, rn, true)
                                } else {
                                    sp_handle(t, a.1, TokenKind::Bucket, bn, false)
                                };
                                match h.0 {
                                    Err(e) => (Err(e), h.1, bn, rn),
                                    Ok(id) => (
                                        Ok(
                                            if is_ref {
                                                InstrModel::BorrowFromContext(amount, addr, id)
                                            } else {
                                                InstrModel::TakeFromContext(amount, addr, id)
                                            },
                                        ),
                                        h.1,
                                        bn,
                                        rn,
                                    ),
                                }
                            },
                        }
                    },
                }
            },
            TokenKind::CallFunction => {
                let a = sp_address(t, q);
                match a.0 {
                    Err(e) => (Err(e), a.1, bn, rn),
                    Ok(addr) => {
                        let b = sp_string(t, a.1);
                        match b.0 {
                            Err(e) => (Err(e), b.1, bn, rn),
                            Ok(bp) => {
                                let f = sp_string(t, b.1);
                                match f.0 {
                                    Err(e) => (Err(e), f.1, bn, rn),
                                    Ok(func) => {
                                        let args = sp_args(t, f.1, bn, rn);
                                        match args.0 {
                                            Err(e) => (Err(e), args.1, bn, rn),
                                            Ok(ms) => (Ok(InstrModel::CallFunction(addr, bp, func, ms)), args.1, bn, rn),
                                        }
                                    },
                                }
                            },
                        }
                    },
                }
            },
            TokenKind::CallMethod => {
                let a = sp_address(t, q);
                match a.0 {
                    Err(e) => (Err(e), a.1, bn, rn),
                    Ok(addr) => {
                        let f = sp_string(t, a.1);
                        match f.0 {
                            Err(e) => (Err(e), f.1, bn, rn),
                            Ok(method) => {
                                let args = sp_args(t, f.1, bn, rn);
                                match args.0 {
                                    Err(e) => (Err(e), args.1, bn, rn),
                                    Ok(ms) => (Ok(InstrModel::CallMethod(addr, method, ms)), args.1, bn, rn),
                                }
                            },
                        }
                    },
                }
            },
            TokenKind::DropAllBucketRefs => (Ok(InstrModel::DropAllBucketRefs), q, bn, rn),
            TokenKind::DepositAllBuckets => {
                let a = sp_address(t, q);
                match a.0 {
                    Err(e) => (Err(e), a.1, bn, rn),
                    Ok(addr) => (Ok(InstrModel::DepositAllBuckets(addr)), a.1, bn, rn),
                }
            },
            _ => (Err(ParserError::UnexpectedToken(tok)), q, bn, rn),
        }
    }
}

pub open spec fn prepend_tx(acc: Seq<InstrModel>, s: TxStep<Seq<InstrModel>>) -> TxStep<Seq<InstrModel>> {
    match s.0 {
        Ok(ms) => (Ok(acc + ms), s.1, s.2, s.3),
        Err(e) => (Err(e), s.1, s.2, s.3),
    }
}

/// `transaction = { instruction ';' } EOF`, from `p` on, with the names
/// declared so far.
pub open spec fn sp_tx(t: Seq<Token>, p: int, bn: Seq<String>, rn: Seq<String>) -> TxStep<Seq<InstrModel>>
    decreases t.len() - p,
{
    if !(0 <= p < t.len()) {
        (Ok(Seq::empty()), p, bn, rn)
    } else {
        let i = sp_instr(t, p, bn, rn);
        match i.0 {
            Err(e) => (Err(e), i.1, i.2, i.3),
            Ok(m) => {
                let e = sp_expect(t, i.1, TokenKind::Semicolon);
                if e.0 is Err {
                    (Err(e.0->Err_0), e.1, i.2, i.3)
                } else if p < e.1 <= t.len() {
                    prepend_tx(seq![m], sp_tx(t, e.1, i.2, i.3))
                } else {
                    (Err(ParserError::UnexpectedEof), e.1, i.2, i.3)
                }
            },
        }
    }
}

pub proof fn lemma_prepend_tx(acc: Seq<InstrModel>, m: InstrModel, s: TxStep<Seq<InstrModel>>)
    ensures
        prepend_tx(acc, prepend_tx(seq![m], s)) == prepend_tx(acc.push(m), s),
        prepend_tx(Seq::empty(), s) == s,
{
    match s.0 {
        Ok(ms) => {
            assert(acc + (seq![m] + ms) =~= acc.push(m) + ms);
            assert(Seq::<InstrModel>::empty() + ms =~= ms);
        },
        Err(_) => {},
    }
}

} // verus!
