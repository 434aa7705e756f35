use vstd::prelude::*;
use crate::types::{Address, Bid, Decimal, Rid};

verus! {

/// A parsed transaction manifest.
#[derive(Debug)]
pub struct Transaction {
    pub instructions: Vec<Instruction>,
}

/// One manifest instruction.
#[derive(Debug)]
pub enum Instruction {
    DeclareTempBucket { name: String },
    DeclareTempBucketRef { name: String },
    TakeFromContext { amount: Decimal, resource_address: Address, to: Bid },
    BorrowFromContext { amount: Decimal, resource_address: Address, to: Rid },
    CallFunction { package_address: Address, blueprint_name: String, function: String, args: Vec<Value> },
    CallMethod { component_address: Address, method: String, args: Vec<Value> },
    DropAllBucketRefs,
    DepositAllBuckets { account: Address },
}

/// The fields of a struct or enum variant.
#[derive(Debug)]
pub enum Fields {
    Named(Vec<Value>),
    Unnamed(Vec<Value>),
    Unit,
}

/// A struct value.
#[derive(Debug)]
pub struct Struct {
    pub fields: Fields,
}

/// A tagged value, as carried across the engine boundary.
#[derive(Debug)]
pub enum Value {
    Unit,
    Bool(bool),
    I8(i8),
    I16(i16),
    I32(i32),
    I64(i64),
    I128(i128),
    U8(u8),
    U16(u16),
    U32(u32),
    U64(u64),
    U128(u128),
    String(String),
    Struct(Fields),
    Enum(u8, Fields),
    Option(Box<Option<Value>>),
    Box(Box<Value>),
    Array(u8, Vec<Value>),
    Tuple(Vec<Value>),
    Result(Box<Result<Value, Value>>),
    Vec(u8, Vec<Value>),
    TreeSet(u8, Vec<Value>),
    TreeMap(u8, u8, Vec<(Value, Value)>),
    HashSet(u8, Vec<Value>),
    HashMap(u8, u8, Vec<(Value, Value)>),
    Decimal(Decimal),
    Address(Address),
    Bucket(Bid),
    BucketRef(Rid),
}

} // verus!
