use vstd::prelude::*;
use crate::nft::NftError;
use crate::resource::BucketError;
use crate::types::{Address, Bid, Mid, Rid, Vid};

verus! {

/// Declares `wasmi::Error`, the bytecode interpreter's error, so that the
/// error variants below can carry it; nothing is assumed of its contents.
#[verifier::external_type_specification]
#[verifier::external_body]
pub struct ExWasmError(wasmi::Error);

/// Represents an error when decoding an encoded value.
#[derive(Debug, Clone, Copy, PartialEq, Eq, Structural)]
pub enum DecodeError {
    Underflow { required: usize, remaining: usize },
    InvalidType { expected: u8, actual: u8 },
    InvalidIndex(u8),
    InvalidLength { expected: usize, actual: usize },
    NotAllBytesUsed(usize),
    DuplicateKey,
    InvalidUtf8,
}

/// Represents an error when accessing a component.
#[derive(Debug, Clone, Copy, PartialEq, Eq, Structural)]
pub enum ComponentError {
    UnauthorizedAccess,
}

/// Represents an error when accessing a lazy map.
#[derive(Debug, Clone, Copy, PartialEq, Eq, Structural)]
pub enum LazyMapError {
    UnauthorizedAccess,
}

/// Represents an error when minting, burning or updating a resource.
#[derive(Debug, Clone, Copy, PartialEq, Eq, Structural)]
pub enum ResourceDefError {
    MintNotAllowed,
    BurnNotAllowed,
    UnauthorizedAccess,
}

/// Represents an error when accessing a vault.
#[derive(Debug, Clone, Copy, PartialEq, Eq, Structural)]
pub enum VaultError {
    AccountingError(BucketError),
    UnauthorizedAccess,
}

/// Represents an error occurred during transaction execution.
#[derive(Debug)]
pub enum RuntimeError {
    /// The module is invalid.
    InvalidModule(wasmi::Error),
    /// The module contains a start function.
    StartFunctionNotAllowed,
    /// The module uses floating point.
    FloatingPointNotAllowed,
    /// The module does not export a single linear memory.
    NoValidMemoryExport,
    /// Error when invoking an export.
    InvokeError(wasmi::Error),
    /// Error when accessing the program memory.
    MemoryAccessError(wasmi::Error),
    /// Error when allocating memory in the program.
    MemoryAllocError,
    /// No return data.
    NoReturnData,
    /// The return value type is invalid.
    InvalidReturnType,
    /// Invalid request code.
    InvalidRequestCode(u32),
    /// Invalid request data.
    InvalidRequestData(DecodeError),
    /// The data is not a valid encoding.
    InvalidData(DecodeError),
    /// The requested host function does not exist.
    HostFunctionNotFound(usize),
    PackageAlreadyExists(Address),
    ComponentAlreadyExists(Address),
    ResourceDefAlreadyExists(Address),
    LazyMapAlreadyExists(Mid),
    PackageNotFound(Address),
    ComponentNotFound(Address),
    ResourceDefNotFound(Address),
    NftNotFound(Address, u128),
    NftAlreadyExists(Address, u128),
    LazyMapNotFound(Mid),
    VaultNotFound(Vid),
    BucketNotFound(Bid),
    BucketRefNotFound(Rid),
    InvalidPackageAddress(Address),
    InvalidComponentAddress(Address),
    InvalidResourceDefAddress(Address),
    /// The referenced bucket contains no resource.
    EmptyBucketRef,
    BucketError(BucketError),
    ComponentError(ComponentError),
    LazyMapError(LazyMapError),
    ResourceDefError(ResourceDefError),
    VaultError(VaultError),
    NftError(NftError),
    /// Bucket is not allowed (in component state).
    BucketNotAllowed,
    /// Bucket ref is not allowed (in component state).
    BucketRefNotAllowed,
    /// Interpreter is not started.
    InterpreterNotStarted,
    /// Invalid log level.
    InvalidLogLevel,
    /// The bucket id is not reserved.
    BucketNotReserved,
    /// The bucket ref id is not reserved.
    BucketRefNotReserved,
    /// Neither a signer nor a presented badge authorises the operation.
    UnauthorizedAccess,
    /// Resources were left on the worktop at the end of the transaction.
    ResourceCheckFailure,
}

/// Errors of the earlier execution layer.
#[derive(Debug)]
pub enum ExecutionError {
    RuntimeError(wasmi::Error),
    MemoryAccessError(wasmi::Error),
    NoValidBlueprintReturn,
    InvalidOpCode(u32),
    InvalidRequest(DecodeError),
    UnknownHostFunction(usize),
    UnableToAllocateMemory,
    ResourceLeak(Vec<Bid>),
    BlueprintAlreadyExists(Address),
    ComponentAlreadyExists(Address),
    ResourceAlreadyExists(Address),
    ComponentNotFound(Address),
    ResourceNotFound(Address),
    ImmutableResource,
    NotAuthorizedToMint,
    BucketNotFound,
    BucketRefNotFound,
    BucketOperationError(BucketError),
}

} // verus!
