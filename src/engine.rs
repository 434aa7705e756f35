use vstd::prelude::*;
use crate::error::RuntimeError;
use crate::types::{Bid, Rid};

verus! {

/// One import of a module.
#[derive(Debug, Clone)]
pub struct ImportEntry {
    /// The imported field's name.
    pub field: String,
    /// Whether the import is a function.
    pub is_function: bool,
}

/// What module validation reads of a compiled bytecode module.
#[derive(Debug, Clone)]
pub struct ModuleInfo {
    /// Whether the module declares a start function.
    pub has_start: bool,
    /// Whether any instruction or type of the module is floating point.
    pub uses_float: bool,
    /// For each export, in order, whether it is a linear memory.
    pub exports_memory: Vec<bool>,
    /// The module's imports, in order.
    pub imports: Vec<ImportEntry>,
}

/// Number of `true` entries.
pub open spec fn count_true(s: Seq<bool>) -> nat
    decreases s.len(),
{
    if s.len() == 0 {
        0
    } else {
        count_true(s.drop_last()) + if s.last() {
            1nat
        } else {
            0nat
        }
    }
}

/// Whether an import is allowed: anything but a function outside the host
/// interface.
pub open spec fn import_ok(e: ImportEntry) -> bool {
    !e.is_function || is_host_function(e.field@)
}

fn count_memories(exports: &Vec<bool>) -> (r: usize)
    ensures
        r == count_true(exports@),
{
    let mut n: usize = 0;
    let mut i: usize = 0;
    while i < exports.len()
        invariant
            0 <= i <= exports@.len(),
            n <= i,
            n == count_true(exports@.subrange(0, i as int)),
        decreases exports@.len() - i,
    {
        assert(exports@.subrange(0, i + 1).drop_last() =~= exports@.subrange(0, i as int));
        if exports[i] {
            n = n + 1;
        }
        i = i + 1;
    }
    assert(exports@.subrange(0, i as int) =~= exports@);
    n
}

/// Whether an imported function name belongs to the host interface.
pub open spec fn is_host_function(name: Seq<char>) -> bool {
    name == "radix_engine"@
}

/// Checks a module before any of its code may run: no start function, no
/// floating point, exactly one exported memory, and only host imports; the
/// first import outside the host interface is reported by its index.
pub fn validate_module(m: &ModuleInfo) -> (r: Result<(), RuntimeError>)
    ensures
        m.has_start ==> r == Err::<(), RuntimeError>(RuntimeError::StartFunctionNotAllowed),
        !m.has_start && m.uses_float ==> r == Err::<(), RuntimeError>(RuntimeError::FloatingPointNotAllowed),
        !m.has_start && !m.uses_float && count_true(m.exports_memory@) != 1 ==> r == Err::<(), RuntimeError>(
            RuntimeError::NoValidMemoryExport,
        ),
        !m.has_start && !m.uses_float && count_true(m.exports_memory@) == 1 ==> {
            &&& r is Ok <==> forall|i: int| 0 <= i < m.imports@.len() ==> import_ok(#[trigger] m.imports@[i])
            &&& r is Err ==> r->Err_0 is HostFunctionNotFound && {
                let i = r->Err_0->HostFunctionNotFound_0 as int;
                &&& 0 <= i < m.imports@.len()
                &&& !import_ok(m.imports@[i])
                &&& forall|j: int| 0 <= j < i ==> import_ok(#[trigger] m.imports@[j])
            }
        },
{
    if m.has_start {
        return Err(RuntimeError::StartFunctionNotAllowed);
    }
    if m.uses_float {
        return Err(RuntimeError::FloatingPointNotAllowed);
    }
    if count_memories(&m.exports_memory) != 1 {
        return Err(RuntimeError::NoValidMemoryExport);
    }
    let host: String = "radix_engine".to_owned();
    let mut i: usize = 0;
    while i < m.imports.len()
        invariant
            0 <= i <= m.imports@.len(),
            host@ == "radix_engine"@,
            !m.has_start && !m.uses_float && count_true(m.exports_memory@) == 1,
            forall|j: int| 0 <= j < i ==> import_ok(#[trigger] m.imports@[j]),
        decreases m.imports@.len() - i,
    {
        if m.imports[i].is_function && m.imports[i].field != host {
            return Err(RuntimeError::HostFunctionNotFound(i));
        }
        i = i + 1;
    }
    Ok(())
}

/// The check at the end of a transaction: every bucket and bucket ref
/// left on the worktop is a leak.
pub fn check_resource_leak(buckets: &Vec<Bid>, bucket_refs: &Vec<Rid>) -> (r: Result<(), RuntimeError>)
    ensures
        r is Ok <==> buckets@.len() == 0 && bucket_refs@.len() == 0,
        r is Err ==> r->Err_0 is ResourceCheckFailure,
{
    if buckets.len() == 0 && bucket_refs.len() == 0 {
        Ok(())
    } else {
        Err(RuntimeError::ResourceCheckFailure)
    }
}

} // verus!
