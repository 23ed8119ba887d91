use vstd::prelude::*;

verus! {

/// Calls `num_cpus::get`, the number of logical cores available to this
/// process. The count depends on the machine, so all that is claimed is what
/// the function documents of every result: it is at least one.
#[verifier::external_body]
fn available_cpus() -> (n: usize)
    ensures
        n >= 1,
{
    num_cpus::get()
}

/// The number of workers for a run: the requested number where one was
/// given, else the available parallelism.
pub open spec fn resolved_workers(requested: Option<usize>, available: usize) -> usize {
    match requested {
        Some(n) => n,
        None => available,
    }
}

/// Chooses between the requested number of workers and the available
/// parallelism.
pub fn resolve_worker_count(requested: Option<usize>, available: usize) -> (n: usize)
    ensures
        n == resolved_workers(requested, available),
{
    match requested {
        Some(n) => n,
        None => available,
    }
}

/// The number of workers for a run on this machine. A requested number is
/// taken as it is; without one the machine decides, and gives at least one.
pub fn worker_count(requested: Option<usize>) -> (n: usize)
    ensures
        requested matches Some(r) ==> n == r,
        requested is None ==> n >= 1,
{
    match requested {
        Some(n) => n,
        None => resolve_worker_count(None, available_cpus()),
    }
}

} // verus!
