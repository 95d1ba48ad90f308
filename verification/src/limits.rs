use vstd::prelude::*;

verus! {

/// Relies on `nix::sys::resource::getrlimit(RLIMIT_NOFILE)`: the soft
/// limit on open file descriptors, when the kernel reports one. The value
/// depends on the environment, so nothing is promised of it.
#[verifier::external_body]
fn nofile_soft_limit() -> (r: Option<usize>)
{
    match nix::sys::resource::getrlimit(nix::sys::resource::Resource::RLIMIT_NOFILE) {
        Ok((soft, _hard)) => Some(soft as usize),
        Err(_) => None,
    }
}

/// The default batch size for a given soft open-file limit: the limit
/// (1024 when it cannot be queried) minus a margin of 32 descriptors kept
/// for standard streams and the list file, and at least 1.
pub open spec fn default_batch_size_spec(soft: Option<usize>) -> int {
    let base: int = match soft {
        Some(s) => s as int,
        None => 1024,
    };
    let margined: int = if base >= 32 {
        base - 32
    } else {
        0
    };
    if margined >= 1 {
        margined
    } else {
        1
    }
}

/// Compute the default batch size from a queried soft limit.
pub fn default_batch_size(soft: Option<usize>) -> (r: usize)
    ensures
        r == default_batch_size_spec(soft),
        r >= 1,
{
    let base: usize = match soft {
        Some(s) => s,
        None => 1024,
    };
    let margined: usize = if base >= 32 {
        base - 32
    } else {
        0
    };
    if margined >= 1 {
        margined
    } else {
        1
    }
}

/// The effective batch size: the explicitly configured value is trusted
/// as given, while an absent one falls back to the safety-margined
/// default for the queried limit. Always at least 1.
pub fn effective_batch_size(explicit: Option<usize>, soft: Option<usize>) -> (r: usize)
    requires
        explicit matches Some(b) ==> b >= 1,
    ensures
        r >= 1,
        explicit matches Some(b) ==> r == b,
        explicit is None ==> r == default_batch_size_spec(soft),
{
    match explicit {
        Some(b) => b,
        None => default_batch_size(soft),
    }
}

/// The batch size for this run: the configured value when one was given,
/// else a default derived from the platform's open-file limit.
pub fn configured_batch_size(explicit: Option<usize>) -> (r: usize)
    requires
        explicit matches Some(b) ==> b >= 1,
    ensures
        r >= 1,
        explicit matches Some(b) ==> r == b,
{
    let soft = nofile_soft_limit();
    effective_batch_size(explicit, soft)
}

} // verus!
