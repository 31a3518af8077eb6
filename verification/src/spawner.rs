use vstd::prelude::*;

verus! {

/// Calls `num_cpus::get`. Trusted: the number of processors that it finds
/// is at least 1.
#[verifier::external_body]
fn available_cpus() -> (n: usize)
    ensures
        n >= 1,
{
    num_cpus::get()
}

/// How many event loops are started.
pub struct Spawner {
    pub reactors: usize,
}

impl Spawner {
    /// As many event loops as are asked for when `available` processors
    /// were found: the number in `cpus`, or one for each processor.
    pub fn sized(cpus: Option<usize>, available: usize) -> (s: Spawner)
        ensures
            s.reactors == match cpus {
                Some(n) => n,
                None => available,
            },
    {
        match cpus {
            Some(n) => Spawner { reactors: n },
            None => Spawner { reactors: available },
        }
    }

    /// As many event loops as are asked for: the number in `cpus`, or one
    /// for each processor of this machine, of which there is at least one.
    pub fn new(cpus: Option<usize>) -> (s: Spawner)
        ensures
            cpus matches Some(n) ==> s.reactors == n,
            cpus is None ==> s.reactors >= 1,
    {
        match cpus {
            Some(n) => Spawner::sized(cpus, n),
            None => Spawner::sized(cpus, available_cpus()),
        }
    }
}

} // verus!
