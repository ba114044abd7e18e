//! Subnets of the main network, and its change log.
use crate::principal::{ascii_lowercase, parses_to, principal_text, refused_with, Principal};
use vstd::prelude::*;
use vstd::string::*;

verus! {

/// Whether `r` is what reading the subnet id in `text` gives.
pub open spec fn is_subnet(r: Result<Principal, String>, text: Seq<char>) -> bool {
    match r {
        Ok(p) => parses_to(text, p@) && principal_text(p@) == ascii_lowercase(text),
        Err(message) => refused_with(text, message@),
    }
}

/// The NNS subnet of the main network.
pub fn mainnet_nns_subnet() -> (r: Result<Principal, String>)
    ensures
        is_subnet(r, "tdb26-jop6k-aogll-7ltgs-eruif-6kk7m-qpktf-gdiqx-mxtrf-vb5e6-eqe"@),
{
    Principal::from_text("tdb26-jop6k-aogll-7ltgs-eruif-6kk7m-qpktf-gdiqx-mxtrf-vb5e6-eqe")
}

/// An application subnet of the main network.
pub fn mainnet_app_subnet() -> (r: Result<Principal, String>)
    ensures
        is_subnet(r, "6pbhf-qzpdk-kuqbr-pklfa-5ehhf-jfjps-zsj6q-57nrl-kzhpd-mu7hc-vae"@),
{
    Principal::from_text("6pbhf-qzpdk-kuqbr-pklfa-5ehhf-jfjps-zsj6q-57nrl-kzhpd-mu7hc-vae")
}

/// The entries of a change log with the versions that they are stored at, the first at
/// version 1.
pub fn versioned<T: Copy>(changelog: &Vec<T>) -> (r: Vec<(u64, T)>)
    requires
        changelog@.len() < u64::MAX,
    ensures
        r@.len() == changelog@.len(),
        forall|i: int|
            0 <= i < changelog@.len() ==> #[trigger] r@[i] == ((i + 1) as u64, changelog@[i]),
{
    let mut entries: Vec<(u64, T)> = Vec::new();
    let mut i: usize = 0;
    while i < changelog.len()
        invariant
            i <= changelog@.len() < u64::MAX,
            entries@.len() == i,
            forall|j: int| 0 <= j < i ==> #[trigger] entries@[j] == ((j + 1) as u64, changelog@[j]),
        decreases changelog.len() - i,
    {
        entries.push((i as u64 + 1, changelog[i]));
        i = i + 1;
    }
    entries
}

} // verus!
