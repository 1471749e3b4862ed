//! The identity of a worker configuration.
use vstd::prelude::*;

verus! {

/// A worker configuration's name and the 256-bit digest of everything that,
/// if changed, calls for a fresh worker (executable, arguments, environment,
/// input files, startup options).
#[derive(Clone, Debug)]
pub struct NailgunProcessFingerprint {
    pub name: String,
    pub digest: [u8; 32],
}

pub struct FingerprintView {
    pub name: Seq<char>,
    pub digest: Seq<u8>,
}

impl View for NailgunProcessFingerprint {
    type V = FingerprintView;

    open spec fn view(&self) -> FingerprintView {
        FingerprintView { name: self.name@, digest: self.digest@ }
    }
}

impl NailgunProcessFingerprint {
    /// The fingerprint of the configuration `name` whose digest is `digest`.
    pub fn new(name: String, digest: [u8; 32]) -> (r: Self)
        ensures
            r@ == (FingerprintView { name: name@, digest: digest@ }),
    {
        NailgunProcessFingerprint { name, digest }
    }

    /// Two fingerprints are the same when both the names and the digests are.
    pub fn matches(&self, other: &Self) -> (r: bool)
        ensures
            r == (self@ == other@),
    {
        if self.name != other.name {
            return false;
        }
        let mut i: usize = 0;
        while i < 32
            invariant
                self.digest@.len() == 32,
                other.digest@.len() == 32,
                forall|j: int| 0 <= j < i ==> self.digest@[j] == other.digest@[j],
            decreases 32 - i,
        {
            if self.digest[i] != other.digest[i] {
                return false;
            }
            i = i + 1;
        }
        assert(self.digest@ =~= other.digest@);
        true
    }
}

} // verus!
