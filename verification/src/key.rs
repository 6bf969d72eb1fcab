use vstd::prelude::*;

verus! {

/// An account address: 32 bytes, held as two 128-bit halves.
#[derive(Debug, Clone, Copy, PartialEq, Eq, Structural)]
pub struct Key {
    pub hi: u128,
    pub lo: u128,
}

impl Key {
    /// The all-zero address, which stands for "no account".
    pub open spec fn default_spec() -> Key {
        Key { hi: 0, lo: 0 }
    }

    /// The all-zero address, which stands for "no account".
    pub fn default_key() -> (k: Key)
        ensures
            k == Key::default_spec(),
    {
        Key { hi: 0, lo: 0 }
    }
}

} // verus!
