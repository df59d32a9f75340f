use vstd::prelude::*;

verus! {

/// A 32-byte ledger address, the unit of identity for every record.
#[derive(Clone, Copy)]
pub struct Key {
    pub bytes: [u8; 32],
}

impl View for Key {
    type V = Seq<u8>;

    open spec fn view(&self) -> Seq<u8> {
        self.bytes@
    }
}

impl DeepView for Key {
    type V = Seq<u8>;

    open spec fn deep_view(&self) -> Seq<u8> {
        self.bytes@
    }
}

/// The all-zero address: the value an unassigned pointer field holds.
/// No record is ever stored at this address.
#[verifier::opaque]
pub open spec fn null_key() -> Seq<u8> {
    Seq::new(32, |i: int| 0u8)
}

impl Key {
    pub fn from_bytes(bytes: [u8; 32]) -> (r: Key)
        ensures
            r@ == bytes@,
    {
        Key { bytes }
    }

    /// The all-zero address.
    pub fn null() -> (r: Key)
        ensures
            r@ == null_key(),
    {
        let k = Key { bytes: [0u8; 32] };
        proof {
            reveal(null_key);
            assert(k@ =~= null_key());
        }
        k
    }
}

/// Byte-for-byte equality of two addresses.
pub fn key_eq(a: &Key, b: &Key) -> (r: bool)
    ensures
        r == (a@ == b@),
{
    let mut i: usize = 0;
    while i < 32
        invariant
            0 <= i <= 32,
            forall|j: int| 0 <= j < i ==> a.bytes@[j] == b.bytes@[j],
        decreases 32 - i,
    {
        if a.bytes[i] != b.bytes[i] {
            return false;
        }
        i += 1;
    }
    proof {
        assert(a@ =~= b@);
    }
    true
}

/// Whether an address occurs in a list of addresses.
pub fn key_vec_contains(v: &Vec<Key>, k: &Key) -> (r: bool)
    ensures
        r == v.deep_view().contains(k@),
{
    let mut i: usize = 0;
    while i < v.len()
        invariant
            0 <= i <= v.len(),
            forall|j: int| 0 <= j < i ==> v.deep_view()[j] != k@,
        decreases v.len() - i,
    {
        if key_eq(&v[i], k) {
            proof {
                assert(v.deep_view()[i as int] == k@);
            }
            return true;
        }
        i += 1;
    }
    false
}

} // verus!
