use crate::bytes::{array_from_seq, lemma_array_from_seq};
use vstd::prelude::*;

verus! {

/// Number of bytes in an identity key.
pub const PUBKEY_LEN: usize = 32;

/// An opaque fixed-size identity key (a player, a game or an owning authority).
#[derive(Clone, Copy, Debug, Eq)]
pub struct Pubkey {
    bytes: [u8; 32],
}

impl View for Pubkey {
    type V = Seq<u8>;

    closed spec fn view(&self) -> Seq<u8> {
        self.bytes@
    }
}

impl Pubkey {
    /// Builds a key from its 32 bytes.
    pub fn new_from_array(bytes: [u8; 32]) -> (r: Pubkey)
        ensures
            r@ == bytes@,
    {
        Pubkey { bytes }
    }

    /// The key whose bytes are `s`, for `s` of 32 bytes.
    pub closed spec fn from_bytes_spec(s: Seq<u8>) -> Pubkey {
        Pubkey { bytes: array_from_seq(s) }
    }

    /// Builds a key from a slice of exactly 32 bytes.
    pub fn new(bytes: &[u8]) -> (r: Pubkey)
        requires
            bytes@.len() == PUBKEY_LEN,
        ensures
            r@ == bytes@,
            r == Pubkey::from_bytes_spec(bytes@),
    {
        Pubkey::read_at(bytes, 0)
    }

    /// The key held by the 32 bytes of `b` from `at`.
    pub fn read_at(b: &[u8], at: usize) -> (r: Pubkey)
        requires
            at + PUBKEY_LEN <= b@.len(),
        ensures
            r == Pubkey::from_bytes_spec(b@.subrange(at as int, at + PUBKEY_LEN)),
            r@ == b@.subrange(at as int, at + PUBKEY_LEN),
    {
        let len = b.len();
        let mut arr: [u8; 32] = [0u8; 32];
        let mut i: usize = 0;
        while i < PUBKEY_LEN
            invariant
                len == b@.len(),
                at + PUBKEY_LEN <= b@.len(),
                0 <= i <= PUBKEY_LEN,
                forall|j: int| 0 <= j < i ==> arr@[j] == b@[at + j],
            decreases PUBKEY_LEN - i,
        {
            arr[i] = b[at + i];
            i = i + 1;
        }
        assert(arr@ =~= b@.subrange(at as int, at + PUBKEY_LEN));
        proof { lemma_array_from_seq(arr); }
        Pubkey { bytes: arr }
    }

    /// Appends the key's bytes to `out`.
    pub fn push_to(&self, out: &mut Vec<u8>)
        ensures
            final(out)@ == old(out)@ + self@,
    {
        let mut i: usize = 0;
        while i < PUBKEY_LEN
            invariant
                0 <= i <= PUBKEY_LEN,
                out@ == old(out)@ + self@.subrange(0, i as int),
            decreases PUBKEY_LEN - i,
        {
            out.push(self.bytes[i]);
            i = i + 1;
            assert(out@ =~= old(out)@ + self@.subrange(0, i as int));
        }
        assert(self@.subrange(0, 32) =~= self@);
    }

    /// A key is the key of its own bytes, of which there are 32.
    pub proof fn lemma_from_bytes_view(k: Pubkey)
        ensures
            Pubkey::from_bytes_spec(k@) == k,
            k@.len() == PUBKEY_LEN,
    {
        lemma_array_from_seq(k.bytes);
    }

    /// The key's bytes.
    pub fn to_bytes(&self) -> (r: [u8; 32])
        ensures
            r@ == self@,
    {
        self.bytes
    }

    /// Two keys are equal exactly when their bytes are.
    pub proof fn lemma_eq_iff_bytes(a: Pubkey, b: Pubkey)
        ensures
            (a == b) <==> (a@ == b@),
    {
        if a@ == b@ {
            assert(a.bytes =~= b.bytes);
        }
    }
}

impl PartialEq for Pubkey {
    fn eq(&self, other: &Pubkey) -> (r: bool) {
        let mut i: usize = 0;
        while i < PUBKEY_LEN
            invariant
                0 <= i <= PUBKEY_LEN,
                forall|j: int| 0 <= j < i ==> self.bytes@[j] == other.bytes@[j],
            decreases PUBKEY_LEN - i,
        {
            if self.bytes[i] != other.bytes[i] {
                return false;
            }
            i = i + 1;
        }
        assert(self.bytes@ =~= other.bytes@);
        true
    }
}

impl vstd::std_specs::cmp::PartialEqSpecImpl for Pubkey {
    open spec fn obeys_eq_spec() -> bool {
        true
    }

    open spec fn eq_spec(&self, other: &Pubkey) -> bool {
        self@ == other@
    }
}

} // verus!
