use vstd::prelude::*;

verus! {

/// The identity of an account: 32 bytes.
#[derive(Clone, Copy, Debug, PartialEq, Eq)]
pub struct Pubkey {
    pub bytes: [u8; 32],
}

/// Byte-wise order of two keys: the first byte that differs decides.
pub open spec fn spec_bytes_less(a: Seq<u8>, b: Seq<u8>) -> bool {
    exists|i: int|
        0 <= i < 32 && #[trigger] a[i] < b[i] && (forall|j: int| 0 <= j < i ==> a[j] == b[j])
}

/// The derived order of `solana_program::pubkey::Pubkey`, which compares
/// the 32 bytes of the two keys in turn: the result says whether `a` comes
/// strictly before `b` in that order.
#[verifier::external_body]
fn key_bytes_less(a: &[u8; 32], b: &[u8; 32]) -> (r: bool)
    ensures
        r == spec_bytes_less(a@, b@),
{
    anchor_lang::prelude::Pubkey::new_from_array(*a)
        < anchor_lang::prelude::Pubkey::new_from_array(*b)
}

impl Pubkey {
    /// The key whose bytes are all zero.
    pub open spec fn spec_zero() -> Pubkey {
        Pubkey { bytes: vstd::array::spec_array_fill_for_copy_type::<u8, 32>(0u8) }
    }

    /// Makes the key whose bytes are all zero.
    pub fn zero() -> (r: Pubkey)
        ensures
            r == Pubkey::spec_zero(),
            forall|i: int| 0 <= i < 32 ==> r@[i] == 0,
    {
        Pubkey { bytes: [0u8; 32] }
    }

    /// The bytes of the key, as a sequence.
    pub open spec fn view(&self) -> Seq<u8> {
        self.bytes@
    }

    /// Makes a key from its 32 bytes.
    pub fn new_from_array(bytes: [u8; 32]) -> (r: Pubkey)
        ensures
            r@ == bytes@,
            r.bytes == bytes,
    {
        Pubkey { bytes }
    }

    /// The 32 bytes of the key.
    pub fn to_bytes(&self) -> (r: [u8; 32])
        ensures
            r@ == self@,
    {
        self.bytes
    }

    /// Whether two keys hold the same bytes.
    pub fn equals(&self, other: &Pubkey) -> (r: bool)
        ensures
            r == (self@ == other@),
    {
        let mut i: usize = 0;
        while i < 32
            invariant
                0 <= i <= 32,
                forall|j: int| 0 <= j < i ==> self.bytes@[j] == other.bytes@[j],
            decreases 32 - i,
        {
            if self.bytes[i] != other.bytes[i] {
                return false;
            }
            i = i + 1;
        }
        assert(self.bytes@ =~= other.bytes@);
        true
    }

    /// Whether this key comes strictly before `other` in the order of keys.
    pub fn precedes(&self, other: &Pubkey) -> (r: bool)
        ensures
            r == spec_bytes_less(self@, other@),
    {
        key_bytes_less(&self.bytes, &other.bytes)
    }
}

impl Default for Pubkey {
    fn default() -> (r: Pubkey)
        ensures
            r == Pubkey::spec_zero(),
    {
        Pubkey::zero()
    }
}

/// No key comes before itself, and of two keys that differ exactly one
/// comes before the other.
pub proof fn lemma_key_order_is_strict_total(a: Seq<u8>, b: Seq<u8>)
    requires
        a.len() == 32,
        b.len() == 32,
    ensures
        !spec_bytes_less(a, a),
        a != b ==> (spec_bytes_less(a, b) != spec_bytes_less(b, a)),
        a == b ==> !spec_bytes_less(a, b),
{
    if a != b {
        lemma_first_difference(a, b, 0);
    }
    if spec_bytes_less(a, b) && spec_bytes_less(b, a) {
        let i = choose|i: int|
            0 <= i < 32 && #[trigger] a[i] < b[i] && (forall|j: int| 0 <= j < i ==> a[j] == b[j]);
        let k = choose|k: int|
            0 <= k < 32 && #[trigger] b[k] < a[k] && (forall|j: int| 0 <= j < k ==> b[j] == a[j]);
        if i < k {
            assert(b[i] == a[i]);
        } else if k < i {
            assert(a[k] == b[k]);
        }
    }
}

/// Two different keys that agree on their first `from` bytes are ordered
/// one way or the other.
proof fn lemma_first_difference(a: Seq<u8>, b: Seq<u8>, from: int)
    requires
        a.len() == 32,
        b.len() == 32,
        a != b,
        0 <= from <= 32,
        forall|j: int| 0 <= j < from ==> a[j] == b[j],
    ensures
        spec_bytes_less(a, b) || spec_bytes_less(b, a),
    decreases 32 - from,
{
    if from == 32 {
        assert(a =~= b);
    } else if a[from] < b[from] {
    } else if b[from] < a[from] {
    } else {
        lemma_first_difference(a, b, from + 1);
    }
}

} // verus!
