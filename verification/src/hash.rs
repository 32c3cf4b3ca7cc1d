//! Content hashes

use std::cmp::Ordering;
use vstd::prelude::*;
use vstd::std_specs::cmp::PartialEqSpecImpl;
use vstd::std_specs::cmp::PartialOrdSpecImpl;

verus! {

/// Size of a SHA-256 hash in bytes
pub const SHA256_HASH_SIZE: usize = 32;

/// Whether `a` comes before `b` when the two are compared byte by byte: at
/// the first place where they differ `a` holds the smaller byte, or `a` ends
/// there and `b` goes on.
pub open spec fn bytes_before(a: Seq<u8>, b: Seq<u8>) -> bool {
    exists|k: int| #[trigger] differ_first_at(a, b, k) && (k == a.len() || (k < b.len() && a[k] < b[k]))
}

/// Whether `k` is the first place where `a` and `b` differ, the end of the
/// shorter one counting as a place where they differ
pub open spec fn differ_first_at(a: Seq<u8>, b: Seq<u8>, k: int) -> bool {
    &&& 0 <= k <= a.len()
    &&& k <= b.len()
    &&& a.len() != b.len() || k < a.len()
    &&& forall|j: int| 0 <= j < k ==> a[j] == b[j]
    &&& k < a.len() && k < b.len() ==> a[k] != b[k]
}

/// A content hash of fixed size
#[derive(Clone, Copy, Debug, Eq, Ord, Hash)]
pub struct Hash {
    bytes: [u8; 32],
}

impl View for Hash {
    type V = Seq<u8>;

    closed spec fn view(&self) -> Seq<u8> {
        self.bytes@
    }
}

impl Hash {
    /// The hash that holds the given bytes
    pub fn new(bytes: [u8; 32]) -> (hash: Hash)
        ensures
            hash@ == bytes@,
    {
        Hash { bytes }
    }

    /// The bytes of the hash
    pub fn as_bytes(&self) -> (bytes: &[u8; 32])
        ensures
            bytes@ == self@,
    {
        &self.bytes
    }

    /// The first place where the two hashes differ, or 32 where they are equal
    fn first_difference(&self, other: &Hash) -> (k: usize)
        ensures
            k <= 32,
            forall|j: int| 0 <= j < k ==> self@[j] == other@[j],
            k < 32 ==> self@[k as int] != other@[k as int],
    {
        let mut k: usize = 0;
        while k < 32 && self.bytes[k] == other.bytes[k]
            invariant
                k <= 32,
                forall|j: int| 0 <= j < k ==> self@[j] == other@[j],
            decreases 32 - k,
        {
            k += 1;
        }
        k
    }

    /// Whether the two hashes hold the same bytes
    pub fn same_as(&self, other: &Hash) -> (same: bool)
        ensures
            same == (self@ == other@),
    {
        let k = self.first_difference(other);
        proof {
            if k == 32 {
                assert(self@ =~= other@);
            }
        }
        k == 32
    }

    /// Whether this hash comes before the other, byte by byte
    pub fn is_before(&self, other: &Hash) -> (before: bool)
        ensures
            before == bytes_before(self@, other@),
    {
        let k = self.first_difference(other);
        if k == 32 {
            proof {
                assert(self@ =~= other@);
                lemma_not_before_itself(self@);
            }
            false
        } else {
            proof {
                lemma_first_difference_decides(self@, other@, k as int);
            }
            self.bytes[k] < other.bytes[k]
        }
    }
}

impl PartialEq for Hash {
    fn eq(&self, other: &Hash) -> (r: bool) {
        self.same_as(other)
    }
}

impl PartialEqSpecImpl for Hash {
    open spec fn obeys_eq_spec() -> bool {
        true
    }

    open spec fn eq_spec(&self, other: &Hash) -> bool {
        self@ == other@
    }
}

impl PartialOrd for Hash {
    fn partial_cmp(&self, other: &Hash) -> (r: Option<Ordering>) {
        if self.same_as(other) {
            Some(Ordering::Equal)
        } else if self.is_before(other) {
            Some(Ordering::Less)
        } else {
            Some(Ordering::Greater)
        }
    }
}

impl PartialOrdSpecImpl for Hash {
    open spec fn obeys_partial_cmp_spec() -> bool {
        true
    }

    open spec fn partial_cmp_spec(&self, other: &Hash) -> Option<Ordering> {
        if self@ == other@ {
            Some(Ordering::Equal)
        } else if bytes_before(self@, other@) {
            Some(Ordering::Less)
        } else {
            Some(Ordering::Greater)
        }
    }
}

/// Two byte strings differ first at one place only, so the bytes there decide
/// which of the two comes before the other.
pub proof fn lemma_first_difference_decides(a: Seq<u8>, b: Seq<u8>, k: int)
    requires
        differ_first_at(a, b, k),
    ensures
        a != b,
        bytes_before(a, b) <==> (k == a.len() || (k < b.len() && a[k] < b[k])),
        bytes_before(b, a) <==> (k == b.len() || (k < a.len() && b[k] < a[k])),
        bytes_before(a, b) != bytes_before(b, a),
{
    assert(differ_first_at(b, a, k));
    assert forall|m: int| #[trigger] differ_first_at(a, b, m) implies m == k by {
        if m < k {
            assert(a[m] == b[m]);
        } else if k < m {
            assert(a[k] == b[k]);
        }
    }
    assert forall|m: int| #[trigger] differ_first_at(b, a, m) implies m == k by {
        if m < k {
            assert(a[m] == b[m]);
        } else if k < m {
            assert(a[k] == b[k]);
        }
    }
    if a == b {
        assert(a.len() == b.len());
        assert(a[k] == b[k]);
    }
}

/// Two byte strings that agree up to `i` are equal or differ first at some
/// place from `i` on.
proof fn lemma_difference_from(a: Seq<u8>, b: Seq<u8>, i: int)
    requires
        0 <= i <= a.len(),
        i <= b.len(),
        forall|j: int| 0 <= j < i ==> a[j] == b[j],
    ensures
        a == b || exists|k: int| differ_first_at(a, b, k),
    decreases a.len() - i,
{
    if i == a.len() || i == b.len() {
        if a.len() == b.len() {
            assert(a =~= b);
        } else {
            assert(differ_first_at(a, b, i));
        }
    } else if a[i] != b[i] {
        assert(differ_first_at(a, b, i));
    } else {
        lemma_difference_from(a, b, i + 1);
    }
}

/// Of two byte strings exactly one holds: they are equal, the first comes
/// before the second, or the second comes before the first.
pub proof fn lemma_bytes_order_total(a: Seq<u8>, b: Seq<u8>)
    ensures
        a == b || bytes_before(a, b) || bytes_before(b, a),
        !(a == b && bytes_before(a, b)),
        !(a == b && bytes_before(b, a)),
        !(bytes_before(a, b) && bytes_before(b, a)),
{
    lemma_not_before_itself(a);
    lemma_difference_from(a, b, 0);
    if a != b {
        let k = choose|k: int| differ_first_at(a, b, k);
        lemma_first_difference_decides(a, b, k);
    }
}

/// What comes before a byte string comes before everything after it.
pub proof fn lemma_bytes_order_transitive(a: Seq<u8>, b: Seq<u8>, c: Seq<u8>)
    requires
        bytes_before(a, b),
        bytes_before(b, c),
    ensures
        bytes_before(a, c),
{
    let k1 = choose|k: int|
        #[trigger] differ_first_at(a, b, k) && (k == a.len() || (k < b.len() && a[k] < b[k]));
    let k2 = choose|k: int|
        #[trigger] differ_first_at(b, c, k) && (k == b.len() || (k < c.len() && b[k] < c[k]));
    let k = if k1 <= k2 {
        k1
    } else {
        k2
    };
    assert forall|j: int| 0 <= j < k implies a[j] == c[j] by {
        assert(a[j] == b[j]);
        assert(b[j] == c[j]);
    }
    assert(differ_first_at(a, c, k));
}

/// Two hashes with the same bytes are the same hash.
pub proof fn lemma_same_bytes_same_hash(a: Hash, b: Hash)
    requires
        a@ == b@,
    ensures
        a == b,
{
    assert(a.bytes =~= b.bytes);
}

/// No byte string comes before itself.
pub proof fn lemma_not_before_itself(a: Seq<u8>)
    ensures
        !bytes_before(a, a),
{
}

} // verus!
