//! Block parts

use crate::error::ErrorKind;
use crate::hash::bytes_before;
use crate::hash::lemma_bytes_order_total;
use crate::hash::lemma_same_bytes_same_hash;
use crate::hash::lemma_bytes_order_transitive;
use crate::serializers::decimal_digits;
use crate::serializers::format_u64;
use crate::serializers::lemma_count_round_trip;
use crate::serializers::parse_u64;
use crate::serializers::parsed_count;
use crate::text::ascii_text;
use std::cmp::Ordering;
use vstd::prelude::*;
use vstd::std_specs::cmp::PartialEqSpecImpl;
use vstd::std_specs::cmp::PartialOrdSpec;
use vstd::std_specs::cmp::PartialOrdSpecImpl;
use vstd::string::StringSliceAdditionalSpecFns;
use vstd::utf8::encode_utf8;

verus! {

/// Block parts header
#[derive(Clone, Debug, Hash, Eq, Ord)]
pub struct Header {
    /// Number of parts in this block
    pub total: u64,
    /// Hash of the parts set header,
    pub hash: crate::hash::Hash,
}

/// Whether the first header comes before the second: by the number of
/// parts, and between two with the same number by the bytes of the hash
pub open spec fn header_before(a: Header, b: Header) -> bool {
    a.total < b.total || (a.total == b.total && bytes_before(a.hash@, b.hash@))
}

/// Whether the two headers have the same number of parts and the same hash
pub open spec fn header_same(a: Header, b: Header) -> bool {
    a.total == b.total && a.hash@ == b.hash@
}

impl Header {
    /// Create a new parts header
    pub fn new(total: u64, hash: crate::hash::Hash) -> (header: Header)
        ensures
            header.total == total,
            header.hash == hash,
    {
        Header { total, hash }
    }

    /// The number of parts as the decimal text under which it is written
    pub fn total_text(&self) -> (text: String)
        ensures
            text@ == ascii_text(decimal_digits(self.total as nat)),
            parsed_count(encode_utf8(text@)) == Some(self.total),
    {
        proof {
            lemma_count_round_trip(self.total);
        }
        format_u64(self.total)
    }

    /// The header with the number of parts that the decimal text spells and
    /// with the given hash
    pub fn from_text(total: &str, hash: crate::hash::Hash) -> (r: Result<Header, ErrorKind>)
        ensures
            match r {
                Ok(header) => parsed_count(total.spec_bytes()) == Some(header.total)
                    && header.hash == hash,
                Err(e) => parsed_count(total.spec_bytes()) is None && e
                    == ErrorKind::MalformedCount,
            },
    {
        match parse_u64(total) {
            Ok(total) => Ok(Header { total, hash }),
            Err(e) => Err(e),
        }
    }

    /// Whether the two headers are the same
    pub fn same_as(&self, other: &Header) -> (same: bool)
        ensures
            same == header_same(*self, *other),
    {
        self.total == other.total && self.hash.same_as(&other.hash)
    }

    /// Whether this header comes before the other
    pub fn is_before(&self, other: &Header) -> (before: bool)
        ensures
            before == header_before(*self, *other),
    {
        self.total < other.total || (self.total == other.total && self.hash.is_before(
            &other.hash,
        ))
    }
}

impl PartialEq for Header {
    fn eq(&self, other: &Header) -> (r: bool) {
        self.same_as(other)
    }
}

impl PartialEqSpecImpl for Header {
    open spec fn obeys_eq_spec() -> bool {
        true
    }

    open spec fn eq_spec(&self, other: &Header) -> bool {
        header_same(*self, *other)
    }
}

impl PartialOrd for Header {
    fn partial_cmp(&self, other: &Header) -> (r: Option<Ordering>) {
        if self.same_as(other) {
            Some(Ordering::Equal)
        } else if self.is_before(other) {
            Some(Ordering::Less)
        } else {
            Some(Ordering::Greater)
        }
    }
}

impl PartialOrdSpecImpl for Header {
    open spec fn obeys_partial_cmp_spec() -> bool {
        true
    }

    open spec fn partial_cmp_spec(&self, other: &Header) -> Option<Ordering> {
        if header_same(*self, *other) {
            Some(Ordering::Equal)
        } else if header_before(*self, *other) {
            Some(Ordering::Less)
        } else {
            Some(Ordering::Greater)
        }
    }
}

/// Two headers with the same number of parts and the same bytes of hash are
/// the same header.
pub proof fn lemma_header_same(a: Header, b: Header)
    ensures
        header_same(a, b) <==> a == b,
{
    if header_same(a, b) {
        lemma_same_bytes_same_hash(a.hash, b.hash);
    }
}

/// A header with fewer parts comes before one with more, whatever the two
/// hashes hold. Of two headers with the same number of parts the one whose
/// hash comes first, byte by byte, comes first.
pub proof fn lemma_header_order(a: Header, b: Header)
    ensures
        a.total < b.total ==> PartialOrdSpec::partial_cmp_spec(&a, &b) == Some(Ordering::Less),
        a.total > b.total ==> PartialOrdSpec::partial_cmp_spec(&a, &b) == Some(Ordering::Greater),
        a.total == b.total ==> PartialOrdSpec::partial_cmp_spec(&a, &b)
            == PartialOrdSpec::partial_cmp_spec(&a.hash, &b.hash),
        a.total == b.total ==> (PartialOrdSpec::partial_cmp_spec(&a, &b) == Some(Ordering::Less)
            <==> bytes_before(a.hash@, b.hash@)),
{
    lemma_bytes_order_total(a.hash@, b.hash@);
}

/// Of two headers exactly one holds: they are the same, the first comes
/// before the second, or the second comes before the first.
pub proof fn lemma_header_order_total(a: Header, b: Header)
    ensures
        header_same(a, b) || header_before(a, b) || header_before(b, a),
        !(header_same(a, b) && header_before(a, b)),
        !(header_same(a, b) && header_before(b, a)),
        !(header_before(a, b) && header_before(b, a)),
{
    lemma_bytes_order_total(a.hash@, b.hash@);
}

/// What comes before a header comes before everything after it.
pub proof fn lemma_header_order_transitive(a: Header, b: Header, c: Header)
    requires
        header_before(a, b),
        header_before(b, c),
    ensures
        header_before(a, c),
{
    if a.total == b.total && b.total == c.total {
        lemma_bytes_order_transitive(a.hash@, b.hash@, c.hash@);
    }
}

} // verus!
