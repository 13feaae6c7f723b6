//! Caller identities.

use vstd::prelude::*;
use crate::collections::{Dup, Key};

verus! {

/// An identity is an opaque byte string of at most this many bytes.
pub const MAX_ID_BYTES: usize = 29;

/// The text form of an identity, as `ic_principal` prints it: a checksum and
/// the bytes in base 32, lower case, in dash-separated groups of five.
pub uninterp spec fn principal_text(bytes: Seq<u8>) -> Seq<char>;

/// The identity that stands for "nobody": the single byte 4.
pub open spec fn anonymous_bytes() -> Seq<u8> {
    seq![4u8]
}

/// The identity of a caller or of a profile. Its view is its bytes.
#[derive(Debug)]
pub struct UserId {
    bytes: Vec<u8>,
}

impl View for UserId {
    type V = Seq<u8>;

    closed spec fn view(&self) -> Seq<u8> {
        self.bytes@
    }
}

/// Calls `Principal::from_slice` and `Principal::to_text` of `candid`
/// (`ic_principal`). Trusted: the text depends on the bytes alone, and
/// `from_slice` accepts up to 29 bytes.
#[verifier::external_body]
fn principal_to_text(bytes: &Vec<u8>) -> (text: String)
    requires
        bytes@.len() <= MAX_ID_BYTES,
    ensures
        text@ == principal_text(bytes@),
{
    candid::Principal::from_slice(bytes.as_slice()).to_text()
}

impl UserId {
    #[verifier::type_invariant]
    spec fn bounded(self) -> bool {
        self.bytes@.len() <= MAX_ID_BYTES
    }

    /// The identity with these bytes, or `None` when there are more than 29.
    pub fn from_bytes(bytes: Vec<u8>) -> (r: Option<UserId>)
        ensures
            bytes@.len() <= MAX_ID_BYTES ==> r is Some && r->0@ == bytes@,
            bytes@.len() > MAX_ID_BYTES ==> r is None,
    {
        if bytes.len() <= MAX_ID_BYTES {
            Some(UserId { bytes })
        } else {
            None
        }
    }

    /// The anonymous identity.
    pub fn anonymous() -> (r: UserId)
        ensures
            r@ == anonymous_bytes(),
    {
        let mut bytes: Vec<u8> = Vec::new();
        bytes.push(4u8);
        assert(bytes@ =~= anonymous_bytes());
        UserId { bytes }
    }

    /// Whether this is the anonymous identity.
    pub fn is_anonymous(&self) -> (b: bool)
        ensures
            b == (self@ == anonymous_bytes()),
    {
        let b = self.bytes.len() == 1 && self.bytes[0] == 4u8;
        assert(b == (self.bytes@ =~= anonymous_bytes()));
        b
    }

    /// The bytes of the identity.
    pub fn as_bytes(&self) -> (r: &Vec<u8>)
        ensures
            r@ == self@,
            r@.len() <= MAX_ID_BYTES,
    {
        proof {
            use_type_invariant(self);
        }
        &self.bytes
    }

    /// The text form of the identity.
    pub fn to_text(&self) -> (text: String)
        ensures
            text@ == principal_text(self@),
    {
        proof {
            use_type_invariant(self);
        }
        principal_to_text(&self.bytes)
    }
}

impl Dup for UserId {
    fn dup(&self) -> (r: UserId) {
        proof {
            use_type_invariant(self);
        }
        let mut bytes: Vec<u8> = Vec::new();
        let mut i: usize = 0;
        while i < self.bytes.len()
            invariant
                i <= self.bytes.len(),
                bytes@ == self.bytes@.take(i as int),
            decreases self.bytes.len() - i,
        {
            bytes.push(self.bytes[i]);
            i += 1;
            assert(bytes@ =~= self.bytes@.take(i as int));
        }
        assert(bytes@ =~= self.bytes@);
        UserId { bytes }
    }
}

impl Key for UserId {
    fn same(&self, other: &UserId) -> (b: bool) {
        if self.bytes.len() != other.bytes.len() {
            return false;
        }
        let mut i: usize = 0;
        while i < self.bytes.len()
            invariant
                i <= self.bytes.len(),
                self.bytes.len() == other.bytes.len(),
                self.bytes@.take(i as int) == other.bytes@.take(i as int),
            decreases self.bytes.len() - i,
        {
            if self.bytes[i] != other.bytes[i] {
                return false;
            }
            i += 1;
            assert(self.bytes@.take(i as int) =~= self.bytes@.take(i - 1).push(self.bytes@[i - 1]));
            assert(other.bytes@.take(i as int) =~= other.bytes@.take(i - 1).push(other.bytes@[i - 1]));
        }
        assert(self.bytes@ =~= self.bytes@.take(i as int));
        assert(other.bytes@ =~= other.bytes@.take(i as int));
        true
    }
}

} // verus!
