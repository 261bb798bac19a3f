//! Salish message traits: the capabilities required of payloads, source
//! tags and addressable endpoints.

use vstd::prelude::*;

verus! {

use vstd::string::StringSliceAdditionalSpecFns;

/// Marks a type eligible to travel inside a message.
///
/// A payload carries a runtime type identity: a 64-bit token standing for
/// the concrete kind of the value. The router's registry is keyed by this
/// token, which is how unrelated payload kinds share one registry. An
/// application with several payload kinds gives each kind its own token
/// (typically one token per variant of a closed payload enum).
///
/// A payload that may be duplicated — the broadcast sub-capability — says
/// so through `cloneable` and hands out equal copies through
/// `clone_payload`. A unicast-only payload reports `None` there, and a
/// message wrapping it can never be duplicated.
pub trait Payload: Sized {
    /// The type token of this payload value.
    spec fn token(&self) -> u64;

    /// Whether this payload value may be duplicated (broadcast capability).
    spec fn cloneable(&self) -> bool;

    /// The runtime type identity of this payload value.
    fn type_token(&self) -> (t: u64)
        ensures
            t == self.token(),
    ;

    /// Duplicate the payload if it supports duplication, `None` otherwise.
    fn clone_payload(&self) -> (c: Option<Self>)
        ensures
            c is Some <==> self.cloneable(),
            c matches Some(p) ==> p == *self,
    ;
}

/// Source tag capability: a copyable identifier describing a message's
/// origin. A source is reduced to a 64-bit hash, and source filters match
/// on that hash.
pub trait MessageSource: Sized + Copy {
    /// The hash standing for this source value.
    spec fn hash_spec(&self) -> u64;

    /// Hash this source value.
    fn hash64(&self) -> (h: u64)
        ensures
            h == self.hash_spec(),
    ;
}

impl MessageSource for u64 {
    open spec fn hash_spec(&self) -> u64 {
        *self
    }

    fn hash64(&self) -> u64 {
        *self
    }
}

impl MessageSource for u32 {
    open spec fn hash_spec(&self) -> u64 {
        *self as u64
    }

    fn hash64(&self) -> u64 {
        *self as u64
    }
}

impl MessageSource for u16 {
    open spec fn hash_spec(&self) -> u64 {
        *self as u64
    }

    fn hash64(&self) -> u64 {
        *self as u64
    }
}

impl MessageSource for u8 {
    open spec fn hash_spec(&self) -> u64 {
        *self as u64
    }

    fn hash64(&self) -> u64 {
        *self as u64
    }
}

impl MessageSource for usize {
    open spec fn hash_spec(&self) -> u64 {
        *self as u64
    }

    fn hash64(&self) -> u64 {
        *self as u64
    }
}

impl MessageSource for i32 {
    open spec fn hash_spec(&self) -> u64 {
        *self as u64
    }

    fn hash64(&self) -> u64 {
        *self as u64
    }
}

impl MessageSource for i64 {
    open spec fn hash_spec(&self) -> u64 {
        *self as u64
    }

    fn hash64(&self) -> u64 {
        *self as u64
    }
}

/// Polynomial hash of a byte sequence; the hash of a string source tag.
pub open spec fn bytes_hash(bytes: Seq<u8>) -> u64
    decreases bytes.len(),
{
    if bytes.len() == 0 {
        5381u64
    } else {
        bytes_hash(bytes.drop_last()).wrapping_mul(31).wrapping_add(bytes.last() as u64)
    }
}

impl MessageSource for &'static str {
    open spec fn hash_spec(&self) -> u64 {
        bytes_hash(self.spec_bytes())
    }

    fn hash64(&self) -> (h: u64) {
        let bytes = self.as_bytes();
        let mut h: u64 = 5381;
        let mut i: usize = 0;
        while i < bytes.len()
            invariant
                i <= bytes.len(),
                bytes@ == self.spec_bytes(),
                h == bytes_hash(bytes@.take(i as int)),
            decreases bytes.len() - i,
        {
            h = h.wrapping_mul(31).wrapping_add(bytes[i] as u64);
            proof {
                assert(bytes@.take(i + 1 as int).drop_last() == bytes@.take(i as int));
                assert(bytes@.take(i + 1 as int).last() == bytes@[i as int]);
            }
            i = i + 1;
        }
        proof {
            assert(bytes@.take(bytes@.len() as int) == bytes@);
        }
        h
    }
}

/// Message endpoint address capability.
pub trait EndpointAddress {
    type Addr;

    /// The address as a spec value.
    spec fn addr_spec(&self) -> Self::Addr;

    /// Get the address of this endpoint.
    fn addr(&self) -> (a: Self::Addr)
        ensures
            a == self.addr_spec(),
    ;
}

impl EndpointAddress for u64 {
    type Addr = u64;

    open spec fn addr_spec(&self) -> u64 {
        *self
    }

    fn addr(&self) -> u64 {
        *self
    }
}

} // verus!
