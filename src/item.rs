use vstd::prelude::*;
use bytes::Bytes;
use crate::random::corrupt_bytes;

verus! {

#[verifier::external_type_specification]
#[verifier::external_body]
pub struct ExBytes(bytes::Bytes);

/// Relies on `bytes::Bytes::len`: the number of bytes held.
pub assume_specification[ bytes::Bytes::len ](b: &Bytes) -> usize;

/// Relies on `<[u8]>::to_vec`, reached through `Bytes`' deref: a copy of the bytes.
#[verifier::external_body]
fn bytes_to_vec(b: &Bytes) -> Vec<u8> {
    b.to_vec()
}

/// Relies on `impl From<Vec<u8>> for Bytes`: takes over the buffer.
#[verifier::external_body]
fn bytes_from_vec(v: Vec<u8>) -> Bytes {
    Bytes::from(v)
}

/// Relies on `<Bytes as Clone>::clone`: another handle on the same bytes.
#[verifier::external_body]
fn bytes_clone(b: &Bytes) -> Bytes {
    b.clone()
}

/// An item that the shaper can carry: it has a size in bytes, it can be
/// corrupted in place, and it may be able to copy itself.
pub trait ChokeItem: Sized {
    fn byte_len(&self) -> usize;

    fn corrupt(&mut self);

    /// A copy of the item, or none where the item cannot be copied.
    fn duplicate(&mut self) -> Option<Self> {
        None
    }
}

impl ChokeItem for Bytes {
    fn byte_len(&self) -> usize {
        Bytes::len(self)
    }

    /// Flips every bit of one byte at a random position.
    fn corrupt(&mut self) {
        let mut v = bytes_to_vec(self);
        corrupt_bytes(&mut v);
        *self = bytes_from_vec(v);
    }

    fn duplicate(&mut self) -> Option<Self> {
        Some(bytes_clone(self))
    }
}

impl<T: ChokeItem, E> ChokeItem for Result<T, E> {
    /// The payload's size; an error weighs nothing.
    fn byte_len(&self) -> usize {
        match self {
            Ok(payload) => payload.byte_len(),
            Err(_) => 0,
        }
    }

    fn corrupt(&mut self) {
        match self {
            Ok(payload) => payload.corrupt(),
            Err(_) => {},
        }
    }

    fn duplicate(&mut self) -> Option<Self> {
        match self {
            Ok(payload) => match payload.duplicate() {
                Some(copy) => Some(Ok(copy)),
                None => None,
            },
            Err(_) => None,
        }
    }
}

impl<T: ChokeItem> ChokeItem for Option<T> {
    /// The payload's size; nothing weighs nothing.
    fn byte_len(&self) -> usize {
        match self {
            Some(payload) => payload.byte_len(),
            None => 0,
        }
    }

    fn corrupt(&mut self) {
        match self {
            Some(payload) => payload.corrupt(),
            None => {},
        }
    }

    fn duplicate(&mut self) -> Option<Self> {
        match self {
            Some(payload) => match payload.duplicate() {
                Some(copy) => Some(Some(copy)),
                None => None,
            },
            None => None,
        }
    }
}

/// A payload with the two basic capabilities only: a size in bytes, and
/// corruption in place.
pub trait TrafficShaperPayload {
    fn byte_len(&self) -> usize;

    fn corrupt(&mut self);
}

impl TrafficShaperPayload for Bytes {
    fn byte_len(&self) -> usize {
        Bytes::len(self)
    }

    fn corrupt(&mut self) {
        let mut v = bytes_to_vec(self);
        corrupt_bytes(&mut v);
        *self = bytes_from_vec(v);
    }
}

impl<T: TrafficShaperPayload, E> TrafficShaperPayload for Result<T, E> {
    fn byte_len(&self) -> usize {
        match self {
            Ok(payload) => payload.byte_len(),
            Err(_) => 0,
        }
    }

    fn corrupt(&mut self) {
        match self {
            Ok(payload) => payload.corrupt(),
            Err(_) => {},
        }
    }
}

impl<T: TrafficShaperPayload> TrafficShaperPayload for Option<T> {
    fn byte_len(&self) -> usize {
        match self {
            Some(payload) => payload.byte_len(),
            None => 0,
        }
    }

    fn corrupt(&mut self) {
        match self {
            Some(payload) => payload.corrupt(),
            None => {},
        }
    }
}

} // verus!
