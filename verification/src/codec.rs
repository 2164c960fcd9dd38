//! The byte format of a stored rental request.
//!
//! An encoded request is a fixed part of [`FIXED_LEN`] bytes followed by the
//! two texts in UTF-8:
//!
//! ```text
//! offset  length  content
//!      0       3  the letters "RRQ"
//!      3       1  the layout version, 1
//!      4       8  id, little-endian
//!     12       8  start_time, little-endian
//!     20       8  end_time, little-endian
//!     28       1  status: 0 pending, 1 approved, 2 rejected
//!     29       2  n, the length of requester in bytes, little-endian
//!     31       2  m, the length of car_model in bytes, little-endian
//!     33       n  requester
//!   33+n       m  car_model
//! ```
//!
//! No encoded request is longer than [`MAX_SIZE`] bytes. Each request that
//! fits has exactly one encoding, and each byte string is the encoding of at
//! most one request.
//!
//! Bytes in any other encoding are not an encoded request. A store whose
//! entries were written in another encoding, candid's for one, can be
//! opened, but every lookup of such an entry reports `Undecodable`.

use vstd::prelude::*;
use vstd::bytes::{
    lemma_auto_spec_u16_to_from_le_bytes, lemma_auto_spec_u64_to_from_le_bytes,
    spec_u16_from_le_bytes, spec_u16_to_le_bytes, spec_u64_from_le_bytes, spec_u64_to_le_bytes,
    u16_from_le_bytes, u16_to_le_bytes, u64_from_le_bytes, u64_to_le_bytes,
};
use vstd::slice::{slice_subrange, slice_to_vec};
use vstd::utf8::{
    decode_utf8, decode_utf8_encode_utf8, encode_utf8, encode_utf8_decode_utf8,
    encode_utf8_valid_utf8, valid_utf8,
};
use crate::error::Error;
use crate::record::{RentalRequest, RequestView, Status};

verus! {

/// The greatest length of an encoded request, in bytes.
pub const MAX_SIZE: usize = 1024;

/// Whether every encoded request has the same length. The texts vary, so
/// the lengths do.
pub const IS_FIXED_SIZE: bool = false;

/// The length of the part of an encoding that comes before the texts.
pub const FIXED_LEN: usize = 33;

/// The four bytes that every encoding starts with.
pub open spec fn header() -> Seq<u8> {
    seq![0x52u8, 0x52u8, 0x51u8, 0x01u8]
}

/// The byte that stands for a status.
pub open spec fn status_byte(status: Status) -> u8 {
    match status {
        Status::Pending => 0u8,
        Status::Approved => 1u8,
        Status::Rejected => 2u8,
    }
}

/// The status that a byte stands for, if any.
pub open spec fn byte_status(byte: u8) -> Option<Status> {
    if byte == 0u8 {
        Some(Status::Pending)
    } else if byte == 1u8 {
        Some(Status::Approved)
    } else if byte == 2u8 {
        Some(Status::Rejected)
    } else {
        None
    }
}

/// The length of the encoding of a request.
pub open spec fn encoded_len(request: RequestView) -> nat {
    FIXED_LEN as nat + encode_utf8(request.requester).len() + encode_utf8(request.car_model).len()
}

/// Whether the encoding of a request is within [`MAX_SIZE`].
pub open spec fn fits(request: RequestView) -> bool {
    encoded_len(request) <= MAX_SIZE
}

/// The fixed part of the encoding of a request.
pub open spec fn encode_fixed(request: RequestView) -> Seq<u8> {
    header() + spec_u64_to_le_bytes(request.id) + spec_u64_to_le_bytes(request.start_time)
        + spec_u64_to_le_bytes(request.end_time) + seq![status_byte(request.status)]
        + spec_u16_to_le_bytes(encode_utf8(request.requester).len() as u16)
        + spec_u16_to_le_bytes(encode_utf8(request.car_model).len() as u16)
}

/// The encoding of a request. It is meant for requests that fit.
pub open spec fn spec_encode(request: RequestView) -> Seq<u8> {
    encode_fixed(request) + encode_utf8(request.requester) + encode_utf8(request.car_model)
}

/// The length that the bytes announce for the requester's name.
pub open spec fn requester_len(bytes: Seq<u8>) -> int {
    spec_u16_from_le_bytes(bytes.subrange(29, 31)) as int
}

/// The length that the bytes announce for the car model.
pub open spec fn car_model_len(bytes: Seq<u8>) -> int {
    spec_u16_from_le_bytes(bytes.subrange(31, 33)) as int
}

/// The bytes of the requester's name.
pub open spec fn requester_bytes(bytes: Seq<u8>) -> Seq<u8> {
    bytes.subrange(FIXED_LEN as int, FIXED_LEN + requester_len(bytes))
}

/// The bytes of the car model.
pub open spec fn car_model_bytes(bytes: Seq<u8>) -> Seq<u8> {
    bytes.subrange(FIXED_LEN + requester_len(bytes), bytes.len() as int)
}

/// Whether the bytes have the shape of an encoded request.
pub open spec fn well_framed(bytes: Seq<u8>) -> bool {
    &&& FIXED_LEN <= bytes.len() <= MAX_SIZE
    &&& bytes.subrange(0, 4) == header()
    &&& byte_status(bytes[28]) is Some
    &&& bytes.len() == FIXED_LEN + requester_len(bytes) + car_model_len(bytes)
    &&& valid_utf8(requester_bytes(bytes))
    &&& valid_utf8(car_model_bytes(bytes))
}

/// The request that the bytes encode, if they encode one.
pub open spec fn spec_decode(bytes: Seq<u8>) -> Option<RequestView> {
    if well_framed(bytes) {
        Some(
            RequestView {
                id: spec_u64_from_le_bytes(bytes.subrange(4, 12)),
                requester: decode_utf8(requester_bytes(bytes)),
                car_model: decode_utf8(car_model_bytes(bytes)),
                start_time: spec_u64_from_le_bytes(bytes.subrange(12, 20)),
                end_time: spec_u64_from_le_bytes(bytes.subrange(20, 28)),
                status: byte_status(bytes[28])->Some_0,
            },
        )
    } else {
        None
    }
}

/// Where each field lies in the encoding of a request that fits.
pub proof fn lemma_encode_layout(request: RequestView)
    requires
        fits(request),
    ensures
        spec_encode(request).len() == encoded_len(request),
        spec_encode(request).subrange(0, 4) == header(),
        spec_encode(request).subrange(4, 12) == spec_u64_to_le_bytes(request.id),
        spec_encode(request).subrange(12, 20) == spec_u64_to_le_bytes(request.start_time),
        spec_encode(request).subrange(20, 28) == spec_u64_to_le_bytes(request.end_time),
        spec_encode(request)[28] == status_byte(request.status),
        requester_len(spec_encode(request)) == encode_utf8(request.requester).len(),
        car_model_len(spec_encode(request)) == encode_utf8(request.car_model).len(),
        requester_bytes(spec_encode(request)) == encode_utf8(request.requester),
        car_model_bytes(spec_encode(request)) == encode_utf8(request.car_model),
{
    lemma_auto_spec_u64_to_from_le_bytes();
    lemma_auto_spec_u16_to_from_le_bytes();
    let bytes = spec_encode(request);
    let n = encode_utf8(request.requester).len();
    let m = encode_utf8(request.car_model).len();
    assert(bytes.len() == FIXED_LEN + n + m);
    assert(bytes.subrange(0, 4) =~= header());
    assert(bytes.subrange(4, 12) =~= spec_u64_to_le_bytes(request.id));
    assert(bytes.subrange(12, 20) =~= spec_u64_to_le_bytes(request.start_time));
    assert(bytes.subrange(20, 28) =~= spec_u64_to_le_bytes(request.end_time));
    assert(bytes.subrange(29, 31) =~= spec_u16_to_le_bytes(n as u16));
    assert(bytes.subrange(31, 33) =~= spec_u16_to_le_bytes(m as u16));
    assert(requester_len(bytes) == n);
    assert(car_model_len(bytes) == m);
    assert(requester_bytes(bytes) =~= encode_utf8(request.requester));
    assert(car_model_bytes(bytes) =~= encode_utf8(request.car_model));
}

/// Decoding undoes encoding: the encoding of a request that fits decodes to
/// that request.
pub proof fn lemma_decode_encode(request: RequestView)
    requires
        fits(request),
    ensures
        spec_decode(spec_encode(request)) == Some(request),
{
    lemma_encode_layout(request);
    lemma_auto_spec_u64_to_from_le_bytes();
    encode_utf8_valid_utf8(request.requester);
    encode_utf8_valid_utf8(request.car_model);
    encode_utf8_decode_utf8(request.requester);
    encode_utf8_decode_utf8(request.car_model);
    assert(byte_status(status_byte(request.status)) == Some(request.status));
}

/// Encoding undoes decoding: bytes that decode to a request are the encoding
/// of that request, and the request fits.
pub proof fn lemma_encode_decode(bytes: Seq<u8>)
    requires
        spec_decode(bytes) is Some,
    ensures
        fits(spec_decode(bytes)->Some_0),
        spec_encode(spec_decode(bytes)->Some_0) == bytes,
{
    lemma_auto_spec_u64_to_from_le_bytes();
    lemma_auto_spec_u16_to_from_le_bytes();
    let request = spec_decode(bytes)->Some_0;
    let n = requester_len(bytes);
    let m = car_model_len(bytes);
    decode_utf8_encode_utf8(requester_bytes(bytes));
    decode_utf8_encode_utf8(car_model_bytes(bytes));
    assert(encode_utf8(request.requester).len() == n);
    assert(encode_utf8(request.car_model).len() == m);
    assert(spec_u16_to_le_bytes(n as u16) == bytes.subrange(29, 31));
    assert(spec_u16_to_le_bytes(m as u16) == bytes.subrange(31, 33));
    assert(seq![status_byte(request.status)] =~= bytes.subrange(28, 29));
    assert(encode_fixed(request) =~= bytes.subrange(0, 4) + bytes.subrange(4, 12)
        + bytes.subrange(12, 20) + bytes.subrange(20, 28) + bytes.subrange(28, 29)
        + bytes.subrange(29, 31) + bytes.subrange(31, FIXED_LEN as int));
    assert(encode_fixed(request) =~= bytes.subrange(0, FIXED_LEN as int));
    assert(spec_encode(request) =~= bytes);
}

/// Two requests that fit and have the same encoding are the same request.
pub proof fn lemma_encode_injective(first: RequestView, second: RequestView)
    requires
        fits(first),
        fits(second),
        spec_encode(first) == spec_encode(second),
    ensures
        first == second,
{
    lemma_decode_encode(first);
    lemma_decode_encode(second);
}

/// A change of status leaves the length of the encoding as it is.
pub proof fn lemma_status_keeps_len(request: RequestView, status: Status)
    ensures
        encoded_len(request.with_status(status)) == encoded_len(request),
        fits(request.with_status(status)) == fits(request),
{
}

/// The byte for a status.
fn status_to_byte(status: Status) -> (byte: u8)
    ensures
        byte == status_byte(status),
{
    match status {
        Status::Pending => 0,
        Status::Approved => 1,
        Status::Rejected => 2,
    }
}

/// The status for a byte.
fn status_from_byte(byte: u8) -> (status: Option<Status>)
    ensures
        status == byte_status(byte),
{
    if byte == 0 {
        Some(Status::Pending)
    } else if byte == 1 {
        Some(Status::Approved)
    } else if byte == 2 {
        Some(Status::Rejected)
    } else {
        None
    }
}

/// Appends the bytes of a slice to a vector.
fn append_slice(out: &mut Vec<u8>, bytes: &[u8])
    ensures
        final(out)@ == old(out)@ + bytes@,
{
    let mut i: usize = 0;
    while i < bytes.len()
        invariant
            i <= bytes@.len(),
            out@ == old(out)@ + bytes@.subrange(0, i as int),
        decreases bytes@.len() - i,
    {
        out.push(bytes[i]);
        i += 1;
        assert(out@ =~= old(out)@ + bytes@.subrange(0, i as int));
    }
    assert(bytes@.subrange(0, i as int) =~= bytes@);
}

/// Turns bytes into text where they are UTF-8.
///
/// Trusted: this calls `String::from_utf8`, which returns the text for bytes
/// that are valid UTF-8 and an error for all others. The contract says so
/// over vstd's definition of UTF-8.
#[verifier::external_body]
fn text_from_utf8(bytes: Vec<u8>) -> (text: Option<String>)
    ensures
        text is Some <==> valid_utf8(bytes@),
        text is Some ==> text->Some_0@ == decode_utf8(bytes@),
{
    String::from_utf8(bytes).ok()
}

impl RentalRequest {
    /// Encodes the request, or reports that its encoding would be longer
    /// than [`MAX_SIZE`].
    pub fn to_bytes(&self) -> (r: Result<Vec<u8>, Error>)
        ensures
            match r {
                Ok(bytes) => fits(self@) && bytes@ == spec_encode(self@) && bytes@.len()
                    <= MAX_SIZE,
                Err(e) => !fits(self@) && e == Error::RecordTooLarge,
            },
    {
        let requester = self.requester.as_str().as_bytes();
        let car_model = self.car_model.as_str().as_bytes();
        let room: usize = MAX_SIZE - FIXED_LEN;
        if requester.len() > room || car_model.len() > room - requester.len() {
            return Err(Error::RecordTooLarge);
        }
        let mut bytes: Vec<u8> = Vec::with_capacity(FIXED_LEN + requester.len() + car_model.len());
        bytes.push(0x52);
        bytes.push(0x52);
        bytes.push(0x51);
        bytes.push(0x01);
        assert(bytes@ =~= header());
        let mut id = u64_to_le_bytes(self.id);
        bytes.append(&mut id);
        let mut start_time = u64_to_le_bytes(self.start_time);
        bytes.append(&mut start_time);
        let mut end_time = u64_to_le_bytes(self.end_time);
        bytes.append(&mut end_time);
        bytes.push(status_to_byte(self.status));
        let mut requester_len = u16_to_le_bytes(requester.len() as u16);
        bytes.append(&mut requester_len);
        let mut car_model_len = u16_to_le_bytes(car_model.len() as u16);
        bytes.append(&mut car_model_len);
        assert(bytes@ =~= encode_fixed(self@));
        append_slice(&mut bytes, requester);
        append_slice(&mut bytes, car_model);
        Ok(bytes)
    }

    /// Decodes a request, or returns `None` where the bytes are not the
    /// encoding of one.
    pub fn from_bytes(bytes: &[u8]) -> (r: Option<RentalRequest>)
        ensures
            match r {
                Some(request) => spec_decode(bytes@) == Some(request@),
                None => spec_decode(bytes@) is None,
            },
    {
        let len = bytes.len();
        if len < FIXED_LEN || len > MAX_SIZE {
            return None;
        }
        if bytes[0] != 0x52 || bytes[1] != 0x52 || bytes[2] != 0x51 || bytes[3] != 0x01 {
            assert(bytes@.subrange(0, 4) != header()) by {
                assert(forall|i: int| 0 <= i < 4 ==> bytes@.subrange(0, 4)[i] == bytes@[i]);
            }
            return None;
        }
        assert(bytes@.subrange(0, 4) =~= header());
        let status = match status_from_byte(bytes[28]) {
            Some(status) => status,
            None => {
                return None;
            },
        };
        let n = u16_from_le_bytes(slice_subrange(bytes, 29, 31)) as usize;
        let m = u16_from_le_bytes(slice_subrange(bytes, 31, 33)) as usize;
        if n > len - FIXED_LEN || m != len - FIXED_LEN - n {
            return None;
        }
        let requester = match text_from_utf8(
            slice_to_vec(slice_subrange(bytes, FIXED_LEN, FIXED_LEN + n)),
        ) {
            Some(text) => text,
            None => {
                return None;
            },
        };
        let car_model = match text_from_utf8(slice_to_vec(slice_subrange(bytes, FIXED_LEN + n, len))) {
            Some(text) => text,
            None => {
                return None;
            },
        };
        Some(
            RentalRequest {
                id: u64_from_le_bytes(slice_subrange(bytes, 4, 12)),
                requester,
                car_model,
                start_time: u64_from_le_bytes(slice_subrange(bytes, 12, 20)),
                end_time: u64_from_le_bytes(slice_subrange(bytes, 20, 28)),
                status,
            },
        )
    }
}

} // verus!
