//! The rental-request record and the payload it is created from.

use vstd::prelude::*;
use vstd::utf8::encode_utf8_decode_utf8;

verus! {

/// Where a rental request stands. A request whose car was returned is no
/// longer stored, so there is no status for it.
#[derive(Clone, Copy, Debug, PartialEq, Eq, Structural)]
pub enum Status {
    Pending,
    Approved,
    Rejected,
}

impl Status {
    /// The lower-case word for the status.
    pub open spec fn word(&self) -> Seq<char> {
        match self {
            Status::Pending => "pending"@,
            Status::Approved => "approved"@,
            Status::Rejected => "rejected"@,
        }
    }

    /// The status that a word names, if it names one.
    pub open spec fn named(word: Seq<char>) -> Option<Status> {
        if word == Status::Pending.word() {
            Some(Status::Pending)
        } else if word == Status::Approved.word() {
            Some(Status::Approved)
        } else if word == Status::Rejected.word() {
            Some(Status::Rejected)
        } else {
            None
        }
    }

    /// Each status is named by its own word and by no other.
    pub proof fn lemma_named_word(self)
        ensures
            Status::named(self.word()) == Some(self),
    {
        reveal_strlit("pending");
        reveal_strlit("approved");
        reveal_strlit("rejected");
        assert("pending"@.len() != "approved"@.len());
        assert("pending"@.len() != "rejected"@.len());
        assert("approved"@[0] != "rejected"@[0]);
    }

    /// The status that a word names: the inverse of `as_str`.
    pub fn from_word(word: &str) -> (status: Option<Status>)
        ensures
            status == Status::named(word@),
    {
        if same_text(word, "pending") {
            Some(Status::Pending)
        } else if same_text(word, "approved") {
            Some(Status::Approved)
        } else if same_text(word, "rejected") {
            Some(Status::Rejected)
        } else {
            None
        }
    }

    /// The lower-case word for the status, as text.
    pub fn as_str(&self) -> (s: &'static str)
        ensures
            s@ == self.word(),
    {
        match self {
            Status::Pending => "pending",
            Status::Approved => "approved",
            Status::Rejected => "rejected",
        }
    }
}

/// Whether two byte strings are the same.
fn same_bytes(left: &[u8], right: &[u8]) -> (same: bool)
    ensures
        same == (left@ == right@),
{
    if left.len() != right.len() {
        return false;
    }
    let mut i: usize = 0;
    while i < left.len()
        invariant
            left@.len() == right@.len(),
            i <= left@.len(),
            left@.subrange(0, i as int) == right@.subrange(0, i as int),
        decreases left@.len() - i,
    {
        if left[i] != right[i] {
            return false;
        }
        i += 1;
        assert(left@.subrange(0, i as int) =~= left@.subrange(0, i - 1).push(left@[i - 1]));
        assert(right@.subrange(0, i as int) =~= right@.subrange(0, i - 1).push(right@[i - 1]));
    }
    assert(left@ =~= left@.subrange(0, i as int));
    assert(right@ =~= right@.subrange(0, i as int));
    true
}

/// Whether two texts are the same.
fn same_text(left: &str, right: &str) -> (same: bool)
    ensures
        same == (left@ == right@),
{
    proof {
        encode_utf8_decode_utf8(left@);
        encode_utf8_decode_utf8(right@);
    }
    same_bytes(left.as_bytes(), right.as_bytes())
}

/// A stored rental request.
#[derive(Clone, Debug, PartialEq, Eq)]
pub struct RentalRequest {
    pub id: u64,
    pub requester: String,
    pub car_model: String,
    pub start_time: u64,
    pub end_time: u64,
    pub status: Status,
}

/// What a caller supplies to create a rental request.
#[derive(Clone, Debug, PartialEq, Eq)]
pub struct RentalRequestPayload {
    pub requester: String,
    pub car_model: String,
    pub start_time: u64,
    pub end_time: u64,
}

/// The mathematical value of a [`RentalRequest`].
pub struct RequestView {
    pub id: u64,
    pub requester: Seq<char>,
    pub car_model: Seq<char>,
    pub start_time: u64,
    pub end_time: u64,
    pub status: Status,
}

/// The mathematical value of a [`RentalRequestPayload`].
pub struct PayloadView {
    pub requester: Seq<char>,
    pub car_model: Seq<char>,
    pub start_time: u64,
    pub end_time: u64,
}

impl View for RentalRequest {
    type V = RequestView;

    open spec fn view(&self) -> RequestView {
        RequestView {
            id: self.id,
            requester: self.requester@,
            car_model: self.car_model@,
            start_time: self.start_time,
            end_time: self.end_time,
            status: self.status,
        }
    }
}

impl View for RentalRequestPayload {
    type V = PayloadView;

    open spec fn view(&self) -> PayloadView {
        PayloadView {
            requester: self.requester@,
            car_model: self.car_model@,
            start_time: self.start_time,
            end_time: self.end_time,
        }
    }
}

impl RequestView {
    /// The request that a payload becomes under the given identifier: all
    /// fields of the payload, and the status `Pending`.
    pub open spec fn pending(id: u64, payload: PayloadView) -> RequestView {
        RequestView {
            id,
            requester: payload.requester,
            car_model: payload.car_model,
            start_time: payload.start_time,
            end_time: payload.end_time,
            status: Status::Pending,
        }
    }

    /// This request with another status and every other field as it is.
    pub open spec fn with_status(self, status: Status) -> RequestView {
        RequestView { status, ..self }
    }
}

impl RentalRequest {
    /// Builds the pending request for a payload.
    pub fn pending(id: u64, payload: RentalRequestPayload) -> (request: RentalRequest)
        ensures
            request@ == RequestView::pending(id, payload@),
    {
        RentalRequest {
            id,
            requester: payload.requester,
            car_model: payload.car_model,
            start_time: payload.start_time,
            end_time: payload.end_time,
            status: Status::Pending,
        }
    }
}

} // verus!
