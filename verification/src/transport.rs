//! The shape of what crosses the HTTP boundary.
//!
//! The engine never performs a request itself: it hands the host a
//! [`RequestPlan`] (body and headers of a POST), and takes back a
//! [`TransportResult`] (a network failure, or the status, relevant
//! header and body of the response). Everything the engine concludes is
//! a function of these plain values.
use vstd::prelude::*;

verus! {

/// A response as the engine sees it: the HTTP status, the value of the
/// `mcp-session-id` header when present, and the body bytes.
pub struct HttpResponse {
    pub status: u16,
    pub session_id: Option<Vec<u8>>,
    pub body: Vec<u8>,
}

/// Model of a response.
#[verifier::ext_equal]
pub struct HttpResponseV {
    pub status: u16,
    pub session_id: Option<Seq<u8>>,
    pub body: Seq<u8>,
}

impl View for HttpResponse {
    type V = HttpResponseV;

    open spec fn view(&self) -> HttpResponseV {
        HttpResponseV {
            status: self.status,
            session_id: match self.session_id {
                Some(s) => Some(s@),
                None => None,
            },
            body: self.body@,
        }
    }
}

/// What came back from one POST.
pub enum TransportResult {
    /// The request never produced a response.
    Failure,
    /// A response arrived, with any status.
    Response(HttpResponse),
}

/// Model of a transport outcome.
pub enum TransportResultV {
    Failure,
    Response(HttpResponseV),
}

impl View for TransportResult {
    type V = TransportResultV;

    open spec fn view(&self) -> TransportResultV {
        match self {
            TransportResult::Failure => TransportResultV::Failure,
            TransportResult::Response(r) => TransportResultV::Response(r@),
        }
    }
}

/// A success status in the HTTP sense.
pub open spec fn is_2xx(status: u16) -> bool {
    200 <= status < 300
}

/// One planned POST: the body and the headers to send.
pub struct RequestPlan {
    pub body: Vec<u8>,
    pub headers: Vec<(Vec<u8>, Vec<u8>)>,
}

/// Model of a planned POST.
#[verifier::ext_equal]
pub struct RequestPlanV {
    pub body: Seq<u8>,
    pub headers: Seq<(Seq<u8>, Seq<u8>)>,
}

impl View for RequestPlan {
    type V = RequestPlanV;

    open spec fn view(&self) -> RequestPlanV {
        RequestPlanV {
            body: self.body@,
            headers: Seq::new(self.headers@.len(), |i: int| (self.headers@[i].0@, self.headers@[i].1@)),
        }
    }
}

/// The value of header `key`, first binding wins.
pub open spec fn header_of(hs: Seq<(Seq<u8>, Seq<u8>)>, key: Seq<u8>) -> Option<Seq<u8>>
    decreases hs.len(),
{
    if hs.len() == 0 {
        None
    } else if hs[0].0 == key {
        Some(hs[0].1)
    } else {
        header_of(hs.subrange(1, hs.len() as int), key)
    }
}

} // verus!
