//! What the routing code observes of a request.

use vstd::prelude::*;

verus! {

/// One header line: a name, compared without regard to ASCII case, and a
/// value, compared byte for byte.
#[derive(Clone, Debug)]
pub struct HeaderField {
    pub name: Vec<u8>,
    pub value: Vec<u8>,
}

/// The mathematical view of [`HeaderField`].
pub struct HeaderFieldView {
    pub name: Seq<u8>,
    pub value: Seq<u8>,
}

impl View for HeaderField {
    type V = HeaderFieldView;

    open spec fn view(&self) -> HeaderFieldView {
        HeaderFieldView { name: self.name@, value: self.value@ }
    }
}

/// The attributes of a request that routing looks at.
#[derive(Clone, Debug)]
pub struct Request {
    pub method: Vec<u8>,
    /// The authority the request is addressed to, with or without a port.
    pub authority: Vec<u8>,
    pub path: Vec<u8>,
    pub headers: Vec<HeaderField>,
}

/// The mathematical view of [`Request`].
pub struct RequestView {
    pub method: Seq<u8>,
    pub authority: Seq<u8>,
    pub path: Seq<u8>,
    pub headers: Seq<HeaderFieldView>,
}

impl View for Request {
    type V = RequestView;

    open spec fn view(&self) -> RequestView {
        RequestView {
            method: self.method@,
            authority: self.authority@,
            path: self.path@,
            headers: self.headers@.map_values(|h: HeaderField| h@),
        }
    }
}

/// The HTTP version a connection carries.
#[derive(Clone, Copy, Debug, PartialEq, Eq, Structural)]
pub enum HttpVersion {
    Http1,
    Http2,
}

} // verus!
