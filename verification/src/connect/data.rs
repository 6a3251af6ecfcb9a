use vstd::prelude::*;

verus! {

/// A one-shot notification carrying an opaque JSON document. The payload is
/// kept as serialized JSON text: this layer never interprets it.
pub struct Event {
    pub payload: String,
}

/// A chunk of opaque binary data labeled by an application-defined tag
/// (for instance an audio direction such as `"play"` or `"record"`).
pub struct Stream {
    pub tag: String,
    pub bytes: Vec<u8>,
}

/// An outbound or inbound remote call. `id` correlates the call with its
/// eventual [`Response`]; `params` is opaque JSON text; `timeout_millis`
/// annotates the caller's deadline.
pub struct Request {
    pub id: u64,
    pub command: String,
    pub params: Option<String>,
    pub timeout_millis: Option<u64>,
}

/// The single reply to a [`Request`] with the same `id`. Exactly one of
/// `data` (JSON text) or `error` (a description) is meaningful.
pub struct Response {
    pub id: u64,
    pub data: Option<String>,
    pub error: Option<String>,
}

/// One discrete unit of the wire protocol: a tagged union of the four
/// traffic kinds.
pub enum Envelope {
    Event(Event),
    Stream(Stream),
    Request(Request),
    Response(Response),
}

/// Mathematical image of an [`Event`].
pub ghost struct EventView {
    pub payload: Seq<char>,
}

/// Mathematical image of a [`Stream`].
pub ghost struct StreamView {
    pub tag: Seq<char>,
    pub bytes: Seq<u8>,
}

/// Mathematical image of a [`Request`].
pub ghost struct RequestView {
    pub id: u64,
    pub command: Seq<char>,
    pub params: Option<Seq<char>>,
    pub timeout_millis: Option<u64>,
}

/// Mathematical image of a [`Response`].
pub ghost struct ResponseView {
    pub id: u64,
    pub data: Option<Seq<char>>,
    pub error: Option<Seq<char>>,
}

/// Mathematical image of an [`Envelope`].
pub ghost enum EnvelopeView {
    Event(EventView),
    Stream(StreamView),
    Request(RequestView),
    Response(ResponseView),
}

impl View for Event {
    type V = EventView;

    open spec fn view(&self) -> EventView {
        EventView { payload: self.payload@ }
    }
}

impl View for Stream {
    type V = StreamView;

    open spec fn view(&self) -> StreamView {
        StreamView { tag: self.tag@, bytes: self.bytes@ }
    }
}

impl View for Request {
    type V = RequestView;

    open spec fn view(&self) -> RequestView {
        RequestView {
            id: self.id,
            command: self.command@,
            params: self.params.deep_view(),
            timeout_millis: self.timeout_millis.deep_view(),
        }
    }
}

impl View for Response {
    type V = ResponseView;

    open spec fn view(&self) -> ResponseView {
        ResponseView { id: self.id, data: self.data.deep_view(), error: self.error.deep_view() }
    }
}

impl View for Envelope {
    type V = EnvelopeView;

    open spec fn view(&self) -> EnvelopeView {
        match self {
            Envelope::Event(e) => EnvelopeView::Event(e@),
            Envelope::Stream(s) => EnvelopeView::Stream(s@),
            Envelope::Request(r) => EnvelopeView::Request(r@),
            Envelope::Response(r) => EnvelopeView::Response(r@),
        }
    }
}

impl Response {
    /// A reply that carries `data` and no error. The correlation id is
    /// filled in by the dispatcher when the reply is keyed to its request.
    pub fn from_data(data: String) -> (r: Response)
        ensures
            r.id == 0,
            r.data == Some(data),
            r.error is None,
    {
        Response { id: 0, data: Some(data), error: None }
    }
}

} // verus!
