//! JSON-RPC envelopes: requests, responses, and what makes a line one of them.

use crate::text::{append2, opt_text, same, string_from};
use vstd::prelude::*;

verus! {

/// Malformed JSON.
pub const PARSE_ERROR: i32 = -32700;

/// Valid JSON that is not a valid request, or a request that cannot be served.
pub const INVALID_REQUEST: i32 = -32600;

/// A request before the handshake.
pub const SERVER_NOT_INITIALIZED: i32 = -32002;

/// The id of a request.
#[derive(Debug)]
pub enum RequestId {
    Int(i64),
    Str(String),
}

/// What a `RequestId` holds.
pub ghost enum IdView {
    Int(i64),
    Str(Seq<char>),
}

impl View for RequestId {
    type V = IdView;

    open spec fn view(&self) -> IdView {
        match *self {
            RequestId::Int(n) => IdView::Int(n),
            RequestId::Str(s) => IdView::Str(s@),
        }
    }
}

impl Clone for RequestId {
    fn clone(&self) -> (r: Self)
        ensures
            r@ == self@,
    {
        match self {
            RequestId::Int(n) => RequestId::Int(*n),
            RequestId::Str(s) => RequestId::Str(s.clone()),
        }
    }
}

impl RequestId {
    /// Whether two ids are the same.
    pub fn same(&self, other: &RequestId) -> (r: bool)
        ensures
            r == (self@ == other@),
    {
        match (self, other) {
            (RequestId::Int(a), RequestId::Int(b)) => *a == *b,
            (RequestId::Str(a), RequestId::Str(b)) => same(a.as_str(), b.as_str()),
            _ => false,
        }
    }
}

/// What an optional id holds.
pub open spec fn opt_id(o: Option<RequestId>) -> Option<IdView> {
    match o {
        Some(id) => Some(id@),
        None => None,
    }
}

/// A copy of an optional id.
pub fn clone_id(o: &Option<RequestId>) -> (r: Option<RequestId>)
    ensures
        opt_id(r) == opt_id(*o),
{
    match o {
        Some(id) => Some(id.clone()),
        None => None,
    }
}

/// A request, or a notification where it has no id.
#[derive(Debug)]
pub struct JsonRpcRequest {
    pub jsonrpc: String,
    pub id: Option<RequestId>,
    pub method: String,
    /// The parameters as JSON text.
    pub params: String,
}

/// What a `JsonRpcRequest` holds.
pub ghost struct RequestView {
    pub jsonrpc: Seq<char>,
    pub id: Option<IdView>,
    pub method: Seq<char>,
    pub params: Seq<char>,
}

impl View for JsonRpcRequest {
    type V = RequestView;

    open spec fn view(&self) -> RequestView {
        RequestView {
            jsonrpc: self.jsonrpc@,
            id: opt_id(self.id),
            method: self.method@,
            params: self.params@,
        }
    }
}

/// Why a request failed.
#[derive(Debug)]
pub struct JsonRpcError {
    pub code: i32,
    pub message: String,
}

/// A response: a result or an error, with the id of what it answers.
#[derive(Debug)]
pub struct JsonRpcResponse {
    pub id: Option<RequestId>,
    /// The result as JSON text.
    pub result: Option<String>,
    pub error: Option<JsonRpcError>,
}

/// What a `JsonRpcResponse` holds.
pub ghost struct ResponseView {
    pub id: Option<IdView>,
    pub result: Option<Seq<char>>,
    pub error: Option<(i32, Seq<char>)>,
}

impl View for JsonRpcResponse {
    type V = ResponseView;

    open spec fn view(&self) -> ResponseView {
        ResponseView {
            id: opt_id(self.id),
            result: opt_text(self.result),
            error: match self.error {
                Some(e) => Some((e.code, e.message@)),
                None => None,
            },
        }
    }
}

/// An error response.
pub open spec fn error_response(
    id: Option<IdView>,
    code: i32,
    message: Seq<char>,
) -> ResponseView {
    ResponseView { id, result: None, error: Some((code, message)) }
}

/// A success response with an empty result.
pub open spec fn empty_success(id: Option<IdView>) -> ResponseView {
    ResponseView { id, result: Some("{}"@), error: None }
}

impl JsonRpcResponse {
    /// An error response.
    pub fn error(id: Option<RequestId>, code: i32, message: String) -> (r: JsonRpcResponse)
        ensures
            r@ == error_response(opt_id(id), code, message@),
    {
        JsonRpcResponse { id, result: None, error: Some(JsonRpcError { code, message }) }
    }

    /// A success response.
    pub fn success(id: Option<RequestId>, result: String) -> (r: JsonRpcResponse)
        ensures
            r@ == (ResponseView { id: opt_id(id), result: Some(result@), error: None }),
    {
        JsonRpcResponse { id, result: Some(result), error: None }
    }
}

// Reading an envelope off a line.

/// The JSON text of the value that a pointer reaches in a document; nothing
/// where the document is malformed or the pointer reaches nothing.
pub uninterp spec fn json_at(doc: Seq<char>, pointer: Seq<char>) -> Option<Seq<char>>;

/// `serde_json::from_str` into a `Value`, and on it `Value::pointer`: a
/// function of the two texts. The value found is handed back as JSON text.
#[verifier::external_body]
pub(crate) fn json_pointer(doc: &str, pointer: &str) -> (r: Option<String>)
    ensures
        opt_text(r) == json_at(doc@, pointer@),
{
    let value: serde_json::Value = serde_json::from_str(doc).ok()?;
    value.pointer(pointer).map(|found| found.to_string())
}

/// What the JSON parser says of a malformed document; nothing for a well-formed
/// one.
pub uninterp spec fn json_complaint(doc: Seq<char>) -> Option<Seq<char>>;

/// `serde_json::from_str` into a `Value`: the error's text, where it fails.
#[verifier::external_body]
fn json_error(doc: &str) -> (r: Option<String>)
    ensures
        opt_text(r) == json_complaint(doc@),
{
    serde_json::from_str::<serde_json::Value>(doc).err().map(|e| e.to_string())
}

/// The string that a JSON text denotes, where it denotes one.
pub uninterp spec fn json_string_value(doc: Seq<char>) -> Option<Seq<char>>;

/// `serde_json::from_str` into a `String`.
#[verifier::external_body]
fn json_string(doc: &str) -> (r: Option<String>)
    ensures
        opt_text(r) == json_string_value(doc@),
{
    serde_json::from_str::<String>(doc).ok()
}

/// The integer that a JSON text denotes, where it denotes one that fits.
pub uninterp spec fn json_integer_value(doc: Seq<char>) -> Option<i64>;

/// `serde_json::from_str` into an `i64`.
#[verifier::external_body]
fn json_integer(doc: &str) -> (r: Option<i64>)
    ensures
        r == json_integer_value(doc@),
{
    serde_json::from_str::<i64>(doc).ok()
}

/// The id of an envelope as it was written.
#[derive(Debug)]
pub enum IdField {
    /// No id, or null.
    Absent,
    Id(RequestId),
    /// Something that is neither an integer nor a string.
    Unusable,
}

/// What an `IdField` holds.
pub ghost enum IdFieldView {
    Absent,
    Id(IdView),
    Unusable,
}

impl View for IdField {
    type V = IdFieldView;

    open spec fn view(&self) -> IdFieldView {
        match *self {
            IdField::Absent => IdFieldView::Absent,
            IdField::Id(id) => IdFieldView::Id(id@),
            IdField::Unusable => IdFieldView::Unusable,
        }
    }
}

/// The parts of a JSON document that make it a request, a response or neither.
#[derive(Debug)]
pub struct Envelope {
    /// The protocol version, where it is a string.
    pub jsonrpc: Option<String>,
    pub id: IdField,
    /// The method, where it is a string.
    pub method: Option<String>,
    /// The parameters as JSON text, null where there are none.
    pub params: String,
    /// Whether it carries a result or an error.
    pub answers: bool,
}

/// What an `Envelope` holds.
pub ghost struct EnvelopeView {
    pub jsonrpc: Option<Seq<char>>,
    pub id: IdFieldView,
    pub method: Option<Seq<char>>,
    pub params: Seq<char>,
    pub answers: bool,
}

impl View for Envelope {
    type V = EnvelopeView;

    open spec fn view(&self) -> EnvelopeView {
        EnvelopeView {
            jsonrpc: opt_text(self.jsonrpc),
            id: self.id@,
            method: opt_text(self.method),
            params: self.params@,
            answers: self.answers,
        }
    }
}

/// Why a line is not a request.
#[derive(Debug)]
pub enum TransportError {
    /// Malformed JSON.
    Parse(String),
    /// Valid JSON that is not a valid request.
    Invalid(Option<RequestId>, String),
    /// A reply to something this server asked.
    PeerResponse,
}

/// What a `TransportError` holds.
pub ghost enum TransportErrorView {
    Parse(Seq<char>),
    Invalid(Option<IdView>, Seq<char>),
    PeerResponse,
}

impl View for TransportError {
    type V = TransportErrorView;

    open spec fn view(&self) -> TransportErrorView {
        match *self {
            TransportError::Parse(message) => TransportErrorView::Parse(message@),
            TransportError::Invalid(id, message) => TransportErrorView::Invalid(
                opt_id(id),
                message@,
            ),
            TransportError::PeerResponse => TransportErrorView::PeerResponse,
        }
    }
}

/// What a rejected line is answered: malformed JSON without an id, an invalid
/// request with its id echoed, and a reply with nothing at all.
pub open spec fn rejection(e: TransportErrorView) -> Option<ResponseView> {
    match e {
        TransportErrorView::Parse(message) => Some(error_response(None, PARSE_ERROR, message)),
        TransportErrorView::Invalid(id, message) => Some(
            error_response(id, INVALID_REQUEST, message),
        ),
        TransportErrorView::PeerResponse => None,
    }
}

/// What an optional response holds.
pub open spec fn opt_response(o: Option<JsonRpcResponse>) -> Option<ResponseView> {
    match o {
        Some(r) => Some(r@),
        None => None,
    }
}

impl TransportError {
    /// What the rejected line is answered.
    pub fn into_response(self) -> (r: Option<JsonRpcResponse>)
        ensures
            opt_response(r) == rejection(self@),
    {
        match self {
            TransportError::Parse(message) => Some(
                JsonRpcResponse::error(None, PARSE_ERROR, message),
            ),
            TransportError::Invalid(id, message) => Some(
                JsonRpcResponse::error(id, INVALID_REQUEST, message),
            ),
            TransportError::PeerResponse => None,
        }
    }
}

/// What an envelope is. A document without a method that carries a result or an
/// error is a reply. Anything else is a request, provided that its id can be
/// echoed, its version is 2.0 and it has a method.
pub open spec fn classified(env: EnvelopeView) -> Result<RequestView, TransportErrorView> {
    if env.method is None && env.answers {
        Err(TransportErrorView::PeerResponse)
    } else if env.id is Unusable {
        Err(TransportErrorView::Invalid(None, "request id must be an integer or a string"@))
    } else {
        let id = match env.id {
            IdFieldView::Id(id) => Some(id),
            _ => None,
        };
        if env.jsonrpc != Some("2.0"@) {
            Err(TransportErrorView::Invalid(id, "jsonrpc must be \"2.0\""@))
        } else {
            match env.method {
                None => Err(TransportErrorView::Invalid(id, "missing method"@)),
                Some(method) => Ok(
                    RequestView { jsonrpc: "2.0"@, id, method, params: env.params },
                ),
            }
        }
    }
}

/// A parse result as its contents.
pub open spec fn parse_outcome(r: Result<JsonRpcRequest, TransportError>) -> Result<
    RequestView,
    TransportErrorView,
> {
    match r {
        Ok(request) => Ok(request@),
        Err(e) => Err(e@),
    }
}

/// Decides what an envelope is.
pub fn classify(env: Envelope) -> (r: Result<JsonRpcRequest, TransportError>)
    ensures
        parse_outcome(r) == classified(env@),
{
    if env.method.is_none() && env.answers {
        return Err(TransportError::PeerResponse);
    }
    let id = match env.id {
        IdField::Absent => None,
        IdField::Id(id) => Some(id),
        IdField::Unusable => {
            return Err(
                TransportError::Invalid(
                    None,
                    string_from("request id must be an integer or a string"),
                ),
            );
        },
    };
    let current = match &env.jsonrpc {
        Some(version) => same(version.as_str(), "2.0"),
        None => false,
    };
    if !current {
        return Err(TransportError::Invalid(id, string_from("jsonrpc must be \"2.0\"")));
    }
    match env.method {
        None => Err(TransportError::Invalid(id, string_from("missing method"))),
        Some(method) => Ok(
            JsonRpcRequest { jsonrpc: string_from("2.0"), id, method, params: env.params },
        ),
    }
}

/// The string that a pointer reaches in a document, where it is one.
pub open spec fn string_at(doc: Seq<char>, pointer: Seq<char>) -> Option<Seq<char>> {
    match json_at(doc, pointer) {
        Some(text) => json_string_value(text),
        None => None,
    }
}

/// The id of a document.
pub open spec fn id_at(doc: Seq<char>) -> IdFieldView {
    match json_at(doc, "/id"@) {
        None => IdFieldView::Absent,
        Some(text) => if text == "null"@ {
            IdFieldView::Absent
        } else {
            match json_integer_value(text) {
                Some(n) => IdFieldView::Id(IdView::Int(n)),
                None => match json_string_value(text) {
                    Some(s) => IdFieldView::Id(IdView::Str(s)),
                    None => IdFieldView::Unusable,
                },
            }
        },
    }
}

/// The envelope of a well-formed document.
pub open spec fn envelope_at(doc: Seq<char>) -> EnvelopeView {
    EnvelopeView {
        jsonrpc: string_at(doc, "/jsonrpc"@),
        id: id_at(doc),
        method: string_at(doc, "/method"@),
        params: match json_at(doc, "/params"@) {
            Some(text) => text,
            None => "null"@,
        },
        answers: json_at(doc, "/result"@) is Some || json_at(doc, "/error"@) is Some,
    }
}

/// What a line is: malformed JSON, or what its envelope says.
pub open spec fn parsed_line(line: Seq<char>) -> Result<RequestView, TransportErrorView> {
    match json_complaint(line) {
        Some(complaint) => Err(
            TransportErrorView::Parse("JSON parse error: "@ + complaint),
        ),
        None => classified(envelope_at(line)),
    }
}

fn read_string(doc: &str, pointer: &str) -> (r: Option<String>)
    ensures
        opt_text(r) == string_at(doc@, pointer@),
{
    match json_pointer(doc, pointer) {
        Some(text) => json_string(text.as_str()),
        None => None,
    }
}

fn read_id(doc: &str) -> (r: IdField)
    ensures
        r@ == id_at(doc@),
{
    match json_pointer(doc, "/id") {
        None => IdField::Absent,
        Some(text) => {
            if same(text.as_str(), "null") {
                return IdField::Absent;
            }
            match json_integer(text.as_str()) {
                Some(n) => IdField::Id(RequestId::Int(n)),
                None => match json_string(text.as_str()) {
                    Some(s) => IdField::Id(RequestId::Str(s)),
                    None => IdField::Unusable,
                },
            }
        },
    }
}

/// Reads one line as a request.
pub fn parse_jsonrpc_line(line: &str) -> (r: Result<JsonRpcRequest, TransportError>)
    ensures
        parse_outcome(r) == parsed_line(line@),
{
    if let Some(complaint) = json_error(line) {
        return Err(TransportError::Parse(append2("JSON parse error: ", complaint.as_str())));
    }
    let env = Envelope {
        jsonrpc: read_string(line, "/jsonrpc"),
        id: read_id(line),
        method: read_string(line, "/method"),
        params: match json_pointer(line, "/params") {
            Some(text) => text,
            None => string_from("null"),
        },
        answers: json_pointer(line, "/result").is_some() || json_pointer(line, "/error").is_some(),
    };
    classify(env)
}

/// Valid JSON that is not a valid request is answered with its id echoed, so
/// that the client can correlate it; a reply is answered with nothing.
pub proof fn law_rejections_echo_the_id(env: EnvelopeView, id: IdView)
    requires
        env.id == IdFieldView::Id(id),
        classified(env) is Err,
    ensures
        rejection(classified(env)->Err_0) == if env.method is None && env.answers {
            None::<ResponseView>
        } else {
            Some(
                error_response(
                    Some(id),
                    INVALID_REQUEST,
                    if env.jsonrpc != Some("2.0"@) {
                        "jsonrpc must be \"2.0\""@
                    } else {
                        "missing method"@
                    },
                ),
            )
        },
{
}

/// A message is a request exactly where it names version 2.0 of the protocol and
/// a method, and its id, where it has one, is an integer or a string; the
/// request then carries that id, that method and those parameters.
pub proof fn law_what_is_a_request(env: EnvelopeView)
    ensures
        ({
            let r = classified(env);
            &&& r is Ok <==> env.jsonrpc == Some("2.0"@) && env.method is Some && !(env.id
                is Unusable)
            &&& r is Ok ==> {
                let request = r->Ok_0;
                &&& request.jsonrpc == "2.0"@
                &&& Some(request.method) == env.method
                &&& request.params == env.params
                &&& request.id is None <==> env.id is Absent
                &&& env.id is Id ==> request.id == Some(env.id->Id_0)
            }
        }),
{
}

/// A message without a method that carries a result or an error is a reply, and
/// nothing else is.
pub proof fn law_what_is_a_reply(env: EnvelopeView)
    ensures
        classified(env) == Err::<RequestView, TransportErrorView>(TransportErrorView::PeerResponse)
            <==> env.method is None && env.answers,
{
}

/// What is wrong with a message that is neither a request nor a reply: its id
/// first, then its version, then its method.
pub proof fn law_what_is_wrong_with_a_message(env: EnvelopeView)
    requires
        env.method is Some || !env.answers,
    ensures
        ({
            let id = if env.id is Id { Some(env.id->Id_0) } else { None };
            let wrong = |id: Option<IdView>, why: Seq<char>| classified(env) == Err::<
                RequestView,
                TransportErrorView,
            >(TransportErrorView::Invalid(id, why));
            &&& env.id is Unusable ==> wrong(None, "request id must be an integer or a string"@)
            &&& !(env.id is Unusable) && env.jsonrpc != Some("2.0"@) ==> wrong(
                id,
                "jsonrpc must be \"2.0\""@,
            )
            &&& !(env.id is Unusable) && env.jsonrpc == Some("2.0"@) && env.method is None ==> wrong(
                id,
                "missing method"@,
            )
        }),
{
}

/// A message that is rejected is answered with the code for what is wrong: one
/// for text that is no JSON, which has no id, and another for JSON that is no
/// request. A reply is not answered.
pub proof fn law_what_a_rejection_says(id: Option<IdView>, why: Seq<char>)
    ensures
        rejection(TransportErrorView::Parse(why)) == Some(
            ResponseView { id: None, result: None, error: Some((-32700i32, why)) },
        ),
        rejection(TransportErrorView::Invalid(id, why)) == Some(
            ResponseView { id, result: None, error: Some((-32600i32, why)) },
        ),
        rejection(TransportErrorView::PeerResponse) is None,
{
}

/// A line that is no JSON is rejected with what the parser complains of; any
/// other is read by its members, whatever else it holds.
pub proof fn law_how_a_line_is_read(line: Seq<char>)
    ensures
        json_complaint(line) is Some ==> parsed_line(line) == Err::<
            RequestView,
            TransportErrorView,
        >(TransportErrorView::Parse("JSON parse error: "@ + json_complaint(line)->Some_0)),
        json_complaint(line) is None ==> ({
            let env = envelope_at(line);
            let member = |pointer: Seq<char>| json_at(line, pointer);
            &&& parsed_line(line) == classified(env)
            &&& env.answers <==> member("/result"@) is Some || member("/error"@) is Some
            &&& member("/params"@) is Some ==> env.params == member("/params"@)->Some_0
            &&& member("/params"@) is None ==> env.params == "null"@
            &&& member("/method"@) is Some ==> env.method == json_string_value(
                member("/method"@)->Some_0,
            )
            &&& member("/method"@) is None ==> env.method is None
            &&& member("/jsonrpc"@) is Some ==> env.jsonrpc == json_string_value(
                member("/jsonrpc"@)->Some_0,
            )
            &&& member("/jsonrpc"@) is None ==> env.jsonrpc is None
        }),
{
}

/// An id is what the member of that name holds: an integer or a string stands
/// for itself, null or nothing for a notification, and nothing else is an id.
pub proof fn law_how_an_id_is_read(line: Seq<char>)
    ensures
        ({
            let id = envelope_at(line).id;
            let text = json_at(line, "/id"@);
            let n = json_integer_value(text->Some_0);
            let s = json_string_value(text->Some_0);
            let there = text is Some && text->Some_0 != "null"@;
            &&& id is Absent <==> !there
            &&& there && n is Some ==> id == IdFieldView::Id(IdView::Int(n->Some_0))
            &&& there && n is None && s is Some ==> id == IdFieldView::Id(IdView::Str(s->Some_0))
            &&& there && n is None && s is None ==> id is Unusable
        }),
{
}

/// A response carries the id that it answers, and either a result or an error.
pub proof fn law_what_a_response_carries(
    id: Option<RequestId>,
    code: i32,
    text: String,
    r: JsonRpcResponse,
)
    ensures
        call_ensures(JsonRpcResponse::error, (id, code, text), r) ==> r@.id == opt_id(id)
            && r@.result is None && r@.error == Some((code, text@)),
        call_ensures(JsonRpcResponse::success, (id, text), r) ==> r@.id == opt_id(id) && r@.result
            == Some(text@) && r@.error is None,
{
}

/// A line is a request exactly where it is JSON and its members make it one.
pub proof fn law_what_is_parsed_of_a_line(
    line: &str,
    r: Result<JsonRpcRequest, TransportError>,
)
    requires
        call_ensures(parse_jsonrpc_line, (line,), r),
    ensures
        ({
            let env = envelope_at(line@);
            let request = json_complaint(line@) is None && env.jsonrpc == Some("2.0"@) && env.method
                is Some && !(env.id is Unusable);
            &&& r is Ok <==> request
            &&& r is Ok ==> r->Ok_0@.method == env.method->Some_0 && r->Ok_0@.params == env.params
            &&& r is Ok ==> (r->Ok_0@.id is Some <==> env.id is Id)
            &&& r is Ok && env.id is Id ==> r->Ok_0@.id == Some(env.id->Id_0)
        }),
{
    law_what_is_a_request(envelope_at(line@));
    law_how_a_line_is_read(line@);
}

/// Two ids are the same exactly where they are of one kind and equal.
pub proof fn law_when_ids_are_the_same(a: &RequestId, b: &RequestId, r: bool)
    requires
        call_ensures(RequestId::same, (a, b), r),
    ensures
        r <==> match (a@, b@) {
            (IdView::Int(m), IdView::Int(n)) => m == n,
            (IdView::Str(s), IdView::Str(t)) => s == t,
            _ => false,
        },
{
}

} // verus!
