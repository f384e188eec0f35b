//! The event loop of the asynchronous stdio transport, decision by decision.
//!
//! The server behind it is synchronous; only reading and writing are not, and
//! both are the caller's part. Lines are bounded as in the other transport, but
//! an oversize line is discarded to its end, however far away that is.

use crate::mcp::transport::{log_frame, logs_view, LogMessage, LogView, ReadLine, ReadView};
use crate::mcp::types::{
    error_response, parse_jsonrpc_line, parse_outcome, parsed_line, rejection, JsonRpcRequest,
    JsonRpcResponse, RequestView, ResponseView, TransportError, TransportErrorView,
    INVALID_REQUEST, PARSE_ERROR,
};
use crate::text::{append3, same, string_from, texts};
use vstd::prelude::*;

verus! {

/// What one turn of the loop does with the line that was read.
#[derive(Debug)]
pub enum Turn {
    /// End of input: leave the loop.
    Stop,
    /// Nothing to say: read on.
    Again,
    /// Send this, after the log output where `logs_first` says so, and read on.
    Answer { logs_first: bool, response: Box<JsonRpcResponse> },
    /// Serve the request.
    Dispatch(Box<JsonRpcRequest>),
}

/// What a `Turn` holds.
pub ghost enum TurnView {
    Stop,
    Again,
    Answer { logs_first: bool, response: ResponseView },
    Dispatch(RequestView),
}

impl View for Turn {
    type V = TurnView;

    open spec fn view(&self) -> TurnView {
        match *self {
            Turn::Stop => TurnView::Stop,
            Turn::Again => TurnView::Again,
            Turn::Answer { logs_first, response } => TurnView::Answer {
                logs_first,
                response: (*response)@,
            },
            Turn::Dispatch(request) => TurnView::Dispatch((*request)@),
        }
    }
}

/// What a parsed line leads to. A reply to something that is no longer waited
/// for is discarded.
pub open spec fn parsed_turn(
    parsed: Result<RequestView, TransportErrorView>,
    mcp_logging: bool,
) -> TurnView {
    match parsed {
        Ok(request) => TurnView::Dispatch(request),
        Err(e) => match rejection(e) {
            Some(response) => TurnView::Answer { logs_first: mcp_logging, response },
            None => TurnView::Again,
        },
    }
}

/// What a line read leads to.
pub open spec fn turn_of(read: ReadView, mcp_logging: bool) -> TurnView {
    match read {
        ReadView::Eof => TurnView::Stop,
        ReadView::TooLong | ReadView::Unrecoverable => TurnView::Answer {
            logs_first: mcp_logging,
            response: error_response(None, INVALID_REQUEST, "request too large"@),
        },
        ReadView::MalformedUtf8 => TurnView::Answer {
            logs_first: mcp_logging,
            response: error_response(
                None,
                PARSE_ERROR,
                "request contains malformed UTF-8 character(s)"@,
            ),
        },
        ReadView::Line(line) => if line.len() == 0 {
            TurnView::Again
        } else {
            parsed_turn(parsed_line(line), mcp_logging)
        },
    }
}

/// Decides what a parsed line leads to.
pub fn on_parsed(parsed: Result<JsonRpcRequest, TransportError>, mcp_logging: bool) -> (r: Turn)
    ensures
        r@ == parsed_turn(parse_outcome(parsed), mcp_logging),
{
    match parsed {
        Ok(request) => Turn::Dispatch(Box::new(request)),
        Err(e) => match e.into_response() {
            Some(response) => Turn::Answer {
                logs_first: mcp_logging,
                response: Box::new(response),
            },
            None => Turn::Again,
        },
    }
}

fn complain(code: i32, message: &str, mcp_logging: bool) -> (r: Turn)
    ensures
        r@ == (TurnView::Answer {
            logs_first: mcp_logging,
            response: error_response(None, code, message@),
        }),
{
    Turn::Answer {
        logs_first: mcp_logging,
        response: Box::new(JsonRpcResponse::error(None, code, string_from(message))),
    }
}

/// Decides what one line read leads to.
pub fn turn(read: ReadLine, mcp_logging: bool) -> (r: Turn)
    ensures
        r@ == turn_of(read@, mcp_logging),
{
    match read {
        ReadLine::Eof => Turn::Stop,
        ReadLine::TooLong | ReadLine::Unrecoverable => complain(
            INVALID_REQUEST,
            "request too large",
            mcp_logging,
        ),
        ReadLine::MalformedUtf8 => complain(
            PARSE_ERROR,
            "request contains malformed UTF-8 character(s)",
            mcp_logging,
        ),
        ReadLine::Line(line) => {
            if line.as_str().unicode_len() == 0 {
                Turn::Again
            } else {
                on_parsed(parse_jsonrpc_line(line.as_str()), mcp_logging)
            }
        },
    }
}

/// Which part of the server answers a request.
#[derive(Clone, Copy, Debug, PartialEq, Eq, Structural)]
pub enum Route {
    /// What the routing before the handshake said, a reply or silence.
    Preinit,
    /// The tool call, without a sampling bridge.
    ToolsCall,
    /// Any other method.
    Method,
}

/// Chooses who answers: the routing before the handshake where it had anything
/// to say, then the tool call, then the method table.
pub fn dispatch_async(preinit_answered: bool, request: &JsonRpcRequest) -> (r: Route)
    ensures
        r == if preinit_answered {
            Route::Preinit
        } else if request@.method == "tools/call"@ {
            Route::ToolsCall
        } else {
            Route::Method
        },
{
    if preinit_answered {
        Route::Preinit
    } else if same(request.method.as_str(), "tools/call") {
        Route::ToolsCall
    } else {
        Route::Method
    }
}

/// Turns logging on once the server says that the client supports it. The
/// answer is whether this call did so.
pub fn after_dispatch(supports_logging: bool, mcp_logging: &mut bool) -> (first: bool)
    ensures
        *final(mcp_logging) == (*old(mcp_logging) || supports_logging),
        first == (supports_logging && !*old(mcp_logging)),
{
    if supports_logging && !*mcp_logging {
        *mcp_logging = true;
        true
    } else {
        false
    }
}

/// The frames for the log output that has accrued, in order. The writer is
/// flushed when there are any.
pub fn drain_mcp_logs(accrued: &Vec<LogMessage>) -> (r: Vec<String>)
    ensures
        texts(r@) == logs_view(accrued@).map_values(|m: LogView| log_frame(m)),
{
    let ghost all = logs_view(accrued@);
    let mut out: Vec<String> = Vec::new();
    let mut i: usize = 0;
    while i < accrued.len()
        invariant
            i <= accrued.len(),
            all == logs_view(accrued@),
            out.len() == i,
            forall|k: int| 0 <= k < i ==> (#[trigger] out@[k])@ == log_frame(all[k]),
        decreases accrued.len() - i,
    {
        out.push(
            append3(
                "{\"jsonrpc\":\"2.0\",\"method\":\"notifications/message\",\"params\":",
                accrued[i].params.as_str(),
                "}\n",
            ),
        );
        i += 1;
    }
    assert(texts(out@) =~= all.map_values(|m: LogView| log_frame(m)));
    out
}

/// Whatever line arrives, the loop goes on until the end of input.
pub proof fn law_only_end_of_input_stops(read: ReadView, mcp_logging: bool)
    ensures
        turn_of(read, mcp_logging) is Stop <==> read is Eof,
{
}

/// Every line that holds a request is served, whatever it asks for; a reply of
/// the client and an empty line are passed over.
pub proof fn law_every_request_is_served(line: Seq<char>, mcp_logging: bool)
    requires
        line.len() > 0,
    ensures
        ({
            let t = turn_of(ReadView::Line(line), mcp_logging);
            &&& t is Dispatch <==> parsed_line(line) is Ok
            &&& t is Dispatch ==> t->Dispatch_0 == parsed_line(line)->Ok_0
            &&& t is Again <==> parsed_line(line) == Err::<RequestView, TransportErrorView>(
                TransportErrorView::PeerResponse,
            )
        }),
        turn_of(ReadView::Line(seq![]), mcp_logging) is Again,
{
}

/// What cannot be served is answered, with the log output first exactly where
/// the client asked for logs, and with the code for what is wrong with it.
pub proof fn law_what_cannot_be_served_is_answered(read: ReadView, mcp_logging: bool)
    requires
        read is TooLong || read is Unrecoverable || read is MalformedUtf8 || (read is Line
            && read->Line_0.len() > 0 && parsed_line(read->Line_0) is Err && !(parsed_line(
            read->Line_0,
        )->Err_0 is PeerResponse)),
    ensures
        ({
            let t = turn_of(read, mcp_logging);
            &&& t is Answer
            &&& t->Answer_logs_first == mcp_logging
            &&& t->Answer_response.result is None
            &&& read is TooLong || read is Unrecoverable ==> t->Answer_response == (ResponseView {
                id: None,
                result: None,
                error: Some((-32600i32, "request too large"@)),
            })
            &&& read is MalformedUtf8 ==> t->Answer_response == (ResponseView {
                id: None,
                result: None,
                error: Some((-32700i32, "request contains malformed UTF-8 character(s)"@)),
            })
            &&& read is Line ==> match parsed_line(read->Line_0)->Err_0 {
                TransportErrorView::Parse(why) => t->Answer_response == (ResponseView {
                    id: None,
                    result: None,
                    error: Some((-32700i32, why)),
                }),
                TransportErrorView::Invalid(id, why) => t->Answer_response == (ResponseView {
                    id,
                    result: None,
                    error: Some((-32600i32, why)),
                }),
                TransportErrorView::PeerResponse => true,
            }
        }),
{
}

/// A request that was not answered before the handshake is served: a tool call
/// as one, and anything else by its method.
pub proof fn law_how_a_request_is_routed(answered: bool, request: &JsonRpcRequest, r: Route)
    requires
        call_ensures(dispatch_async, (answered, request), r),
    ensures
        r == Route::Preinit <==> answered,
        r == Route::ToolsCall <==> !answered && request@.method == "tools/call"@,
        r == Route::Method <==> !answered && request@.method != "tools/call"@,
{
}

/// Logs are turned on by the first request after which the server supports them,
/// once, and stay on.
pub proof fn law_logs_are_turned_on_once(supports: bool, mcp_logging: &mut bool, first: bool)
    requires
        call_ensures(after_dispatch, (supports, mcp_logging), first),
    ensures
        *final(mcp_logging) <==> *old(mcp_logging) || supports,
        first <==> supports && !*old(mcp_logging),
{
}

/// All the log output is sent, in order, one frame for each message.
pub proof fn law_all_logs_are_sent(accrued: &Vec<LogMessage>, r: Vec<String>, i: int)
    requires
        call_ensures(drain_mcp_logs, (accrued,), r),
        0 <= i < accrued@.len(),
    ensures
        r@.len() == accrued@.len(),
        r@[i]@ == log_frame(accrued@[i]@),
{
    let frames = logs_view(accrued@).map_values(|m: LogView| log_frame(m));
    assert(texts(r@).len() == frames.len());
    assert(texts(r@)[i] == frames[i]);
}

/// A turn serves every request, whatever its method is.
pub proof fn law_a_turn_serves_requests(read: ReadLine, mcp_logging: bool, line: Seq<char>, r: Turn)
    requires
        call_ensures(turn, (read, mcp_logging), r),
        read@ == ReadView::Line(line),
        line.len() > 0,
    ensures
        r@ is Dispatch <==> parsed_line(line) is Ok,
        r@ is Dispatch ==> r@->Dispatch_0 == parsed_line(line)->Ok_0,
        r@ is Answer ==> r@->Answer_logs_first == mcp_logging,
{
}

} // verus!
