//! JSON-RPC framing for the stdio server.
//!
//! - One line is bounded to `MAX_LINE_BYTES`; an oversize line is discarded and
//!   answered -32600 rather than buffered.
//! - Malformed UTF-8 and malformed JSON are answered -32700.
//! - Valid JSON that is not a valid request is answered -32600 with its id
//!   echoed, so that the client can correlate it.
//! - A reply reaches the protocol layer once a session exists, and is discarded
//!   in silence before that.
//! - A request before `initialize` is answered -32002 and the connection stays
//!   up.
//!
//! Reading, writing and waiting are the caller's part. What to do with what was
//! read, and when to stop waiting, is decided here.

use crate::mcp::types::{
    clone_id, empty_success, error_response, json_at, json_pointer, opt_id, opt_response,
    parse_jsonrpc_line, parse_outcome, parsed_line, rejection, IdView, JsonRpcRequest,
    JsonRpcResponse, RequestId, RequestView, ResponseView, TransportError, TransportErrorView,
    INVALID_REQUEST, PARSE_ERROR, SERVER_NOT_INITIALIZED,
};
use crate::text::{append2, append3, pushed, same, starts_with, string_from, texts, trim, trimmed};
use rmcp::model::{
    ClientNotification, ClientRequest, ClientResult, JsonRpcMessage, NumberOrString,
};
use vstd::prelude::*;
use vstd::utf8::{decode_utf8, valid_utf8};

verus! {

/// The longest line accepted, in bytes, its newline not counted (4 MiB).
pub const MAX_LINE_BYTES: usize = 4194304;

/// How much of an unterminated line to discard before giving up on the client
/// (64 MiB).
pub const MAX_DRAIN_BYTES: usize = 67108864;

/// How long either shutdown path waits for queued output, in milliseconds.
pub const FLUSH_TIMEOUT_MS: u64 = 2000;

/// How long blocking work is given once the service loop has returned, in
/// milliseconds.
pub const BLOCKING_SHUTDOWN_GRACE_MS: u64 = 2000;

/// How long end of input waits for responses still owed, in milliseconds.
pub const DRAIN_TIMEOUT_MS: u64 = 30000;

/// How often that wait rechecks, in milliseconds.
pub const DRAIN_POLL_MS: u64 = 5;

/// The severities of log messages, lowest first.
#[derive(Clone, Copy, Debug, PartialEq, Eq, Structural)]
pub enum LoggingLevel {
    Debug,
    Info,
    Notice,
    Warning,
    Error,
    Critical,
    Alert,
    Emergency,
}

impl LoggingLevel {
    /// The place of a severity in the order of severities.
    pub open spec fn rank(self) -> u8 {
        match self {
            LoggingLevel::Debug => 0,
            LoggingLevel::Info => 1,
            LoggingLevel::Notice => 2,
            LoggingLevel::Warning => 3,
            LoggingLevel::Error => 4,
            LoggingLevel::Critical => 5,
            LoggingLevel::Alert => 6,
            LoggingLevel::Emergency => 7,
        }
    }
}

/// One log message bound for the client.
#[derive(Debug)]
pub struct LogMessage {
    pub level: LoggingLevel,
    /// The notification's parameters as JSON text.
    pub params: String,
}

/// What a `LogMessage` holds.
pub ghost struct LogView {
    pub level: LoggingLevel,
    pub params: Seq<char>,
}

impl View for LogMessage {
    type V = LogView;

    open spec fn view(&self) -> LogView {
        LogView { level: self.level, params: self.params@ }
    }
}

/// What each log message of a list holds.
pub open spec fn logs_view(list: Seq<LogMessage>) -> Seq<LogView> {
    Seq::new(list.len(), |i: int| list[i]@)
}

/// Lifecycle state shared between the framing layer and the request handler.
#[derive(Debug)]
pub struct Lifecycle {
    initialized: bool,
    shutdown: bool,
    logs: bool,
    log_level: u8,
    in_flight: Vec<RequestId>,
}

/// What a `Lifecycle` holds.
pub ghost struct LifecycleView {
    /// A handshake has succeeded.
    pub initialized: bool,
    /// `shutdown` was requested.
    pub shutdown: bool,
    /// The client has asked for log notifications.
    pub logs: bool,
    /// The rank of the lowest severity that the client wants.
    pub log_level: u8,
    /// The requests accepted whose response has not been written yet.
    pub in_flight: Set<IdView>,
}

/// What each id of a list holds.
pub open spec fn ids(list: Seq<RequestId>) -> Seq<IdView> {
    Seq::new(list.len(), |i: int| list[i]@)
}

impl View for Lifecycle {
    type V = LifecycleView;

    closed spec fn view(&self) -> LifecycleView {
        LifecycleView {
            initialized: self.initialized,
            shutdown: self.shutdown,
            logs: self.logs,
            log_level: self.log_level,
            in_flight: ids(self.in_flight@).to_set(),
        }
    }
}

/// A connection before anything was said.
pub open spec fn fresh() -> LifecycleView {
    LifecycleView {
        initialized: false,
        shutdown: false,
        logs: false,
        log_level: 0,
        in_flight: Set::empty(),
    }
}

impl Default for Lifecycle {
    fn default() -> (r: Self)
        ensures
            r.wf(),
            r@ == fresh(),
    {
        let r = Lifecycle {
            initialized: false,
            shutdown: false,
            logs: false,
            log_level: 0,
            in_flight: Vec::new(),
        };
        assert(r@.in_flight =~= Set::empty());
        r
    }
}

impl Lifecycle {
    /// No request is counted twice.
    pub closed spec fn wf(&self) -> bool {
        ids(self.in_flight@).no_duplicates()
    }

    /// Lets nothing pass any more but `exit`.
    pub fn mark_shutdown(&mut self)
        requires
            old(self).wf(),
        ensures
            final(self).wf(),
            final(self)@ == (LifecycleView { shutdown: true, ..old(self)@ }),
    {
        self.shutdown = true;
    }

    /// Lets requests pass, after a handshake has succeeded.
    pub fn mark_initialized(&mut self)
        requires
            old(self).wf(),
        ensures
            final(self).wf(),
            final(self)@ == (LifecycleView { initialized: true, ..old(self)@ }),
    {
        self.initialized = true;
    }

    /// Whether a handshake has succeeded.
    pub fn is_initialized(&self) -> (r: bool)
        ensures
            r == self@.initialized,
    {
        self.initialized
    }

    /// The status that `exit` terminates with: 0 when `shutdown` came first, 1
    /// otherwise.
    pub fn exit_code(&self) -> (r: i32)
        ensures
            r == exit_status(self@),
    {
        if self.shutdown {
            0
        } else {
            1
        }
    }

    /// The rank of a severity, in the order that the protocol defines.
    pub fn log_rank(level: LoggingLevel) -> (r: u8)
        ensures
            r == level.rank(),
    {
        match level {
            LoggingLevel::Debug => 0,
            LoggingLevel::Info => 1,
            LoggingLevel::Notice => 2,
            LoggingLevel::Warning => 3,
            LoggingLevel::Error => 4,
            LoggingLevel::Critical => 5,
            LoggingLevel::Alert => 6,
            LoggingLevel::Emergency => 7,
        }
    }

    /// Records the level the client asked for. Logs below it stop being sent.
    pub fn set_log_level(&mut self, level: LoggingLevel)
        requires
            old(self).wf(),
        ensures
            final(self).wf(),
            final(self)@ == (LifecycleView { log_level: level.rank(), ..old(self)@ }),
    {
        self.log_level = Self::log_rank(level);
    }

    /// Starts forwarding log output to the client. The answer is whether this
    /// call did so; a repeated call does nothing.
    pub fn enable_logs(&mut self) -> (first: bool)
        requires
            old(self).wf(),
        ensures
            final(self).wf(),
            final(self)@ == (LifecycleView { logs: true, ..old(self)@ }),
            first == !old(self)@.logs,
    {
        let first = !self.logs;
        self.logs = true;
        first
    }

    /// Whether log output goes to the client.
    pub fn logs_enabled(&self) -> (r: bool)
        ensures
            r == self@.logs,
    {
        self.logs
    }

    /// Of the log output that has accrued, what the client asked for: nothing
    /// before it asked for logs, and then what is not below its level.
    pub fn drain_logs(&self, accrued: Vec<LogMessage>) -> (r: Vec<LogMessage>)
        ensures
            logs_view(r@) == wanted_logs(self@, logs_view(accrued@)),
    {
        let ghost all = logs_view(accrued@);
        let mut out: Vec<LogMessage> = Vec::new();
        assert(logs_view(out@) =~= seq![]);
        if !self.logs {
            return out;
        }
        let mut i: usize = 0;
        assert(all.take(0) =~= seq![]);
        while i < accrued.len()
            invariant
                i <= accrued.len(),
                all == logs_view(accrued@),
                logs_view(out@) == at_least(all.take(i as int), self.log_level),
            decreases accrued.len() - i,
        {
            let ghost before = logs_view(out@);
            assert(all.take(i + 1).drop_last() =~= all.take(i as int));
            assert(all.take(i + 1).last() == all[i as int]);
            if Self::log_rank(accrued[i].level) >= self.log_level {
                out.push(
                    LogMessage { level: accrued[i].level, params: accrued[i].params.clone() },
                );
                assert(logs_view(out@) =~= before.push(all[i as int]));
            }
            i += 1;
        }
        assert(all.take(i as int) =~= all);
        out
    }

    /// The frames for the log output that has accrued. Nothing is sent, and the
    /// output stays where it is, while there is no queue to send it to.
    pub fn queue_logs(&self, queue_open: bool, accrued: Vec<LogMessage>) -> (r: Vec<String>)
        ensures
            texts(r@) == if queue_open {
                wanted_logs(self@, logs_view(accrued@)).map_values(|m: LogView| log_frame(m))
            } else {
                seq![]
            },
    {
        let mut out: Vec<String> = Vec::new();
        assert(texts(out@) =~= seq![]);
        if !queue_open {
            return out;
        }
        let wanted = self.drain_logs(accrued);
        let ghost all = logs_view(wanted@);
        let mut i: usize = 0;
        while i < wanted.len()
            invariant
                i <= wanted.len(),
                all == logs_view(wanted@),
                out.len() == i,
                forall|k: int| 0 <= k < i ==> (#[trigger] out@[k])@ == log_frame(all[k]),
            decreases wanted.len() - i,
        {
            out.push(
                append3(
                    "{\"jsonrpc\":\"2.0\",\"method\":\"notifications/message\",\"params\":",
                    wanted[i].params.as_str(),
                    "}\n",
                ),
            );
            i += 1;
        }
        assert(texts(out@) =~= all.map_values(|m: LogView| log_frame(m)));
        out
    }

    fn position(&self, id: &RequestId) -> (r: Option<usize>)
        ensures
            match r {
                Some(i) => i < self.in_flight.len() && self.in_flight@[i as int]@ == id@,
                None => !ids(self.in_flight@).contains(id@),
            },
    {
        let mut i: usize = 0;
        while i < self.in_flight.len()
            invariant
                i <= self.in_flight.len(),
                forall|k: int| 0 <= k < i ==> ids(self.in_flight@)[k] != id@,
            decreases self.in_flight.len() - i,
        {
            if self.in_flight[i].same(id) {
                return Some(i);
            }
            i += 1;
        }
        None
    }

    /// Marks one request as accepted, until its response has been written.
    pub fn accept_request(&mut self, id: RequestId)
        requires
            old(self).wf(),
        ensures
            final(self).wf(),
            final(self)@ == (LifecycleView {
                in_flight: old(self)@.in_flight.insert(id@),
                ..old(self)@
            }),
    {
        let ghost before = ids(self.in_flight@);
        match self.position(&id) {
            Some(i) => {
                assert(before[i as int] == id@);
                assert(before.to_set().insert(id@) =~= before.to_set());
            },
            None => {
                self.in_flight.push(id);
                let ghost after = ids(self.in_flight@);
                assert(after =~= before.push(id@));
                assert(after.to_set() =~= before.to_set().insert(id@)) by {
                    assert forall|x: IdView| before.to_set().insert(id@).contains(x) implies
                        #[trigger] after.to_set().contains(x) by {
                        if x == id@ {
                            assert(after[before.len() as int] == x);
                        } else {
                            let k = choose|k: int| 0 <= k < before.len() && before[k] == x;
                            assert(after[k] == x);
                        }
                    }
                }
            },
        }
    }

    /// Marks one request as answered, once its response is on the wire, or as
    /// owed nothing.
    pub fn retire_request(&mut self, id: &RequestId)
        requires
            old(self).wf(),
        ensures
            final(self).wf(),
            final(self)@ == (LifecycleView {
                in_flight: old(self)@.in_flight.remove(id@),
                ..old(self)@
            }),
    {
        let ghost before = ids(self.in_flight@);
        match self.position(id) {
            None => {
                assert(before.to_set().remove(id@) =~= before.to_set());
            },
            Some(i) => {
                let _ = self.in_flight.remove(i);
                let ghost after = ids(self.in_flight@);
                assert(before[i as int] == id@);
                assert(after =~= before.remove(i as int));
                assert(after.to_set() =~= before.to_set().remove(id@)) by {
                    assert forall|x: IdView| before.to_set().remove(id@).contains(x) implies
                        #[trigger] after.to_set().contains(x) by {
                        let k = choose|k: int| 0 <= k < before.len() && before[k] == x;
                        if k < i {
                            assert(after[k] == x);
                        } else {
                            assert(after[k - 1] == x);
                        }
                    }
                    assert forall|x: IdView| #[trigger] after.to_set().contains(x) implies
                        before.to_set().remove(id@).contains(x) by {
                        let k = choose|k: int| 0 <= k < after.len() && after[k] == x;
                        if k < i {
                            assert(before[k] == x);
                        } else {
                            assert(before[k + 1] == x);
                        }
                    }
                }
            },
        }
    }

    /// How many requests are still owed a response.
    pub fn outstanding(&self) -> (n: usize)
        requires
            self.wf(),
        ensures
            n == self@.in_flight.len(),
    {
        proof {
            ids(self.in_flight@).unique_seq_to_set();
        }
        self.in_flight.len()
    }
}

/// The status that `exit` terminates with.
pub open spec fn exit_status(l: LifecycleView) -> i32 {
    if l.shutdown {
        0
    } else {
        1
    }
}

/// The log messages of at least a rank, in order.
pub open spec fn at_least(list: Seq<LogView>, floor: u8) -> Seq<LogView>
    decreases list.len(),
{
    if list.len() == 0 {
        seq![]
    } else if list.last().level.rank() >= floor {
        at_least(list.drop_last(), floor).push(list.last())
    } else {
        at_least(list.drop_last(), floor)
    }
}

/// Of the log messages that have accrued, those the client asked for.
pub open spec fn wanted_logs(l: LifecycleView, accrued: Seq<LogView>) -> Seq<LogView> {
    if l.logs {
        at_least(accrued, l.log_level)
    } else {
        seq![]
    }
}

/// One log message as a frame.
pub open spec fn log_frame(m: LogView) -> Seq<char> {
    "{\"jsonrpc\":\"2.0\",\"method\":\"notifications/message\",\"params\":"@ + m.params + "}\n"@
}

/// One message, already in JSON, as a frame: a newline ends it.
pub fn encode(message: Vec<u8>) -> (r: Vec<u8>)
    ensures
        r@ == message@.push(10u8),
{
    let mut line = message;
    line.push(10);
    line
}

// Deciding the fate of an envelope.

/// What the framing layer does with an envelope before the protocol layer sees
/// it.
#[derive(Debug)]
pub enum Gate {
    /// Hand it on.
    Forward,
    /// Answer here.
    Reply(Box<JsonRpcResponse>),
    /// Drop in silence, which is what a notification gets when there is
    /// nothing to say back.
    Drop,
    /// Terminate.
    Exit,
}

/// What a `Gate` holds.
pub ghost enum GateView {
    Forward,
    Reply(ResponseView),
    Drop,
    Exit,
}

impl View for Gate {
    type V = GateView;

    open spec fn view(&self) -> GateView {
        match *self {
            Gate::Forward => GateView::Forward,
            Gate::Reply(response) => GateView::Reply((*response)@),
            Gate::Drop => GateView::Drop,
            Gate::Exit => GateView::Exit,
        }
    }
}

/// A request is answered with an error, a notification is dropped.
pub open spec fn refused(id: Option<IdView>, code: i32, message: Seq<char>) -> GateView {
    match id {
        Some(_) => GateView::Reply(error_response(id, code, message)),
        None => GateView::Drop,
    }
}

/// A request is answered with an empty result, a notification is dropped.
pub open spec fn acknowledged(id: Option<IdView>) -> GateView {
    match id {
        Some(_) => GateView::Reply(empty_success(id)),
        None => GateView::Drop,
    }
}

/// The fate of one envelope, and the state after it. `wants_logs` says whether
/// its parameters name the logging capability.
pub open spec fn gate_decision(l: LifecycleView, request: RequestView, wants_logs: bool) -> (
    GateView,
    LifecycleView,
) {
    let method = request.method;
    let id = request.id;
    if method == "exit"@ {
        (if l.initialized { GateView::Forward } else { GateView::Exit }, l)
    } else if l.shutdown {
        (refused(id, INVALID_REQUEST, "server is shutting down"@), l)
    } else if "notifications/"@.is_prefix_of(method) && id is Some {
        (
            refused(
                id,
                INVALID_REQUEST,
                method + " must be sent as a notification (no id)"@,
            ),
            l,
        )
    } else if method == "shutdown"@ {
        (acknowledged(id), LifecycleView { shutdown: true, ..l })
    } else if method == "server/discover"@ {
        (GateView::Forward, l)
    } else if method == "initialize"@ {
        (GateView::Forward, LifecycleView { logs: l.logs || wants_logs, ..l })
    } else if l.initialized {
        (GateView::Forward, l)
    } else if method == "ping"@ {
        (acknowledged(id), l)
    } else if "notifications/"@.is_prefix_of(method) {
        (GateView::Drop, l)
    } else {
        (refused(id, SERVER_NOT_INITIALIZED, "server not initialized"@), l)
    }
}

/// Whether a request's parameters name the logging capability.
pub open spec fn names_logging(request: RequestView) -> bool {
    json_at(request.params, "/capabilities/logging"@) is Some
}

/// A request is answered, a notification is dropped.
fn answer(id: Option<RequestId>, code: i32, message: String) -> (r: Gate)
    ensures
        r@ == refused(opt_id(id), code, message@),
{
    match id {
        Some(_) => Gate::Reply(Box::new(JsonRpcResponse::error(id, code, message))),
        None => Gate::Drop,
    }
}

fn acknowledge(id: Option<RequestId>) -> (r: Gate)
    ensures
        r@ == acknowledged(opt_id(id)),
{
    match id {
        Some(_) => Gate::Reply(Box::new(JsonRpcResponse::success(id, string_from("{}")))),
        None => Gate::Drop,
    }
}

/// Decides the fate of one envelope.
pub fn gate(lifecycle: &mut Lifecycle, request: &JsonRpcRequest) -> (r: Gate)
    requires
        old(lifecycle).wf(),
    ensures
        final(lifecycle).wf(),
        (r@, final(lifecycle)@) == gate_decision(
            old(lifecycle)@,
            request@,
            names_logging(request@),
        ),
{
    let wants_logs = json_pointer(request.params.as_str(), "/capabilities/logging").is_some();
    decide(lifecycle, request, wants_logs)
}

/// As `gate`, where it is known whether the parameters name the logging
/// capability.
pub fn decide(lifecycle: &mut Lifecycle, request: &JsonRpcRequest, wants_logs: bool) -> (r: Gate)
    requires
        old(lifecycle).wf(),
    ensures
        final(lifecycle).wf(),
        (r@, final(lifecycle)@) == gate_decision(old(lifecycle)@, request@, wants_logs),
{
    let method = request.method.as_str();
    let id = clone_id(&request.id);
    // Honored in every state. After the handshake the handler runs it, because
    // it owns what has to be flushed first.
    if same(method, "exit") {
        return if lifecycle.initialized {
            Gate::Forward
        } else {
            Gate::Exit
        };
    }
    if lifecycle.shutdown {
        return answer(id, INVALID_REQUEST, string_from("server is shutting down"));
    }
    if starts_with(method, "notifications/") && id.is_some() {
        return answer(
            id,
            INVALID_REQUEST,
            append2(method, " must be sent as a notification (no id)"),
        );
    }
    // Answered here, so that a pipelined request cannot pass while a handler
    // waits to run.
    if same(method, "shutdown") {
        lifecycle.mark_shutdown();
        return acknowledge(id);
    }
    // Discovery is by definition pre-handshake.
    if same(method, "server/discover") {
        return Gate::Forward;
    }
    if same(method, "initialize") {
        if wants_logs {
            let _ = lifecycle.enable_logs();
        }
        return Gate::Forward;
    }
    if lifecycle.initialized {
        return Gate::Forward;
    }
    if same(method, "ping") {
        return acknowledge(id);
    }
    if starts_with(method, "notifications/") {
        return Gate::Drop;
    }
    answer(id, SERVER_NOT_INITIALIZED, string_from("server not initialized"))
}

// Reading lines.

/// Outcome of one bounded line read.
#[derive(Debug)]
pub enum ReadLine {
    Line(String),
    Eof,
    TooLong,
    MalformedUtf8,
    /// An unterminated line so long that the discard gave up on finding where
    /// it ends. Nothing further can be framed from this stream.
    Unrecoverable,
}

/// What a `ReadLine` holds.
pub ghost enum ReadView {
    Line(Seq<char>),
    Eof,
    TooLong,
    MalformedUtf8,
    Unrecoverable,
}

impl View for ReadLine {
    type V = ReadView;

    open spec fn view(&self) -> ReadView {
        match *self {
            ReadLine::Line(line) => ReadView::Line(line@),
            ReadLine::Eof => ReadView::Eof,
            ReadLine::TooLong => ReadView::TooLong,
            ReadLine::MalformedUtf8 => ReadView::MalformedUtf8,
            ReadLine::Unrecoverable => ReadView::Unrecoverable,
        }
    }
}

/// What an optional outcome holds.
pub open spec fn opt_read(o: Option<ReadLine>) -> Option<ReadView> {
    match o {
        Some(r) => Some(r@),
        None => None,
    }
}

/// `str::from_utf8`: the text that the bytes encode, where they encode one.
#[verifier::external_body]
fn text_of_bytes(bytes: &[u8]) -> (r: Option<String>)
    ensures
        match r {
            Some(s) => valid_utf8(bytes@) && s@ == decode_utf8(bytes@),
            None => !valid_utf8(bytes@),
        },
{
    std::str::from_utf8(bytes).ok().map(|s| s.to_owned())
}

/// The position of the first newline at or after `from`, or the length.
pub open spec fn newline_from(s: Seq<u8>, from: int) -> int
    decreases s.len() - from,
{
    if from < 0 || from >= s.len() {
        s.len() as int
    } else if s[from] == 10 {
        from
    } else {
        newline_from(s, from + 1)
    }
}

/// The position of the first newline, or the length.
pub open spec fn newline_at(s: Seq<u8>) -> int {
    newline_from(s, 0)
}

proof fn lemma_newline_from(s: Seq<u8>, from: int)
    requires
        0 <= from <= s.len(),
    ensures
        from <= newline_from(s, from) <= s.len(),
        newline_from(s, from) < s.len() ==> s[newline_from(s, from)] == 10,
        forall|i: int| from <= i < newline_from(s, from) ==> s[i] != 10,
    decreases s.len() - from,
{
    if from < s.len() && s[from] != 10 {
        lemma_newline_from(s, from + 1);
    }
}

/// A position is the first newline, or the length, where nothing before it is
/// a newline.
proof fn lemma_newline_is(s: Seq<u8>, k: int)
    requires
        0 <= k <= s.len(),
        k < s.len() ==> s[k] == 10,
        forall|i: int| 0 <= i < k ==> s[i] != 10,
    ensures
        newline_at(s) == k,
{
    lemma_newline_from(s, 0);
}

fn find_newline(chunk: &[u8], from: usize) -> (k: usize)
    requires
        from <= chunk.len(),
    ensures
        k == newline_from(chunk@, from as int),
        from <= k <= chunk.len(),
{
    let mut k: usize = from;
    while k < chunk.len() && chunk[k] != 10
        invariant
            from <= k <= chunk.len(),
            newline_from(chunk@, from as int) == newline_from(chunk@, k as int),
        decreases chunk.len() - k,
    {
        k += 1;
    }
    k
}

/// What the bytes of one line are: its text without the white space around
/// it, or malformed.
pub open spec fn line_of(bytes: Seq<u8>) -> ReadView {
    if valid_utf8(bytes) {
        ReadView::Line(trimmed(decode_utf8(bytes)))
    } else {
        ReadView::MalformedUtf8
    }
}

fn finish_line(raw: &Vec<u8>) -> (r: ReadLine)
    ensures
        r@ == line_of(raw@),
{
    match text_of_bytes(raw.as_slice()) {
        Some(s) => ReadLine::Line(trim(s.as_str())),
        None => ReadLine::MalformedUtf8,
    }
}

/// Splits a byte stream into lines, in whatever pieces the stream arrives.
///
/// What was taken of a line stays here until the line is complete, so a read
/// that is abandoned half-way resumes where it was.
#[derive(Debug)]
pub struct LineReader {
    raw: Vec<u8>,
    discarded: Option<usize>,
    max_drain: Option<usize>,
}

/// What a `LineReader` holds.
pub ghost struct ReaderView {
    /// The bytes of the current line so far.
    pub raw: Seq<u8>,
    /// Where the line is oversize: how many bytes were discarded beyond the
    /// limit.
    pub discarded: Option<nat>,
    /// How much to discard before giving up, where there is a limit.
    pub max_drain: Option<usize>,
}

impl View for LineReader {
    type V = ReaderView;

    closed spec fn view(&self) -> ReaderView {
        ReaderView {
            raw: self.raw@,
            discarded: match self.discarded {
                Some(n) => Some(n as nat),
                None => None,
            },
            max_drain: self.max_drain,
        }
    }
}

/// A reader in order: a line that is still being read is within the limit,
/// and a discard that went on did not pass its own.
pub open spec fn reader_wf(r: ReaderView) -> bool {
    match r.discarded {
        None => r.raw.len() <= MAX_LINE_BYTES,
        Some(n) => r.raw.len() == 0 && match r.max_drain {
            Some(limit) => n <= limit,
            None => n == 0,
        },
    }
}

/// A reader at the beginning of a line.
pub open spec fn at_line_start(max_drain: Option<usize>) -> ReaderView {
    ReaderView { raw: seq![], discarded: None, max_drain }
}

/// Discarding what follows of an oversize line: the state after it, how much
/// was used, and the outcome, if there is one yet.
pub open spec fn discard_step(n: nat, max_drain: Option<usize>, chunk: Seq<u8>) -> (
    ReaderView,
    int,
    Option<ReadView>,
) {
    let k = newline_at(chunk);
    if k < chunk.len() {
        (at_line_start(max_drain), k + 1, Some(ReadView::TooLong))
    } else {
        match max_drain {
            None => (
                ReaderView { raw: seq![], discarded: Some(0), max_drain },
                chunk.len() as int,
                None,
            ),
            Some(limit) => if n + chunk.len() > limit {
                (at_line_start(max_drain), chunk.len() as int, Some(ReadView::Unrecoverable))
            } else {
                (
                    ReaderView { raw: seq![], discarded: Some(n + chunk.len()), max_drain },
                    chunk.len() as int,
                    None,
                )
            },
        }
    }
}

/// Feeding a piece of the stream to a reader: the state after it, how much of
/// the piece was used, and the outcome, if there is one yet.
///
/// A line ends at its newline, which the limit does not count. One that passes
/// the limit is discarded up to its newline.
pub open spec fn fed(r: ReaderView, chunk: Seq<u8>) -> (ReaderView, int, Option<ReadView>) {
    match r.discarded {
        Some(n) => discard_step(n, r.max_drain, chunk),
        None => {
            let room = MAX_LINE_BYTES + 1 - r.raw.len();
            let k = newline_at(chunk);
            if k < chunk.len() && k < room {
                (
                    at_line_start(r.max_drain),
                    k + 1,
                    Some(line_of(r.raw + chunk.take(k + 1))),
                )
            } else if chunk.len() < room {
                (
                    ReaderView { raw: r.raw + chunk, ..r },
                    chunk.len() as int,
                    None,
                )
            } else {
                let (next, used, outcome) = discard_step(0, r.max_drain, chunk.skip(room));
                (next, room + used, outcome)
            }
        },
    }
}

/// What end of input yields: an unterminated line still counts, and nothing
/// left is the end.
pub open spec fn ended(r: ReaderView) -> ReadView {
    if r.discarded is Some {
        ReadView::TooLong
    } else if r.raw.len() == 0 {
        ReadView::Eof
    } else {
        line_of(r.raw)
    }
}

impl LineReader {
    /// The reader is in order.
    pub open spec fn wf(&self) -> bool {
        reader_wf(self@)
    }

    /// A reader at the beginning of a stream.
    pub fn new() -> (r: Self)
        ensures
            r.wf(),
            r@ == at_line_start(Some(MAX_DRAIN_BYTES)),
    {
        LineReader { raw: Vec::new(), discarded: None, max_drain: Some(MAX_DRAIN_BYTES) }
    }

    /// A reader that never gives up on an oversize line.
    pub fn patient() -> (r: Self)
        ensures
            r.wf(),
            r@ == at_line_start(None),
    {
        LineReader { raw: Vec::new(), discarded: None, max_drain: None }
    }

    /// A reader that holds the beginning of a line already.
    pub fn resume(raw: Vec<u8>) -> (r: Self)
        requires
            !raw@.contains(10u8),
        ensures
            r.wf(),
            raw.len() <= MAX_LINE_BYTES ==> r@ == (ReaderView {
                raw: raw@,
                ..at_line_start(Some(MAX_DRAIN_BYTES))
            }),
            raw.len() > MAX_LINE_BYTES ==> r@ == (ReaderView {
                discarded: Some(0),
                ..at_line_start(Some(MAX_DRAIN_BYTES))
            }),
    {
        if raw.len() > MAX_LINE_BYTES {
            LineReader { raw: Vec::new(), discarded: Some(0), max_drain: Some(MAX_DRAIN_BYTES) }
        } else {
            LineReader { raw, discarded: None, max_drain: Some(MAX_DRAIN_BYTES) }
        }
    }

    /// Whether part of a line is held.
    pub fn mid_line(&self) -> (r: bool)
        ensures
            r == (self@.raw.len() > 0 || self@.discarded is Some),
    {
        self.raw.len() > 0 || self.discarded.is_some()
    }

    fn discard(&mut self, chunk: &[u8], from: usize, n: usize) -> (r: (usize, Option<ReadLine>))
        requires
            from <= chunk.len(),
            old(self)@.max_drain is Some ==> n <= old(self)@.max_drain->Some_0,
            old(self)@.max_drain is None ==> n == 0,
        ensures
            final(self).wf(),
            (final(self)@, r.0 - from, opt_read(r.1)) == discard_step(
                n as nat,
                old(self)@.max_drain,
                chunk@.skip(from as int),
            ),
            from <= r.0 <= chunk.len(),
    {
        let ghost rest = chunk@.skip(from as int);
        let k = find_newline(chunk, from);
        proof {
            lemma_newline_from(chunk@, from as int);
            assert forall|i: int| 0 <= i < k - from implies rest[i] != 10 by {
                assert(rest[i] == chunk@[from + i]);
            }
            lemma_newline_is(rest, k - from);
        }
        self.raw = Vec::new();
        assert(self.raw@ =~= seq![]);
        if k < chunk.len() {
            self.discarded = None;
            return (k + 1, Some(ReadLine::TooLong));
        }
        match self.max_drain {
            None => {
                self.discarded = Some(0);
                (k, None)
            },
            Some(limit) => {
                if chunk.len() - from > limit - n {
                    self.discarded = None;
                    (k, Some(ReadLine::Unrecoverable))
                } else {
                    self.discarded = Some(n + (chunk.len() - from));
                    (k, None)
                }
            },
        }
    }

    /// Takes a piece of the stream. The answer is how much of it was used, and
    /// the outcome, where a line ended in it; without one the whole piece was
    /// used.
    pub fn feed(&mut self, chunk: &[u8]) -> (r: (usize, Option<ReadLine>))
        requires
            old(self).wf(),
        ensures
            final(self).wf(),
            (final(self)@, r.0 as int, opt_read(r.1)) == fed(old(self)@, chunk@),
            r.0 <= chunk.len(),
            r.1 is None ==> r.0 == chunk.len(),
    {
        proof {
            lemma_newline_from(chunk@, 0);
        }
        if let Some(n) = self.discarded {
            assert(chunk@.skip(0) =~= chunk@);
            return self.discard(chunk, 0, n);
        }
        let room: usize = MAX_LINE_BYTES + 1 - self.raw.len();
        let k = find_newline(chunk, 0);
        if k < chunk.len() && k < room {
            self.append(chunk, k + 1);
            let r = finish_line(&self.raw);
            self.raw = Vec::new();
            assert(self.raw@ =~= seq![]);
            return (k + 1, Some(r));
        }
        if chunk.len() < room {
            self.append(chunk, chunk.len());
            assert(chunk@.take(chunk@.len() as int) =~= chunk@);
            return (chunk.len(), None);
        }
        self.discard(chunk, room, 0)
    }

    fn append(&mut self, chunk: &[u8], n: usize)
        requires
            n <= chunk.len(),
        ensures
            final(self).raw@ == old(self).raw@ + chunk@.take(n as int),
            final(self).discarded == old(self).discarded,
            final(self).max_drain == old(self).max_drain,
    {
        let ghost before = self.raw@;
        let mut i: usize = 0;
        assert(before + chunk@.take(0) =~= before);
        while i < n
            invariant
                i <= n <= chunk.len(),
                self.raw@ == before + chunk@.take(i as int),
                self.discarded == old(self).discarded,
                self.max_drain == old(self).max_drain,
            decreases n - i,
        {
            self.raw.push(chunk[i]);
            i += 1;
            assert(self.raw@ =~= before + chunk@.take(i as int));
        }
    }

    /// Takes the end of the stream.
    pub fn end(&mut self) -> (r: ReadLine)
        requires
            old(self).wf(),
        ensures
            final(self).wf(),
            final(self)@ == at_line_start(old(self)@.max_drain),
            r@ == ended(old(self)@),
    {
        let r = if self.discarded.is_some() {
            ReadLine::TooLong
        } else if self.raw.len() == 0 {
            ReadLine::Eof
        } else {
            finish_line(&self.raw)
        };
        self.raw = Vec::new();
        assert(self.raw@ =~= seq![]);
        self.discarded = None;
        r
    }
}

proof fn lemma_newline_of_concat(a: Seq<u8>, b: Seq<u8>)
    ensures
        newline_at(a) < a.len() ==> newline_at(a + b) == newline_at(a),
        newline_at(a) == a.len() ==> newline_at(a + b) == a.len() + newline_at(b),
        0 <= newline_at(a) <= a.len(),
        0 <= newline_at(b) <= b.len(),
{
    lemma_newline_from(a, 0);
    lemma_newline_from(b, 0);
    let k = newline_at(a);
    if k < a.len() {
        assert forall|i: int| 0 <= i < k implies (a + b)[i] != 10 by {
            assert((a + b)[i] == a[i]);
        }
        lemma_newline_is(a + b, k);
    } else {
        let m = newline_at(b);
        assert forall|i: int| 0 <= i < a.len() + m implies (a + b)[i] != 10 by {
            if i < a.len() {
                assert((a + b)[i] == a[i]);
            } else {
                assert((a + b)[i] == b[i - a.len()]);
            }
        }
        lemma_newline_is(a + b, a.len() + m);
    }
}

proof fn lemma_newline_of_rest(s: Seq<u8>, n: int)
    requires
        0 <= n <= newline_at(s),
        n <= s.len(),
    ensures
        newline_at(s.skip(n)) == newline_at(s) - n,
{
    lemma_newline_from(s, 0);
    assert(s =~= s.take(n) + s.skip(n));
    assert forall|i: int| 0 <= i < n implies s.take(n)[i] != 10 by {
        assert(s.take(n)[i] == s[i]);
    }
    lemma_newline_is(s.take(n), n);
    lemma_newline_of_concat(s.take(n), s.skip(n));
}

/// An abandoned read loses nothing: two pieces, one after the other, give what
/// they would have given as one.
pub proof fn law_a_split_read_resumes(r: ReaderView, a: Seq<u8>, b: Seq<u8>)
    requires
        reader_wf(r),
        fed(r, a).2 is None,
    ensures
        fed(r, a).1 == a.len(),
        reader_wf(fed(r, a).0),
        fed(r, a + b) == (
            fed(fed(r, a).0, b).0,
            a.len() + fed(fed(r, a).0, b).1,
            fed(fed(r, a).0, b).2,
        ),
{
    lemma_newline_of_concat(a, b);
    match r.discarded {
        Some(n) => {},
        None => {
            let room = MAX_LINE_BYTES + 1 - r.raw.len();
            if a.len() < room {
                assert(newline_at(a) == a.len());
                assert((r.raw + a) + b =~= r.raw + (a + b));
                let k = newline_at(b);
                if k < b.len() {
                    assert((a + b).take(a.len() + k + 1) =~= a + b.take(k + 1));
                    assert((r.raw + a) + b.take(k + 1) =~= r.raw + (a + b.take(k + 1)));
                }
                if room <= a.len() + b.len() {
                    assert((a + b).skip(room) =~= b.skip(room - a.len()));
                }
            } else {
                if newline_at(a) < a.len() {
                    lemma_newline_of_rest(a, room);
                }
                assert(newline_at(a) == a.len());
                lemma_newline_of_rest(a, room);
                assert((a + b).skip(room) =~= a.skip(room) + b);
                lemma_newline_of_concat(a.skip(room), b);
            }
        },
    }
}

/// What arrives after a line does not change it: a line that was read from a
/// piece is read the same, and uses the same bytes, from a longer piece.
pub proof fn law_later_bytes_do_not_matter(r: ReaderView, a: Seq<u8>, b: Seq<u8>)
    requires
        reader_wf(r),
        fed(r, a).2 is Some,
        fed(r, a).2 != Some(ReadView::Unrecoverable),
    ensures
        fed(r, a + b) == fed(r, a),
        0 < fed(r, a).1 <= a.len(),
{
    lemma_newline_of_concat(a, b);
    match r.discarded {
        Some(n) => {},
        None => {
            let room = MAX_LINE_BYTES + 1 - r.raw.len();
            let k = newline_at(a);
            if k < a.len() && k < room {
                assert((a + b).take(k + 1) =~= a.take(k + 1));
            } else {
                lemma_newline_of_concat(a.skip(room), b);
                assert((a + b).skip(room) =~= a.skip(room) + b);
            }
        },
    }
}

/// The line after an oversize one still parses: the discard leaves the reader
/// at the beginning of the next line.
pub proof fn law_oversize_lines_are_skipped(r: ReaderView, line: Seq<u8>, rest: Seq<u8>)
    requires
        reader_wf(r),
        r.discarded is None,
        !line.contains(10u8),
        r.raw.len() + line.len() > MAX_LINE_BYTES,
    ensures
        fed(r, line.push(10u8) + rest) == (
            at_line_start(r.max_drain),
            (line.len() + 1) as int,
            Some(ReadView::TooLong),
        ),
{
    let s = line.push(10u8) + rest;
    let room = MAX_LINE_BYTES + 1 - r.raw.len();
    assert forall|i: int| 0 <= i < line.len() implies s[i] != 10 by {
        assert(s[i] == line[i]);
        assert(line.contains(line[i]));
    }
    assert(s[line.len() as int] == 10);
    lemma_newline_is(s, line.len() as int);
    lemma_newline_of_rest(s, room);
}

/// A line of exactly the limit is not too long: the newline that ends it does
/// not count.
pub proof fn law_a_line_at_the_limit_fits(max_drain: Option<usize>, line: Seq<u8>, rest: Seq<u8>)
    requires
        !line.contains(10u8),
        line.len() <= MAX_LINE_BYTES,
    ensures
        fed(at_line_start(max_drain), line.push(10u8) + rest) == (
            at_line_start(max_drain),
            (line.len() + 1) as int,
            Some(line_of(line.push(10u8))),
        ),
{
    let s = line.push(10u8) + rest;
    assert forall|i: int| 0 <= i < line.len() implies s[i] != 10 by {
        assert(s[i] == line[i]);
        assert(line.contains(line[i]));
    }
    assert(s[line.len() as int] == 10);
    lemma_newline_is(s, line.len() as int);
    assert(Seq::<u8>::empty() + s.take((line.len() + 1) as int) =~= line.push(10u8));
}

// Receiving and sending.

/// What to do after one line was read.
#[derive(Debug)]
pub enum Step {
    /// Nothing to say: read on.
    Again,
    /// Answer here and read on.
    Reply(Box<JsonRpcResponse>),
    /// Answer here and end the session.
    ReplyAndClose(Box<JsonRpcResponse>),
    /// Wait for the responses still owed, then end the session.
    DrainAndClose,
    /// Hand a reply to the protocol layer. One that the layer cannot read is
    /// dropped.
    PassReply(String),
    /// Hand the line to the protocol layer.
    Pass(Box<JsonRpcRequest>, String),
    /// Terminate the process.
    Terminate,
}

/// What a `Step` holds.
pub ghost enum StepView {
    Again,
    Reply(ResponseView),
    ReplyAndClose(ResponseView),
    DrainAndClose,
    PassReply(Seq<char>),
    Pass(RequestView, Seq<char>),
    Terminate,
}

impl View for Step {
    type V = StepView;

    open spec fn view(&self) -> StepView {
        match *self {
            Step::Again => StepView::Again,
            Step::Reply(response) => StepView::Reply((*response)@),
            Step::ReplyAndClose(response) => StepView::ReplyAndClose((*response)@),
            Step::DrainAndClose => StepView::DrainAndClose,
            Step::PassReply(line) => StepView::PassReply(line@),
            Step::Pass(request, line) => StepView::Pass((*request)@, line@),
            Step::Terminate => StepView::Terminate,
        }
    }
}

/// What an envelope leads to, and the state after it. `parsed` is what the
/// line turned out to be.
pub open spec fn envelope_step(
    l: LifecycleView,
    parsed: Result<RequestView, TransportErrorView>,
    wants_logs: bool,
    line: Seq<char>,
) -> (StepView, LifecycleView) {
    match parsed {
        Err(TransportErrorView::PeerResponse) => (
            if l.initialized {
                StepView::PassReply(line)
            } else {
                StepView::Again
            },
            l,
        ),
        Err(e) => (
            match rejection(e) {
                Some(response) => StepView::Reply(response),
                None => StepView::Again,
            },
            l,
        ),
        Ok(request) => {
            let (gate, next) = gate_decision(l, request, wants_logs);
            (
                match gate {
                    GateView::Forward => StepView::Pass(request, line),
                    GateView::Reply(response) => StepView::Reply(response),
                    GateView::Drop => StepView::Again,
                    GateView::Exit => StepView::Terminate,
                },
                next,
            )
        },
    }
}

/// What a line read leads to, and the state after it.
pub open spec fn receive_step(l: LifecycleView, read: ReadView) -> (StepView, LifecycleView) {
    match read {
        ReadView::Eof => (StepView::DrainAndClose, l),
        ReadView::Unrecoverable => (
            StepView::ReplyAndClose(
                error_response(None, INVALID_REQUEST, "request too large"@),
            ),
            l,
        ),
        ReadView::TooLong => (
            StepView::Reply(error_response(None, INVALID_REQUEST, "request too large"@)),
            l,
        ),
        ReadView::MalformedUtf8 => (
            StepView::Reply(error_response(None, PARSE_ERROR, "invalid UTF-8 in request"@)),
            l,
        ),
        ReadView::Line(line) => if line.len() == 0 {
            (StepView::Again, l)
        } else {
            envelope_step(
                l,
                parsed_line(line),
                match parsed_line(line) {
                    Ok(request) => names_logging(request),
                    Err(_) => false,
                },
                line,
            )
        },
    }
}

/// Decides what an envelope leads to, where it is known what the line is and
/// whether it names the logging capability.
pub fn on_envelope(
    lifecycle: &mut Lifecycle,
    parsed: Result<JsonRpcRequest, TransportError>,
    wants_logs: bool,
    line: String,
) -> (r: Step)
    requires
        old(lifecycle).wf(),
    ensures
        final(lifecycle).wf(),
        (r@, final(lifecycle)@) == envelope_step(
            old(lifecycle)@,
            parse_outcome(parsed),
            wants_logs,
            line@,
        ),
{
    match parsed {
        Err(TransportError::PeerResponse) => {
            // Before the handshake this server has asked the client nothing,
            // so there is no id for a reply to match.
            if lifecycle.is_initialized() {
                Step::PassReply(line)
            } else {
                Step::Again
            }
        },
        Err(e) => match e.into_response() {
            Some(response) => Step::Reply(Box::new(response)),
            None => Step::Again,
        },
        Ok(request) => match decide(lifecycle, &request, wants_logs) {
            Gate::Forward => Step::Pass(Box::new(request), line),
            Gate::Reply(response) => Step::Reply(response),
            Gate::Drop => Step::Again,
            Gate::Exit => Step::Terminate,
        },
    }
}

/// Decides what one line read leads to.
pub fn receive(lifecycle: &mut Lifecycle, read: ReadLine) -> (r: Step)
    requires
        old(lifecycle).wf(),
    ensures
        final(lifecycle).wf(),
        (r@, final(lifecycle)@) == receive_step(old(lifecycle)@, read@),
{
    let line = match read {
        ReadLine::Line(line) => line,
        ReadLine::Eof => {
            return Step::DrainAndClose;
        },
        ReadLine::Unrecoverable => {
            return Step::ReplyAndClose(
                Box::new(
                    JsonRpcResponse::error(
                        None,
                        INVALID_REQUEST,
                        string_from("request too large"),
                    ),
                ),
            );
        },
        ReadLine::TooLong => {
            return Step::Reply(
                Box::new(
                    JsonRpcResponse::error(
                        None,
                        INVALID_REQUEST,
                        string_from("request too large"),
                    ),
                ),
            );
        },
        ReadLine::MalformedUtf8 => {
            return Step::Reply(
                Box::new(
                    JsonRpcResponse::error(
                        None,
                        PARSE_ERROR,
                        string_from("invalid UTF-8 in request"),
                    ),
                ),
            );
        },
    };
    if line.as_str().unicode_len() == 0 {
        return Step::Again;
    }
    let parsed = parse_jsonrpc_line(line.as_str());
    let wants_logs = match &parsed {
        Ok(request) => json_pointer(request.params.as_str(), "/capabilities/logging").is_some(),
        Err(_) => false,
    };
    on_envelope(lifecycle, parsed, wants_logs, line)
}

/// What the protocol layer made of a line that was handed to it.
#[derive(Debug)]
pub enum Modelled {
    Request(RequestId),
    /// A cancellation, with the request it names, if it names one.
    Cancelled(Option<RequestId>),
    Other,
}

/// What a `Modelled` holds.
pub ghost enum ModelledView {
    Request(IdView),
    Cancelled(Option<IdView>),
    Other,
}

impl View for Modelled {
    type V = ModelledView;

    open spec fn view(&self) -> ModelledView {
        match *self {
            Modelled::Request(id) => ModelledView::Request(id@),
            Modelled::Cancelled(id) => ModelledView::Cancelled(opt_id(id)),
            Modelled::Other => ModelledView::Other,
        }
    }
}

/// A message of any of the four shapes, as the protocol layer holds it.
#[verifier::external_type_specification]
#[verifier::external_body]
#[verifier::reject_recursive_types(Req)]
#[verifier::reject_recursive_types(Resp)]
#[verifier::reject_recursive_types(Noti)]
pub struct ExJsonRpcMessage<Req, Resp, Noti>(JsonRpcMessage<Req, Resp, Noti>);

/// A request of the client.
#[verifier::external_type_specification]
#[verifier::external_body]
pub struct ExClientRequest(ClientRequest);

/// What the client answers a request of this server.
#[verifier::external_type_specification]
#[verifier::external_body]
pub struct ExClientResult(ClientResult);

/// A notification of the client.
#[verifier::external_type_specification]
#[verifier::external_body]
pub struct ExClientNotification(ClientNotification);

/// A message from the client, as the protocol layer holds it.
pub type ClientMessage = JsonRpcMessage<ClientRequest, ClientResult, ClientNotification>;

/// What the protocol layer makes of a line, or why it cannot read it.
pub uninterp spec fn protocol_reading(line: Seq<char>) -> Result<ModelledView, Seq<char>>;

/// The message that the protocol layer reads from a line that it can read.
pub uninterp spec fn protocol_message(line: Seq<char>) -> ClientMessage;

/// `serde_json::from_str` into rmcp's `JsonRpcMessage` of the client's types: a
/// function of the line alone. The message that the line holds is handed back
/// with the id that it is answered by or that it cancels; a line that cannot be
/// read yields the error's text.
#[verifier::external_body]
fn model_line(line: &str) -> (r: Result<(ClientMessage, Modelled), String>)
    ensures
        match r {
            Ok(m) => {
                &&& protocol_reading(line@) == Ok::<ModelledView, Seq<char>>(m.1@)
                &&& m.0 == protocol_message(line@)
            },
            Err(e) => protocol_reading(line@) == Err::<ModelledView, Seq<char>>(e@),
        },
{
    let message: ClientMessage = serde_json::from_str(line).map_err(|e| e.to_string())?;
    let own = |id: &NumberOrString| match id {
        NumberOrString::Number(n) => RequestId::Int(*n),
        NumberOrString::String(s) => RequestId::Str(s.to_string()),
    };
    let modelled = match &message {
        JsonRpcMessage::Request(r) => Modelled::Request(own(&r.id)),
        JsonRpcMessage::Notification(n) => match &n.notification {
            ClientNotification::CancelledNotification(c) => Modelled::Cancelled(c.params.request_id.as_ref().map(own)),
            _ => Modelled::Other,
        },
        _ => Modelled::Other,
    };
    Ok((message, modelled))
}

/// The state once a line has reached the protocol layer: a request is owed a
/// response, and one that is cancelled no longer is.
pub open spec fn counted(l: LifecycleView, message: ModelledView) -> LifecycleView {
    match message {
        ModelledView::Request(id) => LifecycleView { in_flight: l.in_flight.insert(id), ..l },
        ModelledView::Cancelled(Some(id)) => LifecycleView {
            in_flight: l.in_flight.remove(id),
            ..l
        },
        _ => l,
    }
}

/// Counts what reached the protocol layer.
pub fn delivered(lifecycle: &mut Lifecycle, message: Modelled)
    requires
        old(lifecycle).wf(),
    ensures
        final(lifecycle).wf(),
        final(lifecycle)@ == counted(old(lifecycle)@, message@),
{
    match message {
        Modelled::Request(id) => lifecycle.accept_request(id),
        Modelled::Cancelled(Some(id)) => lifecycle.retire_request(&id),
        Modelled::Cancelled(None) | Modelled::Other => {},
    }
}

/// What is answered where the protocol layer cannot model a valid envelope: a
/// request learns why, a notification is dropped.
pub fn unmodelled(request: JsonRpcRequest, why: String) -> (r: Option<JsonRpcResponse>)
    ensures
        opt_response(r) == unreadable(request@, why@),
{
    if request.id.is_some() {
        Some(JsonRpcResponse::error(request.id, INVALID_REQUEST, why))
    } else {
        None
    }
}

/// What is answered where a valid envelope cannot be read by the protocol layer.
pub open spec fn unreadable(request: RequestView, why: Seq<char>) -> Option<ResponseView> {
    if request.id is Some {
        Some(error_response(request.id, INVALID_REQUEST, why))
    } else {
        None
    }
}

/// Hands a line to the protocol layer, once its envelope may pass. The answer is
/// the message that the line holds, and it is counted; or, where the layer cannot read the line,
/// what the client is told, if anything.
pub fn passed(lifecycle: &mut Lifecycle, request: JsonRpcRequest, line: &str) -> (r: Result<
    ClientMessage,
    Option<JsonRpcResponse>,
>)
    requires
        old(lifecycle).wf(),
    ensures
        final(lifecycle).wf(),
        match protocol_reading(line@) {
            Ok(m) => {
                &&& r is Ok
                &&& r->Ok_0 == protocol_message(line@)
                &&& final(lifecycle)@ == counted(old(lifecycle)@, m)
            },
            Err(why) => {
                &&& r is Err
                &&& final(lifecycle)@ == old(lifecycle)@
                &&& opt_response(r->Err_0) == unreadable(request@, why)
            },
        },
{
    match model_line(line) {
        Ok((message, modelled)) => {
            delivered(lifecycle, modelled);
            Ok(message)
        },
        Err(why) => Err(unmodelled(request, why)),
    }
}

/// Hands a reply to the protocol layer. The answer is the message that the line
/// holds. One that the layer cannot read has nothing to correlate against, and
/// is dropped.
pub fn passed_reply(line: &str) -> (r: Option<ClientMessage>)
    ensures
        r is Some <==> protocol_reading(line@) is Ok,
        r is Some ==> r->Some_0 == protocol_message(line@),
{
    match model_line(line) {
        Ok((message, _)) => Some(message),
        Err(_) => None,
    }
}

/// A message that the protocol layer sends.
#[derive(Debug)]
pub enum Outgoing {
    Response(RequestId),
    /// An error, with the id of the request it answers, if it could be
    /// correlated.
    Error(Option<RequestId>),
    /// A notification, or a request of this server's own: neither answers
    /// anything.
    Other,
}

/// The request that a message answers, if it answers one.
pub open spec fn answered_by(message: Outgoing) -> Option<IdView> {
    match message {
        Outgoing::Response(id) => Some(id@),
        Outgoing::Error(id) => opt_id(id),
        Outgoing::Other => None,
    }
}

/// Prepares a message for the queue: the answer is the request that writing it
/// will settle. Where the message could not be encoded nothing will be
/// written, so its request is settled now.
pub fn send(lifecycle: &mut Lifecycle, message: Outgoing, encoded: bool) -> (r: Option<RequestId>)
    requires
        old(lifecycle).wf(),
    ensures
        final(lifecycle).wf(),
        encoded ==> final(lifecycle)@ == old(lifecycle)@ && opt_id(r) == answered_by(message),
        !encoded ==> final(lifecycle)@ == settled(old(lifecycle)@, answered_by(message)) && r
            is None,
{
    let answers = match message {
        Outgoing::Response(id) => Some(id),
        Outgoing::Error(id) => id,
        Outgoing::Other => None,
    };
    if encoded {
        return answers;
    }
    if let Some(id) = &answers {
        lifecycle.retire_request(id);
    }
    None
}

/// The state once the request that a frame answers is settled.
pub open spec fn settled(l: LifecycleView, answers: Option<IdView>) -> LifecycleView {
    match answers {
        Some(id) => LifecycleView { in_flight: l.in_flight.remove(id), ..l },
        None => l,
    }
}

/// Settles what a frame answers, once it was written.
pub fn written(lifecycle: &mut Lifecycle, answers: &Option<RequestId>)
    requires
        old(lifecycle).wf(),
    ensures
        final(lifecycle).wf(),
        final(lifecycle)@ == settled(old(lifecycle)@, opt_id(*answers)),
{
    if let Some(id) = answers {
        lifecycle.retire_request(id);
    }
}

/// The frames of a reply of the framing layer: whatever was logged goes out
/// first, since clients read causality from that order.
pub fn reply(lifecycle: &Lifecycle, accrued: Vec<LogMessage>, frame: String) -> (r: Vec<String>)
    ensures
        texts(r@) == wanted_logs(lifecycle@, logs_view(accrued@)).map_values(
            |m: LogView| log_frame(m),
        ).push(frame@),
{
    let frames = lifecycle.queue_logs(true, accrued);
    pushed(frames, frame)
}

/// What to do while responses are still owed at the end of input.
#[derive(Clone, Copy, Debug, PartialEq, Eq, Structural)]
pub enum DrainStep {
    /// Nothing is owed.
    Done,
    /// The deadline has passed with this many requests still running.
    GiveUp(usize),
    /// Look again after this many milliseconds.
    Wait(u64),
}

/// The deadline of a wait that begins now.
pub open spec fn deadline_from(now_ms: u64) -> u64 {
    if now_ms + DRAIN_TIMEOUT_MS <= u64::MAX {
        (now_ms + DRAIN_TIMEOUT_MS) as u64
    } else {
        u64::MAX
    }
}

/// The deadline in force: the one set before, or one that begins now.
pub open spec fn deadline_in_force(deadline: Option<u64>, now_ms: u64) -> u64 {
    match deadline {
        Some(t) => t,
        None => deadline_from(now_ms),
    }
}

/// One look at what is owed.
pub open spec fn drain_decision(outstanding: nat, now_ms: u64, deadline: u64) -> DrainStep {
    if outstanding == 0 {
        DrainStep::Done
    } else if now_ms >= deadline {
        DrainStep::GiveUp(outstanding as usize)
    } else {
        DrainStep::Wait(DRAIN_POLL_MS)
    }
}

/// Decides whether to wait for accepted requests to produce their responses.
/// The deadline is set at the first look and kept by the caller, so that a
/// wait restarted after being abandoned keeps counting from when it began.
pub fn drain_in_flight(lifecycle: &Lifecycle, now_ms: u64, deadline: &mut Option<u64>) -> (r:
    DrainStep)
    requires
        lifecycle.wf(),
    ensures
        *final(deadline) == Some(deadline_in_force(*old(deadline), now_ms)),
        r == drain_decision(
            lifecycle@.in_flight.len(),
            now_ms,
            deadline_in_force(*old(deadline), now_ms),
        ),
{
    let until: u64 = match *deadline {
        Some(t) => t,
        None => now_ms.saturating_add(DRAIN_TIMEOUT_MS),
    };
    *deadline = Some(until);
    let outstanding = lifecycle.outstanding();
    if outstanding == 0 {
        DrainStep::Done
    } else if now_ms >= until {
        DrainStep::GiveUp(outstanding)
    } else {
        DrainStep::Wait(DRAIN_POLL_MS)
    }
}

/// Why a session ended before it began.
#[derive(Clone, Copy, Debug, PartialEq, Eq, Structural)]
pub enum InitFailure {
    /// The client closed the pipe before the handshake.
    ConnectionClosed,
    /// A request before the handshake was answered and not continued from.
    ExpectedInitialize,
    /// The handshake was refused with a definite answer.
    InitializeFailed,
    Other,
}

impl InitFailure {
    /// Whether it is to be reported as a failure. A client that went away, or
    /// that got a definite answer, is none.
    pub fn is_failure(self) -> (r: bool)
        ensures
            r == (self == InitFailure::Other),
    {
        match self {
            InitFailure::ConnectionClosed
            | InitFailure::ExpectedInitialize
            | InitFailure::InitializeFailed => false,
            InitFailure::Other => true,
        }
    }
}

// Laws.

/// A request is never dropped: it is handed on, answered with its own id, or
/// ends the process. A notification is never answered.
pub proof fn law_requests_are_answered(l: LifecycleView, request: RequestView, wants_logs: bool)
    ensures
        request.id is Some ==> !(gate_decision(l, request, wants_logs).0 is Drop),
        request.id is None ==> !(gate_decision(l, request, wants_logs).0 is Reply),
        match gate_decision(l, request, wants_logs).0 {
            GateView::Reply(response) => response.id == request.id,
            _ => true,
        },
{
}

/// Before the handshake the protocol layer sees nothing but `initialize` and
/// `server/discover`; anything else would end the session.
pub proof fn law_nothing_passes_before_the_handshake(
    l: LifecycleView,
    request: RequestView,
    wants_logs: bool,
)
    requires
        !l.initialized,
        gate_decision(l, request, wants_logs).0 is Forward,
    ensures
        request.method == "initialize"@ || request.method == "server/discover"@,
        !l.shutdown,
{
}

/// A request before the handshake is answered "server not initialized", and
/// the connection stays up; only `exit` ends it.
pub proof fn law_early_requests_are_refused(
    l: LifecycleView,
    request: RequestView,
    wants_logs: bool,
)
    requires
        !l.initialized,
        !l.shutdown,
        request.id is Some,
        !"notifications/"@.is_prefix_of(request.method),
        request.method != "exit"@,
        request.method != "shutdown"@,
        request.method != "server/discover"@,
        request.method != "initialize"@,
        request.method != "ping"@,
    ensures
        gate_decision(l, request, wants_logs) == (
            GateView::Reply(
                error_response(
                    request.id,
                    SERVER_NOT_INITIALIZED,
                    "server not initialized"@,
                ),
            ),
            l,
        ),
{
}

/// After `shutdown` everything but `exit` is refused.
pub proof fn law_shutdown_closes_the_gate(
    l: LifecycleView,
    request: RequestView,
    wants_logs: bool,
)
    requires
        l.shutdown,
        request.method != "exit"@,
    ensures
        gate_decision(l, request, wants_logs) == (
            match request.id {
                Some(_) => GateView::Reply(
                    error_response(request.id, INVALID_REQUEST, "server is shutting down"@),
                ),
                None => GateView::Drop,
            },
            l,
        ),
{
}

/// The state after a series of envelopes.
pub open spec fn after_envelopes(l: LifecycleView, requests: Seq<(RequestView, bool)>)
    -> LifecycleView
    decreases requests.len(),
{
    if requests.len() == 0 {
        l
    } else {
        let before = after_envelopes(l, requests.drop_last());
        gate_decision(before, requests.last().0, requests.last().1).1
    }
}

/// `exit` terminates with 0 exactly when a `shutdown` came
/// before it, whether the client waited for its answer or not.
pub proof fn law_exit_status_tells_of_shutdown(
    l: LifecycleView,
    requests: Seq<(RequestView, bool)>,
)
    requires
        !l.shutdown,
    ensures
        exit_status(after_envelopes(l, requests)) == 0 <==> exists|i: int|
            0 <= i < requests.len() && (#[trigger] requests[i]).0.method == "shutdown"@,
    decreases requests.len(),
{
    if requests.len() > 0 {
        let earlier = requests.drop_last();
        law_exit_status_tells_of_shutdown(l, earlier);
        reveal_strlit("shutdown");
        reveal_strlit("exit");
        reveal_strlit("notifications/");
        let last = requests.last().0;
        if last.method == "shutdown"@ {
            assert(requests[requests.len() - 1].0.method == "shutdown"@);
            assert("shutdown"@[0] == 's' && "notifications/"@[0] == 'n');
            assert(last.method[0] == 's');
            if "notifications/"@.is_prefix_of(last.method) {
                assert("notifications/"@.len() <= last.method.len());
            }
        }
        assert forall|i: int| 0 <= i < earlier.len() implies #[trigger] earlier[i]
            == requests[i] by {}
        if exists|i: int|
            0 <= i < requests.len() && (#[trigger] requests[i]).0.method == "shutdown"@ {
            let i = choose|i: int|
                0 <= i < requests.len() && (#[trigger] requests[i]).0.method == "shutdown"@;
            if i < earlier.len() {
                assert(earlier[i].0.method == "shutdown"@);
            }
        }
        if exists|i: int|
            0 <= i < earlier.len() && (#[trigger] earlier[i]).0.method == "shutdown"@ {
            let i = choose|i: int|
                0 <= i < earlier.len() && (#[trigger] earlier[i]).0.method == "shutdown"@;
            assert(requests[i].0.method == "shutdown"@);
        }
    }
}

/// Deciding the fate of an envelope never closes a session that was opened, and it
/// never counts a request by itself.
pub proof fn law_the_gate_keeps_the_session(
    l: LifecycleView,
    request: RequestView,
    wants_logs: bool,
)
    ensures
        ({
            let next = gate_decision(l, request, wants_logs).1;
            &&& next.initialized == l.initialized
            &&& next.in_flight == l.in_flight
            &&& next.log_level == l.log_level
            &&& l.shutdown ==> next.shutdown
            &&& l.logs ==> next.logs
        }),
{
}

/// A request that is accepted is owed exactly one response: writing it, or
/// cancelling the request, restores what was owed before.
pub proof fn law_answering_settles_a_request(l: LifecycleView, id: IdView)
    requires
        !l.in_flight.contains(id),
    ensures
        settled(counted(l, ModelledView::Request(id)), Some(id)) == l,
        counted(counted(l, ModelledView::Request(id)), ModelledView::Cancelled(Some(id))) == l,
{
    assert(l.in_flight.insert(id).remove(id) =~= l.in_flight);
}

/// Settling a request twice is settling it once, so a cancelled request whose
/// response is written after all does no harm.
pub proof fn law_settling_is_idempotent(l: LifecycleView, answers: Option<IdView>)
    ensures
        settled(settled(l, answers), answers) == settled(l, answers),
{
    match answers {
        Some(id) => {
            assert(l.in_flight.remove(id).remove(id) =~= l.in_flight.remove(id));
        },
        None => {},
    }
}

/// The wait at the end of input is bounded by the first deadline: looking again
/// does not move it, and once it has passed there is no more waiting.
pub proof fn law_the_drain_is_bounded(began_ms: u64, later_ms: u64, outstanding: nat)
    requires
        later_ms >= deadline_from(began_ms),
    ensures
        deadline_in_force(Some(deadline_from(began_ms)), later_ms) == deadline_from(began_ms),
        !(drain_decision(
            outstanding,
            later_ms,
            deadline_in_force(Some(deadline_from(began_ms)), later_ms),
        ) is Wait),
{
}

/// Log messages are filtered, not rewritten: what is sent is at or above the
/// client's level and was logged.
pub proof fn law_sent_logs_are_wanted(l: LifecycleView, accrued: Seq<LogView>, m: LogView)
    ensures
        wanted_logs(l, accrued).contains(m) <==> l.logs && accrued.contains(m) && m.level.rank()
            >= l.log_level,
{
    lemma_at_least(accrued, l.log_level, m);
    if !l.logs {
        assert(wanted_logs(l, accrued).len() == 0);
    }
}

proof fn lemma_at_least(list: Seq<LogView>, floor: u8, m: LogView)
    ensures
        at_least(list, floor).contains(m) <==> list.contains(m) && m.level.rank() >= floor,
    decreases list.len(),
{
    if list.len() > 0 {
        let front = list.drop_last();
        lemma_at_least(front, floor, m);
        let before = at_least(front, floor);
        let after = at_least(list, floor);
        if list.contains(m) && m.level.rank() >= floor {
            let i = choose|i: int| 0 <= i < list.len() && list[i] == m;
            if i == list.len() - 1 {
                assert(after[before.len() as int] == m);
            } else {
                assert(front[i] == m);
                let k = choose|k: int| 0 <= k < before.len() && before[k] == m;
                assert(after[k] == m);
            }
        }
        if after.contains(m) {
            let k = choose|k: int| 0 <= k < after.len() && after[k] == m;
            if k < before.len() {
                assert(before[k] == m);
                let i = choose|i: int| 0 <= i < front.len() && front[i] == m;
                assert(list[i] == m);
            } else {
                assert(list[list.len() - 1] == m);
            }
        }
    }
}

proof fn lemma_methods_differ()
    ensures
        "exit"@ != "shutdown"@,
        "exit"@ != "initialize"@,
        "exit"@ != "server/discover"@,
        "exit"@ != "ping"@,
        "shutdown"@ != "initialize"@,
        "shutdown"@ != "server/discover"@,
        "shutdown"@ != "ping"@,
        "initialize"@ != "server/discover"@,
        "initialize"@ != "ping"@,
        "server/discover"@ != "ping"@,
        !"notifications/"@.is_prefix_of("exit"@),
        !"notifications/"@.is_prefix_of("shutdown"@),
        !"notifications/"@.is_prefix_of("initialize"@),
        !"notifications/"@.is_prefix_of("server/discover"@),
        !"notifications/"@.is_prefix_of("ping"@),
{
    reveal_strlit("exit");
    reveal_strlit("shutdown");
    reveal_strlit("initialize");
    reveal_strlit("server/discover");
    reveal_strlit("ping");
    reveal_strlit("notifications/");
    assert("exit"@.len() == 4 && "shutdown"@.len() == 8 && "initialize"@.len() == 10);
    assert("ping"@.len() == 4 && "server/discover"@.len() == 15 && "notifications/"@.len() == 14);
    assert("exit"@[0] == 'e' && "ping"@[0] == 'p' && "notifications/"@[0] == 'n');
    if "notifications/"@.is_prefix_of("server/discover"@) {
        assert("server/discover"@[0] == "notifications/"@[0]);
    }
}

/// In a session whose handshake has succeeded and that was not shut down, every
/// envelope reaches the protocol layer but `shutdown`, which is answered here,
/// and a notification's method that carries an id.
pub proof fn law_an_open_session_serves_every_method(
    l: LifecycleView,
    request: RequestView,
    wants_logs: bool,
)
    requires
        l.initialized,
        !l.shutdown,
    ensures
        gate_decision(l, request, wants_logs).0 is Forward <==> request.method != "shutdown"@ && !(
        request.id is Some && "notifications/"@.is_prefix_of(request.method)),
{
    lemma_methods_differ();
}

/// A line that holds a request is handed to the protocol layer as it was read,
/// in an open session, whatever its method asks for.
pub proof fn law_an_open_session_hands_lines_on(
    l: LifecycleView,
    line: Seq<char>,
    request: RequestView,
)
    requires
        l.initialized,
        !l.shutdown,
        line.len() > 0,
        parsed_line(line) == Ok::<RequestView, TransportErrorView>(request),
        request.method != "shutdown"@,
        request.id is None || !"notifications/"@.is_prefix_of(request.method),
    ensures
        receive_step(l, ReadView::Line(line)).0 == StepView::Pass(request, line),
{
    lemma_methods_differ();
}

/// What the framing layer lets through, in any state: `exit` once a handshake has
/// succeeded; and, before `shutdown`, the handshake and discovery at any time
/// and everything else once a handshake has succeeded. It terminates the process
/// on `exit` before the handshake, and on nothing else.
pub proof fn law_what_passes_the_gate(l: LifecycleView, request: RequestView, wants_logs: bool)
    ensures
        ({
            let m = request.method;
            let fate = gate_decision(l, request, wants_logs).0;
            let misfit = request.id is Some && "notifications/"@.is_prefix_of(m);
            &&& fate is Exit <==> m == "exit"@ && !l.initialized
            &&& m == "exit"@ ==> (fate is Forward <==> l.initialized)
            &&& m != "exit"@ ==> (fate is Forward <==> !l.shutdown && !misfit && m != "shutdown"@
                && (l.initialized || m == "initialize"@ || m == "server/discover"@))
        }),
{
    lemma_methods_differ();
}

/// All that an envelope changes of the session: `shutdown` closes it, and a
/// handshake that names the logging capability turns the logs on.
pub proof fn law_what_an_envelope_changes(l: LifecycleView, request: RequestView, wants_logs: bool)
    ensures
        ({
            let next = gate_decision(l, request, wants_logs).1;
            &&& next.shutdown <==> l.shutdown || request.method == "shutdown"@
            &&& next.logs <==> l.logs || (!l.shutdown && request.method == "initialize"@
                && wants_logs)
            &&& next.initialized == l.initialized
            &&& next.log_level == l.log_level
            &&& next.in_flight == l.in_flight
        }),
{
    lemma_methods_differ();
}

/// The framing layer's own answers, before `shutdown`: `shutdown` always, and
/// `ping` before the handshake, are acknowledged with an empty result; a
/// notification's method that carries an id is refused by its name; and what
/// comes before the handshake is refused where it is a request and dropped where
/// it is a notification.
pub proof fn law_the_gates_own_answers(l: LifecycleView, request: RequestView, wants_logs: bool)
    requires
        !l.shutdown,
        request.method != "exit"@,
    ensures
        ({
            let m = request.method;
            let fate = gate_decision(l, request, wants_logs).0;
            let misfit = request.id is Some && "notifications/"@.is_prefix_of(m);
            let acknowledged = m == "shutdown"@ || (m == "ping"@ && !l.initialized);
            &&& misfit ==> fate == GateView::Reply(
                ResponseView {
                    id: request.id,
                    result: None,
                    error: Some((-32600i32, m + " must be sent as a notification (no id)"@)),
                },
            )
            &&& acknowledged && request.id is Some ==> fate == GateView::Reply(
                ResponseView { id: request.id, result: Some("{}"@), error: None },
            )
            &&& acknowledged && request.id is None ==> fate is Drop
            &&& !misfit && !acknowledged && !(fate is Forward) && request.id is Some ==> fate
                == GateView::Reply(
                ResponseView {
                    id: request.id,
                    result: None,
                    error: Some((-32002i32, "server not initialized"@)),
                },
            )
            &&& !(fate is Forward) && request.id is None ==> fate is Drop
        }),
{
    lemma_methods_differ();
}

/// After `shutdown` every request but `exit` is refused, with its id, and every
/// notification is dropped.
pub proof fn law_a_closed_session_refuses(l: LifecycleView, request: RequestView, wants_logs: bool)
    requires
        l.shutdown,
        request.method != "exit"@,
    ensures
        ({
            let fate = gate_decision(l, request, wants_logs).0;
            &&& request.id is Some ==> fate == GateView::Reply(
                ResponseView {
                    id: request.id,
                    result: None,
                    error: Some((-32600i32, "server is shutting down"@)),
                },
            )
            &&& request.id is None ==> fate is Drop
        }),
{
}

/// What becomes of a line follows what was decided on the request in it: the line
/// and its request are handed on, the answer decided on is sent, or nothing
/// happens.
pub proof fn law_a_line_goes_where_the_gate_says(
    l: LifecycleView,
    line: Seq<char>,
    request: RequestView,
)
    requires
        line.len() > 0,
        parsed_line(line) == Ok::<RequestView, TransportErrorView>(request),
    ensures
        ({
            let asks = json_at(request.params, "/capabilities/logging"@) is Some;
            let (fate, next) = gate_decision(l, request, asks);
            let (step, after) = receive_step(l, ReadView::Line(line));
            &&& after == next
            &&& fate is Forward <==> step == StepView::Pass(request, line)
            &&& fate is Exit <==> step is Terminate
            &&& fate is Drop <==> step is Again
            &&& fate is Reply <==> step is Reply
            &&& fate is Reply ==> step->Reply_0 == fate->Reply_0
        }),
{
}

/// A line that holds no request changes nothing in the session. A reply of the
/// client is handed on once a handshake has succeeded and dropped before; any
/// other is answered with the code for what is wrong with it; and an empty line
/// is passed over.
pub proof fn law_a_line_without_a_request(l: LifecycleView, line: Seq<char>)
    requires
        line.len() == 0 || parsed_line(line) is Err,
    ensures
        ({
            let (step, after) = receive_step(l, ReadView::Line(line));
            &&& after == l
            &&& line.len() == 0 ==> step is Again
            &&& line.len() > 0 ==> match parsed_line(line)->Err_0 {
                TransportErrorView::PeerResponse => {
                    &&& l.initialized ==> step == StepView::PassReply(line)
                    &&& !l.initialized ==> step is Again
                },
                TransportErrorView::Parse(why) => step == StepView::Reply(
                    ResponseView { id: None, result: None, error: Some((-32700i32, why)) },
                ),
                TransportErrorView::Invalid(id, why) => step == StepView::Reply(
                    ResponseView { id, result: None, error: Some((-32600i32, why)) },
                ),
            }
        }),
{
}

/// What is no line changes nothing in the session either. Only the end of the
/// input and a line without an end close it; what cannot be read is answered
/// without an id.
pub proof fn law_what_is_no_line(l: LifecycleView, read: ReadView)
    requires
        !(read is Line),
    ensures
        ({
            let (step, after) = receive_step(l, read);
            let too_large = ResponseView {
                id: None,
                result: None,
                error: Some((-32600i32, "request too large"@)),
            };
            &&& after == l
            &&& step is DrainAndClose <==> read is Eof
            &&& read is Unrecoverable <==> step == StepView::ReplyAndClose(too_large)
            &&& read is TooLong <==> step == StepView::Reply(too_large)
            &&& read is MalformedUtf8 ==> step == StepView::Reply(
                ResponseView {
                    id: None,
                    result: None,
                    error: Some((-32700i32, "invalid UTF-8 in request"@)),
                },
            )
        }),
{
}

/// The protocol layer owes an answer to exactly the requests that were handed to
/// it and neither answered nor cancelled: a request adds its id, an answer or a
/// cancellation takes that id away, and nothing else of the session changes.
pub proof fn law_what_is_owed(l: LifecycleView, message: ModelledView, id: IdView, other: IdView)
    ensures
        counted(l, ModelledView::Request(id)).in_flight.contains(other) <==> other == id
            || l.in_flight.contains(other),
        counted(l, ModelledView::Cancelled(Some(id))).in_flight.contains(other) <==> other != id
            && l.in_flight.contains(other),
        settled(l, Some(id)).in_flight.contains(other) <==> other != id && l.in_flight.contains(
            other,
        ),
        counted(l, ModelledView::Cancelled(None)) == l,
        counted(l, ModelledView::Other) == l,
        settled(l, None) == l,
        ({
            let next = counted(l, message);
            &&& next.initialized == l.initialized
            &&& next.shutdown == l.shutdown
            &&& next.logs == l.logs
            &&& next.log_level == l.log_level
        }),
        ({
            let next = settled(l, Some(id));
            &&& next.initialized == l.initialized
            &&& next.shutdown == l.shutdown
            &&& next.logs == l.logs
            &&& next.log_level == l.log_level
        }),
{
}

/// A response, or an error that could be correlated, settles the request that it
/// names; nothing else that is sent settles anything.
pub proof fn law_what_an_answer_settles(id: RequestId)
    ensures
        answered_by(Outgoing::Response(id)) == Some(id@),
        answered_by(Outgoing::Error(Some(id))) == Some(id@),
        answered_by(Outgoing::Error(None)) is None,
        answered_by(Outgoing::Other) is None,
{
}

/// A request that the protocol layer cannot read is refused with its id and the
/// layer's reason; a notification gets no answer.
pub proof fn law_an_unreadable_request_is_refused(request: RequestView, why: Seq<char>)
    ensures
        unreadable(request, why) is Some <==> request.id is Some,
        request.id is Some ==> unreadable(request, why) == Some(
            ResponseView { id: request.id, result: None, error: Some((-32600i32, why)) },
        ),
{
}

/// End of input waits for what is owed and no longer: at once where nothing is,
/// and for thirty seconds at most where something is. What is reported at the
/// end of the wait is how many requests are still owed an answer.
pub proof fn law_end_of_input_waits_for_what_is_owed(
    outstanding: nat,
    began_ms: u64,
    now_ms: u64,
)
    requires
        outstanding <= usize::MAX,
        began_ms <= now_ms,
        began_ms + 30000 <= u64::MAX,
    ensures
        ({
            let step = drain_decision(
                outstanding,
                now_ms,
                deadline_in_force(Some(deadline_in_force(None, began_ms)), now_ms),
            );
            &&& step is Done <==> outstanding == 0
            &&& step is Wait <==> outstanding > 0 && now_ms - began_ms < 30000
            &&& outstanding > 0 && now_ms - began_ms >= 30000 ==> step == DrainStep::GiveUp(
                outstanding as usize,
            )
            &&& step is Wait ==> 0 < step->Wait_0 <= 30000
        }),
{
}

/// `exit` tells by its status whether `shutdown` came first: nothing else of the
/// session matters to it.
pub proof fn law_the_exit_status(l: LifecycleView)
    ensures
        l.shutdown ==> exit_status(l) == 0,
        !l.shutdown ==> exit_status(l) == 1,
{
}

/// The severities stand in the order that the protocol gives them, so that a
/// level lets through what is at least as severe.
pub proof fn law_severities_are_ordered()
    ensures
        LoggingLevel::Debug.rank() < LoggingLevel::Info.rank() < LoggingLevel::Notice.rank()
            < LoggingLevel::Warning.rank() < LoggingLevel::Error.rank()
            < LoggingLevel::Critical.rank() < LoggingLevel::Alert.rank()
            < LoggingLevel::Emergency.rank(),
        LoggingLevel::Debug.rank() == 0,
{
}

/// The logs that are sent are those that accrued, in their order and each as
/// often as it did, without those below the client's level; and none before the
/// client asked for logs.
pub proof fn law_sent_logs_keep_their_order(l: LifecycleView, accrued: Seq<LogView>)
    ensures
        l.logs ==> wanted_logs(l, accrued) == accrued.filter(
            |m: LogView| l.log_level <= m.level.rank(),
        ),
        !l.logs ==> wanted_logs(l, accrued).len() == 0,
    decreases accrued.len(),
{
    reveal(Seq::filter);
    if l.logs && accrued.len() > 0 {
        law_sent_logs_keep_their_order(l, accrued.drop_last());
    }
}

/// A log frame is one line: the notification's opening, the message's own
/// parameters, and a closing brace.
pub proof fn law_a_log_frame_carries_its_parameters(m: LogView)
    ensures
        ({
            let opening =
                "{\"jsonrpc\":\"2.0\",\"method\":\"notifications/message\",\"params\":"@;
            let frame = log_frame(m);
            &&& frame.len() == opening.len() + m.params.len() + 2
            &&& frame.take(opening.len() as int) == opening
            &&& frame.subrange(opening.len() as int, frame.len() - 2) == m.params
            &&& frame.skip(frame.len() - 2) == "}\n"@
        }),
{
    reveal_strlit("}\n");
    let opening = "{\"jsonrpc\":\"2.0\",\"method\":\"notifications/message\",\"params\":"@;
    let frame = log_frame(m);
    assert(frame.take(opening.len() as int) =~= opening);
    assert(frame.subrange(opening.len() as int, frame.len() - 2) =~= m.params);
    assert(frame.skip(frame.len() - 2) =~= "}\n"@);
}

/// A line within the limit is read as the text that its bytes encode, without
/// the white space around it, and as malformed where they encode none. The last
/// line may lack its line feed.
pub proof fn law_a_line_reads_as_its_text(
    max_drain: Option<usize>,
    line: Seq<u8>,
    rest: Seq<u8>,
)
    requires
        !line.contains(10u8),
        line.len() <= 4194304,
    ensures
        ({
            let bytes = line.push(10u8);
            let read = fed(at_line_start(max_drain), bytes + rest).2;
            &&& !valid_utf8(bytes) ==> read == Some(ReadView::MalformedUtf8)
            &&& valid_utf8(bytes) ==> read == Some(
                ReadView::Line(trimmed(decode_utf8(bytes))),
            )
        }),
        line.len() > 0 ==> ({
            let read = ended(fed(at_line_start(max_drain), line).0);
            &&& !valid_utf8(line) ==> read == ReadView::MalformedUtf8
            &&& valid_utf8(line) ==> read == ReadView::Line(trimmed(decode_utf8(line)))
        }),
{
    law_a_line_at_the_limit_fits(max_drain, line, rest);
    if newline_at(line) < line.len() {
        lemma_newline_found(line, 0);
    }
    assert(at_line_start(max_drain).raw + line =~= line);
}

/// Where `newline_from` stops, there is a line feed.
proof fn lemma_newline_found(s: Seq<u8>, from: int)
    requires
        0 <= from,
        newline_from(s, from) < s.len(),
    ensures
        from <= newline_from(s, from),
        s[newline_from(s, from)] == 10,
        s.contains(10u8),
    decreases s.len() - from,
{
    if s[from] != 10 {
        lemma_newline_found(s, from + 1);
    } else {
        assert(s[from] == 10u8);
    }
}

/// A line beyond the limit is discarded up to its line feed. Where the discard
/// is limited too, more bytes than that without a line feed end the session;
/// without such a limit it goes on for as long as it takes.
pub proof fn law_the_discard_is_bounded(r: ReaderView, n: nat, chunk: Seq<u8>)
    requires
        r.discarded == Some(n),
    ensures
        ({
            let (next, used, read) = fed(r, chunk);
            let over = r.max_drain is Some && n + chunk.len() > r.max_drain->Some_0;
            &&& chunk.contains(10u8) ==> read == Some(ReadView::TooLong)
            &&& !chunk.contains(10u8) && over ==> read == Some(ReadView::Unrecoverable)
            &&& !chunk.contains(10u8) && !over ==> {
                &&& read is None
                &&& next.raw.len() == 0
                &&& next.discarded is Some
                &&& r.max_drain is Some ==> next.discarded == Some(n + chunk.len())
            }
            &&& next.max_drain == r.max_drain
        }),
        ended(r) is TooLong,
{
    if newline_at(chunk) < chunk.len() {
        lemma_newline_found(chunk, 0);
    } else if chunk.contains(10u8) {
        let k = choose|k: int| 0 <= k < chunk.len() && chunk[k] == 10u8;
        lemma_newline_at_most(chunk, 0, k);
    }
}

/// `newline_from` does not pass a line feed over.
proof fn lemma_newline_at_most(s: Seq<u8>, from: int, k: int)
    requires
        0 <= from <= k < s.len(),
        s[k] == 10,
    ensures
        newline_from(s, from) <= k,
    decreases k - from,
{
    if s[from] != 10 {
        lemma_newline_at_most(s, from + 1, k);
    }
}

/// The end of the input is told apart from a last line exactly where nothing was
/// read since the last line feed.
pub proof fn law_the_end_of_input(r: ReaderView)
    ensures
        ended(r) is Eof <==> r.raw.len() == 0 && r.discarded is None,
        ended(r) is TooLong <==> r.discarded is Some,
{
}

// What the calls themselves come to.

/// In an open session `gate` and `decide` hand on every request, tool calls
/// included, but `shutdown` and a notification's method with an id; and the
/// session stays open after them.
pub proof fn law_an_open_gate(
    lifecycle: &mut Lifecycle,
    request: &JsonRpcRequest,
    wants_logs: bool,
    r: Gate,
)
    requires
        call_ensures(decide, (lifecycle, request, wants_logs), r) || call_ensures(
            gate,
            (lifecycle, request),
            r,
        ),
        old(lifecycle)@.initialized,
        !old(lifecycle)@.shutdown,
    ensures
        ({
            let kept = request@.method == "shutdown"@ || (request@.id is Some
                && "notifications/"@.is_prefix_of(request@.method));
            &&& r@ is Forward <==> !kept
            &&& final(lifecycle)@.initialized
            &&& final(lifecycle)@.shutdown <==> request@.method == "shutdown"@
            &&& final(lifecycle)@.in_flight == old(lifecycle)@.in_flight
        }),
{
    let asks = names_logging(request@);
    law_an_open_session_serves_every_method(old(lifecycle)@, request@, wants_logs);
    law_an_open_session_serves_every_method(old(lifecycle)@, request@, asks);
    law_what_an_envelope_changes(old(lifecycle)@, request@, wants_logs);
    law_what_an_envelope_changes(old(lifecycle)@, request@, asks);
}

/// In an open session `receive` hands a line that holds a request to the
/// protocol layer, as it was read.
pub proof fn law_an_open_session_receives(
    lifecycle: &mut Lifecycle,
    read: ReadLine,
    line: Seq<char>,
    request: RequestView,
    r: Step,
)
    requires
        call_ensures(receive, (lifecycle, read), r),
        read@ == ReadView::Line(line),
        line.len() > 0,
        parsed_line(line) == Ok::<RequestView, TransportErrorView>(request),
        old(lifecycle)@.initialized,
        !old(lifecycle)@.shutdown,
        request.method != "shutdown"@,
        request.id is None || !"notifications/"@.is_prefix_of(request.method),
    ensures
        r@ == StepView::Pass(request, line),
        final(lifecycle)@.initialized,
        !final(lifecycle)@.shutdown,
{
    law_an_open_session_hands_lines_on(old(lifecycle)@, line, request);
    law_what_an_envelope_changes(old(lifecycle)@, request, names_logging(request));
}

/// Before the handshake `receive` hands on the handshake and discovery only.
pub proof fn law_a_new_session_receives(
    lifecycle: &mut Lifecycle,
    read: ReadLine,
    line: Seq<char>,
    request: RequestView,
    r: Step,
)
    requires
        call_ensures(receive, (lifecycle, read), r),
        read@ == ReadView::Line(line),
        line.len() > 0,
        parsed_line(line) == Ok::<RequestView, TransportErrorView>(request),
        !old(lifecycle)@.initialized,
        !old(lifecycle)@.shutdown,
    ensures
        r@ is Pass <==> request.method == "initialize"@ || request.method == "server/discover"@,
        r@ is Terminate <==> request.method == "exit"@,
        !final(lifecycle)@.initialized,
{
    lemma_methods_differ();
}

/// Each mark changes what it is named for and nothing else.
pub proof fn law_marks_of_a_session(lifecycle: &mut Lifecycle, level: LoggingLevel, first: bool)
    ensures
        call_ensures(Lifecycle::mark_shutdown, (lifecycle,), ()) ==> final(lifecycle)@ == (
        LifecycleView { shutdown: true, ..old(lifecycle)@ }),
        call_ensures(Lifecycle::mark_initialized, (lifecycle,), ()) ==> final(lifecycle)@ == (
        LifecycleView { initialized: true, ..old(lifecycle)@ }),
        call_ensures(Lifecycle::enable_logs, (lifecycle,), first) ==> final(lifecycle)@ == (
        LifecycleView { logs: true, ..old(lifecycle)@ }) && first == !old(lifecycle)@.logs,
        call_ensures(Lifecycle::set_log_level, (lifecycle, level), ()) ==> final(lifecycle)@ == (
        LifecycleView { log_level: level.rank(), ..old(lifecycle)@ }),
{
}

/// A request that is accepted is outstanding until it is retired, and neither
/// touches another request.
pub proof fn law_requests_come_and_go(lifecycle: &mut Lifecycle, id: RequestId, other: IdView)
    ensures
        call_ensures(Lifecycle::accept_request, (lifecycle, id), ()) ==> {
            &&& final(lifecycle)@.in_flight.contains(id@)
            &&& other != id@ ==> (final(lifecycle)@.in_flight.contains(other) <==> old(lifecycle)@.in_flight.contains(other))
        },
        call_ensures(Lifecycle::retire_request, (lifecycle, &id), ()) ==> {
            &&& !final(lifecycle)@.in_flight.contains(id@)
            &&& other != id@ ==> (final(lifecycle)@.in_flight.contains(other) <==> old(lifecycle)@.in_flight.contains(other))
        },
{
}

/// What is read of a session is what it holds.
pub proof fn law_reading_a_session(lifecycle: &Lifecycle, b: bool, n: usize, status: i32)
    ensures
        call_ensures(Lifecycle::is_initialized, (lifecycle,), b) ==> b == lifecycle@.initialized,
        call_ensures(Lifecycle::logs_enabled, (lifecycle,), b) ==> b == lifecycle@.logs,
        call_ensures(Lifecycle::outstanding, (lifecycle,), n) ==> n == lifecycle@.in_flight.len(),
        call_ensures(Lifecycle::exit_code, (lifecycle,), status) ==> (status == 0 <==>
            lifecycle@.shutdown) && (status == 1 <==> !lifecycle@.shutdown),
{
}

/// A frame is the message and one line feed.
pub proof fn law_a_frame_ends_with_a_line_feed(message: Vec<u8>, r: Vec<u8>)
    requires
        call_ensures(encode, (message,), r),
    ensures
        r@.len() == message@.len() + 1,
        r@.drop_last() == message@,
        r@.last() == 10,
{
    assert(r@.drop_last() =~= message@);
}

/// What is sent settles its request only once it is on the wire: `send` keeps
/// the request outstanding and says whom the frame answers, and `written` then
/// settles it. What could not be encoded settles it at once.
pub proof fn law_an_answer_settles_once_written(
    lifecycle: &mut Lifecycle,
    id: RequestId,
    encoded: bool,
    r: Option<RequestId>,
)
    requires
        call_ensures(send, (lifecycle, Outgoing::Response(id), encoded), r),
    ensures
        encoded ==> opt_id(r) == Some(id@) && final(lifecycle)@ == old(lifecycle)@,
        !encoded ==> r is None && !final(lifecycle)@.in_flight.contains(id@),
{
}

/// A frame that is on the wire settles the request that it answers, and a frame
/// that answers none settles none.
pub proof fn law_what_a_written_frame_settles(
    lifecycle: &mut Lifecycle,
    answers: &Option<RequestId>,
)
    requires
        call_ensures(written, (lifecycle, answers), ()),
    ensures
        *answers is None ==> final(lifecycle)@ == old(lifecycle)@,
        *answers is Some ==> final(lifecycle)@.in_flight == old(lifecycle)@.in_flight.remove(
            (*answers)->Some_0@,
        ),
{
}

/// A request that reaches the protocol layer is owed an answer from then on.
pub proof fn law_a_passed_request_is_owed_an_answer(
    lifecycle: &mut Lifecycle,
    request: JsonRpcRequest,
    line: &str,
    id: IdView,
    r: Result<ClientMessage, Option<JsonRpcResponse>>,
)
    requires
        call_ensures(passed, (lifecycle, request, line), r),
        protocol_reading(line@) == Ok::<ModelledView, Seq<char>>(ModelledView::Request(id)),
    ensures
        r is Ok,
        final(lifecycle)@.in_flight.contains(id),
{
}

/// A request that the protocol layer cannot read is answered and owed nothing.
pub proof fn law_an_unreadable_request_is_answered(
    lifecycle: &mut Lifecycle,
    request: JsonRpcRequest,
    line: &str,
    r: Result<ClientMessage, Option<JsonRpcResponse>>,
)
    requires
        call_ensures(passed, (lifecycle, request, line), r),
        protocol_reading(line@) is Err,
    ensures
        r is Err,
        final(lifecycle)@ == old(lifecycle)@,
        r->Err_0 is Some <==> request@.id is Some,
        r->Err_0 is Some ==> r->Err_0->Some_0@ == (ResponseView {
            id: request@.id,
            result: None,
            error: Some((-32600i32, protocol_reading(line@)->Err_0)),
        }),
{
}

/// The logs that are wanted go out before the frame that they led to.
pub proof fn law_logs_go_out_first(
    lifecycle: &Lifecycle,
    accrued: Vec<LogMessage>,
    frame: String,
    r: Vec<String>,
)
    requires
        call_ensures(reply, (lifecycle, accrued, frame), r),
    ensures
        r@.len() == wanted_logs(lifecycle@, logs_view(accrued@)).len() + 1,
        r@[r@.len() - 1]@ == frame@,
        forall|i: int|
            0 <= i < r@.len() - 1 ==> (#[trigger] r@[i])@ == log_frame(
                wanted_logs(lifecycle@, logs_view(accrued@))[i],
            ),
{
    let wanted = wanted_logs(lifecycle@, logs_view(accrued@));
    let frames = wanted.map_values(|m: LogView| log_frame(m)).push(frame@);
    assert(texts(r@).len() == frames.len());
    assert(texts(r@)[r@.len() - 1] == frames[frames.len() - 1]);
    assert forall|i: int| 0 <= i < r@.len() - 1 implies (#[trigger] r@[i])@ == log_frame(
        wanted[i],
    ) by {
        assert(texts(r@)[i] == frames[i]);
    }
}

/// A handshake that did not come about is a failure only where the client did
/// neither close the pipe nor get an answer.
pub proof fn law_which_handshakes_fail(failure: InitFailure, r: bool)
    requires
        call_ensures(InitFailure::is_failure, (failure,), r),
    ensures
        r <==> failure != InitFailure::ConnectionClosed && failure
            != InitFailure::ExpectedInitialize && failure != InitFailure::InitializeFailed,
{
}

/// A reader starts between lines; one that takes up the beginning of a line goes
/// on as if it had read it, and discards the line where it is too long already.
pub proof fn law_how_a_reader_starts(raw: Vec<u8>, r: LineReader)
    ensures
        call_ensures(LineReader::new, (), r) ==> r@ == (ReaderView {
            raw: seq![],
            discarded: None,
            max_drain: Some(67108864usize),
        }),
        call_ensures(LineReader::patient, (), r) ==> r@ == (ReaderView {
            raw: seq![],
            discarded: None,
            max_drain: None,
        }),
        call_ensures(LineReader::resume, (raw,), r) && raw@.len() <= 4194304 ==> r@.raw == raw@
            && r@.discarded is None,
        call_ensures(LineReader::resume, (raw,), r) && raw@.len() > 4194304 ==> r@.raw.len() == 0
            && r@.discarded == Some(0nat),
{
}

/// A connection starts with nothing said: no handshake, no logs, nothing owed.
pub proof fn law_how_a_session_starts(id: IdView)
    ensures
        !fresh().initialized && !fresh().shutdown && !fresh().logs,
        fresh().log_level == 0,
        !fresh().in_flight.contains(id),
{
}

} // verus!
