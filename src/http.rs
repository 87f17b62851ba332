use vstd::prelude::*;
use vstd::utf8::{decode_utf8, encode_utf8, valid_utf8};

use crate::response::{append_bytes, head_at, prepare_response_body, MAX_DATE_SECS};

verus! {

/// ASCII carriage return.
pub const CR: u8 = 13;

/// ASCII line feed.
pub const LF: u8 = 10;

/// ASCII space, the separator between request-line fields.
pub const SP: u8 = 32;

#[derive(Clone, Copy, Debug, PartialEq, Eq, Structural)]
pub enum Method {
    Get,
    Post,
    Head,
    Put,
    Delete,
    Connect,
    Options,
    Trace,
    Patch,
}

#[derive(Clone, Copy, Debug, PartialEq, Eq, Structural)]
pub enum HttpVersion {
    Http1_0,
    Http1_1,
    Unknown,
}

#[derive(Debug)]
pub struct RequestLine {
    pub method: Method,
    pub uri: String,
    pub version: HttpVersion,
}

#[derive(Clone, Copy, Debug, PartialEq, Eq, Structural)]
pub struct ResponseOptions {
    pub keep_open: bool,
    pub omit_body: bool,
}

impl ResponseOptions {
    /// Options before the request has been inspected: keep nothing open,
    /// send the body.
    pub fn new() -> (r: ResponseOptions)
        ensures
            !r.keep_open,
            !r.omit_body,
    {
        ResponseOptions { keep_open: false, omit_body: false }
    }
}

impl Default for ResponseOptions {
    fn default() -> (r: ResponseOptions)
        ensures
            !r.keep_open,
            !r.omit_body,
    {
        ResponseOptions::new()
    }
}

/// Why no request line could be produced.
#[derive(Clone, Copy, Debug, PartialEq, Eq, Structural)]
pub enum RequestError {
    /// The peer closed the connection before a full line arrived.
    ConnectionClosed,
    /// The line was not `METHOD SP URI SP VERSION` with a known method and
    /// a UTF-8 URI.
    InvalidRequestLine,
}

/// What feeding one read's bytes to the parser produced.
#[derive(Debug)]
pub enum ReadStep {
    /// No line terminator yet: read more.
    Pending,
    /// The connection ended, or a full line arrived and was decoded.
    Ready(Result<RequestLine, RequestError>),
}

/// The wire spelling of each method.
pub open spec fn method_token(m: Method) -> Seq<u8> {
    match m {
        Method::Get => seq![71u8, 69, 84],
        Method::Head => seq![72u8, 69, 65, 68],
        Method::Post => seq![80u8, 79, 83, 84],
        Method::Put => seq![80u8, 85, 84],
        Method::Delete => seq![68u8, 69, 76, 69, 84, 69],
        Method::Connect => seq![67u8, 79, 78, 78, 69, 67, 84],
        Method::Options => seq![79u8, 80, 84, 73, 79, 78, 83],
        Method::Trace => seq![84u8, 82, 65, 67, 69],
        Method::Patch => seq![80u8, 65, 84, 67, 72],
    }
}

/// `HTTP/1.0`
pub open spec fn http10_token() -> Seq<u8> {
    seq![72u8, 84, 84, 80, 47, 49, 46, 48]
}

/// `HTTP/1.1`
pub open spec fn http11_token() -> Seq<u8> {
    seq![72u8, 84, 84, 80, 47, 49, 46, 49]
}

/// The method whose token is exactly `t` (case-sensitive), if any.
pub open spec fn method_of(t: Seq<u8>) -> Option<Method> {
    if t == method_token(Method::Get) {
        Some(Method::Get)
    } else if t == method_token(Method::Head) {
        Some(Method::Head)
    } else if t == method_token(Method::Post) {
        Some(Method::Post)
    } else if t == method_token(Method::Put) {
        Some(Method::Put)
    } else if t == method_token(Method::Delete) {
        Some(Method::Delete)
    } else if t == method_token(Method::Connect) {
        Some(Method::Connect)
    } else if t == method_token(Method::Options) {
        Some(Method::Options)
    } else if t == method_token(Method::Trace) {
        Some(Method::Trace)
    } else if t == method_token(Method::Patch) {
        Some(Method::Patch)
    } else {
        None
    }
}

pub open spec fn version_of(t: Seq<u8>) -> HttpVersion {
    if t == http10_token() {
        HttpVersion::Http1_0
    } else if t == http11_token() {
        HttpVersion::Http1_1
    } else {
        HttpVersion::Unknown
    }
}

/// The first index at or after `i` that holds a space, or `s.len()`.
pub open spec fn space_from(s: Seq<u8>, i: int) -> int
    decreases s.len() - i,
{
    if i < 0 || i >= s.len() {
        s.len() as int
    } else if s[i] == SP {
        i
    } else {
        space_from(s, i + 1)
    }
}

/// A decoded request line: method, URI text and version.
pub open spec fn decode_line(line: Seq<u8>) -> Option<(Method, Seq<char>, HttpVersion)> {
    let a = space_from(line, 0);
    let b = space_from(line, a + 1);
    let c = space_from(line, b + 1);
    let uri = line.subrange(a + 1, b);
    if a >= line.len() || b >= line.len() || method_of(line.subrange(0, a)) is None
        || !valid_utf8(uri) {
        None
    } else {
        Some(
            (
                method_of(line.subrange(0, a))->Some_0,
                decode_utf8(uri),
                version_of(line.subrange(b + 1, c)),
            ),
        )
    }
}

/// Whether a `\r\n` terminator starts at index `i` of `s`.
pub open spec fn is_crlf_at(s: Seq<u8>, i: int) -> bool {
    0 <= i && i + 1 < s.len() && s[i] == CR && s[i + 1] == LF
}

/// The first index at or after `i` where a terminator starts, or -1.
pub open spec fn crlf_from(s: Seq<u8>, i: int) -> int
    decreases s.len() - i,
{
    if i < 0 || i + 1 >= s.len() {
        -1
    } else if is_crlf_at(s, i) {
        i
    } else {
        crlf_from(s, i + 1)
    }
}

/// Whether `r` is the result of decoding the line `line`.
pub open spec fn decodes_to(line: Seq<u8>, r: Result<RequestLine, RequestError>) -> bool {
    match decode_line(line) {
        None => r == Err::<RequestLine, RequestError>(RequestError::InvalidRequestLine),
        Some(d) => r matches Ok(l) && l.method == d.0 && l.uri@ == d.1 && l.version == d.2,
    }
}

/// Whether `step` is what the parser owes once it holds `received`: the
/// line before the first terminator, decoded, or a request for more.
pub open spec fn step_for(received: Seq<u8>, step: ReadStep) -> bool {
    let e = crlf_from(received, 0);
    if e == -1 {
        step is Pending
    } else {
        step matches ReadStep::Ready(r) && decodes_to(received.subrange(0, e), r)
    }
}

/// What a status-only response sends.
pub open spec fn status_wire(status: &str, secs: u64, options: ResponseOptions) -> Seq<u8> {
    if options.omit_body {
        Seq::empty()
    } else {
        head_at(status@, "text"@, encode_utf8(status@).len(), secs) + encode_utf8(status@)
    }
}

proof fn lemma_crlf_prefix(a: Seq<u8>, b: Seq<u8>, i: int)
    requires
        0 <= i,
        crlf_from(a, i) != -1,
    ensures
        crlf_from(a + b, i) == crlf_from(a, i),
    decreases a.len() - i,
{
    if !is_crlf_at(a, i) {
        assert(i + 1 < a.len());
        assert((a + b)[i] == a[i] && (a + b)[i + 1] == a[i + 1]);
        lemma_crlf_prefix(a, b, i + 1);
    } else {
        assert((a + b)[i] == a[i] && (a + b)[i + 1] == a[i + 1]);
    }
}

/// However the bytes of a connection are split into reads, the line that
/// the reader yields is the same: once the bytes received so far hold a
/// terminator, any bytes that arrive after them change neither where the
/// first line ends nor which step is owed for it.
pub proof fn lemma_split_reads_agree(received: Seq<u8>, later: Seq<u8>)
    requires
        crlf_from(received, 0) != -1,
    ensures
        crlf_from(received + later, 0) == crlf_from(received, 0),
        forall|st: ReadStep| step_for(received, st) == step_for(received + later, st),
{
    lemma_crlf_prefix(received, later, 0);
    lemma_crlf_found(received, 0);
    let e = crlf_from(received, 0);
    assert((received + later).subrange(0, e) =~= received.subrange(0, e));
}

proof fn lemma_crlf_absent(s: Seq<u8>, i: int, j: int)
    requires
        0 <= i <= j,
        crlf_from(s, i) == -1,
    ensures
        !is_crlf_at(s, j),
    decreases j - i,
{
    if i + 1 < s.len() && i < j {
        lemma_crlf_absent(s, i + 1, j);
    }
}

proof fn lemma_crlf_skip(s: Seq<u8>, i: int, k: int)
    requires
        0 <= i <= k,
        forall|j: int| i <= j < k ==> !is_crlf_at(s, j),
    ensures
        crlf_from(s, i) == crlf_from(s, k),
    decreases k - i,
{
    if i < k && i + 1 < s.len() {
        lemma_crlf_skip(s, i + 1, k);
    } else if i < k {
        lemma_crlf_none_tail(s, i);
        lemma_crlf_none_tail(s, k);
    }
}

proof fn lemma_crlf_found(s: Seq<u8>, i: int)
    requires
        0 <= i,
    ensures
        crlf_from(s, i) != -1 ==> i <= crlf_from(s, i) && is_crlf_at(s, crlf_from(s, i)),
    decreases s.len() - i,
{
    if i + 1 < s.len() && !is_crlf_at(s, i) {
        lemma_crlf_found(s, i + 1);
    }
}

proof fn lemma_crlf_none_tail(s: Seq<u8>, i: int)
    requires
        0 <= i,
        i + 1 >= s.len(),
    ensures
        crlf_from(s, i) == -1,
{
}

proof fn lemma_space_from_bounds(s: Seq<u8>, i: int)
    requires
        0 <= i,
    ensures
        i <= space_from(s, i) <= s.len() || (i > s.len() && space_from(s, i) == s.len()),
        space_from(s, i) < s.len() ==> s[space_from(s, i)] == SP,
        forall|j: int| i <= j < space_from(s, i) ==> s[j] != SP,
    decreases s.len() - i,
{
    if i < s.len() && s[i] != SP {
        lemma_space_from_bounds(s, i + 1);
    }
}

/// Whether `a` and `b` hold the same bytes.
fn bytes_eq(a: &[u8], b: &[u8]) -> (r: bool)
    ensures
        r == (a@ == b@),
{
    if a.len() != b.len() {
        return false;
    }
    let mut i: usize = 0;
    while i < a.len()
        invariant
            a@.len() == b@.len(),
            i <= a@.len(),
            forall|j: int| 0 <= j < i ==> a@[j] == b@[j],
        decreases a@.len() - i,
    {
        if a[i] != b[i] {
            return false;
        }
        i = i + 1;
    }
    assert(a@ =~= b@);
    true
}

fn token_bytes(m: Method) -> (r: Vec<u8>)
    ensures
        r@ == method_token(m),
{
    let r = match m {
        Method::Get => vec![71u8, 69, 84],
        Method::Head => vec![72u8, 69, 65, 68],
        Method::Post => vec![80u8, 79, 83, 84],
        Method::Put => vec![80u8, 85, 84],
        Method::Delete => vec![68u8, 69, 76, 69, 84, 69],
        Method::Connect => vec![67u8, 79, 78, 78, 69, 67, 84],
        Method::Options => vec![79u8, 80, 84, 73, 79, 78, 83],
        Method::Trace => vec![84u8, 82, 65, 67, 69],
        Method::Patch => vec![80u8, 65, 84, 67, 72],
    };
    assert(r@ =~= method_token(m));
    r
}

/// Looks a method token up in the table of the nine methods.
pub fn parse_method(t: &[u8]) -> (r: Option<Method>)
    ensures
        r == method_of(t@),
{
    if bytes_eq(t, token_bytes(Method::Get).as_slice()) {
        Some(Method::Get)
    } else if bytes_eq(t, token_bytes(Method::Head).as_slice()) {
        Some(Method::Head)
    } else if bytes_eq(t, token_bytes(Method::Post).as_slice()) {
        Some(Method::Post)
    } else if bytes_eq(t, token_bytes(Method::Put).as_slice()) {
        Some(Method::Put)
    } else if bytes_eq(t, token_bytes(Method::Delete).as_slice()) {
        Some(Method::Delete)
    } else if bytes_eq(t, token_bytes(Method::Connect).as_slice()) {
        Some(Method::Connect)
    } else if bytes_eq(t, token_bytes(Method::Options).as_slice()) {
        Some(Method::Options)
    } else if bytes_eq(t, token_bytes(Method::Trace).as_slice()) {
        Some(Method::Trace)
    } else if bytes_eq(t, token_bytes(Method::Patch).as_slice()) {
        Some(Method::Patch)
    } else {
        None
    }
}

/// Matches a version token exactly against `HTTP/1.0` and `HTTP/1.1`.
pub fn parse_version(t: &[u8]) -> (r: HttpVersion)
    ensures
        r == version_of(t@),
{
    let v10 = vec![72u8, 84, 84, 80, 47, 49, 46, 48];
    let v11 = vec![72u8, 84, 84, 80, 47, 49, 46, 49];
    assert(v10@ =~= http10_token());
    assert(v11@ =~= http11_token());
    if bytes_eq(t, v10.as_slice()) {
        HttpVersion::Http1_0
    } else if bytes_eq(t, v11.as_slice()) {
        HttpVersion::Http1_1
    } else {
        HttpVersion::Unknown
    }
}

/// Relies on std::str::from_utf8: it accepts exactly the valid UTF-8 byte
/// strings and yields the characters they encode.
#[verifier::external_body]
fn utf8_text(b: &[u8]) -> (r: Option<String>)
    ensures
        r is Some <==> valid_utf8(b@),
        r matches Some(s) ==> s@ == decode_utf8(b@),
{
    match std::str::from_utf8(b) {
        Ok(s) => Some(s.to_string()),
        Err(_) => None,
    }
}

/// The first index at or after `i` holding a space, or the length.
fn find_space(s: &[u8], i: usize) -> (r: usize)
    requires
        i <= s@.len(),
    ensures
        r as int == space_from(s@, i as int),
{
    let mut j = i;
    while j < s.len()
        invariant
            i <= j <= s@.len(),
            space_from(s@, i as int) == space_from(s@, j as int),
        decreases s@.len() - j,
    {
        if s[j] == SP {
            return j;
        }
        j = j + 1;
    }
    j
}

/// Splits a request line on spaces into method, URI and version, and
/// decodes each.
pub fn decode_request_line(line: &[u8]) -> (r: Result<RequestLine, RequestError>)
    ensures
        decodes_to(line@, r),
{
    let n = line.len();
    let a = find_space(line, 0);
    proof {
        lemma_space_from_bounds(line@, 0);
    }
    let m = parse_method(vstd::slice::slice_subrange(line, 0, a));
    if a >= n {
        return Err(RequestError::InvalidRequestLine);
    }
    let method = match m {
        Some(m) => m,
        None => {
            return Err(RequestError::InvalidRequestLine);
        },
    };
    let b = find_space(line, a + 1);
    proof {
        lemma_space_from_bounds(line@, a + 1);
    }
    if b >= n {
        return Err(RequestError::InvalidRequestLine);
    }
    let uri = match utf8_text(vstd::slice::slice_subrange(line, a + 1, b)) {
        Some(u) => u,
        None => {
            return Err(RequestError::InvalidRequestLine);
        },
    };
    let c = find_space(line, b + 1);
    proof {
        lemma_space_from_bounds(line@, b + 1);
    }
    let version = parse_version(vstd::slice::slice_subrange(line, b + 1, c));
    Ok(RequestLine { method, uri, version })
}

/// The first index at or after `from` where `\r\n` starts, if any.
fn find_crlf(s: &[u8], from: usize) -> (r: Option<usize>)
    ensures
        crlf_from(s@, from as int) == -1 ==> r is None,
        crlf_from(s@, from as int) != -1 ==> r == Some(crlf_from(s@, from as int) as usize),
{
    let mut j = from;
    while j < s.len() && j + 1 < s.len()
        invariant
            from <= j,
            crlf_from(s@, from as int) == crlf_from(s@, j as int),
        decreases s@.len() - j,
    {
        if s[j] == CR && s[j + 1] == LF {
            return Some(j);
        }
        j = j + 1;
    }
    None
}

/// The per-connection request reader: the bytes received so far and a scan
/// cursor below which no terminator starts.
#[derive(Debug)]
pub struct HttpHandler {
    buf: Vec<u8>,
    cursor: usize,
    out: Vec<u8>,
}

impl HttpHandler {
    /// Every byte received on the connection so far.
    pub closed spec fn received(&self) -> Seq<u8> {
        self.buf@
    }

    /// The scan cursor.
    pub closed spec fn scan_from(&self) -> int {
        self.cursor as int
    }

    /// The bytes of the response last assembled, to be sent as they are.
    pub closed spec fn sent(&self) -> Seq<u8> {
        self.out@
    }

    pub closed spec fn wf(&self) -> bool {
        &&& (self.buf@.len() == 0 && self.cursor == 0) || self.cursor < self.buf@.len()
        &&& forall|j: int| 0 <= j < self.cursor ==> !is_crlf_at(self.buf@, j)
    }

    /// How many bytes have been received so far.
    pub fn received_len(&self) -> (r: usize)
        ensures
            r == self.received().len(),
    {
        self.buf.len()
    }

    /// The bytes of the response last assembled.
    pub fn output(&self) -> (r: &[u8])
        ensures
            r@ == self.sent(),
    {
        self.out.as_slice()
    }

    pub fn new() -> (r: HttpHandler)
        ensures
            r.wf(),
            r.received() == Seq::<u8>::empty(),
            r.scan_from() == 0,
            r.sent() == Seq::<u8>::empty(),
    {
        HttpHandler { buf: Vec::new(), cursor: 0, out: Vec::new() }
    }

    /// Takes the bytes of one read. An empty read means the peer closed
    /// the connection. Otherwise the bytes are appended and only the part
    /// from the cursor on is scanned for `\r\n`; when none is found the
    /// cursor moves to one before the end, so that a terminator split
    /// across two reads is still seen.
    pub fn read_request_line(&mut self, chunk: &[u8]) -> (r: ReadStep)
        requires
            old(self).wf(),
            old(self).received().len() + chunk@.len() <= usize::MAX,
        ensures
            final(self).wf(),
            old(self).scan_from() <= final(self).scan_from(),
            chunk@.len() == 0 ==> final(self).received() == old(self).received() && r
                == ReadStep::Ready(Err(RequestError::ConnectionClosed)),
            chunk@.len() > 0 ==> final(self).received() == old(self).received() + chunk@
                && step_for(final(self).received(), r),
    {
        if chunk.len() == 0 {
            return ReadStep::Ready(Err(RequestError::ConnectionClosed));
        }
        let ghost old_buf = self.buf@;
        self.buf.extend_from_slice(chunk);
        proof {
            assert(self.buf@ =~= old_buf + chunk@);
            assert forall|j: int| 0 <= j < self.cursor implies !is_crlf_at(self.buf@, j) by {
                assert(!is_crlf_at(old_buf, j));
                assert(self.buf@[j] == old_buf[j]);
                assert(self.buf@[j + 1] == old_buf[j + 1]);
            }
            lemma_crlf_skip(self.buf@, 0, self.cursor as int);
        }
        match find_crlf(self.buf.as_slice(), self.cursor) {
            Some(e) => {
                proof {
                    lemma_crlf_found(self.buf@, self.cursor as int);
                }
                let line = vstd::slice::slice_subrange(self.buf.as_slice(), 0, e);
                ReadStep::Ready(decode_request_line(line))
            },
            None => {
                proof {
                    assert forall|j: int| 0 <= j < self.buf@.len() - 1 implies !is_crlf_at(
                        self.buf@,
                        j,
                    ) by {
                        if j >= self.cursor {
                            lemma_crlf_absent(self.buf@, self.cursor as int, j);
                        }
                    }
                }
                self.cursor = self.buf.len() - 1;
                ReadStep::Pending
            },
        }
    }

    /// A status-only response: the status text is the body, of type
    /// `text`. When the body is to be omitted nothing at all is sent.
    pub fn write_status(&mut self, status: &str, secs: u64, options: &ResponseOptions)
        requires
            old(self).wf(),
            secs <= MAX_DATE_SECS,
        ensures
            final(self).wf(),
            final(self).received() == old(self).received(),
            final(self).scan_from() == old(self).scan_from(),
            final(self).sent() == status_wire(status, secs, *options),
    {
        if options.omit_body {
            self.out = Vec::new();
        } else {
            let text = status.as_bytes();
            let mut out = prepare_response_body(status, "text", text.len(), secs);
            append_bytes(&mut out, text);
            self.out = out;
        }
    }

    /// A response whose body is held in memory. The headers are always
    /// sent; the body only when it is not to be omitted.
    pub fn write_buffer(
        &mut self,
        status: &str,
        body: Vec<u8>,
        ctype: &str,
        secs: u64,
        options: &ResponseOptions,
    )
        requires
            old(self).wf(),
            secs <= MAX_DATE_SECS,
        ensures
            final(self).wf(),
            final(self).received() == old(self).received(),
            final(self).scan_from() == old(self).scan_from(),
            final(self).sent() == head_at(status@, ctype@, body@.len(), secs) + (if options.omit_body {
                Seq::<u8>::empty()
            } else {
                body@
            }),
    {
        let mut out = prepare_response_body(status, ctype, body.len(), secs);
        if !options.omit_body {
            append_bytes(&mut out, body.as_slice());
        } else {
            assert(out@ =~= out@ + Seq::<u8>::empty());
        }
        self.out = out;
    }

    /// A response whose body of `clen` bytes is streamed by the caller: the
    /// headers are assembled here, and the result says whether the caller
    /// is to copy the body after them.
    pub fn write_reader(
        &mut self,
        status: &str,
        ctype: &str,
        clen: usize,
        secs: u64,
        options: &ResponseOptions,
    ) -> (copy_body: bool)
        requires
            old(self).wf(),
            secs <= MAX_DATE_SECS,
        ensures
            final(self).wf(),
            final(self).received() == old(self).received(),
            final(self).scan_from() == old(self).scan_from(),
            final(self).sent() == head_at(status@, ctype@, clen as nat, secs),
            copy_body == !options.omit_body,
    {
        self.out = prepare_response_body(status, ctype, clen, secs);
        !options.omit_body
    }
}

} // verus!
