use vstd::prelude::*;
use vstd::utf8::encode_utf8;

use crate::http::{HttpHandler, HttpVersion, Method, RequestError, RequestLine, ResponseOptions};
use crate::response::{append_bytes, head_at, MAX_DATE_SECS};

verus! {

/// The statuses a connection can be answered with.
#[derive(Clone, Copy, Debug, PartialEq, Eq, Structural)]
pub enum Status {
    Success,
    BadRequest,
    NotFound,
    MethodNotAllowed,
    InternalServerError,
    VersionNotSupported,
}

pub open spec fn status_code(s: Status) -> u16 {
    match s {
        Status::Success => 200,
        Status::BadRequest => 400,
        Status::NotFound => 404,
        Status::MethodNotAllowed => 405,
        Status::InternalServerError => 500,
        Status::VersionNotSupported => 505,
    }
}

pub open spec fn status_text(s: Status) -> Seq<char> {
    match s {
        Status::Success => "200 Ok"@,
        Status::BadRequest => "400 Bad Request"@,
        Status::NotFound => "404 Not Found"@,
        Status::MethodNotAllowed => "405 Method Not Allowed"@,
        Status::InternalServerError => "500 Internal Server Error"@,
        Status::VersionNotSupported => "505 HTTP Version Not Supported"@,
    }
}

impl Status {
    pub fn code(&self) -> (r: u16)
        ensures
            r == status_code(*self),
    {
        match self {
            Status::Success => 200,
            Status::BadRequest => 400,
            Status::NotFound => 404,
            Status::MethodNotAllowed => 405,
            Status::InternalServerError => 500,
            Status::VersionNotSupported => 505,
        }
    }

    /// The status as it stands on the status line: code and reason.
    pub fn text(&self) -> (r: &'static str)
        ensures
            r@ == status_text(*self),
    {
        match self {
            Status::Success => "200 Ok",
            Status::BadRequest => "400 Bad Request",
            Status::NotFound => "404 Not Found",
            Status::MethodNotAllowed => "405 Method Not Allowed",
            Status::InternalServerError => "500 Internal Server Error",
            Status::VersionNotSupported => "505 HTTP Version Not Supported",
        }
    }
}

/// What a connection does once its request line has been read.
#[derive(Debug)]
pub enum Dispatch {
    /// Close without answering.
    Close,
    /// Answer with a status-only response.
    Reply(Status, ResponseOptions),
    /// Resolve the URI and serve what it names.
    Serve(String, ResponseOptions),
}

/// The options owed to a request with method `m` and version `v`.
pub open spec fn options_for(m: Method, v: HttpVersion) -> ResponseOptions {
    ResponseOptions { keep_open: v == HttpVersion::Http1_1, omit_body: m == Method::Head }
}

/// Whether `d` is the dispatch owed to the outcome `r` of reading a request
/// line.
pub open spec fn dispatch_for(r: Result<RequestLine, RequestError>, d: Dispatch) -> bool {
    match r {
        Err(RequestError::ConnectionClosed) => d is Close,
        Err(RequestError::InvalidRequestLine) => d == Dispatch::Reply(
            Status::BadRequest,
            ResponseOptions { keep_open: false, omit_body: false },
        ),
        Ok(l) => if l.method != Method::Get && l.method != Method::Head {
            d == Dispatch::Reply(
                Status::MethodNotAllowed,
                ResponseOptions { keep_open: false, omit_body: false },
            )
        } else if l.version == HttpVersion::Unknown {
            d == Dispatch::Reply(
                Status::VersionNotSupported,
                ResponseOptions { keep_open: false, omit_body: l.method == Method::Head },
            )
        } else {
            d matches Dispatch::Serve(u, o) && u@ == l.uri@ && o == options_for(
                l.method,
                l.version,
            )
        },
    }
}

/// Checks the method, then the version, of a request line: only `GET` and
/// `HEAD` are served, and only `HTTP/1.0` and `HTTP/1.1`.
pub fn handle_request(r: Result<RequestLine, RequestError>) -> (d: Dispatch)
    ensures
        dispatch_for(r, d),
{
    let mut options = ResponseOptions::new();
    let line = match r {
        Err(RequestError::ConnectionClosed) => {
            return Dispatch::Close;
        },
        Err(RequestError::InvalidRequestLine) => {
            return Dispatch::Reply(Status::BadRequest, options);
        },
        Ok(l) => l,
    };
    options.omit_body = match line.method {
        Method::Get => false,
        Method::Head => true,
        _ => {
            return Dispatch::Reply(Status::MethodNotAllowed, options);
        },
    };
    options.keep_open = match line.version {
        HttpVersion::Http1_0 => false,
        HttpVersion::Http1_1 => true,
        HttpVersion::Unknown => {
            return Dispatch::Reply(Status::VersionNotSupported, options);
        },
    };
    Dispatch::Serve(line.uri, options)
}

/// A request method that is known but not served is refused with 405.
pub proof fn lemma_unsupported_method_refused(l: RequestLine, d: Dispatch)
    requires
        l.method != Method::Get,
        l.method != Method::Head,
        dispatch_for(Ok(l), d),
    ensures
        d matches Dispatch::Reply(s, _) && status_code(s) == 405,
{
}

/// A served method with any version but `HTTP/1.0` and `HTTP/1.1` is
/// refused with 505.
pub proof fn lemma_unknown_version_refused(l: RequestLine, d: Dispatch)
    requires
        l.method == Method::Get || l.method == Method::Head,
        l.version != HttpVersion::Http1_0,
        l.version != HttpVersion::Http1_1,
        dispatch_for(Ok(l), d),
    ensures
        d matches Dispatch::Reply(s, _) && status_code(s) == 505,
{
}

/// A `HEAD` request is never answered with a body: whatever the outcome,
/// the options handed to the writer omit it.
pub proof fn lemma_head_omits_body(l: RequestLine, d: Dispatch)
    requires
        l.method == Method::Head,
        dispatch_for(Ok(l), d),
    ensures
        d matches Dispatch::Reply(_, o) ==> o.omit_body,
        d matches Dispatch::Serve(_, o) ==> o.omit_body,
{
}

/// The request path relative to the root: the URI without one leading `/`.
pub open spec fn relative_of(uri: Seq<char>) -> Seq<char> {
    if uri.len() > 0 && uri[0] == '/' {
        uri.drop_first()
    } else {
        uri
    }
}

/// Whether `path` is `root` or lies below it, compared by whole path
/// components.
pub open spec fn within_root(root: Seq<char>, path: Seq<char>) -> bool {
    &&& root.len() <= path.len()
    &&& path.subrange(0, root.len() as int) == root
    &&& path.len() == root.len() || path[root.len() as int] == '/' || (root.len() > 0
        && root.last() == '/')
}

/// Strips a single leading `/` from a request URI, giving the part to join
/// onto the root.
pub fn parse_path(uri: &str) -> (r: String)
    ensures
        r@ == relative_of(uri@),
{
    let n = uri.unicode_len();
    if n > 0 && uri.get_char(0) == '/' {
        let rest = uri.substring_char(1, n);
        assert(rest@ =~= uri@.drop_first());
        rest.to_string()
    } else {
        uri.to_string()
    }
}

/// Whether a canonical path lies under the canonical root.
pub fn is_within_root(root: &str, path: &str) -> (r: bool)
    ensures
        r == within_root(root@, path@),
{
    let rn = root.unicode_len();
    let pn = path.unicode_len();
    if rn > pn {
        return false;
    }
    let mut i: usize = 0;
    while i < rn
        invariant
            rn == root@.len(),
            pn == path@.len(),
            rn <= pn,
            i <= rn,
            forall|j: int| 0 <= j < i ==> path@[j] == root@[j],
        decreases rn - i,
    {
        if root.get_char(i) != path.get_char(i) {
            assert(path@.subrange(0, rn as int)[i as int] != root@[i as int]);
            return false;
        }
        i = i + 1;
    }
    assert(path@.subrange(0, rn as int) =~= root@);
    rn == pn || path.get_char(rn) == '/' || (rn > 0 && root.get_char(rn - 1) == '/')
}

/// What a resolved request path is to be served as.
#[derive(Clone, Copy, Debug, PartialEq, Eq, Structural)]
pub enum Target {
    NotFound,
    Directory,
    File,
}

/// Decides how a request is served from the canonical form of its path
/// (`None` when the path could not be canonicalized, for instance because
/// nothing exists there): anything outside the root is not found, without
/// saying why.
pub fn handle_path(root: &str, canonical: Option<&str>, is_dir: bool) -> (t: Target)
    ensures
        t == (match canonical {
            None => Target::NotFound,
            Some(p) => if !within_root(root@, p@) {
                Target::NotFound
            } else if is_dir {
                Target::Directory
            } else {
                Target::File
            },
        }),
{
    match canonical {
        None => Target::NotFound,
        Some(p) => if !is_within_root(root, p) {
            Target::NotFound
        } else if is_dir {
            Target::Directory
        } else {
            Target::File
        },
    }
}

/// One entry of a directory, as enumeration yields it.
#[derive(Debug)]
pub struct DirEntry {
    pub name: String,
    pub is_dir: bool,
}

/// `/` after a directory's name, nothing after a file's.
pub open spec fn dir_suffix(is_dir: bool) -> Seq<u8> {
    if is_dir {
        encode_utf8("/"@)
    } else {
        Seq::empty()
    }
}

/// The list item of one entry: a link to it, whose target and text carry a
/// trailing `/` for a directory.
pub open spec fn entry_html(e: DirEntry) -> Seq<u8> {
    let shown = encode_utf8(e.name@) + dir_suffix(e.is_dir);
    encode_utf8("<li><a href=\""@) + shown + encode_utf8("\">"@) + shown + encode_utf8(
        "</li>"@,
    )
}

pub open spec fn entries_html(es: Seq<DirEntry>) -> Seq<u8>
    decreases es.len(),
{
    if es.len() == 0 {
        Seq::empty()
    } else {
        entries_html(es.drop_last()) + entry_html(es.last())
    }
}

/// The listing page of a directory requested as `uri`, with its entries
/// in the order given.
pub open spec fn listing_html(uri: Seq<char>, es: Seq<DirEntry>) -> Seq<u8> {
    encode_utf8("<html><head><title>Directory listing for "@) + encode_utf8(uri) + encode_utf8(
        "</title><head><body><h1>Directory listing for "@,
    ) + encode_utf8(uri) + encode_utf8("</h1><hr><ul>"@) + entries_html(es) + encode_utf8(
        "</ul><hr></body></html>"@,
    )
}

/// Renders the HTML listing of a directory.
pub fn get_folder_body(path_uri: &str, entries: &Vec<DirEntry>) -> (r: Vec<u8>)
    ensures
        r@ == listing_html(path_uri@, entries@),
{
    let mut buf: Vec<u8> = Vec::new();
    append_bytes(&mut buf, "<html><head><title>Directory listing for ".as_bytes());
    append_bytes(&mut buf, path_uri.as_bytes());
    append_bytes(&mut buf, "</title><head><body><h1>Directory listing for ".as_bytes());
    append_bytes(&mut buf, path_uri.as_bytes());
    append_bytes(&mut buf, "</h1><hr><ul>".as_bytes());
    let ghost start = buf@;
    let mut i: usize = 0;
    while i < entries.len()
        invariant
            i <= entries@.len(),
            buf@ == start + entries_html(entries@.subrange(0, i as int)),
        decreases entries@.len() - i,
    {
        let e = &entries[i];
        let ghost before = buf@;
        append_bytes(&mut buf, "<li><a href=\"".as_bytes());
        append_bytes(&mut buf, e.name.as_str().as_bytes());
        if e.is_dir {
            append_bytes(&mut buf, "/".as_bytes());
        }
        append_bytes(&mut buf, "\">".as_bytes());
        append_bytes(&mut buf, e.name.as_str().as_bytes());
        if e.is_dir {
            append_bytes(&mut buf, "/".as_bytes());
        }
        append_bytes(&mut buf, "</li>".as_bytes());
        proof {
            let es = entries@.subrange(0, i + 1);
            assert(es.drop_last() =~= entries@.subrange(0, i as int));
            assert(buf@ =~= before + entry_html(entries@[i as int]));
        }
        i = i + 1;
    }
    assert(entries@.subrange(0, entries@.len() as int) =~= entries@);
    append_bytes(&mut buf, "</ul><hr></body></html>".as_bytes());
    assert(buf@ =~= listing_html(path_uri@, entries@));
    buf
}

/// The MIME type, as `type/subtype`, that a file's extension suggests.
pub uninterp spec fn mime_type_of(path: Seq<char>) -> Seq<char>;

/// Relies on mime_guess::from_path and MimeGuess::first_or: the first MIME
/// type known for the path's extension, `application/octet-stream` when
/// there is none.
#[verifier::external_body]
fn content_type_for(path: &str) -> (r: String)
    ensures
        r@ == mime_type_of(path@),
{
    mime_guess::from_path(path).first_or(mime_guess::mime::APPLICATION_OCTET_STREAM)
        .essence_str().to_string()
}

/// Answers with a directory's listing, as `text/html`.
pub fn serve_directory(
    handler: &mut HttpHandler,
    path_uri: &str,
    entries: &Vec<DirEntry>,
    secs: u64,
    options: &ResponseOptions,
)
    requires
        old(handler).wf(),
        secs <= MAX_DATE_SECS,
    ensures
        final(handler).wf(),
        final(handler).received() == old(handler).received(),
        final(handler).sent() == head_at(
            "200 Ok"@,
            "text/html"@,
            listing_html(path_uri@, entries@).len(),
            secs,
        ) + (if options.omit_body {
            Seq::<u8>::empty()
        } else {
            listing_html(path_uri@, entries@)
        }),
{
    let body = get_folder_body(path_uri, entries);
    handler.write_buffer(Status::Success.text(), body, "text/html", secs, options);
}

/// Answers with the headers for a file of `len` bytes at `path`, typed by
/// its extension. The result says whether the caller is to copy the
/// file's bytes after them.
pub fn serve_file_head(
    handler: &mut HttpHandler,
    path: &str,
    len: usize,
    secs: u64,
    options: &ResponseOptions,
) -> (copy_body: bool)
    requires
        old(handler).wf(),
        secs <= MAX_DATE_SECS,
    ensures
        final(handler).wf(),
        final(handler).received() == old(handler).received(),
        final(handler).sent() == head_at("200 Ok"@, mime_type_of(path@), len as nat, secs),
        copy_body == !options.omit_body,
{
    let ctype = content_type_for(path);
    handler.write_reader(Status::Success.text(), ctype.as_str(), len, secs, options)
}

} // verus!
