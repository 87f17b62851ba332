//! The logic of a minimal static-file HTTP server: incremental
//! request-line parsing, response framing, path containment, directory
//! listings, per-connection dispatch and graceful-shutdown bookkeeping.
pub mod http;
pub mod response;
pub mod server;
pub mod shutdown;

pub use http::{
    decode_request_line, parse_method, parse_version, HttpHandler, HttpVersion, Method, ReadStep,
    RequestError, RequestLine, ResponseOptions,
};
pub use response::{prepare_response_body, MAX_DATE_SECS};
pub use server::{
    get_folder_body, handle_path, handle_request, is_within_root, parse_path, serve_directory,
    serve_file_head, DirEntry, Dispatch, Status, Target,
};
pub use shutdown::{ConnEvent, ShutdownCoordinator};
