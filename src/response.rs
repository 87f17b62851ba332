use vstd::prelude::*;
use vstd::utf8::encode_utf8;

use crate::http::{CR, LF};

verus! {

/// The latest second, counted from the Unix epoch, that still falls before
/// the year 9999: the limit of the HTTP date format.
pub const MAX_DATE_SECS: u64 = 253402300799;

/// The IMF-fixdate text (`Sun, 06 Nov 1994 08:49:37 GMT`) of a time given
/// in seconds since the Unix epoch.
pub uninterp spec fn http_date_of(secs: u64) -> Seq<char>;

/// Relies on httpdate::fmt_http_date, which formats a time as an
/// IMF-fixdate and panics from the year 9999 on.
#[verifier::external_body]
pub(crate) fn http_date(secs: u64) -> (r: String)
    requires
        secs <= MAX_DATE_SECS,
    ensures
        r@ == http_date_of(secs),
{
    httpdate::fmt_http_date(std::time::UNIX_EPOCH + std::time::Duration::from_secs(secs))
}

pub open spec fn crlf() -> Seq<u8> {
    seq![CR, LF]
}

/// The ASCII digit for `d < 10`.
pub open spec fn digit(d: nat) -> u8 {
    (48 + d) as u8
}

/// The decimal spelling of `n`, without leading zeros.
pub open spec fn decimal(n: nat) -> Seq<u8>
    decreases n,
{
    if n < 10 {
        seq![digit(n)]
    } else {
        decimal(n / 10).push(digit(n % 10))
    }
}

/// The status line and headers of a response, up to and including the
/// blank line. The status line always carries `HTTP/1.0`, whatever version
/// the request named.
pub open spec fn head_bytes(status: Seq<u8>, date: Seq<u8>, ctype: Seq<u8>, clen: nat) -> Seq<u8> {
    encode_utf8("HTTP/1.0 "@) + status + crlf() + encode_utf8("Date: "@) + date + crlf()
        + encode_utf8("Content-Type: "@) + ctype + crlf() + encode_utf8("Content-Length: "@)
        + decimal(clen) + crlf() + crlf()
}

/// The headers of a response sent at `secs`.
pub open spec fn head_at(status: Seq<char>, ctype: Seq<char>, clen: nat, secs: u64) -> Seq<u8> {
    head_bytes(
        encode_utf8(status),
        encode_utf8(http_date_of(secs)),
        encode_utf8(ctype),
        clen,
    )
}

/// Appends `b` to `out`.
pub fn append_bytes(out: &mut Vec<u8>, b: &[u8])
    ensures
        final(out)@ == old(out)@ + b@,
{
    let ghost start = out@;
    let mut i: usize = 0;
    while i < b.len()
        invariant
            i <= b@.len(),
            out@ == start + b@.subrange(0, i as int),
        decreases b@.len() - i,
    {
        out.push(b[i]);
        i = i + 1;
        assert(out@ =~= start + b@.subrange(0, i as int));
    }
    assert(b@.subrange(0, b@.len() as int) =~= b@);
}

/// Appends the decimal spelling of `n` to `out`.
fn append_decimal(out: &mut Vec<u8>, n: usize)
    ensures
        final(out)@ == old(out)@ + decimal(n as nat),
    decreases n,
{
    if n >= 10 {
        append_decimal(out, n / 10);
    }
    let d = (n % 10) as u8;
    out.push(48 + d);
    proof {
        if n >= 10 {
            assert(old(out)@ + decimal(n as nat) =~= old(out)@ + decimal((n / 10) as nat) + seq![
                digit((n % 10) as nat),
            ]);
        } else {
            assert(old(out)@ + decimal(n as nat) =~= old(out)@ + seq![digit(n as nat)]);
        }
    }
}

fn append_crlf(out: &mut Vec<u8>)
    ensures
        final(out)@ == old(out)@ + crlf(),
{
    out.push(CR);
    out.push(LF);
    assert(final(out)@ =~= old(out)@ + crlf());
}

/// Assembles the status line and the `Date`, `Content-Type` and
/// `Content-Length` headers, followed by the blank line.
pub fn prepare_response_body(status: &str, ctype: &str, clen: usize, secs: u64) -> (r: Vec<u8>)
    requires
        secs <= MAX_DATE_SECS,
    ensures
        r@ == head_at(status@, ctype@, clen as nat, secs),
{
    let date = http_date(secs);
    let mut out: Vec<u8> = Vec::new();
    append_bytes(&mut out, "HTTP/1.0 ".as_bytes());
    append_bytes(&mut out, status.as_bytes());
    append_crlf(&mut out);
    append_bytes(&mut out, "Date: ".as_bytes());
    append_bytes(&mut out, date.as_str().as_bytes());
    append_crlf(&mut out);
    append_bytes(&mut out, "Content-Type: ".as_bytes());
    append_bytes(&mut out, ctype.as_bytes());
    append_crlf(&mut out);
    append_bytes(&mut out, "Content-Length: ".as_bytes());
    append_decimal(&mut out, clen);
    append_crlf(&mut out);
    append_crlf(&mut out);
    assert(out@ =~= head_at(status@, ctype@, clen as nat, secs));
    out
}

} // verus!
