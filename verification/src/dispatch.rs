//! What the command loop decides: which command a line names, and what a
//! listing request looks like.

use vstd::prelude::*;
use vstd::string::StringExecFns;
use crate::canonical::{canonical_query, canonical_query_string};
use crate::clock::Timestamp;
use crate::config::{credential_of, CredentialConfig};
use crate::order::Pair;
use crate::sign::{request_authorization_text, sign_request, well_formed, SignError};
use crate::text::chars_of;

verus! {

/// A command of the prompt.
#[derive(Debug, Clone, Copy, PartialEq, Eq, Structural)]
pub enum Command {
    /// List the buckets.
    List,
    /// Say goodbye.
    Exit,
    /// Anything else.
    Unknown,
}

/// A line that starts with `la` lists; one that starts with `exit` says
/// goodbye.
pub open spec fn command_of(line: Seq<char>) -> Command {
    if "la"@.is_prefix_of(line) {
        Command::List
    } else if "exit"@.is_prefix_of(line) {
        Command::Exit
    } else {
        Command::Unknown
    }
}

/// The address of a request: `http://`, host, path, `?`, query string.
pub open spec fn request_url_text(host: Seq<char>, path: Seq<char>, params: Seq<Pair>) -> Seq<
    char,
> {
    "http://"@ + host + path + seq!['?'] + canonical_query(params)
}

/// The query parameters of a listing.
pub open spec fn list_params() -> Seq<Pair> {
    seq![("format"@, "json"@)]
}

/// The headers that are signed for a listing.
pub open spec fn list_headers(host: Seq<char>, timestamp_full: Seq<char>) -> Seq<Pair> {
    seq![("X-AMZ-Date"@, timestamp_full), ("Host"@, host)]
}

/// A listing request, ready to be sent.
pub struct ListRequest {
    /// Where to send it.
    pub url: String,
    /// The value of the `x-amz-date` header: the timestamp that was signed.
    pub x_amz_date: String,
    /// The value of the `Authorization` header.
    pub authorization: String,
}

/// Tells which command `line` names.
pub fn parse_command(line: &str) -> (c: Command)
    ensures
        c == command_of(line@),
{
    let chars = chars_of(line);
    proof {
        reveal_strlit("la");
        reveal_strlit("exit");
        if "la"@.is_prefix_of(line@) {
            let head = line@.subrange(0, 2);
            assert(head[0] == 'l' && head[1] == 'a');
        }
        if "exit"@.is_prefix_of(line@) {
            let head = line@.subrange(0, 4);
            assert(head[0] == 'e' && head[1] == 'x' && head[2] == 'i' && head[3] == 't');
        }
    }
    if chars.len() >= 2 && chars[0] == 'l' && chars[1] == 'a' {
        assert("la"@ =~= line@.subrange(0, 2));
        Command::List
    } else if chars.len() >= 4 && chars[0] == 'e' && chars[1] == 'x' && chars[2] == 'i'
        && chars[3] == 't' {
        assert("exit"@ =~= line@.subrange(0, 4));
        Command::Exit
    } else {
        Command::Unknown
    }
}

/// Tells whether `line` ends the session: it does when it is `exit` and
/// nothing more.
pub fn ends_session(line: &str) -> (r: bool)
    ensures
        r == (line@ == "exit"@),
{
    let chars = chars_of(line);
    proof {
        reveal_strlit("exit");
    }
    let r = chars.len() == 4 && chars[0] == 'e' && chars[1] == 'x' && chars[2] == 'i' && chars[3]
        == 't';
    assert(r ==> line@ =~= "exit"@);
    r
}

/// The address to send a request to.
pub fn request_url(host: &str, path: &str, params: &[(&str, &str)]) -> (out: String)
    ensures
        out@ == request_url_text(host@, path@, params.deep_view()),
{
    let query = canonical_query_string(params);
    let mut out = String::from_str("http://");
    out.append(host);
    out.append(path);
    out.push('?');
    out.append(query.as_str());
    assert(out@ =~= request_url_text(host@, path@, params.deep_view()));
    out
}

/// Builds and signs the listing request for a profile, as of `now`.
///
/// Both timestamps are written from `now`, and the full one goes into the
/// signature and into the `x-amz-date` header as one and the same string.
pub fn list_request(profile: &CredentialConfig, now: &Timestamp) -> (r: Result<
    ListRequest,
    SignError,
>)
    requires
        now.wf(),
    ensures
        r matches Ok(request) && request.url@ == request_url_text(
            profile.host@,
            "/"@,
            list_params(),
        ) && request.x_amz_date@ == now.full_text() && request.authorization@
            == request_authorization_text(
            credential_of(*profile),
            "GET"@,
            "/"@,
            list_params(),
            list_headers(profile.host@, now.full_text()),
            Seq::empty(),
            now.full_text(),
            now.date_text(),
        ),
{
    let timestamp_full = now.timestamp_full();
    let timestamp_date = now.timestamp_date();
    let host = profile.host.as_str();
    let mut params: Vec<(&str, &str)> = Vec::new();
    params.push(("format", "json"));
    let mut headers: Vec<(&str, &str)> = Vec::new();
    headers.push(("X-AMZ-Date", timestamp_full.as_str()));
    headers.push(("Host", host));
    let payload: Vec<u8> = Vec::new();
    let params = params.as_slice();
    let headers = headers.as_slice();
    let payload = payload.as_slice();
    proof {
        reveal_strlit("GET");
        reveal_strlit("/");
        reveal_strlit("X-AMZ-Date");
        reveal_strlit("Host");
        assert(params.deep_view() =~= list_params());
        assert(headers.deep_view() =~= list_headers(profile.host@, now.full_text()));
        assert(payload@ =~= Seq::<u8>::empty());
        assert(well_formed("GET"@, "/"@, list_headers(profile.host@, now.full_text())));
    }
    let credential = profile.credential();
    let authorization = match sign_request(
        &credential,
        "GET",
        "/",
        params,
        headers,
        payload,
        timestamp_full.as_str(),
        timestamp_date.as_str(),
    ) {
        Ok(value) => value,
        Err(e) => { return Err(e); },
    };
    let url = request_url(host, "/", params);
    Ok(ListRequest { url, x_amz_date: timestamp_full, authorization })
}

} // verus!
