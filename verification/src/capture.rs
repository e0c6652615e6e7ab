//! Where a captured request goes, what is written for it and what is answered.
use vstd::prelude::*;
use crate::codecs::{decompress_text, gunzipped_text};
use crate::fields::{FieldView, fields_view};
use crate::headers::{
    chosen_request_id, format_headers, gzip_encoded, header_lines, is_gzip_encoded, is_msgpack,
    lemma_header_lines_push,
    is_msgpack_type, request_id_from_headers, request_id_header,
};
use crate::ids::{is_v4_uuid_text, new_request_id};
use crate::exporters::FileExporter;

verus! {

/// The directory that a request on `route` with id `id` is captured in.
pub open spec fn capture_dir(route: Seq<char>, id: Seq<char>) -> Seq<char> {
    "requests"@ + route + "/"@ + id
}

/// The JSON answer that names the request id.
pub open spec fn id_response(id: Seq<char>) -> Seq<char> {
    "{\"request_id\": \""@ + id + "\"}"@
}

/// The answer holds the whole id: it is `{"request_id": "` (16 characters),
/// then the id itself, then `"}`, so its length is the id's length plus 18.
pub proof fn lemma_id_response_holds_id(id: Seq<char>)
    ensures
        id_response(id).len() == id.len() + 18,
        id_response(id).subrange(16, 16 + id.len() as int) == id,
        id_response(id).subrange(0, 16) == seq!['{', '"', 'r', 'e', 'q', 'u', 'e', 's', 't', '_', 'i', 'd', '"', ':', ' ', '"'],
        id_response(id).subrange(16 + id.len() as int, 18 + id.len() as int) == seq!['"', '}'],
{
    reveal_strlit("{\"request_id\": \"");
    reveal_strlit("\"}");
    let r = id_response(id);
    assert(r.subrange(16, 16 + id.len() as int) =~= id);
    assert(r.subrange(0, 16) =~= seq!['{', '"', 'r', 'e', 'q', 'u', 'e', 's', 't', '_', 'i', 'd', '"', ':', ' ', '"']);
    assert(r.subrange(16 + id.len() as int, 18 + id.len() as int) =~= seq!['"', '}']);
}

/// The capture directory is `requests`, then the route, then `/`, then the
/// whole id: its length is 9 plus the lengths of the route and the id, and
/// each part stands in its place unchanged.
pub proof fn lemma_capture_dir_parts(route: Seq<char>, id: Seq<char>)
    ensures
        capture_dir(route, id).len() == 9 + route.len() + id.len(),
        capture_dir(route, id).subrange(0, 8) == seq!['r', 'e', 'q', 'u', 'e', 's', 't', 's'],
        capture_dir(route, id).subrange(8, 8 + route.len() as int) == route,
        capture_dir(route, id)[8 + route.len() as int] == '/',
        capture_dir(route, id).subrange(9 + route.len() as int, 9 + route.len() as int + id.len() as int) == id,
{
    reveal_strlit("requests");
    reveal_strlit("/");
    let d = capture_dir(route, id);
    assert(d.subrange(0, 8) =~= seq!['r', 'e', 'q', 'u', 'e', 's', 't', 's']);
    assert(d.subrange(8, 8 + route.len() as int) =~= route);
    assert(d.subrange(9 + route.len() as int, 9 + route.len() as int + id.len() as int) =~= id);
}

/// The directory that a request on `route` with id `id` is captured in.
pub fn capture_dir_for(route: &str, id: &str) -> (res: String)
    ensures
        res@ == capture_dir(route@, id@),
{
    let mut res = String::from_str("requests");
    res.append(route);
    res.append("/");
    res.append(id);
    res
}

/// The JSON answer that names the request id.
pub fn id_response_for(id: &str) -> (res: String)
    ensures
        res@ == id_response(id@),
{
    let mut res = String::from_str("{\"request_id\": \"");
    res.append(id);
    res.append("\"}");
    res
}

/// What is decided for a captured request before its body is looked at.
pub struct Capture {
    /// The id the request is filed under.
    pub request_id: String,
    /// The directory its files go to.
    pub dir: String,
    /// The text of its `headers` file.
    pub headers_text: String,
    /// Whether its body is gzip-encoded.
    pub gzipped: bool,
    /// The answer that names the id.
    pub response: String,
}

/// Whether `c` is the capture of a request on `route` with `headers`, filed under `id`.
pub open spec fn capture_of(c: Capture, route: Seq<char>, headers: Seq<FieldView>, id: Seq<char>) -> bool {
    &&& c.request_id@ == id
    &&& c.dir@ == capture_dir(route, id)
    &&& c.headers_text@ == header_lines(headers)
    &&& c.gzipped == gzip_encoded(headers)
    &&& c.response@ == id_response(id)
}

/// A capture keeps its id whole everywhere: its answer holds the id between
/// `{"request_id": "` and `"}`, its directory ends with `/` and the id, and
/// its headers text has one `name: value` line per header.
pub proof fn lemma_capture_holds_id(c: Capture, route: Seq<char>, headers: Seq<FieldView>, id: Seq<char>)
    requires
        capture_of(c, route, headers, id),
    ensures
        c.request_id@ == id,
        c.response@.len() == id.len() + 18,
        c.response@.subrange(16, 16 + id.len() as int) == id,
        c.dir@.len() == 9 + route.len() + id.len(),
        c.dir@.subrange(9 + route.len() as int, 9 + route.len() as int + id.len() as int) == id,
        c.dir@[8 + route.len() as int] == '/',
        headers.len() > 0 ==> c.headers_text@ == header_lines(headers.drop_last()) + headers.last().0
            + ": "@ + headers.last().1 + "\n"@,
        c.headers_text@ == header_lines(headers),
        c.gzipped == gzip_encoded(headers),
{
    lemma_id_response_holds_id(id);
    lemma_capture_dir_parts(route, id);
    if headers.len() > 0 {
        assert(headers.drop_last().push(headers.last()) =~= headers);
        lemma_header_lines_push(headers.drop_last(), headers.last());
    }
}

/// Trace uploads are filed under `requests/v0.4/traces/<id>`, profile
/// uploads under `requests/profiling/v1/input/<id>`, and the spans of trace
/// uploads are exported to the directory `traces`.
pub proof fn lemma_upload_dirs(id: Seq<char>)
    ensures
        capture_dir(trace_route(), id) == "requests/v0.4/traces/"@ + id,
        capture_dir(profile_route(), id) == "requests/profiling/v1/input/"@ + id,
        trace_export_dir() == seq!['t', 'r', 'a', 'c', 'e', 's'],
{
    reveal_strlit("requests");
    reveal_strlit("/");
    reveal_strlit("/v0.4/traces");
    reveal_strlit("/profiling/v1/input");
    reveal_strlit("requests/v0.4/traces/");
    reveal_strlit("requests/profiling/v1/input/");
    reveal_strlit("traces");
    assert(capture_dir(trace_route(), id) =~= "requests/v0.4/traces/"@ + id);
    assert(capture_dir(profile_route(), id) =~= "requests/profiling/v1/input/"@ + id);
    assert(trace_export_dir() =~= seq!['t', 'r', 'a', 'c', 'e', 's']);
}

/// The capture of a request on `route` with `headers`: filed under the id
/// its headers carry, or else under `fresh_id`.
pub fn plan_capture_with_id(route: &str, headers: &Vec<(String, String)>, fresh_id: String) -> (res:
    Capture)
    ensures
        capture_of(res, route@, fields_view(headers@), chosen_request_id(fields_view(headers@), fresh_id@)),
{
    let request_id = match request_id_from_headers(headers) {
        Some(v) => v,
        None => fresh_id,
    };
    let dir = capture_dir_for(route, request_id.as_str());
    let headers_text = format_headers(headers);
    let gzipped = is_gzip_encoded(headers);
    let response = id_response_for(request_id.as_str());
    Capture { request_id, dir, headers_text, gzipped, response }
}

/// The capture of a request on `route` with `headers`: filed under the id
/// its headers carry, or else under a new random id.
pub fn plan_capture(route: &str, headers: &Vec<(String, String)>) -> (res: Capture)
    ensures
        capture_of(res, route@, fields_view(headers@), res.request_id@),
        match request_id_header(fields_view(headers@)) {
            Some(v) => res.request_id@ == v,
            None => is_v4_uuid_text(res.request_id@),
        },
{
    let fresh = new_request_id();
    plan_capture_with_id(route, headers, fresh)
}

/// What is written to a capture's `body` file.
pub enum StoredBody {
    /// The body as it came.
    Bytes(Vec<u8>),
    /// The text that a gzip-encoded body decompressed to.
    Text(String),
}

/// What a capture's `body` file holds: MessagePack bodies and bodies that are
/// not gzip-encoded are kept as they came; other gzip-encoded bodies are
/// decompressed to text. `None` where such a body is not valid gzip or its
/// contents are not UTF-8 text.
pub fn stored_body(content_type: &str, gzipped: bool, body: Vec<u8>) -> (res: Option<StoredBody>)
    ensures
        is_msgpack(content_type@) || !gzipped ==> (res matches Some(StoredBody::Bytes(b))
            && b@ == body@),
        !is_msgpack(content_type@) && gzipped ==> match gunzipped_text(body@) {
            Some(t) => res matches Some(StoredBody::Text(s)) && s@ == t,
            None => res is None,
        },
{
    if is_msgpack_type(content_type) || !gzipped {
        Some(StoredBody::Bytes(body))
    } else {
        match decompress_text(body.as_slice()) {
            Some(text) => Some(StoredBody::Text(text)),
            None => None,
        }
    }
}

/// Why a trace upload is refused.
pub enum TraceError {
    /// The body is not declared as MessagePack.
    NotMsgpack,
}

/// The directory that the spans of each accepted trace upload are exported
/// to as JSON, one file per upload.
pub open spec fn trace_export_dir() -> Seq<char> {
    "traces"@
}

/// The exporter that writes the spans of accepted trace uploads: files
/// `traces/<timestamp>.json`.
pub fn trace_exporter() -> (res: FileExporter)
    ensures
        res@ == trace_export_dir(),
{
    FileExporter::new(String::from_str("traces"))
}

/// The route under which trace uploads are filed.
pub open spec fn trace_route() -> Seq<char> {
    "/v0.4/traces"@
}

/// The capture of a trace upload: refused unless its content type is the
/// MessagePack one; otherwise filed under the trace route with the id its
/// headers carry, or else `fresh_id`.
pub fn plan_trace_with_id(content_type: &str, headers: &Vec<(String, String)>, fresh_id: String) -> (res:
    Result<Capture, TraceError>)
    ensures
        !is_msgpack(content_type@) <==> res is Err,
        res matches Ok(c) ==> capture_of(
            c,
            trace_route(),
            fields_view(headers@),
            chosen_request_id(fields_view(headers@), fresh_id@),
        ),
{
    if !is_msgpack_type(content_type) {
        return Err(TraceError::NotMsgpack);
    }
    Ok(plan_capture_with_id("/v0.4/traces", headers, fresh_id))
}

/// The capture of a trace upload: refused unless its content type is the
/// MessagePack one; otherwise filed under the trace route with the id its
/// headers carry, or else a new random id.
pub fn plan_trace(content_type: &str, headers: &Vec<(String, String)>) -> (res: Result<Capture, TraceError>)
    ensures
        !is_msgpack(content_type@) <==> res is Err,
        res matches Ok(c) ==> capture_of(c, trace_route(), fields_view(headers@), c.request_id@)
            && match request_id_header(fields_view(headers@)) {
            Some(v) => c.request_id@ == v,
            None => is_v4_uuid_text(c.request_id@),
        },
{
    if !is_msgpack_type(content_type) {
        return Err(TraceError::NotMsgpack);
    }
    Ok(plan_capture("/v0.4/traces", headers))
}

/// The route under which profile uploads are filed.
pub open spec fn profile_route() -> Seq<char> {
    "/profiling/v1/input"@
}

/// The capture of a profile upload: filed under the profile route with the
/// id its headers carry, or else `fresh_id`.
pub fn plan_profile_with_id(headers: &Vec<(String, String)>, fresh_id: String) -> (res: Capture)
    ensures
        capture_of(res, profile_route(), fields_view(headers@), chosen_request_id(fields_view(headers@), fresh_id@)),
{
    plan_capture_with_id("/profiling/v1/input", headers, fresh_id)
}

/// The capture of a profile upload: filed under the profile route with the
/// id its headers carry, or else a new random id.
pub fn plan_profile(headers: &Vec<(String, String)>) -> (res: Capture)
    ensures
        capture_of(res, profile_route(), fields_view(headers@), res.request_id@),
        match request_id_header(fields_view(headers@)) {
            Some(v) => res.request_id@ == v,
            None => is_v4_uuid_text(res.request_id@),
        },
{
    plan_capture("/profiling/v1/input", headers)
}

} // verus!
