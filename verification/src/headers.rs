//! Request headers: how they are written down, and what the capture rules
//! read from them (the request id, the gzip encoding).
use vstd::prelude::*;
use crate::fields::{FieldView, fields_view};
use crate::text::{ascii_lowercase, lowercase_equals, same_text};

verus! {

/// The text that records `headers`: one line `name: value` per header, in order.
pub open spec fn header_lines(headers: Seq<FieldView>) -> Seq<char>
    decreases headers.len(),
{
    if headers.len() == 0 {
        Seq::empty()
    } else {
        header_lines(headers.drop_last()) + headers.last().0 + ": "@ + headers.last().1 + "\n"@
    }
}

/// Recording one more header appends exactly its line `name: value` and a
/// line break to the text of the headers before it.
pub proof fn lemma_header_lines_push(headers: Seq<FieldView>, header: FieldView)
    ensures
        header_lines(headers.push(header)) == header_lines(headers) + header.0 + ": "@ + header.1
            + "\n"@,
        header_lines(Seq::<FieldView>::empty()) == Seq::<char>::empty(),
{
    assert(headers.push(header).drop_last() =~= headers);
}

/// The text of two runs of headers is the text of the first followed by the
/// text of the second: every header keeps its own line, in order.
pub proof fn lemma_header_lines_concat(first: Seq<FieldView>, second: Seq<FieldView>)
    ensures
        header_lines(first + second) == header_lines(first) + header_lines(second),
    decreases second.len(),
{
    if second.len() == 0 {
        assert(first + second =~= first);
        assert(header_lines(first) + header_lines(second) =~= header_lines(first));
    } else {
        let init = second.drop_last();
        let last = second.last();
        lemma_header_lines_concat(first, init);
        assert(first + second =~= (first + init).push(last));
        assert(second =~= init.push(last));
        lemma_header_lines_push(first + init, last);
        lemma_header_lines_push(init, last);
        assert(header_lines(first + second) =~= header_lines(first) + header_lines(second));
    }
}

/// The text that records `headers`: one line `name: value` per header, in order.
pub fn format_headers(headers: &Vec<(String, String)>) -> (res: String)
    ensures
        res@ == header_lines(fields_view(headers@)),
{
    let ghost hv = fields_view(headers@);
    let mut res = String::new();
    let n = headers.len();
    for i in 0..n
        invariant
            n == headers@.len(),
            hv == fields_view(headers@),
            res@ == header_lines(hv.take(i as int)),
    {
        assert(hv.take(i + 1).drop_last() =~= hv.take(i as int));
        res.append(headers[i].0.as_str());
        res.append(": ");
        res.append(headers[i].1.as_str());
        res.append("\n");
    }
    assert(hv.take(n as int) =~= hv);
    res
}

/// The value of the last header whose name, with its ASCII letters in lower
/// case, reads `name`.
pub open spec fn last_value_named(headers: Seq<FieldView>, name: Seq<char>) -> Option<Seq<char>>
    decreases headers.len(),
{
    if headers.len() == 0 {
        None
    } else if ascii_lowercase(headers.last().0) == name {
        Some(headers.last().1)
    } else {
        last_value_named(headers.drop_last(), name)
    }
}

/// The value named by headers that end with one more header: that header's
/// value, unchanged, when its name lower-cases to `name`, and otherwise the
/// value named by the headers before it; no headers name none.
pub proof fn lemma_last_value_push(headers: Seq<FieldView>, header: FieldView, name: Seq<char>)
    ensures
        last_value_named(headers.push(header), name) == if ascii_lowercase(header.0) == name {
            Some(header.1)
        } else {
            last_value_named(headers, name)
        },
        last_value_named(Seq::<FieldView>::empty(), name) is None,
{
    assert(headers.push(header).drop_last() =~= headers);
}

/// The value of the last header whose name, with its ASCII letters in lower
/// case, reads `name`.
pub fn find_last_value(headers: &Vec<(String, String)>, name: &str) -> (res: Option<String>)
    ensures
        match res {
            Some(v) => last_value_named(fields_view(headers@), name@) == Some(v@),
            None => last_value_named(fields_view(headers@), name@) is None,
        },
{
    let ghost hv = fields_view(headers@);
    let mut found: Option<String> = None;
    let n = headers.len();
    for i in 0..n
        invariant
            n == headers@.len(),
            hv == fields_view(headers@),
            match found {
                Some(v) => last_value_named(hv.take(i as int), name@) == Some(v@),
                None => last_value_named(hv.take(i as int), name@) is None,
            },
    {
        assert(hv.take(i + 1).drop_last() =~= hv.take(i as int));
        assert(hv.take(i + 1).last() == hv[i as int]);
        if lowercase_equals(headers[i].0.as_str(), name) {
            found = Some(headers[i].1.clone());
        }
    }
    assert(hv.take(n as int) =~= hv);
    found
}

/// The request id that the headers carry: the value of the last
/// `dd-request-id` header, its name read without regard to ASCII case.
pub open spec fn request_id_header(headers: Seq<FieldView>) -> Option<Seq<char>> {
    last_value_named(headers, "dd-request-id"@)
}

/// The request id that the headers carry: the value of the last
/// `dd-request-id` header, its name read without regard to ASCII case.
pub fn request_id_from_headers(headers: &Vec<(String, String)>) -> (res: Option<String>)
    ensures
        match res {
            Some(v) => request_id_header(fields_view(headers@)) == Some(v@),
            None => request_id_header(fields_view(headers@)) is None,
        },
{
    find_last_value(headers, "dd-request-id")
}

/// The request id of headers ends with one more header: the value of that
/// header, unchanged, when it is named `dd-request-id` (in any ASCII case),
/// and otherwise the id of the headers before it; headers with none carry none.
pub proof fn lemma_request_id_push(headers: Seq<FieldView>, header: FieldView)
    ensures
        request_id_header(headers.push(header)) == if ascii_lowercase(header.0)
            == "dd-request-id"@ {
            Some(header.1)
        } else {
            request_id_header(headers)
        },
        request_id_header(Seq::<FieldView>::empty()) is None,
{
    assert(headers.push(header).drop_last() =~= headers);
}

/// The id under which a request is captured: the one its headers carry, or
/// else `fresh`.
pub open spec fn chosen_request_id(headers: Seq<FieldView>, fresh: Seq<char>) -> Seq<char> {
    match request_id_header(headers) {
        Some(v) => v,
        None => fresh,
    }
}

/// A request is filed under the value of its last `dd-request-id` header,
/// unchanged; one with no such header is filed under the fresh id.
pub proof fn lemma_chosen_request_id(headers: Seq<FieldView>, header: FieldView, fresh: Seq<char>)
    ensures
        ascii_lowercase(header.0) == "dd-request-id"@ ==> chosen_request_id(headers.push(header), fresh)
            == header.1,
        request_id_header(headers) is None ==> chosen_request_id(headers, fresh) == fresh,
        chosen_request_id(Seq::<FieldView>::empty(), fresh) == fresh,
{
    lemma_request_id_push(headers, header);
    lemma_request_id_push(Seq::<FieldView>::empty(), header);
}

/// Whether some header named `content-encoding` (in any ASCII case) has the value `gzip`.
pub open spec fn gzip_encoded(headers: Seq<FieldView>) -> bool {
    exists|i: int|
        0 <= i < headers.len() && ascii_lowercase((#[trigger] headers[i]).0) == "content-encoding"@
            && headers[i].1 == "gzip"@
}

/// Whether some header named `content-encoding` (in any ASCII case) has the value `gzip`.
pub fn is_gzip_encoded(headers: &Vec<(String, String)>) -> (res: bool)
    ensures
        res == gzip_encoded(fields_view(headers@)),
{
    let ghost hv = fields_view(headers@);
    let n = headers.len();
    for i in 0..n
        invariant
            n == headers@.len(),
            hv == fields_view(headers@),
            forall|k: int|
                0 <= k < i ==> !(ascii_lowercase((#[trigger] hv[k]).0) == "content-encoding"@
                    && hv[k].1 == "gzip"@),
    {
        if lowercase_equals(headers[i].0.as_str(), "content-encoding") && same_text(
            headers[i].1.as_str(),
            "gzip",
        ) {
            assert(hv[i as int] == (headers@[i as int].0@, headers@[i as int].1@));
            return true;
        }
    }
    false
}

/// Headers with one more header are gzip-encoded exactly when the headers
/// before it were, or that header is `content-encoding: gzip` (its name in
/// any ASCII case): headers of any other name, such as `accept-encoding`,
/// change nothing, and no headers at all are not gzip-encoded.
pub proof fn lemma_gzip_push(headers: Seq<FieldView>, header: FieldView)
    ensures
        gzip_encoded(headers.push(header)) == (gzip_encoded(headers) || (ascii_lowercase(header.0)
            == "content-encoding"@ && header.1 == "gzip"@)),
        !gzip_encoded(Seq::<FieldView>::empty()),
{
    let grown = headers.push(header);
    if gzip_encoded(grown) {
        let i = choose|i: int|
            0 <= i < grown.len() && ascii_lowercase((#[trigger] grown[i]).0) == "content-encoding"@
                && grown[i].1 == "gzip"@;
        if i < headers.len() {
            assert(headers[i] == grown[i]);
        }
    }
    if gzip_encoded(headers) {
        let i = choose|i: int|
            0 <= i < headers.len() && ascii_lowercase((#[trigger] headers[i]).0)
                == "content-encoding"@ && headers[i].1 == "gzip"@;
        assert(grown[i] == headers[i]);
    }
    if ascii_lowercase(header.0) == "content-encoding"@ && header.1 == "gzip"@ {
        assert(grown[headers.len() as int] == header);
    }
}

/// Without a header named `content-encoding` (in any ASCII case) the
/// headers are not gzip-encoded.
pub proof fn lemma_gzip_needs_content_encoding(headers: Seq<FieldView>)
    requires
        forall|i: int|
            0 <= i < headers.len() ==> ascii_lowercase((#[trigger] headers[i]).0)
                != "content-encoding"@,
    ensures
        !gzip_encoded(headers),
{
}

/// Whether a content type is the MessagePack one.
pub open spec fn is_msgpack(content_type: Seq<char>) -> bool {
    content_type == "application/msgpack"@
}

/// The MessagePack content type is exactly the 19 characters
/// `application/msgpack`, with nothing before or after them.
pub proof fn lemma_msgpack_exact(content_type: Seq<char>)
    ensures
        is_msgpack(content_type) <==> content_type == seq![
            'a', 'p', 'p', 'l', 'i', 'c', 'a', 't', 'i', 'o', 'n', '/', 'm', 's', 'g', 'p', 'a', 'c', 'k',
        ],
{
    reveal_strlit("application/msgpack");
    assert("application/msgpack"@ =~= seq![
        'a', 'p', 'p', 'l', 'i', 'c', 'a', 't', 'i', 'o', 'n', '/', 'm', 's', 'g', 'p', 'a', 'c', 'k',
    ]);
}

/// Whether a content type is the MessagePack one.
pub fn is_msgpack_type(content_type: &str) -> (res: bool)
    ensures
        res == is_msgpack(content_type@),
{
    same_text(content_type, "application/msgpack")
}

} // verus!
