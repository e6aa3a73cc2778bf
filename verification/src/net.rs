use vstd::prelude::*;

use crate::dns::Error;
use crate::text::{
    free_of_form_separators, lacks, lemma_split_append_piece, lemma_split_plain,
    lemma_url_escape_roundtrip, lemma_url_escaped_free_of_separators, push_url_encoded, split_on,
    url_escaped, url_unescaped,
};
use vstd::utf8::{
    decode_utf8, decode_utf8_encode_utf8, encode_utf8, encode_utf8_decode_utf8, valid_utf8,
    valid_utf8_concat,
};

verus! {

/// Base URL of the online.net API; endpoints are appended to it.
pub const API_URL: &'static str = "https://api.online.net/api/v1";

/// What an HTTP query to the API is made of: the full URL and the
/// authorization header line.
#[derive(Debug)]
pub struct Query {
    pub url: String,
    pub auth_header: String,
}

/// The query for `api_endpoint`: the URL is the API's base URL followed by
/// the endpoint, and the token goes in a bearer authorization header.
pub fn make_query(api_endpoint: &str, auth_token: &str) -> (q: Query)
    ensures
        q.url@ == API_URL@ + api_endpoint@,
        q.auth_header@ == "Authorization: Bearer "@ + auth_token@,
{
    let mut url = API_URL.to_owned();
    url.append(api_endpoint);
    let mut auth = "Authorization: Bearer ".to_owned();
    auth.append(auth_token);
    Query { url, auth_header: auth }
}

/// Whether an HTTP status tells success: from 200 up to, not including, 400.
pub open spec fn status_ok(code: u32) -> bool {
    200 <= code < 400
}

/// What a finished query gives back: the body when the status tells success,
/// otherwise `ApiError` with the URL, the status and the body.
pub fn check_response(effective_url: String, response_code: u32, body: String) -> (r: Result<
    String,
    Error,
>)
    ensures
        status_ok(response_code) ==> r == Ok::<String, Error>(body),
        !status_ok(response_code) ==> r == Err::<String, Error>(
            Error::ApiError((effective_url, response_code, body)),
        ),
{
    if response_code < 200 || response_code >= 400 {
        Err(Error::ApiError((effective_url, response_code, body)))
    } else {
        Ok(body)
    }
}

/// Collects the body of an HTTP answer as text.
#[derive(Debug)]
pub struct Collector(pub String);

/// `std::str::from_utf8`: the bytes read as text when they are UTF-8, and
/// nothing otherwise; the text holds the characters that the bytes encode.
#[verifier::external_body]
fn str_from_utf8(bytes: &[u8]) -> (r: Option<&str>)
    ensures
        r is Some <==> valid_utf8(bytes@),
        r matches Some(s) ==> s@ == decode_utf8(bytes@),
{
    match std::str::from_utf8(bytes) {
        Ok(s) => Some(s),
        Err(_) => None,
    }
}

impl Collector {
    /// An empty collector.
    pub fn new() -> (c: Collector)
        ensures
            c.0@ == Seq::<char>::empty(),
    {
        Collector(String::new())
    }

    /// Appends a chunk of the body, which must be UTF-8, and tells how many
    /// bytes were taken: all of them.
    pub fn write(&mut self, data: &[u8]) -> (n: usize)
        requires
            valid_utf8(data@),
        ensures
            final(self).0@ == old(self).0@ + decode_utf8(data@),
            n == data@.len(),
    {
        let text = str_from_utf8(data);
        match text {
            Some(t) => {
                self.0.append(t);
            },
            None => {},
        }
        data.len()
    }
}

proof fn lemma_encode_utf8_concat(x: Seq<char>, y: Seq<char>)
    ensures
        encode_utf8(x + y) == encode_utf8(x) + encode_utf8(y),
    decreases x.len(),
{
    if x.len() == 0 {
        assert(x + y =~= y);
        assert(encode_utf8(x) + encode_utf8(y) =~= encode_utf8(y));
    } else {
        assert((x + y).drop_first() =~= x.drop_first() + y);
        assert((x + y)[0] == x[0]);
        lemma_encode_utf8_concat(x.drop_first(), y);
        assert(encode_utf8(x + y) =~= encode_utf8(x) + encode_utf8(y));
    }
}

/// A body collected in two UTF-8 chunks is the text of the whole body: the
/// two chunks together are UTF-8, and the text they decode to one after the
/// other is the text of both at once.
pub proof fn lemma_collect_chunks(a: Seq<u8>, b: Seq<u8>)
    requires
        valid_utf8(a),
        valid_utf8(b),
    ensures
        valid_utf8(a + b),
        decode_utf8(a) + decode_utf8(b) == decode_utf8(a + b),
{
    valid_utf8_concat(a, b);
    decode_utf8_encode_utf8(a);
    decode_utf8_encode_utf8(b);
    lemma_encode_utf8_concat(decode_utf8(a), decode_utf8(b));
    encode_utf8_decode_utf8(decode_utf8(a) + decode_utf8(b));
}

/// One field of a form: name and value.
pub struct PostData<'a>(pub &'a str, pub &'a str);

/// A form field as sent: escaped name, `=`, escaped value.
pub open spec fn form_pair(name: Seq<char>, value: Seq<char>) -> Seq<char> {
    url_escaped(encode_utf8(name)) + seq!['='] + url_escaped(encode_utf8(value))
}

/// A form as sent: its fields joined by `&`, in order.
pub open spec fn form_body(fields: Seq<PostData>) -> Seq<char>
    decreases fields.len(),
{
    if fields.len() == 0 {
        Seq::empty()
    } else if fields.len() == 1 {
        form_pair(fields[0].0@, fields[0].1@)
    } else {
        form_body(fields.drop_last()) + seq!['&'] + form_pair(fields.last().0@, fields.last().1@)
    }
}

/// Encodes the fields of a form as the body of an HTTP POST
/// (`application/x-www-form-urlencoded`): `name=value` pairs, URL-escaped,
/// joined by `&`.
pub fn post_data(data: &[PostData]) -> (s: String)
    ensures
        s@ == form_body(data@),
{
    let mut s = String::new();
    let mut i: usize = 0;
    while i < data.len()
        invariant
            i <= data@.len(),
            s@ == form_body(data@.subrange(0, i as int)),
        decreases data@.len() - i,
    {
        let e = &data[i];
        let ghost before = s@;
        if i > 0 {
            s.append("&");
            proof {
                reveal_strlit("&");
            }
        }
        push_url_encoded(&mut s, e.0.as_bytes());
        s.append("=");
        proof {
            reveal_strlit("=");
        }
        push_url_encoded(&mut s, e.1.as_bytes());
        let ghost pre = data@.subrange(0, i + 1);
        assert(pre.drop_last() =~= data@.subrange(0, i as int));
        assert(pre.last() == data@[i as int]);
        if i == 0 {
            assert(before =~= Seq::<char>::empty());
        }
        assert(s@ =~= form_body(pre));
        i = i + 1;
    }
    assert(data@.subrange(0, data@.len() as int) =~= data@);
    s
}

proof fn lemma_escaped_lacks(bs: Seq<u8>)
    ensures
        lacks(url_escaped(bs), '&'),
        lacks(url_escaped(bs), '='),
{
    lemma_url_escaped_free_of_separators(bs);
    let e = url_escaped(bs);
    assert(free_of_form_separators(e));
    assert forall|i: int| 0 <= i < e.len() implies #[trigger] e[i] != '&' by {}
    assert forall|i: int| 0 <= i < e.len() implies #[trigger] e[i] != '=' by {}
}

/// A form field holds no `&`, and cut at `=` it gives its escaped name and
/// its escaped value.
pub proof fn lemma_pair_splits(name: Seq<char>, value: Seq<char>)
    ensures
        lacks(form_pair(name, value), '&'),
        split_on(form_pair(name, value), '=') == seq![
            url_escaped(encode_utf8(name)),
            url_escaped(encode_utf8(value)),
        ],
{
    let k = url_escaped(encode_utf8(name));
    let v = url_escaped(encode_utf8(value));
    lemma_escaped_lacks(encode_utf8(name));
    lemma_escaped_lacks(encode_utf8(value));
    lemma_split_plain(k, '=');
    lemma_split_append_piece(k, v, '=');
    let p = form_pair(name, value);
    assert(p =~= k + seq!['='] + v);
    assert forall|i: int| 0 <= i < p.len() implies #[trigger] p[i] != '&' by {
        if i < k.len() {
            assert(p[i] == k[i]);
        } else if i > k.len() {
            assert(p[i] == v[i - k.len() - 1]);
        }
    }
    assert(seq![k].push(v) =~= seq![k, v]);
}

/// The pieces of a form body between its `&`: one per field, in order.
proof fn lemma_form_body_pieces(fields: Seq<PostData>)
    requires
        fields.len() > 0,
    ensures
        split_on(form_body(fields), '&') == Seq::new(
            fields.len(),
            |i: int| form_pair(fields[i].0@, fields[i].1@),
        ),
    decreases fields.len(),
{
    let last = fields.last();
    lemma_pair_splits(last.0@, last.1@);
    if fields.len() == 1 {
        lemma_split_plain(form_pair(fields[0].0@, fields[0].1@), '&');
        assert(Seq::new(fields.len(), |i: int| form_pair(fields[i].0@, fields[i].1@)) =~= seq![
            form_pair(fields[0].0@, fields[0].1@),
        ]);
    } else {
        let front = fields.drop_last();
        lemma_form_body_pieces(front);
        lemma_split_append_piece(form_body(front), form_pair(last.0@, last.1@), '&');
        assert(Seq::new(front.len(), |i: int| form_pair(front[i].0@, front[i].1@)).push(
            form_pair(last.0@, last.1@),
        ) =~= Seq::new(fields.len(), |i: int| form_pair(fields[i].0@, fields[i].1@)));
    }
}

/// The server gets back exactly the fields that [`post_data`] encodes: the
/// body cut at each `&` gives one piece per field, in order; each piece cut at
/// `=` gives two parts, which unescape to the bytes of the field's name and
/// of its value.
pub proof fn lemma_form_fields_recoverable(fields: Seq<PostData>)
    requires
        fields.len() > 0,
    ensures
        ({
            let pieces = split_on(form_body(fields), '&');
            &&& pieces.len() == fields.len()
            &&& forall|i: int|
                0 <= i < fields.len() ==> {
                    let kv = #[trigger] split_on(pieces[i], '=');
                    &&& kv.len() == 2
                    &&& url_unescaped(kv[0]) == encode_utf8(fields[i].0@)
                    &&& url_unescaped(kv[1]) == encode_utf8(fields[i].1@)
                }
        }),
{
    lemma_form_body_pieces(fields);
    let pieces = split_on(form_body(fields), '&');
    assert forall|i: int| 0 <= i < fields.len() implies {
        let kv = #[trigger] split_on(pieces[i], '=');
        &&& kv.len() == 2
        &&& url_unescaped(kv[0]) == encode_utf8(fields[i].0@)
        &&& url_unescaped(kv[1]) == encode_utf8(fields[i].1@)
    } by {
        assert(pieces[i] == form_pair(fields[i].0@, fields[i].1@));
        lemma_pair_splits(fields[i].0@, fields[i].1@);
        lemma_url_escape_roundtrip(encode_utf8(fields[i].0@));
        lemma_url_escape_roundtrip(encode_utf8(fields[i].1@));
    }
}

} // verus!
