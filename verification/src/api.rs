use vstd::prelude::*;

use crate::dns::{DNSType, Domain, Error, Record, Version};
use crate::net::{form_pair, lemma_pair_splits, post_data, PostData};
use crate::text::{
    lemma_split_append_piece, lemma_split_plain, lemma_ttl_text_roundtrip,
    lemma_url_escape_roundtrip, parsed_usize, split_on, url_escaped, url_unescaped,
};
use crate::dns::lemma_dns_type_name_roundtrip;
use vstd::utf8::{decode_utf8, encode_utf8, encode_utf8_decode_utf8};
use crate::text::{decimal_string, decimal_text};
use crate::zone::{bind_zone, ensure_inactive, to_bind};

verus! {

/// The HTTP methods that the API is queried with.
#[derive(Clone, Copy, Debug, PartialEq, Eq, Structural)]
pub enum HttpMethod {
    Get,
    Post,
    Put,
    Patch,
    Delete,
}

/// A query to send to the API: method, endpoint (relative to the API's base
/// URL) and, for the methods that carry one, the body.
#[derive(Debug)]
pub struct Request {
    pub method: HttpMethod,
    pub endpoint: String,
    pub body: Option<String>,
}

/// The view of an optional body.
pub open spec fn body_text(b: Option<String>) -> Option<Seq<char>> {
    match b {
        Some(s) => Some(s@),
        None => None,
    }
}

/// A request whose method, endpoint and body are the given ones.
pub open spec fn request_is(r: Request, m: HttpMethod, endpoint: Seq<char>, body: Option<Seq<char>>) -> bool {
    &&& r.method == m
    &&& r.endpoint@ == endpoint
    &&& body_text(r.body) == body
}

/// `/domain/{domain}/version`: the zones of a domain.
pub open spec fn versions_endpoint(domain: Seq<char>) -> Seq<char> {
    "/domain/"@ + domain + "/version"@
}

/// `/domain/{domain}/version/{uuid}`: one zone.
pub open spec fn version_endpoint(domain: Seq<char>, uuid: Seq<char>) -> Seq<char> {
    versions_endpoint(domain) + "/"@ + uuid
}

/// `/domain/{domain}/version/{uuid}/zone`: the records of a zone.
pub open spec fn zone_endpoint(domain: Seq<char>, uuid: Seq<char>) -> Seq<char> {
    version_endpoint(domain, uuid) + "/zone"@
}

/// `/domain/{domain}/version/{uuid}/zone/{id}`: one record of a zone.
pub open spec fn record_endpoint(domain: Seq<char>, uuid: Seq<char>, id: usize) -> Seq<char> {
    zone_endpoint(domain, uuid) + "/"@ + decimal_text(id as nat)
}

/// The form that creates or rewrites a record: name, type, priority 12,
/// TTL and data.
pub open spec fn record_form(name: Seq<char>, ty: DNSType, ttl: usize, data: Seq<char>) -> Seq<char> {
    form_pair("name"@, name) + seq!['&'] + form_pair("type"@, ty.spec_name()) + seq!['&']
        + form_pair("priority"@, "12"@) + seq!['&'] + form_pair("ttl"@, decimal_text(ttl as nat))
        + seq!['&'] + form_pair("data"@, data)
}

/// The text that the value part of a form field decodes to.
pub open spec fn field_text(part: Seq<char>) -> Seq<char> {
    decode_utf8(url_unescaped(part))
}

proof fn lemma_field_texts(name: Seq<char>, value: Seq<char>)
    ensures
        split_on(form_pair(name, value), '=').len() == 2,
        field_text(split_on(form_pair(name, value), '=')[0]) == name,
        field_text(split_on(form_pair(name, value), '=')[1]) == value,
{
    lemma_pair_splits(name, value);
    lemma_url_escape_roundtrip(encode_utf8(name));
    lemma_url_escape_roundtrip(encode_utf8(value));
    encode_utf8_decode_utf8(name);
    encode_utf8_decode_utf8(value);
}

/// The form sent for a record splits back, at `&` and then `=`, into five
/// fields in this order: `name` with the record's name, `type` with a
/// mnemonic that reads back as the record's own type, `priority` with `12`,
/// `ttl` with a number that reads back as the record's TTL, and `data` with
/// the data given.
pub proof fn lemma_record_form_law(name: Seq<char>, ty: DNSType, ttl: usize, data: Seq<char>)
    ensures
        ({
            let pieces = split_on(record_form(name, ty, ttl, data), '&');
            &&& pieces.len() == 5
            &&& forall|k: int| 0 <= k < 5 ==> (#[trigger] split_on(pieces[k], '=')).len() == 2
            &&& field_text(split_on(pieces[0], '=')[0]) == "name"@
            &&& field_text(split_on(pieces[0], '=')[1]) == name
            &&& field_text(split_on(pieces[1], '=')[0]) == "type"@
            &&& DNSType::spec_from_name(field_text(split_on(pieces[1], '=')[1])) == Some(ty)
            &&& field_text(split_on(pieces[2], '=')[0]) == "priority"@
            &&& field_text(split_on(pieces[2], '=')[1]) == "12"@
            &&& field_text(split_on(pieces[3], '=')[0]) == "ttl"@
            &&& parsed_usize(field_text(split_on(pieces[3], '=')[1])) == Some(ttl)
            &&& field_text(split_on(pieces[4], '=')[0]) == "data"@
            &&& field_text(split_on(pieces[4], '=')[1]) == data
        }),
{
    let p0 = form_pair("name"@, name);
    let p1 = form_pair("type"@, ty.spec_name());
    let p2 = form_pair("priority"@, "12"@);
    let p3 = form_pair("ttl"@, decimal_text(ttl as nat));
    let p4 = form_pair("data"@, data);
    lemma_pair_splits("name"@, name);
    lemma_pair_splits("type"@, ty.spec_name());
    lemma_pair_splits("priority"@, "12"@);
    lemma_pair_splits("ttl"@, decimal_text(ttl as nat));
    lemma_pair_splits("data"@, data);
    let s1 = p0;
    let s2 = s1 + seq!['&'] + p1;
    let s3 = s2 + seq!['&'] + p2;
    let s4 = s3 + seq!['&'] + p3;
    let s5 = s4 + seq!['&'] + p4;
    assert(s5 == record_form(name, ty, ttl, data));
    lemma_split_plain(s1, '&');
    lemma_split_append_piece(s1, p1, '&');
    lemma_split_append_piece(s2, p2, '&');
    lemma_split_append_piece(s3, p3, '&');
    lemma_split_append_piece(s4, p4, '&');
    let pieces = split_on(s5, '&');
    assert(pieces =~= seq![p0, p1, p2, p3, p4]);
    lemma_field_texts("name"@, name);
    lemma_field_texts("type"@, ty.spec_name());
    lemma_field_texts("priority"@, "12"@);
    lemma_field_texts("ttl"@, decimal_text(ttl as nat));
    lemma_field_texts("data"@, data);
    lemma_dns_type_name_roundtrip(ty, ty.spec_name());
    lemma_ttl_text_roundtrip(ttl);
    assert forall|k: int| 0 <= k < 5 implies (#[trigger] split_on(pieces[k], '=')).len() == 2 by {
        if k == 0 {
        } else if k == 1 {
        } else if k == 2 {
        } else if k == 3 {
        } else {
        }
    }
}

fn versions_path(domain: &str) -> (s: String)
    ensures
        s@ == versions_endpoint(domain@),
{
    let mut s = "/domain/".to_owned();
    s.append(domain);
    s.append("/version");
    s
}

fn version_path(domain: &str, uuid: &str) -> (s: String)
    ensures
        s@ == version_endpoint(domain@, uuid@),
{
    let mut s = versions_path(domain);
    s.append("/");
    s.append(uuid);
    s
}

fn zone_path(domain: &str, uuid: &str) -> (s: String)
    ensures
        s@ == zone_endpoint(domain@, uuid@),
{
    let mut s = version_path(domain, uuid);
    s.append("/zone");
    s
}

fn record_path(domain: &str, uuid: &str, id: usize) -> (s: String)
    ensures
        s@ == record_endpoint(domain@, uuid@, id),
{
    let mut s = zone_path(domain, uuid);
    s.append("/");
    s.append(decimal_string(id as u128).as_str());
    s
}

proof fn lemma_form_body_push(fields: Seq<PostData>, f: PostData)
    requires
        fields.len() > 0,
    ensures
        crate::net::form_body(fields.push(f)) == crate::net::form_body(fields) + seq!['&'] + form_pair(
            f.0@,
            f.1@,
        ),
{
    assert(fields.push(f).drop_last() =~= fields);
}

/// The form body of a record with the given name, type, TTL and data.
fn record_form_body(name: &str, ty: DNSType, ttl: usize, data: &str) -> (s: String)
    ensures
        s@ == record_form(name@, ty, ttl, data@),
{
    let record_type = ty.name();
    let ttl_text = decimal_string(ttl as u128);
    let fields = [
        PostData("name", name),
        PostData("type", record_type.as_str()),
        PostData("priority", "12"),
        PostData("ttl", ttl_text.as_str()),
        PostData("data", data),
    ];
    let s = post_data(&fields);
    proof {
        let f = fields@;
        assert(f =~= seq![f[0]].push(f[1]).push(f[2]).push(f[3]).push(f[4]));
        assert(seq![f[0]].drop_last() =~= Seq::<PostData>::empty());
        lemma_form_body_push(seq![f[0]], f[1]);
        lemma_form_body_push(seq![f[0]].push(f[1]), f[2]);
        lemma_form_body_push(seq![f[0]].push(f[1]).push(f[2]), f[3]);
        lemma_form_body_push(seq![f[0]].push(f[1]).push(f[2]).push(f[3]), f[4]);
    }
    s
}

/// The request that lists the domains of the account.
pub fn available_domains_request() -> (r: Request)
    ensures
        request_is(r, HttpMethod::Get, "/domain/"@, None),
{
    Request { method: HttpMethod::Get, endpoint: "/domain/".to_owned(), body: None }
}

/// Gives each listed domain the API key it was listed with.
pub fn attach_api_key<'a>(api_key: &'a str, domains: Vec<Domain<'a>>) -> (r: Vec<Domain<'a>>)
    ensures
        r@.len() == domains@.len(),
        forall|i: int|
            0 <= i < r@.len() ==> #[trigger] r@[i] == (Domain { api_key: api_key, ..domains@[i] }),
{
    let mut r: Vec<Domain<'a>> = Vec::new();
    let mut i: usize = 0;
    while i < domains.len()
        invariant
            i <= domains@.len(),
            r@.len() == i,
            forall|j: int|
                0 <= j < i ==> #[trigger] r@[j] == (Domain { api_key: api_key, ..domains@[j] }),
        decreases domains@.len() - i,
    {
        let d = &domains[i];
        r.push(
            Domain {
                api_key: api_key,
                id: d.id,
                name: d.name.clone(),
                dnssec: d.dnssec,
                external: d.external,
            },
        );
        i = i + 1;
    }
    r
}

impl<'a> Domain<'a> {
    /// The request that reads the zone `uuid`.
    pub fn get_version_request(&self, uuid: &str) -> (r: Request)
        ensures
            request_is(r, HttpMethod::Get, version_endpoint(self.name@, uuid@), None),
    {
        Request {
            method: HttpMethod::Get,
            endpoint: version_path(self.name.as_str(), uuid),
            body: None,
        }
    }

    /// The request that lists the zones of the domain.
    pub fn get_versions_request(&self) -> (r: Request)
        ensures
            request_is(r, HttpMethod::Get, versions_endpoint(self.name@), None),
    {
        Request { method: HttpMethod::Get, endpoint: versions_path(self.name.as_str()), body: None }
    }

    /// The request that creates a new, inactive zone called `name`.
    pub fn add_version_request(&self, name: &str) -> (r: Request)
        ensures
            request_is(r, HttpMethod::Post, versions_endpoint(self.name@), Some(form_pair("name"@, name@))),
    {
        let fields = [PostData("name", name)];
        let body = post_data(&fields);
        Request {
            method: HttpMethod::Post,
            endpoint: versions_path(self.name.as_str()),
            body: Some(body),
        }
    }

    /// The request that makes `v` the zone in use.
    pub fn enable_version_request(&self, v: &Version) -> (r: Request)
        ensures
            request_is(r, HttpMethod::Patch, version_endpoint(self.name@, v.uuid@) + "/enable"@, None),
    {
        let mut endpoint = version_path(self.name.as_str(), v.uuid.as_str());
        endpoint.append("/enable");
        Request { method: HttpMethod::Patch, endpoint, body: None }
    }

    /// The request that deletes the zone `v`.
    pub fn delete_version_request(&self, v: &Version) -> (r: Request)
        ensures
            request_is(r, HttpMethod::Delete, version_endpoint(self.name@, v.uuid@), None),
    {
        Request {
            method: HttpMethod::Delete,
            endpoint: version_path(self.name.as_str(), v.uuid.as_str()),
            body: None,
        }
    }

    /// The request that lists the records of `zone`.
    pub fn get_zone_records_request(&self, zone: &Version) -> (r: Request)
        ensures
            request_is(r, HttpMethod::Get, zone_endpoint(self.name@, zone.uuid@), None),
    {
        Request {
            method: HttpMethod::Get,
            endpoint: zone_path(self.name.as_str(), zone.uuid.as_str()),
            body: None,
        }
    }

    /// The request that adds `record` to the zone `dst` (as the API describes
    /// it now); `ActiveZoneForbidden` when `dst` is the zone in use.
    pub fn add_record_request(&self, dst: &Version, record: &Record) -> (r: Result<Request, Error>)
        ensures
            dst.active ==> r matches Err(Error::ActiveZoneForbidden),
            !dst.active ==> (r matches Ok(q) && request_is(
                q,
                HttpMethod::Post,
                zone_endpoint(self.name@, dst.uuid@),
                Some(record_form(record.name@, record.record_type, record.ttl, record.data@)),
            )),
    {
        ensure_inactive(dst)?;
        let body = record_form_body(
            record.name.as_str(),
            record.record_type,
            record.ttl,
            record.data.as_str(),
        );
        Ok(
            Request {
                method: HttpMethod::Post,
                endpoint: zone_path(self.name.as_str(), dst.uuid.as_str()),
                body: Some(body),
            },
        )
    }

    /// The request that reads the records already in the zone `dst` (as the
    /// API describes it now) before records are copied into it;
    /// `ActiveZoneForbidden` when `dst` is the zone in use.
    pub fn copy_records_request(&self, dst: &Version) -> (r: Result<Request, Error>)
        ensures
            dst.active ==> r matches Err(Error::ActiveZoneForbidden),
            !dst.active ==> (r matches Ok(q) && request_is(
                q,
                HttpMethod::Get,
                zone_endpoint(self.name@, dst.uuid@),
                None,
            )),
    {
        ensure_inactive(dst)?;
        Ok(self.get_zone_records_request(dst))
    }

    /// The request that replaces all the records of the zone `dst` (as the API
    /// describes it now) with `records`, sent as a BIND zone file;
    /// `ActiveZoneForbidden` when `dst` is the zone in use.
    pub fn set_zone_entries_request(&self, dst: &Version, records: &[Record]) -> (r: Result<
        Request,
        Error,
    >)
        ensures
            dst.active ==> r matches Err(Error::ActiveZoneForbidden),
            !dst.active ==> (r matches Ok(q) && request_is(
                q,
                HttpMethod::Put,
                version_endpoint(self.name@, dst.uuid@) + "/zone_from_bind"@,
                Some(bind_zone(records@)),
            )),
    {
        ensure_inactive(dst)?;
        let mut endpoint = version_path(self.name.as_str(), dst.uuid.as_str());
        endpoint.append("/zone_from_bind");
        Ok(Request { method: HttpMethod::Put, endpoint, body: Some(to_bind(records)) })
    }

    /// The request that rewrites `record` of `zone` with the data `new_value`,
    /// keeping its name, type and TTL.
    pub fn update_version_record_request(&self, zone: &Version, record: &Record, new_value: &str) -> (r:
        Request)
        ensures
            request_is(
                r,
                HttpMethod::Patch,
                record_endpoint(self.name@, zone.uuid@, record.id),
                Some(record_form(record.name@, record.record_type, record.ttl, new_value@)),
            ),
    {
        let body = record_form_body(record.name.as_str(), record.record_type, record.ttl, new_value);
        Request {
            method: HttpMethod::Patch,
            endpoint: record_path(self.name.as_str(), zone.uuid.as_str(), record.id),
            body: Some(body),
        }
    }

    /// The request that reads the record `record_id` of `version`.
    pub fn get_record_request(&self, version: &Version, record_id: usize) -> (r: Request)
        ensures
            request_is(r, HttpMethod::Get, record_endpoint(self.name@, version.uuid@, record_id), None),
    {
        Request {
            method: HttpMethod::Get,
            endpoint: record_path(self.name.as_str(), version.uuid.as_str(), record_id),
            body: None,
        }
    }

    /// The request that deletes `record` from `version`.
    pub fn delete_record_request(&self, version: &Version, record: &Record) -> (r: Request)
        ensures
            request_is(r, HttpMethod::Delete, record_endpoint(self.name@, version.uuid@, record.id), None),
    {
        Request {
            method: HttpMethod::Delete,
            endpoint: record_path(self.name.as_str(), version.uuid.as_str(), record.id),
            body: None,
        }
    }
}

} // verus!
