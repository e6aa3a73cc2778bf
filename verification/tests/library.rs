use dns_online::api::{attach_api_key, available_domains_request};
use dns_online::copy::{
    CopyAction, CopyEvent, CopyRecords, DuplicateAction, DuplicateEvent, DuplicateVersion,
};
use dns_online::cli::{decide_add, decide_delete, decide_update, decide_update_after_lookup, Decision};
use dns_online::edit::{FakeEdit, FakeEditAction, FakeEditEvent};
use dns_online::net::{check_response, make_query, post_data, API_URL};
use dns_online::text::{decimal_string, ends_with, parse_ttl, text_eq, url_encode};
use dns_online::zone::{
    current_version, ensure_inactive, find_entry, fully_qualified, to_bind,
};
use dns_online::{Collector, DNSType, Domain, Error, HttpMethod, PostData, Record, Version};

fn domain<'a>(name: &str) -> Domain<'a> {
    Domain { api_key: "KEY", id: 7, name: name.to_string(), dnssec: false, external: false }
}

fn version(uuid: &str, name: &str, active: bool) -> Version {
    Version { uuid: uuid.to_string(), name: name.to_string(), active }
}

fn record(id: usize, name: &str, ty: DNSType, data: &str) -> Record {
    Record { id, name: name.to_string(), record_type: ty, ttl: 3600, data: data.to_string() }
}

// ---- decimal text and TTLs ----

#[test]
fn decimal_string_writes_plain_decimal() {
    assert_eq!(decimal_string(0), "0");
    assert_eq!(decimal_string(7), "7");
    assert_eq!(decimal_string(10), "10");
    assert_eq!(decimal_string(86400), "86400");
    assert_eq!(decimal_string(u128::MAX), u128::MAX.to_string());
}

#[test]
fn parse_ttl_reads_like_str_parse() {
    assert_eq!(parse_ttl("86400"), Some(86400));
    assert_eq!(parse_ttl("0"), Some(0));
    assert_eq!(parse_ttl("007"), Some(7));
    assert_eq!(parse_ttl("+5"), Some(5));
    assert_eq!(parse_ttl(""), None);
    assert_eq!(parse_ttl("+"), None);
    assert_eq!(parse_ttl("-1"), None);
    assert_eq!(parse_ttl("12a"), None);
    assert_eq!(parse_ttl(" 12"), None);
    assert_eq!(parse_ttl("١٢"), None);
    let max = usize::MAX.to_string();
    assert_eq!(parse_ttl(&max), Some(usize::MAX));
    let over = format!("{}0", usize::MAX);
    assert_eq!(parse_ttl(&over), None);
    for s in ["86400", "+5", "", "-1", "12a", "99999999999999999999999"] {
        assert_eq!(parse_ttl(s), s.parse::<usize>().ok(), "{}", s);
    }
}

#[test]
fn ttl_text_roundtrip() {
    for n in [0usize, 1, 9, 10, 300, 3600, 86400, usize::MAX] {
        assert_eq!(parse_ttl(&decimal_string(n as u128)), Some(n));
    }
}

// ---- URL escaping and forms ----

#[test]
fn url_encode_keeps_unreserved_bytes() {
    assert_eq!(url_encode(b"abcXYZ019-._~"), "abcXYZ019-._~");
    assert_eq!(url_encode(b""), "");
}

#[test]
fn url_encode_escapes_other_bytes_in_upper_case_hex() {
    assert_eq!(url_encode(b"a b&c=d"), "a%20b%26c%3Dd");
    assert_eq!(url_encode(b"\xff\x00/"), "%FF%00%2F");
    assert_eq!(url_encode("é".as_bytes()), "%C3%A9");
    assert_eq!(url_encode(b"\"v=1\""), "%22v%3D1%22");
}

#[test]
fn url_escape_roundtrip_and_no_separators() {
    let input: Vec<u8> = (0u8..=255).collect();
    let escaped = url_encode(&input);
    assert!(!escaped.contains('&') && !escaped.contains('='));
    let mut decoded = Vec::new();
    let b = escaped.as_bytes();
    let mut i = 0;
    while i < b.len() {
        if b[i] == b'%' {
            decoded.push(u8::from_str_radix(std::str::from_utf8(&b[i + 1..i + 3]).unwrap(), 16).unwrap());
            i += 3;
        } else {
            decoded.push(b[i]);
            i += 1;
        }
    }
    assert_eq!(decoded, input);
}

#[test]
fn post_data_joins_escaped_fields() {
    let fields = [PostData("name", "tmp zone"), PostData("ttl", "3600")];
    assert_eq!(post_data(&fields), "name=tmp%20zone&ttl=3600");
    assert_eq!(post_data(&[PostData("data", "a&b=c")]), "data=a%26b%3Dc");
    assert_eq!(post_data(&[]), "");
}

// ---- queries and answers ----

#[test]
fn make_query_builds_url_and_header() {
    let q = make_query("/domain/", "SECRET");
    assert_eq!(q.url, format!("{}/domain/", API_URL));
    assert_eq!(q.url, "https://api.online.net/api/v1/domain/");
    assert_eq!(q.auth_header, "Authorization: Bearer SECRET");
}

#[test]
fn check_response_accepts_200_to_399() {
    assert_eq!(check_response("u".into(), 200, "body".into()).unwrap(), "body");
    assert_eq!(check_response("u".into(), 204, "".into()).unwrap(), "");
    assert_eq!(check_response("u".into(), 399, "x".into()).unwrap(), "x");
}

#[test]
fn check_response_reports_api_error() {
    match check_response("https://x/y".into(), 404, "not found".into()) {
        Err(Error::ApiError((url, code, body))) => {
            assert_eq!(url, "https://x/y");
            assert_eq!(code, 404);
            assert_eq!(body, "not found");
        }
        other => panic!("{:?}", other),
    }
    assert!(matches!(check_response("u".into(), 199, "".into()), Err(Error::ApiError(_))));
    assert!(matches!(check_response("u".into(), 400, "".into()), Err(Error::ApiError(_))));
    assert!(matches!(check_response("u".into(), 500, "".into()), Err(Error::ApiError(_))));
}

#[test]
fn collector_appends_utf8_chunks() {
    let mut c = Collector::new();
    assert_eq!(c.write("héllo ".as_bytes()), 7);
    assert_eq!(c.write(b"world"), 5);
    assert_eq!(c.write(b""), 0);
    assert_eq!(c.0, "héllo world");
}

#[test]
fn errors_convert_from_outside_errors() {
    let e: Error = curl::Error::new(6).into();
    assert!(matches!(e, Error::CurlError(_)));
    let j = serde_json::from_str::<u32>("x").unwrap_err();
    let e: Error = j.into();
    assert!(matches!(e, Error::SerdeError(_)));
}

// ---- record types and records ----

#[test]
fn dns_type_names_roundtrip() {
    let all = [
        DNSType::A,
        DNSType::AAAA,
        DNSType::CAA,
        DNSType::CNAME,
        DNSType::MX,
        DNSType::NS,
        DNSType::PTR,
        DNSType::SOA,
        DNSType::SRV,
        DNSType::TXT,
    ];
    for t in all {
        assert_eq!(DNSType::from_name(&t.name()), Some(t));
    }
    assert_eq!(DNSType::TXT.name(), "TXT");
    assert_eq!(DNSType::AAAA.name(), "AAAA");
    assert_eq!(DNSType::from_name("txt"), None);
    assert_eq!(DNSType::from_name(""), None);
    assert_eq!(DNSType::from_name("TXT "), None);
}

#[test]
fn record_new_has_id_zero() {
    let r = Record::new("_acme-challenge.example.fr.", DNSType::TXT, "token", 86400);
    assert_eq!(r.id, 0);
    assert_eq!(r.name, "_acme-challenge.example.fr.");
    assert_eq!(r.record_type, DNSType::TXT);
    assert_eq!(r.data, "token");
    assert_eq!(r.ttl, 86400);
}

#[test]
fn text_helpers() {
    assert!(text_eq("abc", "abc"));
    assert!(!text_eq("abc", "abd"));
    assert!(ends_with("a.test.fr", "test.fr"));
    assert!(ends_with("test.fr", "test.fr"));
    assert!(ends_with("x", ""));
    assert!(!ends_with("fr", "test.fr"));
    assert_eq!(fully_qualified("a.example.fr"), "a.example.fr.");
    assert_eq!(fully_qualified("a.example.fr."), "a.example.fr.");
    assert_eq!(fully_qualified(""), ".");
}

// ---- domains ----

#[test]
fn find_and_extract_path_doc_example() {
    let domains = vec![domain("test.fr"), domain("nope.fr")];
    let (d, local) = Domain::find_and_extract_path("this.is.a.dummy.test.fr.", domains).unwrap();
    assert_eq!(d.name, "test.fr");
    assert_eq!(local, "this.is.a.dummy");
}

#[test]
fn find_and_extract_path_takes_longest_domain() {
    let domains = vec![domain("test.fr"), domain("dummy.test.fr"), domain("other.fr")];
    let (d, local) = Domain::find_and_extract_path("a.dummy.test.fr", domains).unwrap();
    assert_eq!(d.name, "dummy.test.fr");
    assert_eq!(local, "a");
}

#[test]
fn find_and_extract_path_without_match() {
    let domains = vec![domain("test.fr"), domain("nope.fr")];
    assert!(Domain::find_and_extract_path("www.example.com.", domains).is_none());
    assert!(Domain::find_and_extract_path("www.example.com.", vec![]).is_none());
}

#[test]
fn find_and_extract_path_matches_at_label_boundary() {
    assert!(Domain::find_and_extract_path("nottest.fr.", vec![domain("test.fr")]).is_none());
    let (d, local) = Domain::find_and_extract_path("xtest.fr", vec![domain("fr"), domain("test.fr")]).unwrap();
    assert_eq!(d.name, "fr");
    assert_eq!(local, "xtest");
    let (d, local) = Domain::find_and_extract_path("aétest.fr.", vec![domain("fr"), domain("test.fr")]).unwrap();
    assert_eq!(d.name, "fr");
    assert_eq!(local, "aétest");
}

#[test]
fn find_and_extract_path_apex_name() {
    let (d, local) = Domain::find_and_extract_path("test.fr.", vec![domain("test.fr")]).unwrap();
    assert_eq!(d.name, "test.fr");
    assert_eq!(local, "");
    let (d, local) = Domain::find_and_extract_path("test.fr", vec![domain("fr"), domain("test.fr")]).unwrap();
    assert_eq!(d.name, "test.fr");
    assert_eq!(local, "");
}

#[test]
fn find_and_extract_path_ignores_trailing_dot() {
    let ds = vec![domain("fr"), domain("test.fr"), domain("nope.fr")];
    for s in ["a.b.test.fr", "test.fr", "x.fr", "other.com"] {
        let with_dot = format!("{}.", s);
        let a = Domain::find_and_extract_path(&with_dot, ds.clone()).map(|(d, p)| (d.name, p.to_string()));
        let b = Domain::find_and_extract_path(s, ds.clone()).map(|(d, p)| (d.name, p.to_string()));
        assert_eq!(a, b);
    }
}

#[test]
fn attach_api_key_sets_key() {
    let listed = vec![
        Domain { api_key: "", id: 1, name: "a.fr".into(), dnssec: true, external: false },
        Domain { api_key: "", id: 2, name: "b.fr".into(), dnssec: false, external: true },
    ];
    let ds = attach_api_key("KEY", listed);
    assert_eq!(ds.len(), 2);
    assert_eq!(ds[0].api_key, "KEY");
    assert_eq!(ds[1].api_key, "KEY");
    assert_eq!(ds[1].id, 2);
    assert_eq!(ds[1].name, "b.fr");
    assert!(ds[0].dnssec && ds[1].external);
}

#[test]
fn filter_records_by_name_and_value() {
    let d = domain("test.fr");
    let entries = vec![
        record(1, "a", DNSType::TXT, "x"),
        record(2, "b", DNSType::TXT, "x"),
        record(3, "a", DNSType::A, "1.2.3.4"),
    ];
    let by_name = d.filter_records(&entries, "a", None).unwrap();
    assert_eq!(by_name.iter().map(|r| r.id).collect::<Vec<_>>(), vec![1, 3]);
    let by_value = d.filter_records(&entries, "a", Some("x")).unwrap();
    assert_eq!(by_value, vec![entries[0].clone()]);
    assert!(d.filter_records(&entries, "c", None).is_none());
    assert!(d.filter_records(&entries, "b", Some("y")).is_none());
}

#[test]
fn current_version_is_first_active() {
    let vs = vec![version("1", "old", false), version("2", "cur", true), version("3", "x", true)];
    assert_eq!(current_version(&vs).unwrap().uuid, "2");
    let none = vec![version("1", "old", false)];
    assert!(matches!(current_version(&none), Err(Error::InvalidVersion)));
    assert!(matches!(current_version(&vec![]), Err(Error::InvalidVersion)));
}

#[test]
fn ensure_inactive_refuses_active_zone() {
    assert!(ensure_inactive(&version("1", "n", false)).is_ok());
    assert!(matches!(ensure_inactive(&version("1", "n", true)), Err(Error::ActiveZoneForbidden)));
}

#[test]
fn find_entry_matches_type_name_and_value() {
    let records = vec![
        record(1, "_acme.test.fr.", DNSType::A, "tok"),
        record(2, "_acme", DNSType::TXT, "\"tok\""),
        record(3, "_acme.test.fr.", DNSType::TXT, "tok"),
    ];
    let r = find_entry(&records, "_acme.test.fr.", "_acme", DNSType::TXT, Some("tok")).unwrap();
    assert_eq!(r.id, 2);
    let r = find_entry(&records, "_acme.test.fr.", "_other", DNSType::TXT, Some("tok")).unwrap();
    assert_eq!(r.id, 3);
    let r = find_entry(&records, "_acme.test.fr.", "_acme", DNSType::TXT, None).unwrap();
    assert_eq!(r.id, 2);
    assert!(find_entry(&records, "_acme.test.fr.", "_acme", DNSType::TXT, Some("nope")).is_none());
    assert!(find_entry(&records, "x", "y", DNSType::TXT, None).is_none());
    let short = vec![record(4, "n", DNSType::TXT, "ab")];
    assert!(find_entry(&short, "n", "n", DNSType::TXT, Some("")).is_none());
}

#[test]
fn find_entry_unquotes_only_quoted_data() {
    let records = vec![record(1, "n", DNSType::TXT, "xtokx")];
    assert!(find_entry(&records, "n", "n", DNSType::TXT, Some("tok")).is_none());
    let records = vec![record(1, "n", DNSType::TXT, "\"tok\"")];
    assert_eq!(find_entry(&records, "n", "n", DNSType::TXT, Some("tok")).unwrap().id, 1);
    let records = vec![record(1, "n", DNSType::TXT, "\"\"")];
    assert!(find_entry(&records, "n", "n", DNSType::TXT, Some("")).is_none());
    let records = vec![record(1, "n", DNSType::TXT, "éa")];
    assert!(find_entry(&records, "n", "n", DNSType::TXT, Some("x")).is_none());
    let records = vec![record(1, "n", DNSType::TXT, "\"é\"")];
    assert_eq!(find_entry(&records, "n", "n", DNSType::TXT, Some("é")).unwrap().id, 1);
}

#[test]
fn filter_with_value_refines_filter_by_name() {
    let d = domain("test.fr");
    let entries = vec![
        record(1, "a", DNSType::TXT, "x"),
        record(2, "a", DNSType::TXT, "y"),
        record(3, "b", DNSType::TXT, "x"),
        record(4, "a", DNSType::A, "x"),
    ];
    let all = d.filter_records(&entries, "a", None).unwrap();
    let with_x = d.filter_records(&entries, "a", Some("x")).unwrap();
    let expected: Vec<Record> = all.iter().filter(|r| r.data == "x").cloned().collect();
    assert_eq!(with_x, expected);
    assert!(d.filter_records(&entries, "c", None).is_none());
    assert!(d.filter_records(&entries, "c", Some("x")).is_none());
}

#[test]
fn to_bind_writes_zone_file_lines() {
    let records = vec![
        record(1, "www", DNSType::A, "1.2.3.4"),
        Record { id: 2, name: "_acme".into(), record_type: DNSType::TXT, ttl: 86400, data: "\"x\"".into() },
    ];
    assert_eq!(to_bind(&records), "www 3600 IN A 1.2.3.4\n_acme 86400 IN TXT \"x\"\n");
    assert_eq!(to_bind(&[]), "");
}

// ---- requests ----

#[test]
fn request_builders_give_endpoints() {
    let d = domain("test.fr");
    let v = version("u-1", "zone", false);
    let r = available_domains_request();
    assert_eq!((r.method, r.endpoint.as_str(), r.body), (HttpMethod::Get, "/domain/", None));
    let r = d.get_version_request("u-9");
    assert_eq!((r.method, r.endpoint.as_str()), (HttpMethod::Get, "/domain/test.fr/version/u-9"));
    let r = d.get_versions_request();
    assert_eq!((r.method, r.endpoint.as_str()), (HttpMethod::Get, "/domain/test.fr/version"));
    let r = d.add_version_request("new zone");
    assert_eq!(r.method, HttpMethod::Post);
    assert_eq!(r.endpoint, "/domain/test.fr/version");
    assert_eq!(r.body.as_deref(), Some("name=new%20zone"));
    let r = d.enable_version_request(&v);
    assert_eq!((r.method, r.endpoint.as_str(), r.body), (HttpMethod::Patch, "/domain/test.fr/version/u-1/enable", None));
    let r = d.delete_version_request(&v);
    assert_eq!((r.method, r.endpoint.as_str()), (HttpMethod::Delete, "/domain/test.fr/version/u-1"));
    let r = d.get_zone_records_request(&v);
    assert_eq!((r.method, r.endpoint.as_str()), (HttpMethod::Get, "/domain/test.fr/version/u-1/zone"));
    let r = d.get_record_request(&v, 42);
    assert_eq!((r.method, r.endpoint.as_str()), (HttpMethod::Get, "/domain/test.fr/version/u-1/zone/42"));
    let r = d.delete_record_request(&v, &record(43, "a", DNSType::A, "x"));
    assert_eq!((r.method, r.endpoint.as_str()), (HttpMethod::Delete, "/domain/test.fr/version/u-1/zone/43"));
}

#[test]
fn record_requests_carry_the_record_form() {
    let d = domain("test.fr");
    let v = version("u-1", "zone", false);
    let rec = Record { id: 5, name: "_acme.test.fr.".into(), record_type: DNSType::TXT, ttl: 86400, data: "a b".into() };
    let r = d.add_record_request(&v, &rec).unwrap();
    assert_eq!(r.method, HttpMethod::Post);
    assert_eq!(r.endpoint, "/domain/test.fr/version/u-1/zone");
    assert_eq!(
        r.body.as_deref(),
        Some("name=_acme.test.fr.&type=TXT&priority=12&ttl=86400&data=a%20b")
    );
    let r = d.update_version_record_request(&v, &rec, "new");
    assert_eq!(r.method, HttpMethod::Patch);
    assert_eq!(r.endpoint, "/domain/test.fr/version/u-1/zone/5");
    assert_eq!(
        r.body.as_deref(),
        Some("name=_acme.test.fr.&type=TXT&priority=12&ttl=86400&data=new")
    );
}

#[test]
fn writes_to_active_zone_are_refused() {
    let d = domain("test.fr");
    let active = version("u-1", "zone", true);
    let rec = record(1, "a", DNSType::A, "x");
    assert!(matches!(d.add_record_request(&active, &rec), Err(Error::ActiveZoneForbidden)));
    assert!(matches!(d.copy_records_request(&active), Err(Error::ActiveZoneForbidden)));
    assert!(matches!(d.set_zone_entries_request(&active, &[rec]), Err(Error::ActiveZoneForbidden)));
}

#[test]
fn zone_writes_to_inactive_zone() {
    let d = domain("test.fr");
    let v = version("u-2", "zone", false);
    let r = d.copy_records_request(&v).unwrap();
    assert_eq!((r.method, r.endpoint.as_str()), (HttpMethod::Get, "/domain/test.fr/version/u-2/zone"));
    let r = d.set_zone_entries_request(&v, &[record(1, "www", DNSType::A, "1.2.3.4")]).unwrap();
    assert_eq!(r.method, HttpMethod::Put);
    assert_eq!(r.endpoint, "/domain/test.fr/version/u-2/zone_from_bind");
    assert_eq!(r.body.as_deref(), Some("www 3600 IN A 1.2.3.4\n"));
}

// ---- edit through a temporary zone ----

fn run(events: Vec<FakeEditEvent<u32>>) -> (Vec<String>, Option<Result<u32, Error>>) {
    let d = domain("test.fr");
    let (mut m, mut action) = FakeEdit::<u32>::start(&d, 1234);
    let mut trace = Vec::new();
    let mut events = events.into_iter();
    loop {
        match &action {
            FakeEditAction::CreateVersion(q) => trace.push(format!("create {} {}", q.endpoint, q.body.clone().unwrap())),
            FakeEditAction::RunEdit(v) => trace.push(format!("edit {}", v.uuid)),
            FakeEditAction::DeleteVersion(q) => trace.push(format!("delete {}", q.endpoint)),
            FakeEditAction::ListVersions(q) => trace.push(format!("list {}", q.endpoint)),
            FakeEditAction::EnableVersion(q) => trace.push(format!("enable {}", q.endpoint)),
            FakeEditAction::Done(_) => {}
        }
        if let FakeEditAction::Done(r) = action {
            return (trace, Some(r));
        }
        match events.next() {
            Some(e) => {
                let (next, next_action) = m.step(e);
                m = next;
                action = next_action;
            }
            None => return (trace, None),
        }
    }
}

#[test]
fn fake_edit_happy_path() {
    let (trace, result) = run(vec![
        FakeEditEvent::Created(Ok(version("tmp", "tmp-autoedit-1234", false))),
        FakeEditEvent::Edited(Ok(7)),
        FakeEditEvent::Deleted(Ok(())),
        FakeEditEvent::Listed(Ok(vec![version("old", "o", false), version("cur", "c", true)])),
        FakeEditEvent::Enabled(Ok(())),
    ]);
    assert_eq!(
        trace,
        vec![
            "create /domain/test.fr/version name=tmp-autoedit-1234",
            "edit tmp",
            "delete /domain/test.fr/version/tmp",
            "list /domain/test.fr/version",
            "enable /domain/test.fr/version/cur/enable",
        ]
    );
    assert_eq!(result.unwrap().unwrap(), 7);
}

#[test]
fn fake_edit_failed_creation_skips_edit() {
    let (trace, result) = run(vec![FakeEditEvent::Created(Err(Error::InvalidVersion))]);
    assert_eq!(trace.len(), 1);
    assert!(matches!(result, Some(Err(Error::InvalidVersion))));
}

#[test]
fn fake_edit_failed_edit_still_cleans_up() {
    let (trace, result) = run(vec![
        FakeEditEvent::Created(Ok(version("tmp", "t", false))),
        FakeEditEvent::Edited(Err(Error::ActiveZoneForbidden)),
        FakeEditEvent::Deleted(Ok(())),
        FakeEditEvent::Listed(Ok(vec![version("cur", "c", true)])),
        FakeEditEvent::Enabled(Ok(())),
    ]);
    assert_eq!(trace.len(), 5);
    assert_eq!(trace[2], "delete /domain/test.fr/version/tmp");
    assert!(matches!(result, Some(Err(Error::ActiveZoneForbidden))));
}

#[test]
fn fake_edit_cleanup_failures_win() {
    let (_, result) = run(vec![
        FakeEditEvent::Created(Ok(version("tmp", "t", false))),
        FakeEditEvent::Edited(Ok(1)),
        FakeEditEvent::Deleted(Err(Error::ApiError(("u".into(), 500, "".into())))),
    ]);
    assert!(matches!(result, Some(Err(Error::ApiError(_)))));
    let (_, result) = run(vec![
        FakeEditEvent::Created(Ok(version("tmp", "t", false))),
        FakeEditEvent::Edited(Ok(1)),
        FakeEditEvent::Deleted(Ok(())),
        FakeEditEvent::Listed(Ok(vec![version("old", "o", false)])),
    ]);
    assert!(matches!(result, Some(Err(Error::InvalidVersion))));
    let (_, result) = run(vec![
        FakeEditEvent::Created(Ok(version("tmp", "t", false))),
        FakeEditEvent::Edited(Ok(1)),
        FakeEditEvent::Deleted(Ok(())),
        FakeEditEvent::Listed(Ok(vec![version("cur", "c", true)])),
        FakeEditEvent::Enabled(Err(Error::ActiveZoneForbidden)),
    ]);
    assert!(matches!(result, Some(Err(Error::ActiveZoneForbidden))));
}

// ---- command decisions ----

#[test]
fn command_decisions() {
    let r = record(1, "n", DNSType::TXT, "v");
    assert!(matches!(decide_add(false, None), Decision::MissingValue));
    assert!(matches!(decide_add(true, Some(r.clone())), Decision::AlreadyPresent));
    assert!(matches!(decide_add(true, None), Decision::AddEntry));
    assert!(matches!(decide_delete(None), Decision::NoSuchEntry));
    assert!(matches!(decide_delete(Some(r.clone())), Decision::DeleteEntry(x) if x.id == 1));
    assert!(matches!(decide_update(None, true), Decision::NoSuchEntry));
    assert!(matches!(decide_update(Some(r.clone()), false), Decision::MissingNewValue));
    assert!(matches!(decide_update(Some(r.clone()), true), Decision::LookUpNewValue(_)));
    assert!(matches!(decide_update_after_lookup(r.clone(), true), Decision::AlreadyPresent));
    assert!(matches!(decide_update_after_lookup(r, false), Decision::UpdateEntry(x) if x.id == 1));
}

// ---- copying records and duplicating zones ----

#[test]
fn copy_records_appends_added_records() {
    let d = domain("test.fr");
    let dest = version("u-3", "copy", false);
    let source = vec![record(0, "a", DNSType::A, "1.1.1.1"), record(0, "b", DNSType::TXT, "t")];
    let (m, a) = CopyRecords::start(&d, source, &dest);
    assert!(matches!(&a, CopyAction::FetchVersion(q) if q.endpoint == "/domain/test.fr/version/u-3"));
    let (m, a) = m.step(CopyEvent::Fetched(Ok(dest.clone())));
    assert!(matches!(&a, CopyAction::ListRecords(q) if q.endpoint == "/domain/test.fr/version/u-3/zone"));
    let (m, a) = m.step(CopyEvent::Listed(Ok(vec![record(9, "old", DNSType::NS, "ns")])));
    assert!(matches!(a, CopyAction::FetchVersion(_)));
    let (m, a) = m.step(CopyEvent::Fetched(Ok(dest.clone())));
    match &a {
        CopyAction::AddRecord(q) => {
            assert_eq!(q.method, HttpMethod::Post);
            assert_eq!(q.body.as_deref(), Some("name=a&type=A&priority=12&ttl=3600&data=1.1.1.1"));
        }
        _ => panic!(),
    }
    let (m, _) = m.step(CopyEvent::Added(Ok(record(10, "a", DNSType::A, "1.1.1.1"))));
    let (m, a) = m.step(CopyEvent::Fetched(Ok(dest.clone())));
    assert!(matches!(&a, CopyAction::AddRecord(q) if q.body.as_deref() == Some("name=b&type=TXT&priority=12&ttl=3600&data=t")));
    let (_, a) = m.step(CopyEvent::Added(Ok(record(11, "b", DNSType::TXT, "t"))));
    match a {
        CopyAction::Done(Ok(z)) => assert_eq!(z.iter().map(|r| r.id).collect::<Vec<_>>(), vec![9, 10, 11]),
        _ => panic!(),
    }
}

#[test]
fn copy_records_refuses_active_destination() {
    let d = domain("test.fr");
    let dest = version("u-3", "copy", true);
    let (m, _) = CopyRecords::start(&d, vec![], &dest);
    let (_, a) = m.step(CopyEvent::Fetched(Ok(dest.clone())));
    assert!(matches!(a, CopyAction::Done(Err(Error::ActiveZoneForbidden))));
    let inactive = version("u-4", "copy", false);
    let (m, _) = CopyRecords::start(&d, vec![], &inactive);
    let (m, _) = m.step(CopyEvent::Fetched(Ok(inactive.clone())));
    let (_, a) = m.step(CopyEvent::Listed(Ok(vec![])));
    assert!(matches!(a, CopyAction::Done(Ok(z)) if z.is_empty()));
}

#[test]
fn duplicate_version_fills_new_zone_with_source_records() {
    let d = domain("test.fr");
    let src = version("u-1", "cur", true);
    let (m, a) = DuplicateVersion::start(&d, &src, "next");
    assert!(matches!(&a, DuplicateAction::ListRecords(q) if q.endpoint == "/domain/test.fr/version/u-1/zone"));
    let (m, a) = m.step(DuplicateEvent::Listed(Ok(vec![record(1, "www", DNSType::A, "1.2.3.4")])));
    assert!(matches!(&a, DuplicateAction::CreateVersion(q) if q.body.as_deref() == Some("name=next")));
    let new = version("u-9", "next", false);
    let (m, a) = m.step(DuplicateEvent::Created(Ok(new.clone())));
    assert!(matches!(&a, DuplicateAction::FetchVersion(q) if q.endpoint == "/domain/test.fr/version/u-9"));
    let (m, a) = m.step(DuplicateEvent::Fetched(Ok(new.clone())));
    match &a {
        DuplicateAction::ReplaceRecords(q) => {
            assert_eq!(q.method, HttpMethod::Put);
            assert_eq!(q.endpoint, "/domain/test.fr/version/u-9/zone_from_bind");
            assert_eq!(q.body.as_deref(), Some("www 3600 IN A 1.2.3.4\n"));
        }
        _ => panic!(),
    }
    let (_, a) = m.step(DuplicateEvent::Replaced(Ok(())));
    assert!(matches!(a, DuplicateAction::Done(Ok(v)) if v.uuid == "u-9"));
}

#[test]
fn duplicate_version_stops_at_first_failure() {
    let d = domain("test.fr");
    let src = version("u-1", "cur", true);
    let (m, _) = DuplicateVersion::start(&d, &src, "next");
    let (_, a) = m.step(DuplicateEvent::Listed(Err(Error::InvalidVersion)));
    assert!(matches!(a, DuplicateAction::Done(Err(Error::InvalidVersion))));
    let (m, _) = DuplicateVersion::start(&d, &src, "next");
    let (m, _) = m.step(DuplicateEvent::Listed(Ok(vec![])));
    let (m, _) = m.step(DuplicateEvent::Created(Ok(version("u-9", "next", false))));
    let (_, a) = m.step(DuplicateEvent::Fetched(Ok(version("u-9", "next", true))));
    assert!(matches!(a, DuplicateAction::Done(Err(Error::ActiveZoneForbidden))));
}

#[test]
fn form_body_splits_back_into_fields() {
    fn unescape(s: &str) -> Vec<u8> {
        let b = s.as_bytes();
        let mut out = Vec::new();
        let mut i = 0;
        while i < b.len() {
            if b[i] == b'%' && i + 3 <= b.len() {
                out.push(u8::from_str_radix(std::str::from_utf8(&b[i + 1..i + 3]).unwrap(), 16).unwrap());
                i += 3;
            } else {
                out.push(b[i]);
                i += 1;
            }
        }
        out
    }
    let fields = [PostData("na&me", "v=1 2"), PostData("type", "TXT"), PostData("é", "%")];
    let body = post_data(&fields);
    let pieces: Vec<&str> = body.split('&').collect();
    assert_eq!(pieces.len(), fields.len());
    for (piece, field) in pieces.iter().zip(fields.iter()) {
        let kv: Vec<&str> = piece.split('=').collect();
        assert_eq!(kv.len(), 2);
        assert_eq!(unescape(kv[0]), field.0.as_bytes());
        assert_eq!(unescape(kv[1]), field.1.as_bytes());
    }
}
