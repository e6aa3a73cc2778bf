use vstd::prelude::*;

use crate::dns::{DNSType, Domain, Error, Record, Version};
use crate::text::{decimal_text, decimal_string, ends_with, has_suffix, text_eq};

verus! {

/// The view of an optional text.
pub open spec fn opt_text(o: Option<&str>) -> Option<Seq<char>> {
    match o {
        Some(v) => Some(v@),
        None => None,
    }
}

/// A record that `filter_records` keeps: its name is `name`, and its data is
/// `value` when a value is given.
pub open spec fn record_selected(r: Record, name: Seq<char>, value: Option<Seq<char>>) -> bool {
    &&& r.name@ == name
    &&& value matches Some(v) ==> r.data@ == v
}

/// The records that `filter_records` keeps for `name` and `value`.
pub open spec fn selects(name: Seq<char>, value: Option<Seq<char>>) -> spec_fn(Record) -> bool {
    |e: Record| record_selected(e, name, value)
}

/// The records whose data is `value`.
pub open spec fn holds(value: Seq<char>) -> spec_fn(Record) -> bool {
    |e: Record| e.data@ == value
}

/// Filtering by name and value keeps, in order, exactly the records that
/// filtering by name alone keeps and that hold the value: a subsequence of
/// them, empty whenever filtering by name alone finds nothing.
pub proof fn lemma_filter_with_value_refines(entries: Seq<Record>, name: Seq<char>, value: Seq<char>)
    ensures
        entries.filter(selects(name, Some(value))) == entries.filter(selects(name, None)).filter(
            holds(value),
        ),
        entries.filter(selects(name, None)).len() == 0 ==> entries.filter(
            selects(name, Some(value)),
        ).len() == 0,
    decreases entries.len(),
{
    reveal_with_fuel(Seq::filter, 1);
    if entries.len() > 0 {
        lemma_filter_with_value_refines(entries.drop_last(), name, value);
        let plain = entries.drop_last().filter(selects(name, None));
        let e = entries.last();
        if record_selected(e, name, None) {
            assert(plain.push(e).drop_last() =~= plain);
        }
    }
    let whole = entries.filter(selects(name, None));
    if whole.len() == 0 {
        assert(whole.filter(holds(value)).len() == 0) by {
            whole.lemma_filter_len(holds(value));
        }
    }
}

/// `filter_records` keeps only records whose name is exactly the name asked
/// for (and whose data is the value, when one is given), and it keeps every
/// such record.
pub proof fn lemma_filter_records_law(entries: Seq<Record>, name: Seq<char>, value: Option<Seq<char>>)
    ensures
        forall|k: int|
            0 <= k < entries.filter(selects(name, value)).len() ==> {
                let e = #[trigger] entries.filter(selects(name, value))[k];
                &&& e.name@ == name
                &&& value matches Some(v) ==> e.data@ == v
            },
        forall|i: int|
            0 <= i < entries.len() && (#[trigger] entries[i]).name@ == name && (value matches Some(v)
                ==> entries[i].data@ == v) ==> entries.filter(selects(name, value)).contains(
                entries[i],
            ),
{
    let p = selects(name, value);
    assert forall|k: int| 0 <= k < entries.filter(p).len() implies {
        let e = #[trigger] entries.filter(p)[k];
        &&& e.name@ == name
        &&& value matches Some(v) ==> e.data@ == v
    } by {
        entries.lemma_filter_pred(p, k);
    }
    assert forall|i: int|
        0 <= i < entries.len() && (#[trigger] entries[i]).name@ == name && (value matches Some(v)
            ==> entries[i].data@ == v) implies entries.filter(p).contains(entries[i]) by {
        entries.lemma_filter_contains(p, i);
    }
}

/// A domain name without its one trailing dot, if it has one.
pub open spec fn without_trailing_dot(s: Seq<char>) -> Seq<char> {
    if s.len() > 0 && s.last() == '.' {
        s.drop_last()
    } else {
        s
    }
}

/// The first index `i >= k` of `s` whose element satisfies `p`.
pub open spec fn first_index_from<A>(s: Seq<A>, p: spec_fn(A) -> bool, k: int) -> Option<int>
    decreases s.len() - k,
{
    if k < 0 || k >= s.len() {
        None
    } else if p(s[k]) {
        Some(k)
    } else {
        first_index_from(s, p, k + 1)
    }
}

/// The first index of `s` whose element satisfies `p`.
pub open spec fn first_index<A>(s: Seq<A>, p: spec_fn(A) -> bool) -> Option<int> {
    first_index_from(s, p, 0)
}

proof fn lemma_first_index_found<A>(s: Seq<A>, p: spec_fn(A) -> bool, j: int, k: int)
    requires
        0 <= j <= k < s.len(),
        p(s[k]),
        forall|i: int| j <= i < k ==> !p(#[trigger] s[i]),
    ensures
        first_index_from(s, p, j) == Some(k),
    decreases k - j,
{
    if j < k {
        lemma_first_index_found(s, p, j + 1, k);
    }
}

proof fn lemma_first_index_none<A>(s: Seq<A>, p: spec_fn(A) -> bool, j: int)
    requires
        0 <= j <= s.len(),
        forall|i: int| j <= i < s.len() ==> !p(#[trigger] s[i]),
    ensures
        first_index_from(s, p, j) is None,
    decreases s.len() - j,
{
    if j < s.len() {
        lemma_first_index_none(s, p, j + 1);
    }
}

/// `name` belongs to the domain called `domain`: it is the domain itself, or
/// it ends with a dot followed by the domain.
pub open spec fn belongs_to(name: Seq<char>, domain: Seq<char>) -> bool {
    name == domain || has_suffix(name, seq!['.'] + domain)
}

/// Among the first `k` domains, `name` belongs to the one at `i`, and no other
/// domain it belongs to has a longer name, nor one as long further up the list.
pub open spec fn is_best_in(name: Seq<char>, domains: Seq<Domain>, k: int, i: int) -> bool {
    &&& 0 <= i < k <= domains.len()
    &&& belongs_to(name, domains[i].name@)
    &&& forall|j: int|
        0 <= j < k && belongs_to(name, #[trigger] domains[j].name@) ==> domains[j].name@.len()
            < domains[i].name@.len() || (domains[j].name@.len() == domains[i].name@.len() && i <= j)
}

/// The domain at `i` is the domain with the longest name (the first of the
/// longest ones) that `name` belongs to.
pub open spec fn is_best_match(name: Seq<char>, domains: Seq<Domain>, i: int) -> bool {
    is_best_in(name, domains, domains.len() as int, i)
}

/// `name` belongs to none of the domains.
pub open spec fn no_domain_match(name: Seq<char>, domains: Seq<Domain>) -> bool {
    forall|j: int| 0 <= j < domains.len() ==> !belongs_to(name, #[trigger] domains[j].name@)
}

/// There is at most one best match.
pub proof fn lemma_best_match_unique(name: Seq<char>, domains: Seq<Domain>, i: int, j: int)
    requires
        is_best_match(name, domains, i),
        is_best_match(name, domains, j),
    ensures
        i == j,
{
}

/// The index of the domain that `name` belongs to, the longest one.
pub open spec fn best_match(name: Seq<char>, domains: Seq<Domain>) -> Option<int> {
    if exists|i: int| #[trigger] is_best_match(name, domains, i) {
        Some(choose|i: int| #[trigger] is_best_match(name, domains, i))
    } else {
        None
    }
}

/// The part of `name` in front of the domain it belongs to: empty for the
/// domain itself, otherwise what stands before the dot and the domain name.
pub open spec fn local_part(name: Seq<char>, domain: Seq<char>) -> Seq<char> {
    if name == domain {
        Seq::empty()
    } else {
        name.subrange(0, name.len() - domain.len() - 1)
    }
}

/// What `find_and_extract_path` gives for `full` and `domains`: the index of
/// the domain and the part of the name in front of it.
pub open spec fn extracted_path(full: Seq<char>, domains: Seq<Domain>) -> Option<(int, Seq<char>)> {
    let name = without_trailing_dot(full);
    match best_match(name, domains) {
        Some(i) => Some((i, local_part(name, domains[i].name@))),
        None => None,
    }
}

/// A name reads the same with and without its trailing dot: for `s` that
/// does not end with a dot, `s.` and `s` give the same domain and path.
pub proof fn lemma_extracted_path_trailing_dot(s: Seq<char>, domains: Seq<Domain>)
    requires
        !(s.len() > 0 && s.last() == '.'),
    ensures
        extracted_path(s.push('.'), domains) == extracted_path(s, domains),
{
    assert(s.push('.').drop_last() =~= s);
}

/// A name without its trailing dot, if it has one.
fn strip_trailing_dot<'a>(full: &'a str) -> (r: &'a str)
    ensures
        r@ == without_trailing_dot(full@),
{
    let n = full.unicode_len();
    if n > 0 && full.get_char(n - 1) == '.' {
        let r = full.substring_char(0, n - 1);
        assert(r@ =~= without_trailing_dot(full@));
        r
    } else {
        full
    }
}

/// Whether `name` belongs to the domain called `domain`.
fn belongs(name: &str, domain: &str) -> (r: bool)
    ensures
        r == belongs_to(name@, domain@),
{
    if text_eq(name, domain) {
        return true;
    }
    let n = name.unicode_len();
    let m = domain.unicode_len();
    let ghost dotted = seq!['.'] + domain@;
    if n <= m {
        assert(!has_suffix(name@, dotted));
        return false;
    }
    let r = name.get_char(n - m - 1) == '.' && ends_with(name, domain);
    proof {
        if has_suffix(name@, dotted) {
            assert(name@[n - m - 1] == name@.subrange(n - m - 1, n as int)[0]);
            assert(name@.subrange(n - m, n as int) =~= name@.subrange(n - m - 1, n as int).subrange(1, m + 1));
            assert(dotted.subrange(1, m + 1) =~= domain@);
        }
        if r {
            assert(name@.subrange(n - m - 1, n as int) =~= dotted);
        }
    }
    r
}

/// The index of the domain with the longest name (the first of the longest
/// ones) that `name` belongs to.
fn best_domain_match(name: &str, domains: &Vec<Domain>) -> (r: Option<usize>)
    ensures
        r is None <==> no_domain_match(name@, domains@),
        r matches Some(b) ==> is_best_match(name@, domains@, b as int),
{
    let mut k: usize = 0;
    let mut best: Option<usize> = None;
    let mut best_len: usize = 0;
    while k < domains.len()
        invariant
            k <= domains@.len(),
            match best {
                None => forall|j: int|
                    0 <= j < k ==> !belongs_to(name@, #[trigger] domains@[j].name@),
                Some(b) => is_best_in(name@, domains@, k as int, b as int) && best_len
                    == domains@[b as int].name@.len(),
            },
        decreases domains@.len() - k,
    {
        if belongs(name, domains[k].name.as_str()) {
            let len_k = domains[k].name.unicode_len();
            match best {
                None => {
                    best = Some(k);
                    best_len = len_k;
                },
                Some(_) => {
                    if len_k > best_len {
                        best = Some(k);
                        best_len = len_k;
                    }
                },
            }
        }
        k = k + 1;
    }
    proof {
        if let Some(b) = best {
            if no_domain_match(name@, domains@) {
                assert(!belongs_to(name@, domains@[b as int].name@));
            }
        }
    }
    best
}

impl<'a> Domain<'a> {
    /// Finds the domain that a fully qualified name belongs to, and the part of
    /// the name in front of it: among the domains that the name (without its
    /// trailing dot) is, or ends with a dot and, the one with the longest name
    /// (the first of them if several are as long), and the name cut before
    /// that dot (empty when the name is the domain itself).
    /// e.g. "this.is.a.dummy.test.fr." with the domains "test.fr" and "nope.fr"
    /// gives the domain "test.fr" and "this.is.a.dummy".
    pub fn find_and_extract_path(full_domain_name: &'a str, domains: Vec<Domain<'a>>) -> (r: Option<
        (Self, &'a str),
    >)
        ensures
            match extracted_path(full_domain_name@, domains@) {
                None => r is None,
                Some((i, local)) => r is Some && r.unwrap().0 == domains@[i] && r.unwrap().1@ == local,
            },
            r is None <==> no_domain_match(without_trailing_dot(full_domain_name@), domains@),
    {
        let full = strip_trailing_dot(full_domain_name);
        let mut domains = domains;
        let ghost ds = domains@;
        match best_domain_match(full, &domains) {
            Some(b) => {
                proof {
                    lemma_best_match_unique(full@, ds, b as int, choose|i: int| #[trigger] is_best_match(full@, ds, i));
                }
                let n = full.unicode_len();
                let m = domains[b].name.unicode_len();
                let local = if n == m {
                    proof {
                        assert(full@ == ds[b as int].name@) by {
                            if full@ != ds[b as int].name@ {
                                assert(has_suffix(full@, seq!['.'] + ds[b as int].name@));
                            }
                        }
                    }
                    full.substring_char(0, 0)
                } else {
                    proof {
                        assert(full@ != ds[b as int].name@);
                        assert(has_suffix(full@, seq!['.'] + ds[b as int].name@));
                    }
                    full.substring_char(0, n - m - 1)
                };
                assert(local@ =~= local_part(full@, ds[b as int].name@));
                let d = domains.remove(b);
                Some((d, local))
            },
            None => {
                proof {
                    if exists|i: int| #[trigger] is_best_match(full@, ds, i) {
                        let i = choose|i: int| #[trigger] is_best_match(full@, ds, i);
                        assert(belongs_to(full@, ds[i].name@));
                    }
                }
                None
            },
        }
    }

    /// Picks out of the records of a zone those named `entry_name` and, when
    /// `entry_value` is given, holding that value; `None` when there is none.
    pub fn filter_records(&self, entries: &Vec<Record>, entry_name: &str, entry_value: Option<&str>) -> (r:
        Option<Vec<Record>>)
        ensures
            ({
                let kept = entries@.filter(selects(entry_name@, opt_text(entry_value)));
                &&& r is Some <==> kept.len() > 0
                &&& r matches Some(v) ==> v@ == kept
            }),
            r matches Some(v) ==> forall|k: int|
                0 <= k < v@.len() ==> (#[trigger] v@[k]).name@ == entry_name@ && (entry_value matches Some(
                    x,
                ) ==> v@[k].data@ == x@),
            forall|i: int|
                0 <= i < entries@.len() && (#[trigger] entries@[i]).name@ == entry_name@ && (
                entry_value matches Some(x) ==> entries@[i].data@ == x@) ==> (r matches Some(v)
                    && v@.contains(entries@[i])),
    {
        proof {
            lemma_filter_records_law(entries@, entry_name@, opt_text(entry_value));
        }
        let ghost pred = selects(entry_name@, opt_text(entry_value));
        let mut res: Vec<Record> = Vec::new();
        let mut i: usize = 0;
        while i < entries.len()
            invariant
                i <= entries@.len(),
                pred == selects(entry_name@, opt_text(entry_value)),
                res@ == entries@.take(i as int).filter(pred),
            decreases entries@.len() - i,
        {
            let e = &entries[i];
            let mut keep = text_eq(e.name.as_str(), entry_name);
            if keep {
                if let Some(data) = entry_value {
                    if !text_eq(data, e.data.as_str()) {
                        keep = false;
                    }
                }
            }
            assert(keep == pred(entries@[i as int]));
            if keep {
                res.push(e.clone());
            }
            proof {
                reveal_with_fuel(Seq::filter, 1);
                assert(entries@.take(i + 1).drop_last() =~= entries@.take(i as int));
            }
            i = i + 1;
        }
        assert(entries@.take(entries@.len() as int) =~= entries@);
        if res.len() > 0 {
            Some(res)
        } else {
            None
        }
    }
}

/// The zone that is in use: the first active one of `versions`, in order;
/// `InvalidVersion` when none is active.
pub fn current_version(versions: &Vec<Version>) -> (r: Result<Version, Error>)
    ensures
        match first_index(versions@, |v: Version| v.active) {
            Some(i) => r == Ok::<Version, Error>(versions@[i]),
            None => r matches Err(Error::InvalidVersion),
        },
{
    let ghost p = |v: Version| v.active;
    let mut i: usize = 0;
    while i < versions.len()
        invariant
            i <= versions@.len(),
            p == (|v: Version| v.active),
            forall|j: int| 0 <= j < i ==> !p(#[trigger] versions@[j]),
        decreases versions@.len() - i,
    {
        if versions[i].active {
            proof {
                lemma_first_index_found(versions@, p, 0, i as int);
            }
            return Ok(versions[i].clone());
        }
        i = i + 1;
    }
    proof {
        lemma_first_index_none(versions@, p, 0);
    }
    Err(Error::InvalidVersion)
}

/// Writes go only to a zone that is not in use: `ActiveZoneForbidden` for
/// the active zone.
pub fn ensure_inactive(zone: &Version) -> (r: Result<(), Error>)
    ensures
        zone.active <==> r is Err,
        r matches Err(e) ==> e is ActiveZoneForbidden,
{
    if zone.active {
        Err(Error::ActiveZoneForbidden)
    } else {
        Ok(())
    }
}

/// A record has the type `ty` and one of the two names.
pub open spec fn entry_candidate(r: Record, name: Seq<char>, short_name: Seq<char>, ty: DNSType) -> bool {
    r.record_type == ty && (r.name@ == name || r.name@ == short_name)
}

/// `data` is a quoted text: longer than two characters, with a double quote
/// as its first and as its last character.
pub open spec fn is_quoted(data: Seq<char>) -> bool {
    data.len() > 2 && data[0] == '"' && data.last() == '"'
}

/// The value `txt` is the data of a record, taken as it is or, when the data
/// is quoted, without the quotes around it.
pub open spec fn data_matches(data: Seq<char>, txt: Seq<char>) -> bool {
    ||| txt == data
    ||| is_quoted(data) && txt == data.subrange(1, data.len() - 1)
}

/// The record that `find_entry` looks for.
pub open spec fn entry_selected(
    r: Record,
    name: Seq<char>,
    short_name: Seq<char>,
    ty: DNSType,
    value: Option<Seq<char>>,
) -> bool {
    &&& entry_candidate(r, name, short_name, ty)
    &&& value matches Some(txt) ==> data_matches(r.data@, txt)
}

/// Whether `txt` is `data` without the quotes around it, `data` being quoted.
fn unquoted_equals(data: &str, txt: &str) -> (r: bool)
    ensures
        r == (is_quoted(data@) && txt@ == data@.subrange(1, data@.len() - 1)),
{
    let n = data.unicode_len();
    if n > 2 && data.get_char(0) == '"' && data.get_char(n - 1) == '"' {
        let inner = data.substring_char(1, n - 1);
        text_eq(inner, txt)
    } else {
        false
    }
}

/// The first record, in order, that has the type `ty`, the name `name` or
/// `short_name`, and, when `value` is given, that value as its data, as it is
/// or without the quotes around quoted data.
pub fn find_entry(
    records: &Vec<Record>,
    name: &str,
    short_name: &str,
    ty: DNSType,
    value: Option<&str>,
) -> (r: Option<Record>)
    ensures
        match first_index(
            records@,
            |e: Record| entry_selected(e, name@, short_name@, ty, opt_text(value)),
        ) {
            Some(i) => r == Some(records@[i]),
            None => r is None,
        },
        r matches Some(rec) ==> {
            &&& records@.contains(rec)
            &&& rec.record_type == ty
            &&& (rec.name@ == name@ || rec.name@ == short_name@)
            &&& (value matches Some(v) ==> (rec.data@ == v@ || (rec.data@.len() > 2 && rec.data@[0]
                == '"' && rec.data@[rec.data@.len() - 1] == '"' && v@ == rec.data@.subrange(
                1,
                rec.data@.len() - 1,
            ))))
        },
        r is None ==> forall|i: int|
            0 <= i < records@.len() ==> !{
                let d = #[trigger] records@[i];
                &&& d.record_type == ty
                &&& (d.name@ == name@ || d.name@ == short_name@)
                &&& (value matches Some(v) ==> (d.data@ == v@ || (d.data@.len() > 2 && d.data@[0]
                    == '"' && d.data@[d.data@.len() - 1] == '"' && v@ == d.data@.subrange(
                    1,
                    d.data@.len() - 1,
                ))))
            },
{
    let ghost p = |e: Record| entry_selected(e, name@, short_name@, ty, opt_text(value));
    let mut i: usize = 0;
    while i < records.len()
        invariant
            i <= records@.len(),
            p == (|e: Record| entry_selected(e, name@, short_name@, ty, opt_text(value))),
            forall|j: int| 0 <= j < i ==> !p(#[trigger] records@[j]),
        decreases records@.len() - i,
    {
        let record = &records[i];
        let candidate = record.record_type == ty && (text_eq(record.name.as_str(), name) || text_eq(
            record.name.as_str(),
            short_name,
        ));
        if candidate {
            let found = match value {
                None => true,
                Some(txt) => text_eq(txt, record.data.as_str()) || unquoted_equals(
                    record.data.as_str(),
                    txt,
                ),
            };
            assert(found == p(records@[i as int]));
            if found {
                proof {
                    lemma_first_index_found(records@, p, 0, i as int);
                    lemma_entry_selected_law(records@[i as int], name@, short_name@, ty, opt_text(value));
                    assert(records@.contains(records@[i as int]));
                }
                return Some(record.clone());
            }
        }
        i = i + 1;
    }
    proof {
        lemma_first_index_none(records@, p, 0);
        assert forall|j: int| 0 <= j < records@.len() implies !p(#[trigger] records@[j]) by {}
        assert forall|j: int| 0 <= j < records@.len() implies !entry_selected(
            #[trigger] records@[j],
            name@,
            short_name@,
            ty,
            opt_text(value),
        ) by {
            assert(!p(records@[j]));
        }
        assert forall|j: int| 0 <= j < records@.len() implies !{
            let d = #[trigger] records@[j];
            &&& d.record_type == ty
            &&& (d.name@ == name@ || d.name@ == short_name@)
            &&& (value matches Some(v) ==> (d.data@ == v@ || (d.data@.len() > 2 && d.data@[0] == '"'
                && d.data@[d.data@.len() - 1] == '"' && v@ == d.data@.subrange(1, d.data@.len() - 1))))
        } by {
            lemma_entry_selected_law(records@[j], name@, short_name@, ty, opt_text(value));
        }
    }
    None
}

/// `find_entry` takes a record exactly when the record has the type asked
/// for, one of the two names, and, when a value is given, that value as its
/// data, either as it is or between the double quotes that open and close
/// the data.
pub proof fn lemma_entry_selected_law(
    r: Record,
    name: Seq<char>,
    short_name: Seq<char>,
    ty: DNSType,
    value: Option<Seq<char>>,
)
    ensures
        entry_selected(r, name, short_name, ty, value) <==> {
            &&& r.record_type == ty
            &&& (r.name@ == name || r.name@ == short_name)
            &&& (value matches Some(v) ==> (r.data@ == v || (r.data@.len() > 2 && r.data@[0] == '"'
                && r.data@[r.data@.len() - 1] == '"' && v == r.data@.subrange(1, r.data@.len() - 1))))
        },
{
}

/// A record name written fully qualified: with its trailing dot, added when
/// it is missing.
pub open spec fn fully_qualified_name(name: Seq<char>) -> Seq<char> {
    if name.len() > 0 && name.last() == '.' {
        name
    } else {
        name.push('.')
    }
}

/// Writes `name` fully qualified, ending in a dot.
pub fn fully_qualified(name: &str) -> (r: String)
    ensures
        r@ == fully_qualified_name(name@),
{
    let mut r = name.to_owned();
    let n = name.unicode_len();
    if n > 0 && name.get_char(n - 1) == '.' {
        r
    } else {
        r.append(".");
        proof {
            reveal_strlit(".");
        }
        assert(r@ =~= name@.push('.'));
        r
    }
}

/// One record as a line of a BIND zone file: name, TTL, class, type, data.
pub open spec fn bind_line(r: Record) -> Seq<char> {
    r.name@ + " "@ + decimal_text(r.ttl as nat) + " IN "@ + r.record_type.spec_name() + " "@
        + r.data@ + "\n"@
}

/// The records as a BIND zone file, one line each, in order.
pub open spec fn bind_zone(records: Seq<Record>) -> Seq<char>
    decreases records.len(),
{
    if records.len() == 0 {
        Seq::empty()
    } else {
        bind_zone(records.drop_last()) + bind_line(records.last())
    }
}

/// The zone file holds every record, one line each, in order: the file of
/// two lists of records is the file of the first followed by the file of the
/// second, the file of no record is empty, and the file of one record is its
/// line `name ttl IN TYPE data`.
pub proof fn lemma_bind_zone_law(a: Seq<Record>, b: Seq<Record>, r: Record)
    ensures
        bind_zone(a + b) == bind_zone(a) + bind_zone(b),
        bind_zone(Seq::empty()) == Seq::<char>::empty(),
        bind_zone(seq![r]) == r.name@ + " "@ + decimal_text(r.ttl as nat) + " IN "@
            + r.record_type.spec_name() + " "@ + r.data@ + "\n"@,
    decreases b.len(),
{
    assert(seq![r].drop_last() =~= Seq::<Record>::empty());
    assert(bind_zone(seq![r].drop_last()) == Seq::<char>::empty());
    assert(bind_zone(seq![r]) =~= bind_line(r));
    if b.len() == 0 {
        assert(a + b =~= a);
        assert(bind_zone(a) + bind_zone(b) =~= bind_zone(a));
    } else {
        lemma_bind_zone_law(a, b.drop_last(), r);
        assert((a + b).drop_last() =~= a + b.drop_last());
        assert((a + b).last() == b.last());
        assert(bind_zone(a + b) =~= bind_zone(a) + bind_zone(b));
    }
}

/// Writes the records as a BIND zone file, the form in which the API takes a
/// whole zone.
pub fn to_bind(records: &[Record]) -> (s: String)
    ensures
        s@ == bind_zone(records@),
{
    let mut s = String::new();
    let mut i: usize = 0;
    while i < records.len()
        invariant
            i <= records@.len(),
            s@ == bind_zone(records@.subrange(0, i as int)),
        decreases records@.len() - i,
    {
        let r = &records[i];
        let ghost before = s@;
        s.append(r.name.as_str());
        s.append(" ");
        s.append(decimal_string(r.ttl as u128).as_str());
        s.append(" IN ");
        s.append(r.record_type.name().as_str());
        s.append(" ");
        s.append(r.data.as_str());
        s.append("\n");
        let ghost pre = records@.subrange(0, i + 1);
        assert(pre.drop_last() =~= records@.subrange(0, i as int));
        assert(pre.last() == records@[i as int]);
        assert(s@ =~= before + bind_line(records@[i as int]));
        i = i + 1;
    }
    assert(records@.subrange(0, records@.len() as int) =~= records@);
    s
}

} // verus!
