use vstd::prelude::*;

use crate::api::{
    record_form, request_is, version_endpoint, versions_endpoint, zone_endpoint, HttpMethod, Request,
};
use crate::net::form_pair;
use crate::dns::{Domain, Error, Record, Version};
use crate::zone::bind_zone;

verus! {

// Copying records into a zone: the zone is read back from the API to check
// that it is not the zone in use, its records are listed, and then each
// record to copy is added in turn (each addition checks the zone again). The
// result is the zone's records followed by the added records, as the API
// returns them.
/// Where a copy of records into a zone stands.
#[derive(Clone, Copy, Debug, PartialEq, Eq, Structural)]
pub enum CopyStage {
    /// The destination zone is being read.
    FetchingDestination,
    /// The records already in the destination are being listed.
    ListingDestination,
    /// The destination is being read again before adding source record `i`.
    FetchingForAdd(usize),
    /// Source record `i` is being added.
    Adding(usize),
    /// Nothing is left to do.
    Finished,
}

/// What the caller reports back after doing an action.
pub enum CopyEvent {
    /// The answer to `FetchVersion`.
    Fetched(Result<Version, Error>),
    /// The answer to `ListRecords`.
    Listed(Result<Vec<Record>, Error>),
    /// The answer to `AddRecord`: the record as created.
    Added(Result<Record, Error>),
}

/// What the caller is to do next.
pub enum CopyAction {
    /// Send this request; its answer is a zone.
    FetchVersion(Request),
    /// Send this request; its answer is a list of records.
    ListRecords(Request),
    /// Send this request; its answer is a record.
    AddRecord(Request),
    /// The copy is over, with this result.
    Done(Result<Vec<Record>, Error>),
}

/// A copy of the records `source` into the zone `destination` of `domain`;
/// `zone` holds the records gathered so far.
pub struct CopyRecords<'a> {
    pub domain: Domain<'a>,
    pub source: Vec<Record>,
    pub destination: Version,
    pub zone: Vec<Record>,
    pub stage: CopyStage,
}

/// The event that answers the action of `stage`.
pub open spec fn copy_answers(stage: CopyStage, event: CopyEvent) -> bool {
    match (stage, event) {
        (CopyStage::FetchingDestination, CopyEvent::Fetched(_)) => true,
        (CopyStage::ListingDestination, CopyEvent::Listed(_)) => true,
        (CopyStage::FetchingForAdd(_), CopyEvent::Fetched(_)) => true,
        (CopyStage::Adding(_), CopyEvent::Added(_)) => true,
        _ => false,
    }
}

/// The stages refer to records of the source.
pub open spec fn copy_wf(m: CopyRecords) -> bool {
    match m.stage {
        CopyStage::FetchingForAdd(i) => i < m.source@.len(),
        CopyStage::Adding(i) => i < m.source@.len(),
        _ => true,
    }
}

/// The request that reads the destination zone.
pub open spec fn fetches_destination(m: CopyRecords, a: CopyAction) -> bool {
    a matches CopyAction::FetchVersion(q) && request_is(
        q,
        HttpMethod::Get,
        version_endpoint(m.domain.name@, m.destination.uuid@),
        None,
    )
}

/// After the records up to `i` are in `m.zone`: the copy is over with that
/// zone when the source is exhausted, otherwise the destination is read
/// again before adding source record `i`.
pub open spec fn continues_at(m: CopyRecords, i: int, r: (CopyRecords, CopyAction)) -> bool {
    &&& r.0.domain == m.domain
    &&& r.0.source == m.source
    &&& r.0.destination == m.destination
    &&& if i >= m.source@.len() {
        &&& r.0.stage is Finished
        &&& r.1 == CopyAction::Done(Ok(m.zone))
    } else {
        &&& r.0.zone == m.zone
        &&& r.0.stage == CopyStage::FetchingForAdd(i as usize)
        &&& fetches_destination(m, r.1)
    }
}

/// The copy ends with this failure, and nothing else changes.
pub open spec fn fails_with(m: CopyRecords, e: Error, r: (CopyRecords, CopyAction)) -> bool {
    &&& r.0.domain == m.domain
    &&& r.0.source == m.source
    &&& r.0.destination == m.destination
    &&& r.0.stage is Finished
    &&& r.1 matches CopyAction::Done(Err(f)) && f == e
}

impl<'a> CopyRecords<'a> {
    /// Starts copying `source` into `destination`: first the destination is read.
    pub fn start(domain: &Domain<'a>, source: Vec<Record>, destination: &Version) -> (r: (
        CopyRecords<'a>,
        CopyAction,
    ))
        ensures
            r.0.domain == *domain,
            r.0.source == source,
            r.0.destination == *destination,
            r.0.zone@.len() == 0,
            r.0.stage is FetchingDestination,
            copy_wf(r.0),
            fetches_destination(r.0, r.1),
    {
        let q = domain.get_version_request(destination.uuid.as_str());
        (
            CopyRecords {
                domain: domain.clone(),
                source,
                destination: destination.clone(),
                zone: Vec::new(),
                stage: CopyStage::FetchingDestination,
            },
            CopyAction::FetchVersion(q),
        )
    }

    fn continue_at(self, i: usize) -> (r: (CopyRecords<'a>, CopyAction))
        requires
            i <= self.source@.len(),
        ensures
            continues_at(self, i as int, r),
            copy_wf(r.0),
    {
        if i >= self.source.len() {
            let CopyRecords { domain, source, destination, zone, stage: _ } = self;
            (
                CopyRecords { domain, source, destination, zone: Vec::new(), stage: CopyStage::Finished },
                CopyAction::Done(Ok(zone)),
            )
        } else {
            let q = self.domain.get_version_request(self.destination.uuid.as_str());
            let CopyRecords { domain, source, destination, zone, stage: _ } = self;
            (
                CopyRecords { domain, source, destination, zone, stage: CopyStage::FetchingForAdd(i) },
                CopyAction::FetchVersion(q),
            )
        }
    }

    fn fail(self, e: Error) -> (r: (CopyRecords<'a>, CopyAction))
        ensures
            fails_with(self, e, r),
            copy_wf(r.0),
    {
        let CopyRecords { domain, source, destination, zone, stage: _ } = self;
        (CopyRecords { domain, source, destination, zone, stage: CopyStage::Finished }, CopyAction::Done(Err(e)))
    }

    /// Takes the answer to the last action and gives the next one. A failure
    /// ends the copy with that failure; a destination found in use ends it
    /// with `ActiveZoneForbidden`; the listed records start the result, and
    /// each added record is appended to it.
    pub fn step(self, event: CopyEvent) -> (r: (CopyRecords<'a>, CopyAction))
        requires
            copy_answers(self.stage, event),
            copy_wf(self),
        ensures
            copy_wf(r.0),
            match (self.stage, event) {
                (CopyStage::FetchingDestination, CopyEvent::Fetched(Err(e))) => fails_with(self, e, r),
                (CopyStage::FetchingDestination, CopyEvent::Fetched(Ok(dst))) => if dst.active {
                    fails_with(self, Error::ActiveZoneForbidden, r)
                } else {
                    &&& r.0.domain == self.domain
                    &&& r.0.source == self.source
                    &&& r.0.destination == self.destination
                    &&& r.0.zone == self.zone
                    &&& r.0.stage is ListingDestination
                    &&& r.1 matches CopyAction::ListRecords(q) && request_is(
                        q,
                        HttpMethod::Get,
                        zone_endpoint(self.domain.name@, dst.uuid@),
                        None,
                    )
                },
                (CopyStage::ListingDestination, CopyEvent::Listed(Err(e))) => fails_with(self, e, r),
                (CopyStage::ListingDestination, CopyEvent::Listed(Ok(zone))) => continues_at(
                    CopyRecords { zone: zone, ..self },
                    0,
                    r,
                ),
                (CopyStage::FetchingForAdd(_), CopyEvent::Fetched(Err(e))) => fails_with(self, e, r),
                (CopyStage::FetchingForAdd(i), CopyEvent::Fetched(Ok(dst))) => if dst.active {
                    fails_with(self, Error::ActiveZoneForbidden, r)
                } else {
                    let rec = self.source@[i as int];
                    &&& r.0.domain == self.domain
                    &&& r.0.source == self.source
                    &&& r.0.destination == self.destination
                    &&& r.0.zone == self.zone
                    &&& r.0.stage == CopyStage::Adding(i)
                    &&& r.1 matches CopyAction::AddRecord(q) && request_is(
                        q,
                        HttpMethod::Post,
                        zone_endpoint(self.domain.name@, dst.uuid@),
                        Some(record_form(rec.name@, rec.record_type, rec.ttl, rec.data@)),
                    )
                },
                (CopyStage::Adding(_), CopyEvent::Added(Err(e))) => fails_with(self, e, r),
                (CopyStage::Adding(i), CopyEvent::Added(Ok(added))) => exists|z: Vec<Record>|
                    #![trigger z@]
                    z@ == self.zone@.push(added) && continues_at(
                        CopyRecords { zone: z, ..self },
                        i + 1,
                        r,
                    ),
                _ => false,
            },
    {
        let stage = self.stage;
        match event {
            CopyEvent::Fetched(fetched) => match fetched {
                Err(e) => self.fail(e),
                Ok(dst) => match stage {
                    CopyStage::FetchingDestination => match self.domain.copy_records_request(&dst) {
                        Err(e) => self.fail(e),
                        Ok(q) => {
                            let CopyRecords { domain, source, destination, zone, stage: _ } = self;
                            (
                                CopyRecords { domain, source, destination, zone, stage: CopyStage::ListingDestination },
                                CopyAction::ListRecords(q),
                            )
                        },
                    },
                    CopyStage::FetchingForAdd(i) => {
                        match self.domain.add_record_request(&dst, &self.source[i]) {
                            Err(e) => self.fail(e),
                            Ok(q) => {
                                let CopyRecords { domain, source, destination, zone, stage: _ } = self;
                                (
                                    CopyRecords { domain, source, destination, zone, stage: CopyStage::Adding(i) },
                                    CopyAction::AddRecord(q),
                                )
                            },
                        }
                    },
                    _ => {
                        assert(false);
                        self.fail(Error::InvalidVersion)
                    },
                },
            },
            CopyEvent::Listed(listed) => match listed {
                Err(e) => self.fail(e),
                Ok(zone) => {
                    let CopyRecords { domain, source, destination, zone: _, stage } = self;
                    let m = CopyRecords { domain, source, destination, zone, stage };
                    m.continue_at(0)
                },
            },
            CopyEvent::Added(added) => match added {
                Err(e) => self.fail(e),
                Ok(rec) => match stage {
                    CopyStage::Adding(i) => {
                        let CopyRecords { domain, source, destination, zone, stage } = self;
                        let n = source.len();
                        assert(i < n);
                        let mut zone = zone;
                        zone.push(rec);
                        let m = CopyRecords { domain, source, destination, zone, stage };
                        m.continue_at(i + 1)
                    },
                    _ => {
                        assert(false);
                        self.fail(Error::InvalidVersion)
                    },
                },
            },
        }
    }
}

// Duplicating a zone: the records of the source zone are listed, a new zone
// is created, read back to check that it is not in use, and filled with the
// listed records, sent as a BIND zone file. The result is the new zone.
/// Where a duplication of a zone stands.
pub enum DuplicateStage {
    /// The records of the source zone are being listed.
    ListingSource,
    /// The new zone is being created; these are the records to put in it.
    Creating(Vec<Record>),
    /// The new zone is being read back.
    FetchingNew(Vec<Record>, Version),
    /// The records are being put into the new zone.
    Replacing(Version),
    /// Nothing is left to do.
    Finished,
}

/// What the caller reports back after doing an action.
pub enum DuplicateEvent {
    /// The answer to `ListRecords`.
    Listed(Result<Vec<Record>, Error>),
    /// The answer to `CreateVersion`.
    Created(Result<Version, Error>),
    /// The answer to `FetchVersion`.
    Fetched(Result<Version, Error>),
    /// The answer to `ReplaceRecords`.
    Replaced(Result<(), Error>),
}

/// What the caller is to do next.
pub enum DuplicateAction {
    /// Send this request; its answer is a list of records.
    ListRecords(Request),
    /// Send this request; its answer is a zone.
    CreateVersion(Request),
    /// Send this request; its answer is a zone.
    FetchVersion(Request),
    /// Send this request; its answer is ignored.
    ReplaceRecords(Request),
    /// The duplication is over, with this result.
    Done(Result<Version, Error>),
}

/// A duplication of a zone of `domain` into a new zone called `version_name`.
pub struct DuplicateVersion<'a> {
    pub domain: Domain<'a>,
    pub version_name: String,
    pub stage: DuplicateStage,
}

/// The event that answers the action of `stage`.
pub open spec fn duplicate_answers(stage: DuplicateStage, event: DuplicateEvent) -> bool {
    match (stage, event) {
        (DuplicateStage::ListingSource, DuplicateEvent::Listed(_)) => true,
        (DuplicateStage::Creating(_), DuplicateEvent::Created(_)) => true,
        (DuplicateStage::FetchingNew(_, _), DuplicateEvent::Fetched(_)) => true,
        (DuplicateStage::Replacing(_), DuplicateEvent::Replaced(_)) => true,
        _ => false,
    }
}

/// The next stage, and the result when the duplication is over: the first
/// failure ends it; a new zone found in use ends it with
/// `ActiveZoneForbidden`; when every step succeeds the result is the new zone.
pub open spec fn duplicate_transition(stage: DuplicateStage, event: DuplicateEvent) -> (
    DuplicateStage,
    Option<Result<Version, Error>>,
) {
    match (stage, event) {
        (DuplicateStage::ListingSource, DuplicateEvent::Listed(listed)) => match listed {
            Ok(es) => (DuplicateStage::Creating(es), None),
            Err(e) => (DuplicateStage::Finished, Some(Err(e))),
        },
        (DuplicateStage::Creating(es), DuplicateEvent::Created(created)) => match created {
            Ok(v) => (DuplicateStage::FetchingNew(es, v), None),
            Err(e) => (DuplicateStage::Finished, Some(Err(e))),
        },
        (DuplicateStage::FetchingNew(_, v), DuplicateEvent::Fetched(fetched)) => match fetched {
            Ok(dst) => if dst.active {
                (DuplicateStage::Finished, Some(Err(Error::ActiveZoneForbidden)))
            } else {
                (DuplicateStage::Replacing(v), None)
            },
            Err(e) => (DuplicateStage::Finished, Some(Err(e))),
        },
        (DuplicateStage::Replacing(v), DuplicateEvent::Replaced(replaced)) => match replaced {
            Ok(_) => (DuplicateStage::Finished, Some(Ok(v))),
            Err(e) => (DuplicateStage::Finished, Some(Err(e))),
        },
        (s, _) => (s, None),
    }
}

impl<'a> DuplicateVersion<'a> {
    /// Starts duplicating `source` into a new zone called `version_name`: first
    /// the records of `source` are listed.
    pub fn start(domain: &Domain<'a>, source: &Version, version_name: &str) -> (r: (
        DuplicateVersion<'a>,
        DuplicateAction,
    ))
        ensures
            r.0.domain == *domain,
            r.0.version_name@ == version_name@,
            r.0.stage is ListingSource,
            r.1 matches DuplicateAction::ListRecords(q) && request_is(
                q,
                HttpMethod::Get,
                zone_endpoint(domain.name@, source.uuid@),
                None,
            ),
    {
        let q = domain.get_zone_records_request(source);
        (
            DuplicateVersion {
                domain: domain.clone(),
                version_name: version_name.to_owned(),
                stage: DuplicateStage::ListingSource,
            },
            DuplicateAction::ListRecords(q),
        )
    }

    /// Takes the answer to the last action and gives the next one.
    pub fn step(self, event: DuplicateEvent) -> (r: (DuplicateVersion<'a>, DuplicateAction))
        requires
            duplicate_answers(self.stage, event),
        ensures
            r.0.domain == self.domain,
            r.0.version_name == self.version_name,
            r.0.stage == duplicate_transition(self.stage, event).0,
            match duplicate_transition(self.stage, event).1 {
                Some(res) => r.1 == DuplicateAction::Done(res),
                None => match r.0.stage {
                    DuplicateStage::Creating(_) => r.1 matches DuplicateAction::CreateVersion(q)
                        && request_is(
                        q,
                        HttpMethod::Post,
                        versions_endpoint(self.domain.name@),
                        Some(form_pair("name"@, self.version_name@)),
                    ),
                    DuplicateStage::FetchingNew(_, v) => r.1 matches DuplicateAction::FetchVersion(q)
                        && request_is(q, HttpMethod::Get, version_endpoint(self.domain.name@, v.uuid@), None),
                    DuplicateStage::Replacing(_) => self.stage matches DuplicateStage::FetchingNew(es, _)
                        && event matches DuplicateEvent::Fetched(Ok(dst)) && r.1 matches DuplicateAction::ReplaceRecords(q)
                        && request_is(
                        q,
                        HttpMethod::Put,
                        version_endpoint(self.domain.name@, dst.uuid@) + "/zone_from_bind"@,
                        Some(bind_zone(es@)),
                    ),
                    _ => false,
                },
            },
    {
        let DuplicateVersion { domain, version_name, stage } = self;
        match (stage, event) {
            (DuplicateStage::ListingSource, DuplicateEvent::Listed(listed)) => match listed {
                Ok(es) => {
                    let q = domain.add_version_request(version_name.as_str());
                    (DuplicateVersion { domain, version_name, stage: DuplicateStage::Creating(es) }, DuplicateAction::CreateVersion(q))
                },
                Err(e) => (DuplicateVersion { domain, version_name, stage: DuplicateStage::Finished }, DuplicateAction::Done(Err(e))),
            },
            (DuplicateStage::Creating(es), DuplicateEvent::Created(created)) => match created {
                Ok(v) => {
                    let q = domain.get_version_request(v.uuid.as_str());
                    (
                        DuplicateVersion { domain, version_name, stage: DuplicateStage::FetchingNew(es, v) },
                        DuplicateAction::FetchVersion(q),
                    )
                },
                Err(e) => (DuplicateVersion { domain, version_name, stage: DuplicateStage::Finished }, DuplicateAction::Done(Err(e))),
            },
            (DuplicateStage::FetchingNew(es, v), DuplicateEvent::Fetched(fetched)) => match fetched {
                Ok(dst) => match domain.set_zone_entries_request(&dst, es.as_slice()) {
                    Ok(q) => (
                        DuplicateVersion { domain, version_name, stage: DuplicateStage::Replacing(v) },
                        DuplicateAction::ReplaceRecords(q),
                    ),
                    Err(e) => (DuplicateVersion { domain, version_name, stage: DuplicateStage::Finished }, DuplicateAction::Done(Err(e))),
                },
                Err(e) => (DuplicateVersion { domain, version_name, stage: DuplicateStage::Finished }, DuplicateAction::Done(Err(e))),
            },
            (DuplicateStage::Replacing(v), DuplicateEvent::Replaced(replaced)) => match replaced {
                Ok(_) => (DuplicateVersion { domain, version_name, stage: DuplicateStage::Finished }, DuplicateAction::Done(Ok(v))),
                Err(e) => (DuplicateVersion { domain, version_name, stage: DuplicateStage::Finished }, DuplicateAction::Done(Err(e))),
            },
            (_, _) => {
                assert(false);
                (
                    DuplicateVersion { domain, version_name, stage: DuplicateStage::Finished },
                    DuplicateAction::Done(Err(Error::InvalidVersion)),
                )
            },
        }
    }
}

/// The result that a run of the duplication ends with when the caller
/// answers the actions in turn with `events`, if the events carry it that far.
pub open spec fn run_duplicate(stage: DuplicateStage, events: Seq<DuplicateEvent>) -> Option<
    Result<Version, Error>,
>
    decreases events.len(),
{
    if events.len() == 0 {
        None
    } else {
        let (next, done) = duplicate_transition(stage, events[0]);
        match done {
            Some(res) => Some(res),
            None => run_duplicate(next, events.drop_first()),
        }
    }
}

/// A duplication gives the new zone exactly when listing the source, creating
/// the new zone, reading it back (not in use) and filling it all succeed; it
/// gives the first failure otherwise.
pub proof fn lemma_duplicate_outcome(
    listed: Result<Vec<Record>, Error>,
    created: Result<Version, Error>,
    fetched: Result<Version, Error>,
    replaced: Result<(), Error>,
)
    ensures
        run_duplicate(
            DuplicateStage::ListingSource,
            seq![
                DuplicateEvent::Listed(listed),
                DuplicateEvent::Created(created),
                DuplicateEvent::Fetched(fetched),
                DuplicateEvent::Replaced(replaced),
            ],
        ) == Some(
            match (listed, created, fetched, replaced) {
                (Err(e), _, _, _) => Err(e),
                (Ok(_), Err(e), _, _) => Err(e),
                (Ok(_), Ok(_), Err(e), _) => Err(e),
                (Ok(_), Ok(_), Ok(dst), _) if dst.active => Err(Error::ActiveZoneForbidden),
                (Ok(_), Ok(_), Ok(_), Err(e)) => Err(e),
                (Ok(_), Ok(v), Ok(_), Ok(_)) => Ok(v),
            },
        ),
{
    let evs = seq![
        DuplicateEvent::Listed(listed),
        DuplicateEvent::Created(created),
        DuplicateEvent::Fetched(fetched),
        DuplicateEvent::Replaced(replaced),
    ];
    let e1 = evs.drop_first();
    let e2 = e1.drop_first();
    let e3 = e2.drop_first();
    assert(e1 =~= seq![
        DuplicateEvent::Created(created),
        DuplicateEvent::Fetched(fetched),
        DuplicateEvent::Replaced(replaced),
    ]);
    assert(e2 =~= seq![DuplicateEvent::Fetched(fetched), DuplicateEvent::Replaced(replaced)]);
    assert(e3 =~= seq![DuplicateEvent::Replaced(replaced)]);
    assert(e3.drop_first().len() == 0);
    reveal_with_fuel(run_duplicate, 5);
}

} // verus!
