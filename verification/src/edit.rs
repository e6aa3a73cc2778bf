use vstd::prelude::*;

use crate::api::{request_is, version_endpoint, versions_endpoint, HttpMethod, Request};
use crate::dns::{Domain, Error, Version};
use crate::net::form_pair;
use crate::text::{decimal_string, decimal_text};
use crate::zone::{current_version, first_index};

verus! {

// The API does not let a record of the zone in use be edited directly, but it
// does edit it when the edit names another, freshly created zone: a temporary
// zone is created, the edit is sent against it, the temporary zone is deleted,
// and the zone in use is enabled again so that the DNS servers reload it.
/// Where an edit through a temporary zone stands.
pub enum FakeEditStage<R> {
    /// The temporary zone has been asked for.
    Creating,
    /// The temporary zone exists; the edit runs against it.
    Editing(Version),
    /// The temporary zone is being deleted; the edit's result is kept.
    Deleting(Result<R, Error>),
    /// The zones are being listed to find the one in use.
    Listing(Result<R, Error>),
    /// The zone in use is being enabled again.
    Enabling(Result<R, Error>),
    /// Nothing is left to do.
    Finished,
}

/// What the caller reports back after doing an action.
pub enum FakeEditEvent<R> {
    /// The answer to `CreateVersion`: the temporary zone.
    Created(Result<Version, Error>),
    /// What the edit gave.
    Edited(Result<R, Error>),
    /// The answer to `DeleteVersion`.
    Deleted(Result<(), Error>),
    /// The answer to `ListVersions`: the zones of the domain.
    Listed(Result<Vec<Version>, Error>),
    /// The answer to `EnableVersion`.
    Enabled(Result<(), Error>),
}

/// What the caller is to do next.
pub enum FakeEditAction<R> {
    /// Send this request; its answer is a zone.
    CreateVersion(Request),
    /// Run the edit against this zone.
    RunEdit(Version),
    /// Send this request; its answer is ignored.
    DeleteVersion(Request),
    /// Send this request; its answer is the list of zones.
    ListVersions(Request),
    /// Send this request; its answer is ignored.
    EnableVersion(Request),
    /// The edit through a temporary zone is over, with this result.
    Done(Result<R, Error>),
}

/// An edit of the zone in use, made through a temporary zone of `domain`.
pub struct FakeEdit<'a, R> {
    pub domain: Domain<'a>,
    pub stage: FakeEditStage<R>,
}

/// The name of the temporary zone created at `now_millis` (milliseconds
/// since the UNIX epoch).
pub open spec fn temporary_version_name(now_millis: u128) -> Seq<char> {
    "tmp-autoedit-"@ + decimal_text(now_millis as nat)
}

/// A zone that is in use.
pub open spec fn is_active() -> spec_fn(Version) -> bool {
    |v: Version| v.active
}

/// The event that answers the action of `stage`.
pub open spec fn answers<R>(stage: FakeEditStage<R>, event: FakeEditEvent<R>) -> bool {
    match (stage, event) {
        (FakeEditStage::Creating, FakeEditEvent::Created(_)) => true,
        (FakeEditStage::Editing(_), FakeEditEvent::Edited(_)) => true,
        (FakeEditStage::Deleting(_), FakeEditEvent::Deleted(_)) => true,
        (FakeEditStage::Listing(_), FakeEditEvent::Listed(_)) => true,
        (FakeEditStage::Enabling(_), FakeEditEvent::Enabled(_)) => true,
        _ => false,
    }
}

/// The next stage, and the result when the edit is over: a failure to create
/// the temporary zone ends it with that failure; whatever the edit gives, the
/// temporary zone is deleted and the zone in use enabled again; a failure of
/// one of those steps ends it with that failure, and when they all succeed
/// the result is the edit's.
pub open spec fn transition<R>(stage: FakeEditStage<R>, event: FakeEditEvent<R>) -> (
    FakeEditStage<R>,
    Option<Result<R, Error>>,
) {
    match (stage, event) {
        (FakeEditStage::Creating, FakeEditEvent::Created(created)) => match created {
            Ok(v) => (FakeEditStage::Editing(v), None),
            Err(e) => (FakeEditStage::Finished, Some(Err(e))),
        },
        (FakeEditStage::Editing(_), FakeEditEvent::Edited(res)) => (FakeEditStage::Deleting(res), None),
        (FakeEditStage::Deleting(res), FakeEditEvent::Deleted(deleted)) => match deleted {
            Ok(_) => (FakeEditStage::Listing(res), None),
            Err(e) => (FakeEditStage::Finished, Some(Err(e))),
        },
        (FakeEditStage::Listing(res), FakeEditEvent::Listed(listed)) => match listed {
            Ok(vs) => match first_index(vs@, is_active()) {
                Some(_) => (FakeEditStage::Enabling(res), None),
                None => (FakeEditStage::Finished, Some(Err(Error::InvalidVersion))),
            },
            Err(e) => (FakeEditStage::Finished, Some(Err(e))),
        },
        (FakeEditStage::Enabling(res), FakeEditEvent::Enabled(enabled)) => match enabled {
            Ok(_) => (FakeEditStage::Finished, Some(res)),
            Err(e) => (FakeEditStage::Finished, Some(Err(e))),
        },
        (s, _) => (s, None),
    }
}

impl<'a, R> FakeEdit<'a, R> {
    /// Starts an edit of the zone in use of `domain`: the first action asks
    /// for a temporary zone named after `now_millis`.
    pub fn start(domain: &Domain<'a>, now_millis: u128) -> (r: (FakeEdit<'a, R>, FakeEditAction<R>))
        ensures
            r.0.domain == *domain,
            r.0.stage is Creating,
            r.1 matches FakeEditAction::CreateVersion(q) && request_is(
                q,
                HttpMethod::Post,
                versions_endpoint(domain.name@),
                Some(form_pair("name"@, temporary_version_name(now_millis))),
            ),
    {
        let mut name = "tmp-autoedit-".to_owned();
        name.append(decimal_string(now_millis).as_str());
        let q = domain.add_version_request(name.as_str());
        (FakeEdit { domain: domain.clone(), stage: FakeEditStage::Creating }, FakeEditAction::CreateVersion(q))
    }

    /// Takes the answer to the last action and gives the next one.
    pub fn step(self, event: FakeEditEvent<R>) -> (r: (FakeEdit<'a, R>, FakeEditAction<R>))
        requires
            answers(self.stage, event),
        ensures
            r.0.domain == self.domain,
            r.0.stage == transition(self.stage, event).0,
            match transition(self.stage, event).1 {
                Some(res) => r.1 == FakeEditAction::Done(res),
                None => match r.0.stage {
                    FakeEditStage::Editing(v) => r.1 == FakeEditAction::<R>::RunEdit(v),
                    FakeEditStage::Deleting(_) => self.stage matches FakeEditStage::Editing(v)
                        && r.1 matches FakeEditAction::DeleteVersion(q) && request_is(
                        q,
                        HttpMethod::Delete,
                        version_endpoint(self.domain.name@, v.uuid@),
                        None,
                    ),
                    FakeEditStage::Listing(_) => r.1 matches FakeEditAction::ListVersions(q)
                        && request_is(q, HttpMethod::Get, versions_endpoint(self.domain.name@), None),
                    FakeEditStage::Enabling(_) => event matches FakeEditEvent::Listed(Ok(vs))
                        && r.1 matches FakeEditAction::EnableVersion(q) && request_is(
                        q,
                        HttpMethod::Patch,
                        version_endpoint(
                            self.domain.name@,
                            vs@[first_index(vs@, is_active()).unwrap()].uuid@,
                        ) + "/enable"@,
                        None,
                    ),
                    _ => false,
                },
            },
    {
        let FakeEdit { domain, stage } = self;
        match (stage, event) {
            (FakeEditStage::Creating, FakeEditEvent::Created(created)) => match created {
                Ok(v) => {
                    let action = FakeEditAction::RunEdit(v.clone());
                    (FakeEdit { domain, stage: FakeEditStage::Editing(v) }, action)
                },
                Err(e) => (FakeEdit { domain, stage: FakeEditStage::Finished }, FakeEditAction::Done(Err(e))),
            },
            (FakeEditStage::Editing(v), FakeEditEvent::Edited(res)) => {
                let q = domain.delete_version_request(&v);
                (FakeEdit { domain, stage: FakeEditStage::Deleting(res) }, FakeEditAction::DeleteVersion(q))
            },
            (FakeEditStage::Deleting(res), FakeEditEvent::Deleted(deleted)) => match deleted {
                Ok(_) => {
                    let q = domain.get_versions_request();
                    (FakeEdit { domain, stage: FakeEditStage::Listing(res) }, FakeEditAction::ListVersions(q))
                },
                Err(e) => (FakeEdit { domain, stage: FakeEditStage::Finished }, FakeEditAction::Done(Err(e))),
            },
            (FakeEditStage::Listing(res), FakeEditEvent::Listed(listed)) => match listed {
                Ok(vs) => match current_version(&vs) {
                    Ok(cur) => {
                        let q = domain.enable_version_request(&cur);
                        (
                            FakeEdit { domain, stage: FakeEditStage::Enabling(res) },
                            FakeEditAction::EnableVersion(q),
                        )
                    },
                    Err(e) => (FakeEdit { domain, stage: FakeEditStage::Finished }, FakeEditAction::Done(Err(e))),
                },
                Err(e) => (FakeEdit { domain, stage: FakeEditStage::Finished }, FakeEditAction::Done(Err(e))),
            },
            (FakeEditStage::Enabling(res), FakeEditEvent::Enabled(enabled)) => match enabled {
                Ok(_) => (FakeEdit { domain, stage: FakeEditStage::Finished }, FakeEditAction::Done(res)),
                Err(e) => (FakeEdit { domain, stage: FakeEditStage::Finished }, FakeEditAction::Done(Err(e))),
            },
            (_, _) => {
                assert(false);
                (FakeEdit { domain, stage: FakeEditStage::Finished }, FakeEditAction::Done(Err(Error::InvalidVersion)))
            },
        }
    }
}

/// The result that a run of the edit ends with when the caller answers the
/// actions in turn with `events`, if the events carry it that far.
pub open spec fn run_events<R>(stage: FakeEditStage<R>, events: Seq<FakeEditEvent<R>>) -> Option<
    Result<R, Error>,
>
    decreases events.len(),
{
    if events.len() == 0 {
        None
    } else {
        let (next, done) = transition(stage, events[0]);
        match done {
            Some(res) => Some(res),
            None => run_events(next, events.drop_first()),
        }
    }
}

/// The result of an edit through a temporary zone: the first failure among
/// creating the temporary zone, deleting it, listing the zones, finding the
/// zone in use and enabling it; the edit's own result when none failed.
pub open spec fn fake_edit_outcome<R>(
    created: Result<Version, Error>,
    edited: Result<R, Error>,
    deleted: Result<(), Error>,
    listed: Result<Vec<Version>, Error>,
    enabled: Result<(), Error>,
) -> Result<R, Error> {
    match created {
        Err(e) => Err(e),
        Ok(_) => match deleted {
            Err(e) => Err(e),
            Ok(_) => match listed {
                Err(e) => Err(e),
                Ok(vs) => if first_index(vs@, is_active()) is None {
                    Err(Error::InvalidVersion)
                } else {
                    match enabled {
                        Err(e) => Err(e),
                        Ok(_) => edited,
                    }
                },
            },
        },
    }
}

/// An edit through a temporary zone ends, whatever the answers, with the
/// first failure among the steps around the edit, and with the edit's own
/// result only when the temporary zone was created, deleted again, and the
/// zone in use enabled again.
pub proof fn lemma_fake_edit_outcome<R>(
    created: Result<Version, Error>,
    edited: Result<R, Error>,
    deleted: Result<(), Error>,
    listed: Result<Vec<Version>, Error>,
    enabled: Result<(), Error>,
)
    ensures
        run_events(
            FakeEditStage::Creating,
            seq![
                FakeEditEvent::Created(created),
                FakeEditEvent::Edited(edited),
                FakeEditEvent::Deleted(deleted),
                FakeEditEvent::Listed(listed),
                FakeEditEvent::Enabled(enabled),
            ],
        ) == Some(fake_edit_outcome(created, edited, deleted, listed, enabled)),
{
    let evs = seq![
        FakeEditEvent::Created(created),
        FakeEditEvent::Edited(edited),
        FakeEditEvent::Deleted(deleted),
        FakeEditEvent::Listed(listed),
        FakeEditEvent::Enabled(enabled),
    ];
    let e1 = evs.drop_first();
    let e2 = e1.drop_first();
    let e3 = e2.drop_first();
    let e4 = e3.drop_first();
    let e5 = e4.drop_first();
    assert(e1 =~= seq![
        FakeEditEvent::Edited(edited),
        FakeEditEvent::Deleted(deleted),
        FakeEditEvent::Listed(listed),
        FakeEditEvent::Enabled(enabled),
    ]);
    assert(e2 =~= seq![
        FakeEditEvent::Deleted(deleted),
        FakeEditEvent::Listed(listed),
        FakeEditEvent::Enabled(enabled),
    ]);
    assert(e3 =~= seq![FakeEditEvent::Listed(listed), FakeEditEvent::Enabled(enabled)]);
    assert(e4 =~= seq![FakeEditEvent::<R>::Enabled(enabled)]);
    assert(e5.len() == 0);
    reveal_with_fuel(run_events, 6);
}

/// Once the temporary zone exists, whatever the edit gives, the next step
/// deletes it: the edit's result is kept and the run is not over.
pub proof fn lemma_temporary_zone_always_deleted<R>(v: Version, edited: Result<R, Error>)
    ensures
        transition(FakeEditStage::Editing(v), FakeEditEvent::Edited(edited)) == (
            FakeEditStage::Deleting(edited),
            None::<Result<R, Error>>,
        ),
{
}

} // verus!
