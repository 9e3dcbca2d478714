//! An update from the manifest to the installed build, one event at a time.
use vstd::prelude::*;
use vstd::string::*;

use crate::paths::{FilePath, Step};
use crate::text::{slice_in, text_in};
use crate::utils::rid::{Host, RidCatalog};

use super::checksum::{digest_is, hex_of, judged, sha256, verify_digest, Checksum, MOST_BYTES};
use super::error::{UResult, UpdateError};
use super::install::{
    install_asks, next_phase, staged_beside, InstallAction, InstallEvent, InstallPhase, Installation,
};
use super::manifest::{plan_update, planned, Download, ManifestInfo, UpdatePlan};

verus! {

/// How an update ended.
pub enum UpdateEnd {
    /// There was nothing to install.
    Nothing,
    Installed { version: String },
    Failed(UpdateError),
}

/// What an update is waiting for.
pub enum UpdatePhase {
    /// The manifest.
    Fetching,
    /// The answer of the server that has the build.
    Requesting(Download),
    /// The next piece of the build.
    Receiving(Download, Checksum),
    /// The next step of putting it in place.
    Installing { version: String, installation: Installation },
    Ended(UpdateEnd),
}

/// What happened.
pub enum UpdateEvent {
    /// The manifest, if it could be fetched.
    Fetched(Option<ManifestInfo>),
    /// The server answered with the build, or not.
    Answered(UResult<()>),
    /// The next piece came in and was stored.
    Piece(Vec<u8>),
    /// That was the last piece.
    Complete,
    /// The rest of the build could not be received or stored.
    Broken(UpdateError),
    /// A step of putting the build in place was done.
    Placed(InstallEvent),
}

/// What has to be done next.
pub enum UpdateAction {
    FetchManifest,
    Request { url: String },
    Receive,
    Place(InstallAction),
    Finish,
}

/// An update of the build at `path`, of which `current` is installed.
pub struct UpdateRun {
    pub current: Option<String>,
    pub path: FilePath,
    pub phase: UpdatePhase,
}

/// How a plan goes on.
pub open spec fn after_plan(plan: UpdatePlan) -> UpdatePhase {
    match plan {
        UpdatePlan::Nothing => UpdatePhase::Ended(UpdateEnd::Nothing),
        UpdatePlan::Install(d) => UpdatePhase::Requesting(d),
        UpdatePlan::Refused(e) => UpdatePhase::Ended(UpdateEnd::Failed(e)),
    }
}

/// How the steps of putting a build in place go on.
pub open spec fn after_placing(version: String, i: Installation) -> UpdatePhase {
    match i.phase {
        InstallPhase::Installed => UpdatePhase::Ended(UpdateEnd::Installed { version }),
        InstallPhase::Failed(e) => UpdatePhase::Ended(UpdateEnd::Failed(e)),
        _ => UpdatePhase::Installing { version, installation: i },
    }
}

/// Whether `then` is what follows on a build that is complete: it is put in place
/// if its digest is the promised one.
pub open spec fn follows_digest(
    path: Seq<Step>,
    d: Download,
    digest: Seq<u8>,
    then: UpdatePhase,
) -> bool {
    match then {
        UpdatePhase::Installing { version, installation } => {
            &&& digest_is(digest, d.sha256@)
            &&& version == d.version
            &&& installation.dest@ == path
            &&& staged_beside(installation)
            &&& installation.phase is LookingForStale
        },
        UpdatePhase::Ended(UpdateEnd::Failed(e)) => judged(digest, d.sha256@, Err(e)),
        _ => false,
    }
}

/// Whether an event leads from one phase to another.
pub open spec fn moves(
    u: UpdateRun,
    catalog: RidCatalog,
    host: Host,
    e: UpdateEvent,
    then: UpdatePhase,
) -> bool {
    match (u.phase, e) {
        (UpdatePhase::Fetching, UpdateEvent::Fetched(m)) => exists|plan: UpdatePlan| #[trigger]
            planned(catalog, host, m, text_in(u.current), plan) && then == after_plan(plan),
        (UpdatePhase::Requesting(d), UpdateEvent::Answered(r)) => match r {
            Ok(()) => then matches UpdatePhase::Receiving(d2, c) && d2 == d && c@ == Seq::<
                u8,
            >::empty(),
            Err(why) => then == UpdatePhase::Ended(UpdateEnd::Failed(why)),
        },
        (UpdatePhase::Receiving(d, c), UpdateEvent::Piece(bytes)) => {
            then matches UpdatePhase::Receiving(d2, c2) && d2 == d && c2@ == c@ + bytes@
        },
        (UpdatePhase::Receiving(d, c), UpdateEvent::Complete) => follows_digest(
            u.path@,
            d,
            sha256(c@),
            then,
        ),
        (UpdatePhase::Receiving(_, _), UpdateEvent::Broken(why)) => then == UpdatePhase::Ended(
            UpdateEnd::Failed(why),
        ),
        (UpdatePhase::Installing { version, installation }, UpdateEvent::Placed(step)) => then
            == after_placing(
            version,
            match next_phase(installation.phase, step) {
                Some(phase) => Installation { phase, ..installation },
                None => installation,
            },
        ),
        _ => then == u.phase,
    }
}

/// Whether `a` is what an update asks for.
pub open spec fn update_asks(u: UpdateRun, a: UpdateAction) -> bool {
    match u.phase {
        UpdatePhase::Fetching => a == UpdateAction::FetchManifest,
        UpdatePhase::Requesting(d) => a matches UpdateAction::Request { url } && url@ == d.url@,
        UpdatePhase::Receiving(_, _) => a == UpdateAction::Receive,
        UpdatePhase::Installing { installation, .. } => a matches UpdateAction::Place(step)
            && install_asks(installation, step),
        UpdatePhase::Ended(_) => a == UpdateAction::Finish,
    }
}

/// What follows on a build that is complete, by its digest.
pub fn after_digest(path: &FilePath, d: Download, digest: &[u8]) -> (r: UpdatePhase)
    ensures
        follows_digest(path@, d, digest@, r),
{
    match verify_digest(digest, d.sha256.as_str()) {
        Ok(_) => UpdatePhase::Installing {
            version: d.version,
            installation: Installation::new(path),
        },
        Err(e) => UpdatePhase::Ended(UpdateEnd::Failed(e)),
    }
}

impl UpdateRun {
    /// An update that has not begun.
    pub fn new(current: Option<String>, path: FilePath) -> (r: Self)
        ensures
            r.current == current,
            r.path == path,
            r.phase == UpdatePhase::Fetching,
    {
        UpdateRun { current, path, phase: UpdatePhase::Fetching }
    }

    /// How many more bytes can come in.
    pub fn room(&self) -> (r: u64)
        ensures
            self.phase matches UpdatePhase::Receiving(_, c) ==> c@.len() + r == MOST_BYTES,
            !(self.phase is Receiving) ==> r == MOST_BYTES,
    {
        match &self.phase {
            UpdatePhase::Receiving(_, c) => MOST_BYTES - c.downloaded(),
            _ => MOST_BYTES,
        }
    }

    /// What has to be done next.
    pub fn action(&self) -> (r: UpdateAction)
        ensures
            update_asks(*self, r),
    {
        match &self.phase {
            UpdatePhase::Fetching => UpdateAction::FetchManifest,
            UpdatePhase::Requesting(d) => UpdateAction::Request { url: d.url.clone() },
            UpdatePhase::Receiving(_, _) => UpdateAction::Receive,
            UpdatePhase::Installing { version: _, installation } => UpdateAction::Place(
                installation.action(),
            ),
            UpdatePhase::Ended(_) => UpdateAction::Finish,
        }
    }

    /// Takes in what happened. An event that is not waited for changes nothing.
    pub fn step(self, catalog: &RidCatalog, host: &Host, event: UpdateEvent) -> (r: Self)
        requires
            match (self.phase, event) {
                (UpdatePhase::Receiving(_, c), UpdateEvent::Piece(bytes)) => c@.len() + bytes@.len()
                    <= MOST_BYTES,
                _ => true,
            },
        ensures
            r.current == self.current,
            r.path == self.path,
            moves(self, *catalog, *host, event, r.phase),
    {
        let current = self.current;
        let path = self.path;
        let phase = match (self.phase, event) {
            (UpdatePhase::Fetching, UpdateEvent::Fetched(m)) => {
                let installed = match &current {
                    Some(v) => Some(v.as_str()),
                    None => None,
                };
                let plan = match &m {
                    Some(manifest) => plan_update(catalog, host, Some(manifest), installed),
                    None => plan_update(catalog, host, None, installed),
                };
                assert(slice_in(installed) == text_in(current));
                assert(planned(*catalog, *host, m, text_in(current), plan));
                match plan {
                    UpdatePlan::Nothing => UpdatePhase::Ended(UpdateEnd::Nothing),
                    UpdatePlan::Install(d) => UpdatePhase::Requesting(d),
                    UpdatePlan::Refused(e) => UpdatePhase::Ended(UpdateEnd::Failed(e)),
                }
            },
            (UpdatePhase::Requesting(d), UpdateEvent::Answered(r)) => match r {
                Ok(()) => UpdatePhase::Receiving(d, Checksum::new()),
                Err(why) => UpdatePhase::Ended(UpdateEnd::Failed(why)),
            },
            (UpdatePhase::Receiving(d, c), UpdateEvent::Piece(bytes)) => UpdatePhase::Receiving(
                d,
                c.absorb(bytes.as_slice()),
            ),
            (UpdatePhase::Receiving(d, c), UpdateEvent::Complete) => {
                let digest = c.digest();
                after_digest(&path, d, digest.as_slice())
            },
            (UpdatePhase::Receiving(_, _), UpdateEvent::Broken(why)) => UpdatePhase::Ended(
                UpdateEnd::Failed(why),
            ),
            (UpdatePhase::Installing { version, installation }, UpdateEvent::Placed(step)) => {
                let i = installation.step(step);
                match i.phase {
                    InstallPhase::Installed => UpdatePhase::Ended(UpdateEnd::Installed { version }),
                    InstallPhase::Failed(e) => UpdatePhase::Ended(UpdateEnd::Failed(e)),
                    phase => UpdatePhase::Installing {
                        version,
                        installation: Installation { staging: i.staging, dest: i.dest, phase },
                    },
                }
            },
            (phase, _) => phase,
        };
        UpdateRun { current, path, phase }
    }

    /// The version that was installed, once it was.
    pub fn installed(&self) -> (r: Option<String>)
        ensures
            r == match self.phase {
                UpdatePhase::Ended(UpdateEnd::Installed { version }) => Some(version),
                _ => None,
            },
    {
        match &self.phase {
            UpdatePhase::Ended(UpdateEnd::Installed { version }) => Some(version.clone()),
            _ => None,
        }
    }
}

/// Whether `us` are the states of one update from its beginning on, each led to
/// from the one before by the event between them.
pub open spec fn course(
    us: Seq<UpdateRun>,
    catalog: RidCatalog,
    host: Host,
    events: Seq<UpdateEvent>,
) -> bool {
    &&& us.len() == events.len() + 1
    &&& us[0].phase is Fetching
    &&& forall|i: int| 0 <= i < events.len() ==> leads(catalog, host, #[trigger] events[i], us, i)
}

/// Whether the event leads from one state to the next.
pub open spec fn leads(
    catalog: RidCatalog,
    host: Host,
    e: UpdateEvent,
    us: Seq<UpdateRun>,
    i: int,
) -> bool {
    &&& us[i + 1].current == us[i].current
    &&& us[i + 1].path == us[i].path
    &&& moves(us[i], catalog, host, e, us[i + 1].phase)
}

/// The bytes that came in and were waited for.
pub open spec fn received(us: Seq<UpdateRun>, events: Seq<UpdateEvent>) -> Seq<u8>
    decreases events.len(),
{
    if events.len() == 0 {
        Seq::empty()
    } else {
        let before = received(us, events.drop_last());
        match events.last() {
            UpdateEvent::Piece(bytes) => if us[events.len() - 1].phase is Receiving {
                before + bytes@
            } else {
                before
            },
            _ => before,
        }
    }
}

/// Whether the manifest that came in with the event `i` asks for the build `d`.
pub open spec fn asked_at(
    us: Seq<UpdateRun>,
    catalog: RidCatalog,
    host: Host,
    events: Seq<UpdateEvent>,
    i: int,
    d: Download,
) -> bool {
    &&& 0 <= i < events.len()
    &&& us[i].phase is Fetching
    &&& events[i] matches UpdateEvent::Fetched(m) && planned(
        catalog,
        host,
        m,
        text_in(us[0].current),
        UpdatePlan::Install(d),
    )
}

/// Whether the manifest asks for the build `d`.
pub open spec fn asked_for(
    us: Seq<UpdateRun>,
    catalog: RidCatalog,
    host: Host,
    events: Seq<UpdateEvent>,
    d: Download,
) -> bool {
    exists|i: int| #[trigger] asked_at(us, catalog, host, events, i, d)
}

/// Whether the manifest asks for `d`, and what came in has the digest that it
/// promises.
pub open spec fn promised(
    us: Seq<UpdateRun>,
    catalog: RidCatalog,
    host: Host,
    events: Seq<UpdateEvent>,
    d: Download,
) -> bool {
    &&& asked_for(us, catalog, host, events, d)
    &&& digest_is(sha256(received(us, events)), d.sha256@)
}

/// Whether the build was moved to the place that the update is for, from beside
/// it, with the event `i`.
pub open spec fn put_in_place(us: Seq<UpdateRun>, events: Seq<UpdateEvent>, i: int) -> bool {
    &&& 0 <= i < events.len()
    &&& us[i].phase matches UpdatePhase::Installing { installation, .. }
    &&& installation.dest@ == us[0].path@
    &&& staged_beside(installation)
    &&& installation.phase is Moving
    &&& events[i] matches UpdateEvent::Placed(InstallEvent::Finished(r))
    &&& r is Ok
}

/// Whether `version` is that of the build that the manifest asks for, and it came
/// in as promised.
pub open spec fn vouched_for(
    us: Seq<UpdateRun>,
    catalog: RidCatalog,
    host: Host,
    events: Seq<UpdateEvent>,
    version: String,
) -> bool {
    exists|d: Download| #[trigger]
        promised(us, catalog, host, events, d) && d.version == version
}

/// What is known of an update after a course of events, by its phase.
pub open spec fn well_founded(
    us: Seq<UpdateRun>,
    catalog: RidCatalog,
    host: Host,
    events: Seq<UpdateEvent>,
) -> bool {
    match us.last().phase {
        UpdatePhase::Fetching => received(us, events).len() == 0,
        UpdatePhase::Requesting(d) => {
            &&& received(us, events).len() == 0
            &&& asked_for(us, catalog, host, events, d)
        },
        UpdatePhase::Receiving(d, c) => {
            &&& c@ == received(us, events)
            &&& asked_for(us, catalog, host, events, d)
        },
        UpdatePhase::Installing { version, installation } => {
            &&& installation.dest@ == us[0].path@
            &&& staged_beside(installation)
            &&& !(installation.phase is Installed)
            &&& vouched_for(us, catalog, host, events, version)
        },
        UpdatePhase::Ended(UpdateEnd::Installed { version }) => {
            &&& exists|i: int| put_in_place(us, events, i)
            &&& vouched_for(us, catalog, host, events, version)
        },
        UpdatePhase::Ended(_) => true,
    }
}

/// Nothing is unpacked or put in place but the promised build: whatever happens,
/// steps of putting a build in place are asked for only when all of it came in and
/// has the digest that the manifest promises, and they are for the place that the
/// update is for.
pub proof fn law_only_the_promised_build_is_placed(
    us: Seq<UpdateRun>,
    catalog: RidCatalog,
    host: Host,
    events: Seq<UpdateEvent>,
    step: InstallAction,
)
    requires
        course(us, catalog, host, events),
        update_asks(us.last(), UpdateAction::Place(step)),
    ensures
        us.last().phase matches UpdatePhase::Installing { version, installation } && vouched_for(
            us,
            catalog,
            host,
            events,
            version,
        ) && installation.dest@ == us[0].path@ && staged_beside(installation) && install_asks(
            installation,
            step,
        ),
{
    lemma_well_founded(us, catalog, host, events);
}

/// The version that is reported as installed is that of the build which the
/// manifest asks for: it came in whole, with the promised digest, and was moved to
/// the place that the update is for.
pub proof fn law_reported_version_is_in_place(
    us: Seq<UpdateRun>,
    catalog: RidCatalog,
    host: Host,
    events: Seq<UpdateEvent>,
    version: String,
)
    requires
        course(us, catalog, host, events),
        us.last().phase == UpdatePhase::Ended(UpdateEnd::Installed { version }),
    ensures
        vouched_for(us, catalog, host, events, version),
        exists|i: int| put_in_place(us, events, i),
{
    lemma_well_founded(us, catalog, host, events);
}

proof fn lemma_well_founded(
    us: Seq<UpdateRun>,
    catalog: RidCatalog,
    host: Host,
    events: Seq<UpdateEvent>,
)
    requires
        course(us, catalog, host, events),
    ensures
        us.last().path == us[0].path,
        us.last().current == us[0].current,
        well_founded(us, catalog, host, events),
    decreases events.len(),
{
    if events.len() > 0 {
        let n = events.len() - 1;
        let vs = us.drop_last();
        let before = events.drop_last();
        assert forall|i: int| 0 <= i < before.len() implies leads(
            catalog,
            host,
            #[trigger] before[i],
            vs,
            i,
        ) by {
            assert(leads(catalog, host, events[i], us, i));
        }
        lemma_well_founded(vs, catalog, host, before);
        lemma_received_so_far(us, before);
        assert(leads(catalog, host, events[n], us, n));
        assert(vs.last() == us[n] && us.last() == us[n + 1]);
        assert forall|d: Download| #[trigger]
            asked_for(vs, catalog, host, before, d) implies asked_for(
            us,
            catalog,
            host,
            events,
            d,
        ) by {
            let i = choose|i: int| #[trigger] asked_at(vs, catalog, host, before, i, d);
            assert(before[i] == events[i] && vs[i] == us[i]);
            assert(asked_at(us, catalog, host, events, i, d));
        }
        assert forall|version: String| #[trigger]
            vouched_for(vs, catalog, host, before, version) && !(us[n].phase is Receiving) implies
        vouched_for(us, catalog, host, events, version) by {
            let d = choose|d: Download| #[trigger]
                promised(vs, catalog, host, before, d) && d.version == version;
            assert(asked_for(us, catalog, host, events, d));
            assert(promised(us, catalog, host, events, d));
        }
        match (us[n].phase, events[n]) {
            (UpdatePhase::Fetching, UpdateEvent::Fetched(m)) => {
                let plan = choose|plan: UpdatePlan| #[trigger]
                    planned(catalog, host, m, text_in(us[n].current), plan) && us[n + 1].phase
                        == after_plan(plan);
                if let UpdatePlan::Install(d) = plan {
                    assert(asked_at(us, catalog, host, events, n, d));
                    assert(asked_for(us, catalog, host, events, d));
                }
            },
            (UpdatePhase::Requesting(_), _) => {
                assert(received(us, events) =~= Seq::<u8>::empty());
            },
            (UpdatePhase::Receiving(d, c), UpdateEvent::Complete) => {
                assert(asked_for(us, catalog, host, events, d));
                if us[n + 1].phase is Installing {
                    assert(promised(us, catalog, host, events, d));
                }
            },
            (UpdatePhase::Installing { .. }, _) => {
                if us[n + 1].phase is Ended {
                    assert(put_in_place(us, events, n) || us[n + 1].phase->Ended_0 is Failed);
                }
            },
            (UpdatePhase::Ended(UpdateEnd::Installed { .. }), _) => {
                let i = choose|i: int| put_in_place(vs, before, i);
                assert(before[i] == events[i] && vs[i] == us[i]);
                assert(put_in_place(us, events, i));
            },
            _ => {},
        }
    }
}

/// Only the states that were gone through count.
proof fn lemma_received_so_far(us: Seq<UpdateRun>, events: Seq<UpdateEvent>)
    requires
        us.len() > events.len() + 1,
    ensures
        received(us.drop_last(), events) == received(us, events),
    decreases events.len(),
{
    if events.len() > 0 {
        lemma_received_so_far(us, events.drop_last());
    }
}

/// An update that has ended stays as it ended, and one that failed or found
/// nothing to install reports no version.
pub proof fn law_ended_update_stays(
    u: UpdateRun,
    catalog: RidCatalog,
    host: Host,
    e: UpdateEvent,
    then: UpdatePhase,
)
    requires
        u.phase is Ended,
        moves(u, catalog, host, e, then),
    ensures
        then == u.phase,
{
}

/// How an update goes on, event by event: what is planned by the manifest is requested,
/// what comes in is put together in order, and what is complete is put in place if it
/// has the promised digest. What fails ends it for that reason.
pub proof fn law_update_goes_on(
    u: UpdateRun,
    catalog: RidCatalog,
    host: Host,
    e: UpdateEvent,
    then: UpdatePhase,
)
    requires
        moves(u, catalog, host, e, then),
    ensures
        u.phase is Fetching && e is Fetched ==> match then {
            UpdatePhase::Ended(UpdateEnd::Nothing) => planned(
                catalog,
                host,
                e->Fetched_0,
                text_in(u.current),
                UpdatePlan::Nothing,
            ),
            UpdatePhase::Requesting(d) => planned(
                catalog,
                host,
                e->Fetched_0,
                text_in(u.current),
                UpdatePlan::Install(d),
            ),
            UpdatePhase::Ended(UpdateEnd::Failed(why)) => planned(
                catalog,
                host,
                e->Fetched_0,
                text_in(u.current),
                UpdatePlan::Refused(why),
            ),
            _ => false,
        },
        u.phase matches UpdatePhase::Requesting(d) ==> (e matches UpdateEvent::Answered(r) ==> match r {
            Ok(_) => then matches UpdatePhase::Receiving(x, c) && x == d && c@.len() == 0,
            Err(why) => then == UpdatePhase::Ended(UpdateEnd::Failed(why)),
        }),
        u.phase matches UpdatePhase::Receiving(d, c) ==> match e {
            UpdateEvent::Piece(bytes) => then matches UpdatePhase::Receiving(x, y) && x == d && y@
                == c@ + bytes@,
            UpdateEvent::Broken(why) => then == UpdatePhase::Ended(UpdateEnd::Failed(why)),
            UpdateEvent::Complete => if digest_is(sha256(c@), d.sha256@) {
                then matches UpdatePhase::Installing { version, installation } && version
                    == d.version && installation.dest@ == u.path@ && installation.phase
                    is LookingForStale && staged_beside(installation)
            } else {
                then matches UpdatePhase::Ended(UpdateEnd::Failed(
                    UpdateError::HashMismatch { expected, got },
                )) && expected@ == d.sha256@ && got@ == hex_of(sha256(c@))
            },
            _ => then == u.phase,
        },
        u.phase matches UpdatePhase::Installing { version, installation } ==> (
        e matches UpdateEvent::Placed(step) ==> {
            let phase = match next_phase(installation.phase, step) {
                Some(p) => p,
                None => installation.phase,
            };
            then == match phase {
                InstallPhase::Installed => UpdatePhase::Ended(UpdateEnd::Installed { version }),
                InstallPhase::Failed(why) => UpdatePhase::Ended(UpdateEnd::Failed(why)),
                _ => UpdatePhase::Installing {
                    version,
                    installation: Installation { phase, ..installation },
                },
            }
        }),
{
}

/// What an update asks for: the manifest, the build at the address that was planned,
/// its pieces, and the steps of putting it in place.
pub proof fn law_update_requests(u: UpdateRun, a: UpdateAction)
    requires
        update_asks(u, a),
    ensures
        match u.phase {
            UpdatePhase::Fetching => a is FetchManifest,
            UpdatePhase::Requesting(d) => a matches UpdateAction::Request { url } && url@ == d.url@,
            UpdatePhase::Receiving(_, _) => a is Receive,
            UpdatePhase::Installing { installation, .. } => a matches UpdateAction::Place(step)
                && install_asks(installation, step),
            UpdatePhase::Ended(_) => a is Finish,
        },
{
}

} // verus!
