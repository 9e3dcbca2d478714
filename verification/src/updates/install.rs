//! Putting a downloaded build in place.
use vstd::prelude::*;

use crate::paths::{law_steps_lead_on, sibling_of, FilePath, Step};

use super::error::{UResult, UpdateError};

verus! {

/// What stands beside `path`, with `suffix` at the end of its name.
pub fn sibling(path: &FilePath, suffix: &str) -> (r: FilePath)
    ensures
        r@ == sibling_of(path@, suffix@),
{
    path.sibling(suffix)
}

/// How far a build is on its way to its place. It is unpacked beside the place
/// and moved there in the end.
pub enum InstallPhase {
    /// Is something left beside the place from an earlier attempt?
    LookingForStale,
    RemovingStale,
    MakingStaging,
    Unpacking,
    /// What was unpacked is thrown away, for this reason.
    Discarding(UpdateError),
    /// Is there an old build?
    LookingForOld,
    RemovingOld,
    Moving,
    Installed,
    Failed(UpdateError),
}

/// What came of the last step.
pub enum InstallEvent {
    /// Whether there is something at the path that was looked at.
    Found(bool),
    /// The step was done, or could not be.
    Finished(UResult<()>),
}

/// What has to be done next.
pub enum InstallAction {
    LookAt { path: FilePath },
    RemoveDirectory { path: FilePath },
    MakeDirectory { path: FilePath },
    Unpack { path: FilePath },
    Rename { from: FilePath, to: FilePath },
    /// Nothing: it is over.
    Finish,
}

/// A build on its way to its place.
pub struct Installation {
    pub staging: FilePath,
    pub dest: FilePath,
    pub phase: InstallPhase,
}

/// Whether a build is unpacked beside the place where it goes.
pub open spec fn staged_beside(i: Installation) -> bool {
    i.staging@ == sibling_of(i.dest@, ".new"@)
}

/// The phase that follows a step; `None` for an event that was not waited for.
pub open spec fn next_phase(p: InstallPhase, e: InstallEvent) -> Option<InstallPhase> {
    match (p, e) {
        (InstallPhase::LookingForStale, InstallEvent::Found(there)) => Some(
            if there {
                InstallPhase::RemovingStale
            } else {
                InstallPhase::MakingStaging
            },
        ),
        (InstallPhase::RemovingStale, InstallEvent::Finished(r)) => Some(
            or_failed(r, InstallPhase::MakingStaging),
        ),
        (InstallPhase::MakingStaging, InstallEvent::Finished(r)) => Some(
            or_failed(r, InstallPhase::Unpacking),
        ),
        (InstallPhase::Unpacking, InstallEvent::Finished(r)) => Some(
            match r {
                Ok(()) => InstallPhase::LookingForOld,
                Err(e) => InstallPhase::Discarding(e),
            },
        ),
        (InstallPhase::Discarding(e), InstallEvent::Finished(_)) => Some(InstallPhase::Failed(e)),
        (InstallPhase::LookingForOld, InstallEvent::Found(there)) => Some(
            if there {
                InstallPhase::RemovingOld
            } else {
                InstallPhase::Moving
            },
        ),
        (InstallPhase::RemovingOld, InstallEvent::Finished(r)) => Some(
            or_failed(r, InstallPhase::Moving),
        ),
        (InstallPhase::Moving, InstallEvent::Finished(r)) => Some(
            or_failed(r, InstallPhase::Installed),
        ),
        _ => None,
    }
}

/// On with the next phase, unless the step could not be done.
pub open spec fn or_failed(r: UResult<()>, on: InstallPhase) -> InstallPhase {
    match r {
        Ok(()) => on,
        Err(e) => InstallPhase::Failed(e),
    }
}

/// Whether `a` is what an installation asks for.
pub open spec fn install_asks(i: Installation, a: InstallAction) -> bool {
    match i.phase {
        InstallPhase::LookingForStale => a matches InstallAction::LookAt { path } && path@
            == i.staging@,
        InstallPhase::RemovingStale | InstallPhase::Discarding(_) =>
            a matches InstallAction::RemoveDirectory { path } && path@ == i.staging@,
        InstallPhase::MakingStaging => a matches InstallAction::MakeDirectory { path } && path@
            == i.staging@,
        InstallPhase::Unpacking => a matches InstallAction::Unpack { path } && path@ == i.staging@,
        InstallPhase::LookingForOld => a matches InstallAction::LookAt { path } && path@ == i.dest@,
        InstallPhase::RemovingOld => a matches InstallAction::RemoveDirectory { path } && path@
            == i.dest@,
        InstallPhase::Moving => a matches InstallAction::Rename { from, to } && from@ == i.staging@
            && to@ == i.dest@,
        InstallPhase::Installed | InstallPhase::Failed(_) => a == InstallAction::Finish,
    }
}

fn on(r: UResult<()>, phase: InstallPhase) -> (p: InstallPhase)
    ensures
        p == or_failed(r, phase),
{
    match r {
        Ok(()) => phase,
        Err(e) => InstallPhase::Failed(e),
    }
}

impl Installation {
    /// A build that is to be put at `dest`.
    pub fn new(dest: &FilePath) -> (r: Self)
        ensures
            r.dest@ == dest@,
            staged_beside(r),
            r.phase == InstallPhase::LookingForStale,
    {
        Installation {
            staging: sibling(dest, ".new"),
            dest: dest.duplicate(),
            phase: InstallPhase::LookingForStale,
        }
    }

    /// What has to be done next.
    pub fn action(&self) -> (r: InstallAction)
        ensures
            install_asks(*self, r),
    {
        match &self.phase {
            InstallPhase::LookingForStale => InstallAction::LookAt { path: self.staging.duplicate() },
            InstallPhase::RemovingStale | InstallPhase::Discarding(_) => {
                InstallAction::RemoveDirectory { path: self.staging.duplicate() }
            },
            InstallPhase::MakingStaging => InstallAction::MakeDirectory {
                path: self.staging.duplicate(),
            },
            InstallPhase::Unpacking => InstallAction::Unpack { path: self.staging.duplicate() },
            InstallPhase::LookingForOld => InstallAction::LookAt { path: self.dest.duplicate() },
            InstallPhase::RemovingOld => InstallAction::RemoveDirectory { path: self.dest.duplicate() },
            InstallPhase::Moving => InstallAction::Rename {
                from: self.staging.duplicate(),
                to: self.dest.duplicate(),
            },
            InstallPhase::Installed | InstallPhase::Failed(_) => InstallAction::Finish,
        }
    }

    /// Takes in what came of the last step. An event that is not waited for
    /// changes nothing.
    pub fn step(self, event: InstallEvent) -> (r: Self)
        ensures
            r == (match next_phase(self.phase, event) {
                Some(phase) => Installation { phase, ..self },
                None => self,
            }),
    {
        let phase = match (self.phase, event) {
            (InstallPhase::LookingForStale, InstallEvent::Found(there)) => if there {
                InstallPhase::RemovingStale
            } else {
                InstallPhase::MakingStaging
            },
            (InstallPhase::RemovingStale, InstallEvent::Finished(r)) => on(
                r,
                InstallPhase::MakingStaging,
            ),
            (InstallPhase::MakingStaging, InstallEvent::Finished(r)) => on(
                r,
                InstallPhase::Unpacking,
            ),
            (InstallPhase::Unpacking, InstallEvent::Finished(r)) => match r {
                Ok(()) => InstallPhase::LookingForOld,
                Err(e) => InstallPhase::Discarding(e),
            },
            (InstallPhase::Discarding(e), InstallEvent::Finished(_)) => InstallPhase::Failed(e),
            (InstallPhase::LookingForOld, InstallEvent::Found(there)) => if there {
                InstallPhase::RemovingOld
            } else {
                InstallPhase::Moving
            },
            (InstallPhase::RemovingOld, InstallEvent::Finished(r)) => on(r, InstallPhase::Moving),
            (InstallPhase::Moving, InstallEvent::Finished(r)) => on(r, InstallPhase::Installed),
            (phase, _) => phase,
        };
        Installation { staging: self.staging, dest: self.dest, phase }
    }
}

/// Where a course of events leads.
pub open spec fn phase_after(p: InstallPhase, events: Seq<InstallEvent>) -> InstallPhase
    decreases events.len(),
{
    if events.len() == 0 {
        p
    } else {
        let q = phase_after(p, events.drop_last());
        match next_phase(q, events.last()) {
            Some(then) => then,
            None => q,
        }
    }
}

/// Whether the new build was unpacked whole.
pub open spec fn unpacked(p: InstallPhase) -> bool {
    p is LookingForOld || p is RemovingOld || p is Moving || p is Installed
}

/// An old build is touched only once the new one was unpacked whole: before
/// that no step is asked for that looks at its place, removes it or moves
/// anything there, and it is unpacked only by a step that went well.
pub proof fn law_old_build_is_safe(i: Installation, e: InstallEvent, a: InstallAction)
    requires
        install_asks(i, a),
        staged_beside(i),
    ensures
        (a matches InstallAction::RemoveDirectory { path } && path@ == i.dest@) ==> unpacked(i.phase),
        a is Rename ==> unpacked(i.phase),
        next_phase(i.phase, e) matches Some(p) ==> (unpacked(p) && !unpacked(i.phase) ==> i.phase
            is Unpacking && e is Finished && e->Finished_0 is Ok),
{
    law_steps_lead_on(i.dest@, ".new"@);
}

/// A build that could not be unpacked never takes the place of the old one,
/// whatever happens afterwards, and what was left of it is removed.
pub proof fn law_failed_unpacking_is_final(
    p: InstallPhase,
    why: UpdateError,
    events: Seq<InstallEvent>,
)
    requires
        p is Unpacking,
    ensures
        ({
            let q = next_phase(p, InstallEvent::Finished(Err(why))).unwrap();
            let r = phase_after(q, events);
            &&& q == InstallPhase::Discarding(why)
            &&& r == InstallPhase::Discarding(why) || r == InstallPhase::Failed(why)
        }),
    decreases events.len(),
{
    if events.len() > 0 {
        law_failed_unpacking_is_final(p, why, events.drop_last());
    }
}

/// The steps of putting a build in place, in order: what is left from an earlier
/// attempt goes, the build is unpacked beside the place, the old one goes, and the new
/// one is moved there. A step that fails ends it, and what was unpacked goes.
pub proof fn law_steps_of_an_installation(there: bool, r: UResult<()>, why: UpdateError)
    ensures
        next_phase(InstallPhase::LookingForStale, InstallEvent::Found(there)) == Some(
            if there {
                InstallPhase::RemovingStale
            } else {
                InstallPhase::MakingStaging
            },
        ),
        next_phase(InstallPhase::RemovingStale, InstallEvent::Finished(r)) == Some(
            match r {
                Ok(_) => InstallPhase::MakingStaging,
                Err(e) => InstallPhase::Failed(e),
            },
        ),
        next_phase(InstallPhase::MakingStaging, InstallEvent::Finished(r)) == Some(
            match r {
                Ok(_) => InstallPhase::Unpacking,
                Err(e) => InstallPhase::Failed(e),
            },
        ),
        next_phase(InstallPhase::Unpacking, InstallEvent::Finished(r)) == Some(
            match r {
                Ok(_) => InstallPhase::LookingForOld,
                Err(e) => InstallPhase::Discarding(e),
            },
        ),
        next_phase(InstallPhase::Discarding(why), InstallEvent::Finished(r)) == Some(
            InstallPhase::Failed(why),
        ),
        next_phase(InstallPhase::LookingForOld, InstallEvent::Found(there)) == Some(
            if there {
                InstallPhase::RemovingOld
            } else {
                InstallPhase::Moving
            },
        ),
        next_phase(InstallPhase::RemovingOld, InstallEvent::Finished(r)) == Some(
            match r {
                Ok(_) => InstallPhase::Moving,
                Err(e) => InstallPhase::Failed(e),
            },
        ),
        next_phase(InstallPhase::Moving, InstallEvent::Finished(r)) == Some(
            match r {
                Ok(_) => InstallPhase::Installed,
                Err(e) => InstallPhase::Failed(e),
            },
        ),
{
}

/// What is asked for at each step, and of which place: beside the destination until the
/// build is unpacked, of the destination from then on.
pub proof fn law_places_of_an_installation(i: Installation, a: InstallAction)
    requires
        install_asks(i, a),
    ensures
        match i.phase {
            InstallPhase::LookingForStale => a matches InstallAction::LookAt { path } && path@
                == i.staging@,
            InstallPhase::RemovingStale | InstallPhase::Discarding(_) =>
                a matches InstallAction::RemoveDirectory { path } && path@ == i.staging@,
            InstallPhase::MakingStaging => a matches InstallAction::MakeDirectory { path } && path@
                == i.staging@,
            InstallPhase::Unpacking => a matches InstallAction::Unpack { path } && path@
                == i.staging@,
            InstallPhase::LookingForOld => a matches InstallAction::LookAt { path } && path@
                == i.dest@,
            InstallPhase::RemovingOld => a matches InstallAction::RemoveDirectory { path } && path@
                == i.dest@,
            InstallPhase::Moving => a matches InstallAction::Rename { from, to } && from@
                == i.staging@ && to@ == i.dest@,
            InstallPhase::Installed | InstallPhase::Failed(_) => a is Finish,
        },
        staged_beside(i) ==> i.staging@ == i.dest@.push(Step::Beside(".new"@)),
{
}

/// The whole way: a build goes to its place, over an old one or where there is none,
/// after an earlier attempt or without, if every step goes well.
pub proof fn law_installation_succeeds(stale: bool, old: bool, p: InstallPhase)
    requires
        p is LookingForStale,
    ensures
        ({
            let fine = InstallEvent::Finished(Ok(()));
            let a = next_phase(p, InstallEvent::Found(stale)).unwrap();
            let b = if stale {
                next_phase(a, fine).unwrap()
            } else {
                a
            };
            let c = next_phase(next_phase(b, fine).unwrap(), fine).unwrap();
            let d = next_phase(c, InstallEvent::Found(old)).unwrap();
            let e = if old {
                next_phase(d, fine).unwrap()
            } else {
                d
            };
            next_phase(e, fine).unwrap() is Installed
        }),
{
}

} // verus!
