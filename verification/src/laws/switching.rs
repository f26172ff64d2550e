//! Switching: what is captured, what is put in its place, and what the registry says afterwards.
use vstd::prelude::*;

use crate::path::user_path;
use crate::plugin::{AuxFile, AuxFileKind};
use crate::registry::RegistryView;
use crate::switch::{
    PathState, SnapshotRead, Switch, SwitchError, SwitchEvent, SwitchStage, aux_target_of,
    snapshot_of, steps_to, switched,
};
use crate::time::Timestamp;

verus! {

/// The target of an auxiliary file lies where the manifest says, and is of the kind, and as much
/// needed, as the manifest says.
pub proof fn a_target_is_what_the_manifest_says(file: AuxFile, home: Seq<char>)
    ensures
        aux_target_of(file, home).active_path == user_path(file.path@, home),
        aux_target_of(file, home).kind == file.kind,
        aux_target_of(file, home).required == file.required,
{
}

/// A path that is missing keeps a capture from going on exactly where the manifest marks it as
/// required; then nothing is taken of it. A path that is there is taken as a file or as a directory
/// exactly where the manifest says that it is one, and otherwise keeps the capture from going on.
pub proof fn a_missing_path_is_refused_exactly_where_it_is_required(file: AuxFile, home: Seq<char>)
    ensures
        ({
            let t = aux_target_of(file, home);
            &&& snapshot_of(t.kind, t.required, PathState::Missing) is None <==> file.required
            &&& !file.required ==> snapshot_of(t.kind, t.required, PathState::Missing) == Some(
                SnapshotRead::Nothing,
            )
            &&& snapshot_of(t.kind, t.required, PathState::File) == (if file.kind
                == AuxFileKind::File {
                Some(SnapshotRead::File)
            } else {
                None
            })
            &&& snapshot_of(t.kind, t.required, PathState::Directory) == (if file.kind
                == AuxFileKind::Dir {
                Some(SnapshotRead::Directory)
            } else {
                None
            })
            &&& snapshot_of(t.kind, t.required, PathState::Other) is None
        }),
{
}

/// A switch makes the account active and notes when it was used. Nothing else that is known of the
/// account changes, nor does another account, nor what is active of another plugin.
pub proof fn a_switch_notes_the_use_of_the_account_alone(
    r: RegistryView,
    plugin: Seq<char>,
    alias: Seq<char>,
    at: Timestamp,
    p: Seq<char>,
    a: Seq<char>,
)
    ensures
        ({
            let after = switched(r, plugin, alias, at);
            &&& after.version == r.version
            &&& after.active.contains_key(plugin) && after.active[plugin] == Some(alias)
            &&& p != plugin ==> after.active.contains_key(p) == r.active.contains_key(p) && (
            r.active.contains_key(p) ==> after.active[p] == r.active[p])
            &&& after.accounts.contains_key(p) == r.accounts.contains_key(p)
            &&& r.accounts.contains_key(p) ==> after.accounts[p].contains_key(a)
                == r.accounts[p].contains_key(a)
            &&& r.accounts.contains_key(p) && r.accounts[p].contains_key(a) ==> {
                let before = r.accounts[p][a];
                let now = after.accounts[p][a];
                &&& now.alias == before.alias
                &&& now.email == before.email
                &&& now.org_name == before.org_name
                &&& now.plan == before.plan
                &&& now.added_at == before.added_at
                &&& now.last_used_at == if p == plugin && a == alias {
                    Some(at)
                } else {
                    before.last_used_at
                }
            }
        }),
{
}

/// What a switch goes through. The live state that was captured is kept; it is saved first where an
/// account was active; the saved state is read, then applied; the registry is written last.
pub proof fn a_switch_goes_through_its_stages(before: Switch, event: SwitchEvent, after: Switch)
    requires
        steps_to(before, event, after),
    ensures
        after.plugin_id == before.plugin_id,
        after.alias == before.alias,
        after.previous_active == before.previous_active,
        before.stage is CaptureLive ==> (event matches SwitchEvent::Captured(state)
            ==> after.previous_live == Some(state) && (before.previous_active is Some
            ==> after.stage is SavePrevious) && (before.previous_active is None
            ==> after.stage is ReadTarget)),
        before.stage is SavePrevious && event is PreviousSaved ==> after.stage is ReadTarget,
        before.stage is ReadTarget ==> (event matches SwitchEvent::TargetRead(state)
            ==> after.target == Some(state) && after.stage is ApplyTarget),
        before.stage is ApplyTarget ==> (event matches SwitchEvent::Applied { at } ==> after.stage
            == (SwitchStage::SaveRegistry { at })),
        !(before.stage is CaptureLive) ==> after.previous_live == before.previous_live,
        !(before.stage is ReadTarget) ==> after.target == before.target,
        !(before.stage is ApplyTarget) ==> after.registry == before.registry,
{
}

/// What comes of a failure: before anything live was touched it ends the switch; afterwards the old
/// state is written back first, and the switch then ends with what it failed for, whether that worked
/// or not.
pub proof fn a_failure_is_rolled_back_where_something_was_touched(
    before: Switch,
    event: SwitchEvent,
    after: Switch,
)
    requires
        steps_to(before, event, after),
    ensures
        event matches SwitchEvent::Failed(failure) ==> {
            &&& before.stage is CaptureLive || before.stage is SavePrevious
                || before.stage is ReadTarget ==> after.stage == SwitchStage::Finished(
                Err(SwitchError::Failed(failure)),
            )
            &&& before.stage is ApplyTarget || before.stage is SaveRegistry ==> after.stage == (
            SwitchStage::RollBack { cause: failure })
            &&& after.registry == before.registry
        },
        before.stage matches SwitchStage::RollBack { cause } ==> {
            &&& event is RolledBack ==> (after.stage matches SwitchStage::Finished(
                Err(SwitchError::RollbackSucceeded { cause: c }),
            ) && *c == cause)
            &&& event matches SwitchEvent::Failed(failure) ==> (
            after.stage matches SwitchStage::Finished(
                Err(SwitchError::RollbackFailed { cause: c, rollback }),
            ) && *c == cause && rollback@ == failure.text())
        },
        before.stage matches SwitchStage::SaveRegistry { at } ==> (event is RegistrySaved ==> (
        after.stage matches SwitchStage::Finished(Ok(report)) && report.plugin_id
            == before.plugin_id && report.alias == before.alias && report.previous_active
            == before.previous_active && report.switched_at == at)),
        before.stage is Finished ==> after == before,
{
}

} // verus!
