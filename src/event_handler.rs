//! The incremental reconciler: one membership change in, one mirror action
//! out.
use vstd::prelude::*;
use crate::model::{apply_action, lemma_action_idempotent, Mirror, MirrorAction, Targets};

verus! {

/// A member's roles changed in a community. The prior and new snapshots are
/// there only when the directory had them at hand; `roles` is the event's own
/// list of the member's current roles.
#[derive(Clone, Debug)]
pub struct MembershipEvent {
    pub user_id: u64,
    pub guild_id: u64,
    pub old_roles: Option<Vec<u64>>,
    pub new_roles: Option<Vec<u64>>,
    pub roles: Vec<u64>,
}

/// The handler of membership events.
#[derive(PartialEq, Eq, Structural, Clone, Copy, Debug)]
pub struct DiscordEventHandler;

/// Whether `roles` holds `role`.
pub open spec fn has_role(roles: Seq<u64>, role: u64) -> bool {
    roles.contains(role)
}

/// The action that the decision table gives for `e` and the target role.
pub open spec fn member_update_action(role: u64, e: MembershipEvent) -> MirrorAction {
    match (e.old_roles, e.new_roles) {
        (Some(old_roles), Some(new_roles)) => {
            let had = has_role(old_roles@, role);
            let holds = has_role(new_roles@, role);
            if had && !holds {
                MirrorAction::Delete(e.user_id)
            } else if !had && holds {
                MirrorAction::Upsert(e.user_id)
            } else {
                MirrorAction::Nothing
            }
        },
        _ => if has_role(e.roles@, role) {
            MirrorAction::Upsert(e.user_id)
        } else {
            MirrorAction::Delete(e.user_id)
        },
    }
}

/// The action for `e` under `targets`: none unless both targets are set and
/// the event is of the target community.
pub open spec fn guild_member_update_action(targets: Targets, e: MembershipEvent) -> MirrorAction {
    if targets.configured() && e.guild_id == targets.guild_id->0 {
        member_update_action(targets.role_id->0, e)
    } else {
        MirrorAction::Nothing
    }
}

fn contains_role(roles: &Vec<u64>, role: u64) -> (r: bool)
    ensures
        r == has_role(roles@, role),
{
    let mut i: usize = 0;
    while i < roles.len()
        invariant
            i <= roles.len(),
            forall|j: int| 0 <= j < i ==> roles@[j] != role,
        decreases roles.len() - i,
    {
        if roles[i] == role {
            assert(roles@[i as int] == role);
            return true;
        }
        i += 1;
    }
    false
}

/// Decides the mirror action for one membership change, given the target
/// role. Where both snapshots are known, only a change in the target role
/// counts; otherwise the event's current roles decide.
pub fn handle_member_update(role_id: u64, event: &MembershipEvent) -> (r: MirrorAction)
    ensures
        r == member_update_action(role_id, *event),
{
    match (&event.old_roles, &event.new_roles) {
        (Some(old_roles), Some(new_roles)) => {
            let had = contains_role(old_roles, role_id);
            let holds = contains_role(new_roles, role_id);
            if had && !holds {
                MirrorAction::Delete(event.user_id)
            } else if !had && holds {
                MirrorAction::Upsert(event.user_id)
            } else {
                MirrorAction::Nothing
            }
        },
        _ => {
            if contains_role(&event.roles, role_id) {
                MirrorAction::Upsert(event.user_id)
            } else {
                MirrorAction::Delete(event.user_id)
            }
        },
    }
}

impl DiscordEventHandler {
    /// The action for a membership change: events of other communities, and
    /// all events while a target is unset, are ignored.
    pub fn guild_member_update(&self, targets: &Targets, event: &MembershipEvent) -> (r:
        MirrorAction)
        ensures
            r == guild_member_update_action(*targets, *event),
    {
        match (targets.guild_id, targets.role_id) {
            (Some(guild_id), Some(role_id)) => {
                if event.guild_id == guild_id {
                    handle_member_update(role_id, event)
                } else {
                    MirrorAction::Nothing
                }
            },
            _ => MirrorAction::Nothing,
        }
    }
}

/// Replaying a membership event gives the same mirror as applying it once.
pub proof fn lemma_replay_idempotent(m: Mirror, targets: Targets, e: MembershipEvent)
    ensures
        apply_action(
            apply_action(m, guild_member_update_action(targets, e)),
            guild_member_update_action(targets, e),
        ) == apply_action(m, guild_member_update_action(targets, e)),
{
    lemma_action_idempotent(m, guild_member_update_action(targets, e));
}

} // verus!
