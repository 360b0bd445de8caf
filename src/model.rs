//! The mirror's records and the identifiers that the reconcilers target.
use vstd::prelude::*;

verus! {

/// One row of the supporter mirror. The timestamp is the UTC instant of the
/// first insertion, in milliseconds since the Unix epoch.
#[derive(PartialEq, Eq, Structural, Clone, Copy, Debug)]
pub struct AiodeSupporter {
    pub user_id: u64,
    pub creation_timestamp: i64,
}

/// The community and the role whose holders are mirrored. Either may be
/// unset, and then both reconcilers stand still.
#[derive(PartialEq, Eq, Structural, Clone, Copy, Debug)]
pub struct Targets {
    pub guild_id: Option<u64>,
    pub role_id: Option<u64>,
}

impl Targets {
    /// Both identifiers are set.
    pub open spec fn configured(self) -> bool {
        self.guild_id.is_some() && self.role_id.is_some()
    }

    pub fn is_configured(&self) -> (r: bool)
        ensures
            r == self.configured(),
    {
        self.guild_id.is_some() && self.role_id.is_some()
    }
}

/// The identities in the mirror.
pub type Mirror = Set<u64>;

/// A change to the mirror, keyed by identity.
#[derive(PartialEq, Eq, Structural, Clone, Copy, Debug)]
pub enum MirrorAction {
    /// Insert the identity if absent; a present one is left as it is.
    Upsert(u64),
    /// Delete the identity; an absent one is no error.
    Delete(u64),
    /// Leave the mirror as it is.
    Nothing,
}

/// The mirror after `a` is applied to `m`.
pub open spec fn apply_action(m: Mirror, a: MirrorAction) -> Mirror {
    match a {
        MirrorAction::Upsert(id) => m.insert(id),
        MirrorAction::Delete(id) => m.remove(id),
        MirrorAction::Nothing => m,
    }
}

/// Every mirror action is idempotent: applying it a second time changes
/// nothing.
pub proof fn lemma_action_idempotent(m: Mirror, a: MirrorAction)
    ensures
        apply_action(apply_action(m, a), a) == apply_action(m, a),
{
    match a {
        MirrorAction::Upsert(id) => {
            assert(m.insert(id).insert(id) =~= m.insert(id));
        },
        MirrorAction::Delete(id) => {
            assert(m.remove(id).remove(id) =~= m.remove(id));
        },
        MirrorAction::Nothing => {},
    }
}

} // verus!
