//! Plain-value rows of the access model, as read from the record store.
use vstd::prelude::*;

verus! {

/// A user account; `id` and `organization_id` are 128-bit identifiers.
#[derive(Clone, Copy, Debug, PartialEq, Eq, Structural)]
pub struct UserRow {
    pub id: u128,
    pub organization_id: u128,
    pub deleted: bool,
}

/// A role with its organization-wide capability flags.
#[derive(Clone, Copy, Debug, PartialEq, Eq, Structural)]
pub struct RoleRow {
    pub id: u128,
    pub organization_id: u128,
    pub administrator: bool,
    pub manage_users: bool,
    pub manage_channels: bool,
    pub manage_roles: bool,
    pub deleted: bool,
}

/// A channel of an organization.
#[derive(Clone, Copy, Debug, PartialEq, Eq, Structural)]
pub struct ChannelRow {
    pub id: u128,
    pub organization_id: u128,
    pub deleted: bool,
}

/// The read/write grant of one role on one channel.
#[derive(Clone, Copy, Debug, PartialEq, Eq, Structural)]
pub struct ChannelRoleAccessRow {
    pub channel_id: u128,
    pub role_id: u128,
    pub can_read: bool,
    pub can_write: bool,
    pub deleted: bool,
}

/// The grant of one role to one user.
#[derive(Clone, Copy, Debug, PartialEq, Eq, Structural)]
pub struct UserRoleAccessRow {
    pub user_id: u128,
    pub role_id: u128,
    pub deleted: bool,
}

/// A snapshot of the rows that authorization and fan-out read.
///
/// Soft-deleted rows may be present; every decision of this library
/// ignores them.
pub struct AccessModel {
    pub users: Vec<UserRow>,
    pub roles: Vec<RoleRow>,
    pub channels: Vec<ChannelRow>,
    pub channel_role_accesses: Vec<ChannelRoleAccessRow>,
    pub user_role_accesses: Vec<UserRoleAccessRow>,
}

/// The mathematical view of an [`AccessModel`]: its tables as sequences.
pub struct AccessView {
    pub users: Seq<UserRow>,
    pub roles: Seq<RoleRow>,
    pub channels: Seq<ChannelRow>,
    pub channel_role_accesses: Seq<ChannelRoleAccessRow>,
    pub user_role_accesses: Seq<UserRoleAccessRow>,
}

impl View for AccessModel {
    type V = AccessView;

    open spec fn view(&self) -> AccessView {
        AccessView {
            users: self.users@,
            roles: self.roles@,
            channels: self.channels@,
            channel_role_accesses: self.channel_role_accesses@,
            user_role_accesses: self.user_role_accesses@,
        }
    }
}

impl AccessView {
    /// Identifiers are unique keys of the user, role and channel tables.
    pub open spec fn wf(self) -> bool {
        &&& forall|i: int, j: int|
            #![trigger self.users[i], self.users[j]]
            0 <= i < self.users.len() && 0 <= j < self.users.len() && self.users[i].id
                == self.users[j].id ==> i == j
        &&& forall|i: int, j: int|
            #![trigger self.roles[i], self.roles[j]]
            0 <= i < self.roles.len() && 0 <= j < self.roles.len() && self.roles[i].id
                == self.roles[j].id ==> i == j
        &&& forall|i: int, j: int|
            #![trigger self.channels[i], self.channels[j]]
            0 <= i < self.channels.len() && 0 <= j < self.channels.len() && self.channels[i].id
                == self.channels[j].id ==> i == j
    }

    /// Every row of `self` is a row of `other`, table by table.
    pub open spec fn rows_within(self, other: AccessView) -> bool {
        &&& forall|x: UserRow| self.users.contains(x) ==> #[trigger] other.users.contains(x)
        &&& forall|x: RoleRow| self.roles.contains(x) ==> #[trigger] other.roles.contains(x)
        &&& forall|x: ChannelRow| self.channels.contains(x) ==> #[trigger] other.channels.contains(x)
        &&& forall|x: ChannelRoleAccessRow|
            self.channel_role_accesses.contains(x) ==> #[trigger] other.channel_role_accesses.contains(x)
        &&& forall|x: UserRoleAccessRow|
            self.user_role_accesses.contains(x) ==> #[trigger] other.user_role_accesses.contains(x)
    }

    /// `u` is a user that is not soft-deleted.
    pub open spec fn active_user(self, u: u128) -> bool {
        exists|i: int|
            0 <= i < self.users.len() && #[trigger] self.users[i].id == u && !self.users[i].deleted
    }

    /// `c` is a channel that is not soft-deleted.
    pub open spec fn active_channel(self, c: u128) -> bool {
        exists|j: int|
            0 <= j < self.channels.len() && #[trigger] self.channels[j].id == c
                && !self.channels[j].deleted
    }

    /// `u` is a user of organization `org` that is not soft-deleted.
    pub open spec fn user_in_organization(self, u: u128, org: u128) -> bool {
        exists|i: int|
            0 <= i < self.users.len() && #[trigger] self.users[i].id == u && !self.users[i].deleted
                && self.users[i].organization_id == org
    }

    /// `c` is a channel of organization `org` that is not soft-deleted.
    pub open spec fn channel_in_organization(self, c: u128, org: u128) -> bool {
        exists|j: int|
            0 <= j < self.channels.len() && #[trigger] self.channels[j].id == c
                && !self.channels[j].deleted && self.channels[j].organization_id == org
    }

    /// User `u` and channel `c` both exist, not deleted, in one organization.
    pub open spec fn same_organization(self, u: u128, c: u128) -> bool {
        exists|i: int, j: int|
            #![trigger self.users[i], self.channels[j]]
            0 <= i < self.users.len() && 0 <= j < self.channels.len() && self.users[i].id == u
                && !self.users[i].deleted && self.channels[j].id == c && !self.channels[j].deleted
                && self.users[i].organization_id == self.channels[j].organization_id
    }

    /// Users `u` and `v` both exist, not deleted, in one organization.
    pub open spec fn share_organization(self, u: u128, v: u128) -> bool {
        exists|i: int, j: int|
            #![trigger self.users[i], self.users[j]]
            0 <= i < self.users.len() && 0 <= j < self.users.len() && self.users[i].id == u
                && !self.users[i].deleted && self.users[j].id == v && !self.users[j].deleted
                && self.users[i].organization_id == self.users[j].organization_id
    }

    /// A grant row, not deleted, gives role `r` to user `u`.
    pub open spec fn holds_role(self, u: u128, r: u128) -> bool {
        exists|g: int|
            0 <= g < self.user_role_accesses.len() && #[trigger] self.user_role_accesses[g].user_id
                == u && self.user_role_accesses[g].role_id == r
                && !self.user_role_accesses[g].deleted
    }

    /// The role row at index `k` is not deleted and user `u` holds it.
    pub open spec fn holds_role_row(self, u: u128, k: int) -> bool {
        0 <= k < self.roles.len() && !self.roles[k].deleted && self.holds_role(u, self.roles[k].id)
    }
}

} // verus!
