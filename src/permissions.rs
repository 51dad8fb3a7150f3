//! The permission resolver.
use vstd::prelude::*;

use crate::error::ErrorKind;
use crate::model::{AccessModel, AccessView, ChannelRoleAccessRow, RoleRow};

verus! {

/// An organization-wide capability.
#[derive(Clone, Copy, Debug, PartialEq, Eq, Structural)]
pub enum Permission {
    Administrator,
    ManageChannels,
    ManageRoles,
    ManageUsers,
}

/// A capability on one channel.
#[derive(Clone, Copy, Debug, PartialEq, Eq, Structural)]
pub enum ChatPermission {
    CanRead,
    CanWrite,
}

/// The flag of `role` that stands for `permission`.
pub open spec fn role_flag(permission: Permission, role: RoleRow) -> bool {
    match permission {
        Permission::Administrator => role.administrator,
        Permission::ManageChannels => role.manage_channels,
        Permission::ManageRoles => role.manage_roles,
        Permission::ManageUsers => role.manage_users,
    }
}

/// Whether a channel grant allows `permission`; writing implies reading.
pub open spec fn grant_allows(permission: ChatPermission, access: ChannelRoleAccessRow) -> bool {
    match permission {
        ChatPermission::CanRead => access.can_read || access.can_write,
        ChatPermission::CanWrite => access.can_write,
    }
}

/// Reads the flag of `role` that stands for `permission`.
pub fn match_permission(permission: Permission, role: &RoleRow) -> (r: bool)
    ensures
        r == role_flag(permission, *role),
{
    match permission {
        Permission::Administrator => role.administrator,
        Permission::ManageChannels => role.manage_channels,
        Permission::ManageRoles => role.manage_roles,
        Permission::ManageUsers => role.manage_users,
    }
}

/// Tells whether a channel grant allows `permission`.
pub fn match_chat_permission(
    permission: ChatPermission,
    channel_role_access: &ChannelRoleAccessRow,
) -> (r: bool)
    ensures
        r == grant_allows(permission, *channel_role_access),
{
    match permission {
        ChatPermission::CanRead => channel_role_access.can_read || channel_role_access.can_write,
        ChatPermission::CanWrite => channel_role_access.can_write,
    }
}

/// The caller presented the privileged shared secret, verbatim.
pub open spec fn bypass_granted(client_secret: Option<String>, configured_secret: String) -> bool {
    match client_secret {
        Some(s) => s@ == configured_secret@,
        None => false,
    }
}

/// User `u` is active and holds a live role that has `permission`, or is an
/// administrator role.
pub open spec fn global_permission(m: AccessView, u: u128, permission: Permission) -> bool {
    &&& m.active_user(u)
    &&& exists|k: int|
        #[trigger] m.holds_role_row(u, k) && (m.roles[k].administrator || role_flag(
            permission,
            m.roles[k],
        ))
}

/// The role at index `k` overrides channel grants on `c`: it is an
/// administrator or channel-manager role of the channel's organization.
pub open spec fn organization_override(m: AccessView, k: int, c: u128) -> bool {
    &&& m.roles[k].administrator || m.roles[k].manage_channels
    &&& m.channel_in_organization(c, m.roles[k].organization_id)
}

/// A live grant row of role `r` on channel `c` allows `permission`.
pub open spec fn channel_grant(m: AccessView, c: u128, r: u128, permission: ChatPermission) -> bool {
    exists|a: int|
        0 <= a < m.channel_role_accesses.len() && #[trigger] m.channel_role_accesses[a].channel_id
            == c && m.channel_role_accesses[a].role_id == r && !m.channel_role_accesses[a].deleted
            && grant_allows(permission, m.channel_role_accesses[a])
}

/// Some live role held by `u` gives `permission` on channel `c`.
pub open spec fn role_channel_access(
    m: AccessView,
    u: u128,
    c: u128,
    permission: ChatPermission,
) -> bool {
    exists|k: int|
        #[trigger] m.holds_role_row(u, k) && (organization_override(m, k, c) || channel_grant(
            m,
            c,
            m.roles[k].id,
            permission,
        ))
}

/// What `check_chat_permission` answers for user `u` on channel `c`.
pub open spec fn channel_permission(
    m: AccessView,
    u: u128,
    c: u128,
    permission: ChatPermission,
    bypass: bool,
) -> bool {
    m.same_organization(u, c) && (bypass || role_channel_access(m, u, c, permission))
}

/// Compares the presented client secret with the configured one.
pub fn check_client_secret(client_secret: &Option<String>, configured_secret: &String) -> (r: bool)
    ensures
        r == bypass_granted(*client_secret, *configured_secret),
{
    match client_secret {
        Some(s) => *s == *configured_secret,
        None => false,
    }
}

/// Whether `u` may act on messages of channel `c` with `permission`: the
/// user must be able to read the channel through its roles, and then hold
/// `permission` there.
pub open spec fn channel_action_result(
    m: AccessView,
    u: u128,
    c: u128,
    permission: ChatPermission,
    bypass: bool,
) -> Result<(), ErrorKind> {
    if !m.active_user(u) || !m.active_channel(c) {
        Err(ErrorKind::NotFound)
    } else if !(m.same_organization(u, c) && role_channel_access(m, u, c, ChatPermission::CanRead)) {
        Err(ErrorKind::Forbidden)
    } else if !channel_permission(m, u, c, permission, bypass) {
        Err(ErrorKind::Forbidden)
    } else {
        Ok(())
    }
}

/// Tells whether `u` is a user that is not soft-deleted.
pub fn is_active_user(model: &AccessModel, u: u128) -> (r: bool)
    ensures
        r == model@.active_user(u),
{
    let mut i: usize = 0;
    while i < model.users.len()
        invariant
            i <= model.users.len(),
            forall|i2: int|
                0 <= i2 < i ==> !(#[trigger] model.users[i2].id == u && !model.users[i2].deleted),
        decreases model.users.len() - i,
    {
        if model.users[i].id == u && !model.users[i].deleted {
            assert(model@.users[i as int].id == u);
            return true;
        }
        i += 1;
    }
    false
}

/// Tells whether user `u` and channel `c` are live rows of one organization.
pub fn is_same_organization(model: &AccessModel, u: u128, c: u128) -> (r: bool)
    ensures
        r == model@.same_organization(u, c),
{
    let mut i: usize = 0;
    while i < model.users.len()
        invariant
            i <= model.users.len(),
            forall|i2: int, j: int|
                #![trigger model@.users[i2], model@.channels[j]]
                0 <= i2 < i && 0 <= j < model.channels.len() ==> !(model@.users[i2].id == u
                    && !model@.users[i2].deleted && model@.channels[j].id == c
                    && !model@.channels[j].deleted && model@.users[i2].organization_id
                    == model@.channels[j].organization_id),
        decreases model.users.len() - i,
    {
        let user = model.users[i];
        if user.id == u && !user.deleted {
            let mut j: usize = 0;
            while j < model.channels.len()
                invariant
                    i < model.users.len(),
                    j <= model.channels.len(),
                    user == model@.users[i as int],
                    user.id == u,
                    !user.deleted,
                    forall|j2: int|
                        0 <= j2 < j ==> !(#[trigger] model@.channels[j2].id == c
                            && !model@.channels[j2].deleted && user.organization_id
                            == model@.channels[j2].organization_id),
                decreases model.channels.len() - j,
            {
                let channel = model.channels[j];
                if channel.id == c && !channel.deleted && channel.organization_id
                    == user.organization_id {
                    assert(model@.users[i as int] == user && model@.channels[j as int] == channel);
                    return true;
                }
                j += 1;
            }
        }
        i += 1;
    }
    false
}

/// Tells whether `c` is a channel that is not soft-deleted.
pub fn is_active_channel(model: &AccessModel, c: u128) -> (r: bool)
    ensures
        r == model@.active_channel(c),
{
    let mut j: usize = 0;
    while j < model.channels.len()
        invariant
            j <= model.channels.len(),
            forall|j2: int|
                0 <= j2 < j ==> !(#[trigger] model@.channels[j2].id == c
                    && !model@.channels[j2].deleted),
        decreases model.channels.len() - j,
    {
        if model.channels[j].id == c && !model.channels[j].deleted {
            assert(model@.channels[j as int].id == c);
            return true;
        }
        j += 1;
    }
    false
}

/// The organization of user `u`, from its first live row.
pub fn get_organization_id_from_user_id(model: &AccessModel, u: u128) -> (r: Result<
    u128,
    ErrorKind,
>)
    ensures
        r is Err <==> !model@.active_user(u),
        r is Err ==> r == Err::<u128, ErrorKind>(ErrorKind::NotFound),
        r matches Ok(org) ==> model@.user_in_organization(u, org),
{
    let mut i: usize = 0;
    while i < model.users.len()
        invariant
            i <= model.users.len(),
            forall|i2: int|
                0 <= i2 < i ==> !(#[trigger] model.users[i2].id == u && !model.users[i2].deleted),
        decreases model.users.len() - i,
    {
        if model.users[i].id == u && !model.users[i].deleted {
            assert(model@.users[i as int].id == u);
            return Ok(model.users[i].organization_id);
        }
        i += 1;
    }
    Err(ErrorKind::NotFound)
}

/// Tells whether a live channel `c` belongs to organization `org`.
pub fn is_channel_in_organization(model: &AccessModel, c: u128, org: u128) -> (r: bool)
    ensures
        r == model@.channel_in_organization(c, org),
{
    let mut j: usize = 0;
    while j < model.channels.len()
        invariant
            j <= model.channels.len(),
            forall|j2: int|
                0 <= j2 < j ==> !(#[trigger] model@.channels[j2].id == c
                    && !model@.channels[j2].deleted && model@.channels[j2].organization_id == org),
        decreases model.channels.len() - j,
    {
        let channel = model.channels[j];
        if channel.id == c && !channel.deleted && channel.organization_id == org {
            assert(model@.channels[j as int].id == c);
            return true;
        }
        j += 1;
    }
    false
}

/// Tells whether a live grant gives role `r` to user `u`.
pub fn user_holds_role(model: &AccessModel, u: u128, r: u128) -> (b: bool)
    ensures
        b == model@.holds_role(u, r),
{
    let mut g: usize = 0;
    while g < model.user_role_accesses.len()
        invariant
            g <= model.user_role_accesses.len(),
            forall|g2: int|
                0 <= g2 < g ==> !(#[trigger] model@.user_role_accesses[g2].user_id == u
                    && model@.user_role_accesses[g2].role_id == r
                    && !model@.user_role_accesses[g2].deleted),
        decreases model.user_role_accesses.len() - g,
    {
        let grant = model.user_role_accesses[g];
        if grant.user_id == u && grant.role_id == r && !grant.deleted {
            assert(model@.user_role_accesses[g as int].user_id == u);
            return true;
        }
        g += 1;
    }
    false
}

/// Tells whether a live grant row of role `r` on channel `c` allows `permission`.
pub fn has_channel_grant(model: &AccessModel, c: u128, r: u128, permission: ChatPermission) -> (b:
    bool)
    ensures
        b == channel_grant(model@, c, r, permission),
{
    let mut a: usize = 0;
    while a < model.channel_role_accesses.len()
        invariant
            a <= model.channel_role_accesses.len(),
            forall|a2: int|
                0 <= a2 < a ==> !(#[trigger] model@.channel_role_accesses[a2].channel_id == c
                    && model@.channel_role_accesses[a2].role_id == r
                    && !model@.channel_role_accesses[a2].deleted && grant_allows(
                    permission,
                    model@.channel_role_accesses[a2],
                )),
        decreases model.channel_role_accesses.len() - a,
    {
        let access = model.channel_role_accesses[a];
        if access.channel_id == c && access.role_id == r && !access.deleted
            && match_chat_permission(permission, &access) {
            assert(model@.channel_role_accesses[a as int].channel_id == c);
            return true;
        }
        a += 1;
    }
    false
}

/// Tells whether some live role held by `user_id` gives `permission` on
/// `channel_id`, through the organization override or a grant row.
pub fn has_role_channel_access(
    model: &AccessModel,
    user_id: u128,
    channel_id: u128,
    permission: ChatPermission,
) -> (r: bool)
    ensures
        r == role_channel_access(model@, user_id, channel_id, permission),
{
    let mut k: usize = 0;
    while k < model.roles.len()
        invariant
            k <= model.roles.len(),
            forall|k2: int|
                0 <= k2 < k ==> !(#[trigger] model@.holds_role_row(user_id, k2) && (
                organization_override(model@, k2, channel_id) || channel_grant(
                    model@,
                    channel_id,
                    model@.roles[k2].id,
                    permission,
                ))),
        decreases model.roles.len() - k,
    {
        let role = model.roles[k];
        if !role.deleted && user_holds_role(model, user_id, role.id) {
            let overrides = (role.administrator || role.manage_channels)
                && is_channel_in_organization(model, channel_id, role.organization_id);
            if overrides || has_channel_grant(model, channel_id, role.id, permission) {
                assert(model@.holds_role_row(user_id, k as int));
                return true;
            }
        }
        k += 1;
    }
    false
}

/// Tells whether `user_id` may read channel `channel_id` through its roles:
/// through a live grant row that allows reading, or an administrator or
/// channel-manager role of the channel's organization. A missing user or
/// channel is reported; across organizations the answer is `false`.
pub fn get_user_has_access_to_channel(model: &AccessModel, user_id: u128, channel_id: u128) -> (r:
    Result<bool, ErrorKind>)
    ensures
        !model@.active_user(user_id) || !model@.active_channel(channel_id) ==> r == Err::<
            bool,
            ErrorKind,
        >(ErrorKind::NotFound),
        model@.active_user(user_id) && model@.active_channel(channel_id) ==> r == Ok::<
            bool,
            ErrorKind,
        >(
            model@.same_organization(user_id, channel_id) && role_channel_access(
                model@,
                user_id,
                channel_id,
                ChatPermission::CanRead,
            ),
        ),
{
    if !is_active_user(model, user_id) || !is_active_channel(model, channel_id) {
        return Err(ErrorKind::NotFound);
    }
    if !is_same_organization(model, user_id, channel_id) {
        return Ok(false);
    }
    Ok(has_role_channel_access(model, user_id, channel_id, ChatPermission::CanRead))
}

/// Decides whether `user_id` may post (`CanWrite`) or edit and delete
/// (`CanRead`) messages of channel `channel_id`: the user must have access
/// to the channel, then hold `permission` on it.
pub fn authorize_channel_message(
    model: &AccessModel,
    user_id: u128,
    channel_id: u128,
    permission: ChatPermission,
    client_secret: &Option<String>,
    configured_secret: &String,
) -> (r: Result<(), ErrorKind>)
    ensures
        r == channel_action_result(
            model@,
            user_id,
            channel_id,
            permission,
            bypass_granted(*client_secret, *configured_secret),
        ),
{
    match get_user_has_access_to_channel(model, user_id, channel_id) {
        Err(e) => Err(e),
        Ok(false) => Err(ErrorKind::Forbidden),
        Ok(true) => {
            if check_chat_permission(
                model,
                user_id,
                client_secret,
                configured_secret,
                permission,
                channel_id,
            ) {
                Ok(())
            } else {
                Err(ErrorKind::Forbidden)
            }
        },
    }
}

/// Answers whether `user_id` has `permission` organization-wide.
///
/// The privileged client secret grants everything without reading any row.
/// Otherwise the user must exist, not deleted, and hold a live role that is
/// an administrator role or carries the matching flag. Deleted grants and
/// roles, and grants whose role is missing, are skipped.
pub fn check_permission(
    model: &AccessModel,
    user_id: u128,
    client_secret: &Option<String>,
    configured_secret: &String,
    permission: Permission,
) -> (r: bool)
    ensures
        r == (bypass_granted(*client_secret, *configured_secret) || global_permission(
            model@,
            user_id,
            permission,
        )),
{
    if check_client_secret(client_secret, configured_secret) {
        return true;
    }
    if !is_active_user(model, user_id) {
        return false;
    }
    let mut k: usize = 0;
    while k < model.roles.len()
        invariant
            k <= model.roles.len(),
            model@.active_user(user_id),
            forall|k2: int|
                0 <= k2 < k ==> !(#[trigger] model@.holds_role_row(user_id, k2) && (
                model@.roles[k2].administrator || role_flag(permission, model@.roles[k2]))),
        decreases model.roles.len() - k,
    {
        let role = model.roles[k];
        if !role.deleted && (role.administrator || match_permission(permission, &role))
            && user_holds_role(model, user_id, role.id) {
            assert(model@.holds_role_row(user_id, k as int));
            return true;
        }
        k += 1;
    }
    false
}

/// Answers whether `user_id` has `permission` on channel `channel_id`.
///
/// The user and the channel must be live rows of one organization: across
/// organizations the answer is `false`, whatever the credentials. Then the
/// privileged client secret grants access. Otherwise some live role held by
/// the user must either be an administrator or channel-manager role of the
/// channel's organization, or have a live grant row on the channel that
/// allows `permission` (a write grant allows reading).
pub fn check_chat_permission(
    model: &AccessModel,
    user_id: u128,
    client_secret: &Option<String>,
    configured_secret: &String,
    permission: ChatPermission,
    channel_id: u128,
) -> (r: bool)
    ensures
        r == channel_permission(
            model@,
            user_id,
            channel_id,
            permission,
            bypass_granted(*client_secret, *configured_secret),
        ),
{
    if !is_same_organization(model, user_id, channel_id) {
        return false;
    }
    if check_client_secret(client_secret, configured_secret) {
        return true;
    }
    has_role_channel_access(model, user_id, channel_id, permission)
}

/// A user without any live role grant has no organization-wide permission
/// and no access to any channel, unless the privileged secret is presented.
pub proof fn lemma_no_grants_no_permissions(
    m: AccessView,
    u: u128,
    c: u128,
    permission: Permission,
    chat_permission: ChatPermission,
)
    requires
        forall|g: int|
            0 <= g < m.user_role_accesses.len() ==> !(#[trigger] m.user_role_accesses[g].user_id
                == u && !m.user_role_accesses[g].deleted),
    ensures
        !global_permission(m, u, permission),
        !channel_permission(m, u, c, chat_permission, false),
{
    assert forall|k: int| !#[trigger] m.holds_role_row(u, k) by {
        if m.holds_role_row(u, k) {
            let g = choose|g: int|
                0 <= g < m.user_role_accesses.len() && #[trigger] m.user_role_accesses[g].user_id
                    == u && m.user_role_accesses[g].role_id == m.roles[k].id
                    && !m.user_role_accesses[g].deleted;
        }
    }
}

/// A user holding a live administrator role can write to every live channel
/// of that role's organization, with no channel grant rows at all, provided
/// the user belongs to that same organization.
pub proof fn lemma_administrator_writes_everywhere(
    m: AccessView,
    u: u128,
    k: int,
    c: u128,
    bypass: bool,
)
    requires
        m.holds_role_row(u, k),
        m.roles[k].administrator,
        m.user_in_organization(u, m.roles[k].organization_id),
        m.channel_in_organization(c, m.roles[k].organization_id),
    ensures
        channel_permission(m, u, c, ChatPermission::CanWrite, bypass),
{
    let org = m.roles[k].organization_id;
    let i = choose|i: int|
        0 <= i < m.users.len() && #[trigger] m.users[i].id == u && !m.users[i].deleted
            && m.users[i].organization_id == org;
    let j = choose|j: int|
        0 <= j < m.channels.len() && #[trigger] m.channels[j].id == c && !m.channels[j].deleted
            && m.channels[j].organization_id == org;
    assert(m.users[i].organization_id == m.channels[j].organization_id);
    assert(organization_override(m, k, c));
}

/// A live grant with `can_write` on a channel lets every holder of the role
/// read that channel, within the channel's organization.
pub proof fn lemma_write_grant_implies_read(m: AccessView, u: u128, k: int, a: int, bypass: bool)
    requires
        m.holds_role_row(u, k),
        0 <= a < m.channel_role_accesses.len(),
        m.channel_role_accesses[a].role_id == m.roles[k].id,
        m.channel_role_accesses[a].can_write,
        !m.channel_role_accesses[a].deleted,
        m.same_organization(u, m.channel_role_accesses[a].channel_id),
    ensures
        channel_permission(m, u, m.channel_role_accesses[a].channel_id, ChatPermission::CanRead, bypass),
{
    let c = m.channel_role_accesses[a].channel_id;
    assert(channel_grant(m, c, m.roles[k].id, ChatPermission::CanRead));
}

/// When the user's organization differs from the channel's, no permission on
/// the channel is granted, whatever the roles and credentials.
pub proof fn lemma_cross_organization_denied(
    m: AccessView,
    u: u128,
    c: u128,
    user_org: u128,
    channel_org: u128,
    permission: ChatPermission,
    bypass: bool,
)
    requires
        m.wf(),
        m.user_in_organization(u, user_org),
        m.channel_in_organization(c, channel_org),
        user_org != channel_org,
    ensures
        !channel_permission(m, u, c, permission, bypass),
{
    let i0 = choose|i: int|
        0 <= i < m.users.len() && #[trigger] m.users[i].id == u && !m.users[i].deleted
            && m.users[i].organization_id == user_org;
    let j0 = choose|j: int|
        0 <= j < m.channels.len() && #[trigger] m.channels[j].id == c && !m.channels[j].deleted
            && m.channels[j].organization_id == channel_org;
    assert forall|i: int, j: int|
        0 <= i < m.users.len() && 0 <= j < m.channels.len() && m.users[i].id == u
            && m.channels[j].id == c implies #[trigger] m.users[i].organization_id
        != #[trigger] m.channels[j].organization_id by {
        assert(m.users[i] == m.users[i0] || m.users[i].id != m.users[i0].id);
        assert(m.channels[j] == m.channels[j0] || m.channels[j].id != m.channels[j0].id);
    }
}

} // verus!
