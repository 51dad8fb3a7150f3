//! The fan-out engine: who must be told of a change, and on which
//! connections.
use vstd::prelude::*;

use crate::chat::{reaches, ChatRoom, Delivery};
use crate::event::{status_changed_payload, status_changed_text};
use crate::model::{AccessModel, AccessView, UserRow};
use crate::permissions::{
    channel_grant, grant_allows, has_role_channel_access, organization_override,
    role_channel_access, user_holds_role, ChatPermission,
};

verus! {

/// The users entitled to events of channel `c`: live users holding a live
/// role that may read the channel through a grant row, or that is an
/// administrator or channel-manager role of the channel's organization.
pub open spec fn channel_recipients(m: AccessView, c: u128) -> Set<u128> {
    Set::new(|u: u128| m.active_user(u) && role_channel_access(m, u, c, ChatPermission::CanRead))
}

proof fn lemma_channel_recipient_within(m1: AccessView, m2: AccessView, c: u128, u: u128)
    requires
        m1.rows_within(m2),
        channel_recipients(m1, c).contains(u),
    ensures
        channel_recipients(m2, c).contains(u),
{
    let i = choose|i: int| 0 <= i < m1.users.len() && #[trigger] m1.users[i].id == u && !m1.users[i].deleted;
    assert(m1.users.contains(m1.users[i]));
    assert(m2.users.contains(m1.users[i]));
    let i2 = choose|i2: int| 0 <= i2 < m2.users.len() && m2.users[i2] == m1.users[i];
    assert(m2.users[i2].id == u);
    let k = choose|k: int|
        #[trigger] m1.holds_role_row(u, k) && (organization_override(m1, k, c) || channel_grant(
            m1,
            c,
            m1.roles[k].id,
            ChatPermission::CanRead,
        ));
    assert(m1.roles.contains(m1.roles[k]));
    assert(m2.roles.contains(m1.roles[k]));
    let k2 = choose|k2: int| 0 <= k2 < m2.roles.len() && m2.roles[k2] == m1.roles[k];
    let r = m1.roles[k].id;
    let g = choose|g: int|
        0 <= g < m1.user_role_accesses.len() && #[trigger] m1.user_role_accesses[g].user_id == u
            && m1.user_role_accesses[g].role_id == r && !m1.user_role_accesses[g].deleted;
    assert(m1.user_role_accesses.contains(m1.user_role_accesses[g]));
    assert(m2.user_role_accesses.contains(m1.user_role_accesses[g]));
    let g2 = choose|g2: int|
        0 <= g2 < m2.user_role_accesses.len() && m2.user_role_accesses[g2]
            == m1.user_role_accesses[g];
    assert(m2.user_role_accesses[g2].user_id == u);
    assert(m2.holds_role_row(u, k2));
    if organization_override(m1, k, c) {
        let org = m1.roles[k].organization_id;
        let j = choose|j: int|
            0 <= j < m1.channels.len() && #[trigger] m1.channels[j].id == c
                && !m1.channels[j].deleted && m1.channels[j].organization_id == org;
        assert(m1.channels.contains(m1.channels[j]));
        assert(m2.channels.contains(m1.channels[j]));
        let j2 = choose|j2: int| 0 <= j2 < m2.channels.len() && m2.channels[j2] == m1.channels[j];
        assert(m2.channels[j2].id == c);
        assert(organization_override(m2, k2, c));
    } else {
        let a = choose|a: int|
            0 <= a < m1.channel_role_accesses.len() && #[trigger] m1.channel_role_accesses[a].channel_id
                == c && m1.channel_role_accesses[a].role_id == r
                && !m1.channel_role_accesses[a].deleted && grant_allows(
                ChatPermission::CanRead,
                m1.channel_role_accesses[a],
            );
        assert(m1.channel_role_accesses.contains(m1.channel_role_accesses[a]));
        assert(m2.channel_role_accesses.contains(m1.channel_role_accesses[a]));
        let a2 = choose|a2: int|
            0 <= a2 < m2.channel_role_accesses.len() && m2.channel_role_accesses[a2]
                == m1.channel_role_accesses[a];
        assert(m2.channel_role_accesses[a2].channel_id == c);
        assert(channel_grant(m2, c, m2.roles[k2].id, ChatPermission::CanRead));
    }
}

/// The channel audience is a function of the rows alone: two snapshots that
/// hold the same rows, in any order, give the same audience. Nothing else,
/// such as earlier computations or deliveries, enters it.
pub proof fn lemma_channel_recipients_deterministic(m1: AccessView, m2: AccessView, c: u128)
    requires
        m1.rows_within(m2),
        m2.rows_within(m1),
    ensures
        channel_recipients(m1, c) == channel_recipients(m2, c),
{
    assert forall|u: u128| channel_recipients(m1, c).contains(u) <==> channel_recipients(
        m2,
        c,
    ).contains(u) by {
        if channel_recipients(m1, c).contains(u) {
            lemma_channel_recipient_within(m1, m2, c, u);
        }
        if channel_recipients(m2, c).contains(u) {
            lemma_channel_recipient_within(m2, m1, c, u);
        }
    }
    assert(channel_recipients(m1, c) =~= channel_recipients(m2, c));
}

/// User `u` holds a live administrator or role-manager role of `org`.
pub open spec fn manages_roles_in(m: AccessView, u: u128, org: u128) -> bool {
    exists|k: int|
        #[trigger] m.holds_role_row(u, k) && m.roles[k].organization_id == org && (
        m.roles[k].administrator || m.roles[k].manage_roles)
}

/// The users to refresh when role `r` of organization `org` changes: live
/// users holding `r`, and live users who manage roles in `org`.
pub open spec fn role_change_recipients(m: AccessView, r: u128, org: u128) -> Set<u128> {
    Set::new(|u: u128| m.active_user(u) && (m.holds_role(u, r) || manages_roles_in(m, u, org)))
}

/// The live users of organization `org`.
pub open spec fn organization_recipients(m: AccessView, org: u128) -> Set<u128> {
    Set::new(|u: u128| m.user_in_organization(u, org))
}

/// Who is told of an event, before the rows are consulted.
enum Audience {
    Channel(u128),
    RoleChange(u128, u128),
    Organization(u128),
}

spec fn audience_member(m: AccessView, audience: Audience, row: UserRow) -> bool {
    match audience {
        Audience::Channel(c) => role_channel_access(m, row.id, c, ChatPermission::CanRead),
        Audience::RoleChange(r, org) => m.holds_role(row.id, r) || manages_roles_in(m, row.id, org),
        Audience::Organization(org) => row.organization_id == org,
    }
}

spec fn audience_set(m: AccessView, audience: Audience) -> Set<u128> {
    Set::new(
        |u: u128|
            exists|i: int|
                0 <= i < m.users.len() && #[trigger] m.users[i].id == u && !m.users[i].deleted
                    && audience_member(m, audience, m.users[i]),
    )
}

/// Tells whether user `u` holds a live administrator or role-manager role of `org`.
pub fn is_role_manager(model: &AccessModel, u: u128, org: u128) -> (b: bool)
    ensures
        b == manages_roles_in(model@, u, org),
{
    let mut k: usize = 0;
    while k < model.roles.len()
        invariant
            k <= model.roles.len(),
            forall|k2: int|
                0 <= k2 < k ==> !(#[trigger] model@.holds_role_row(u, k2)
                    && model@.roles[k2].organization_id == org && (model@.roles[k2].administrator
                    || model@.roles[k2].manage_roles)),
        decreases model.roles.len() - k,
    {
        let role = model.roles[k];
        if !role.deleted && role.organization_id == org && (role.administrator
            || role.manage_roles) && user_holds_role(model, u, role.id) {
            assert(model@.holds_role_row(u, k as int));
            return true;
        }
        k += 1;
    }
    false
}

fn is_audience_member(model: &AccessModel, audience: &Audience, row: &UserRow) -> (b: bool)
    ensures
        b == audience_member(model@, *audience, *row),
{
    match audience {
        Audience::Channel(c) => has_role_channel_access(
            model,
            row.id,
            *c,
            ChatPermission::CanRead,
        ),
        Audience::RoleChange(r, org) => user_holds_role(model, row.id, *r) || is_role_manager(
            model,
            row.id,
            *org,
        ),
        Audience::Organization(org) => row.organization_id == *org,
    }
}

fn contains_id(ids: &Vec<u128>, id: u128) -> (b: bool)
    ensures
        b == ids@.contains(id),
{
    let mut i: usize = 0;
    while i < ids.len()
        invariant
            i <= ids@.len(),
            forall|i2: int| 0 <= i2 < i ==> ids@[i2] != id,
        decreases ids.len() - i,
    {
        if ids[i] == id {
            return true;
        }
        i += 1;
    }
    false
}

/// The live users in `audience`, each once, in the order of the user table.
fn collect_audience(model: &AccessModel, audience: Audience) -> (r: Vec<u128>)
    ensures
        r@.no_duplicates(),
        r@.to_set() == audience_set(model@, audience),
{
    let mut r: Vec<u128> = Vec::new();
    let mut i: usize = 0;
    while i < model.users.len()
        invariant
            i <= model.users@.len(),
            r@.no_duplicates(),
            forall|x: u128|
                r@.contains(x) <==> exists|i2: int|
                    0 <= i2 < i && #[trigger] model@.users[i2].id == x && !model@.users[i2].deleted
                        && audience_member(model@, audience, model@.users[i2]),
        decreases model.users.len() - i,
    {
        let row = model.users[i];
        let ghost before = r@;
        if !row.deleted && is_audience_member(model, &audience, &row) && !contains_id(&r, row.id) {
            r.push(row.id);
            proof {
                assert forall|a: int, b: int|
                    0 <= a < r@.len() && 0 <= b < r@.len() && a != b implies r@[a] != r@[b] by {
                    if a < before.len() && b < before.len() {
                    } else if a < before.len() {
                        assert(before.contains(r@[a]));
                    } else if b < before.len() {
                        assert(before.contains(r@[b]));
                    }
                }
            }
        }
        proof {
            assert forall|x: u128|
                r@.contains(x) <==> exists|i2: int|
                    0 <= i2 < i + 1 && #[trigger] model@.users[i2].id == x
                        && !model@.users[i2].deleted && audience_member(
                        model@,
                        audience,
                        model@.users[i2],
                    ) by {
                if r@.contains(x) && !before.contains(x) {
                    assert(x == row.id);
                    assert(model@.users[i as int].id == x);
                }
                if before.contains(x) {
                    let k = choose|k: int| 0 <= k < before.len() && before[k] == x;
                    if r@.len() != before.len() {
                        assert(r@[k] == x);
                    }
                }
                if !before.contains(x) && model@.users[i as int].id == x && !row.deleted
                    && audience_member(model@, audience, row) {
                    assert(r@[r@.len() - 1] == x);
                }
            }
        }
        i += 1;
    }
    proof {
        assert(r@.to_set() =~= audience_set(model@, audience));
    }
    r
}

/// The users entitled to events of channel `channel_id`, each once.
///
/// Computed from the rows given, with no state kept between calls.
pub fn recipients_for_channel(model: &AccessModel, channel_id: u128) -> (r: Vec<u128>)
    ensures
        r@.no_duplicates(),
        r@.to_set() == channel_recipients(model@, channel_id),
{
    let r = collect_audience(model, Audience::Channel(channel_id));
    proof {
        assert(audience_set(model@, Audience::Channel(channel_id)) =~= channel_recipients(
            model@,
            channel_id,
        ));
    }
    r
}

/// The users to refresh when role `role_id` of `organization_id` changes,
/// each once.
pub fn recipients_for_role_change(model: &AccessModel, role_id: u128, organization_id: u128) -> (r:
    Vec<u128>)
    ensures
        r@.no_duplicates(),
        r@.to_set() == role_change_recipients(model@, role_id, organization_id),
{
    let r = collect_audience(model, Audience::RoleChange(role_id, organization_id));
    proof {
        assert(audience_set(model@, Audience::RoleChange(role_id, organization_id))
            =~= role_change_recipients(model@, role_id, organization_id));
    }
    r
}

/// The live users of `organization_id`, each once.
pub fn recipients_for_organization(model: &AccessModel, organization_id: u128) -> (r: Vec<u128>)
    ensures
        r@.no_duplicates(),
        r@.to_set() == organization_recipients(model@, organization_id),
{
    let r = collect_audience(model, Audience::Organization(organization_id));
    proof {
        assert(audience_set(model@, Audience::Organization(organization_id))
            =~= organization_recipients(model@, organization_id));
    }
    r
}

/// The two parties of a direct message, each once.
pub fn recipients_for_direct_message(sender_id: u128, peer_id: u128) -> (r: Vec<u128>)
    ensures
        r@.no_duplicates(),
        r@.to_set() == set![sender_id, peer_id],
{
    let mut r: Vec<u128> = Vec::new();
    r.push(sender_id);
    if peer_id != sender_id {
        r.push(peer_id);
    }
    proof {
        assert(r@.to_set() =~= set![sender_id, peer_id]) by {
            assert(r@[0] == sender_id);
            if peer_id != sender_id {
                assert(r@[1] == peer_id);
            }
        }
    }
    r
}

/// Hands `payload` to the connected users entitled to events of channel
/// `channel_id`.
pub fn notify_channel(room: &ChatRoom, model: &AccessModel, channel_id: u128, payload: &str) -> (d:
    Delivery)
    requires
        room.wf(),
    ensures
        d.message.0@ == payload@,
        reaches(room@.users, d.handles@, channel_recipients(model@, channel_id)),
{
    let ids = recipients_for_channel(model, channel_id);
    room.send_message(&ids, payload)
}

/// Hands `payload` to the connected users concerned by a change of role
/// `role_id` in `organization_id`.
pub fn notify_role_change(
    room: &ChatRoom,
    model: &AccessModel,
    role_id: u128,
    organization_id: u128,
    payload: &str,
) -> (d: Delivery)
    requires
        room.wf(),
    ensures
        d.message.0@ == payload@,
        reaches(room@.users, d.handles@, role_change_recipients(model@, role_id, organization_id)),
{
    let ids = recipients_for_role_change(model, role_id, organization_id);
    room.send_message(&ids, payload)
}

/// Hands `payload` to the connected users of `organization_id`.
pub fn notify_organization(
    room: &ChatRoom,
    model: &AccessModel,
    organization_id: u128,
    payload: &str,
) -> (d: Delivery)
    requires
        room.wf(),
    ensures
        d.message.0@ == payload@,
        reaches(room@.users, d.handles@, organization_recipients(model@, organization_id)),
{
    let ids = recipients_for_organization(model, organization_id);
    room.send_message(&ids, payload)
}

/// Hands `payload` to both parties of a direct message, where connected.
pub fn notify_direct(room: &ChatRoom, sender_id: u128, peer_id: u128, payload: &str) -> (d:
    Delivery)
    requires
        room.wf(),
    ensures
        d.message.0@ == payload@,
        reaches(room@.users, d.handles@, set![sender_id, peer_id]),
{
    let ids = recipients_for_direct_message(sender_id, peer_id);
    room.send_message(&ids, payload)
}

/// Tells the users of channel `channel_id` to refresh their view of it.
pub fn send_update_status_from_channel_id(room: &ChatRoom, model: &AccessModel, channel_id: u128) -> (d:
    Delivery)
    requires
        room.wf(),
    ensures
        d.message.0@ == status_changed_text(),
        reaches(room@.users, d.handles@, channel_recipients(model@, channel_id)),
{
    let payload = status_changed_payload();
    notify_channel(room, model, channel_id, payload.as_str())
}

/// Tells the holders of role `role_id` and the role managers of
/// `organization_id` to refresh their permissions.
pub fn send_update_status_from_role_id_and_org_id(
    room: &ChatRoom,
    model: &AccessModel,
    role_id: u128,
    organization_id: u128,
) -> (d: Delivery)
    requires
        room.wf(),
    ensures
        d.message.0@ == status_changed_text(),
        reaches(room@.users, d.handles@, role_change_recipients(model@, role_id, organization_id)),
{
    let payload = status_changed_payload();
    notify_role_change(room, model, role_id, organization_id, payload.as_str())
}

/// Tells every user of `organization_id` to refresh.
pub fn send_update_status_to_all_users(room: &ChatRoom, model: &AccessModel, organization_id: u128) -> (d:
    Delivery)
    requires
        room.wf(),
    ensures
        d.message.0@ == status_changed_text(),
        reaches(room@.users, d.handles@, organization_recipients(model@, organization_id)),
{
    let payload = status_changed_payload();
    notify_organization(room, model, organization_id, payload.as_str())
}

} // verus!
