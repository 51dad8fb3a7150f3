//! Routing of message, edit, delete and typing events, and the presence list.
use vstd::prelude::*;

use crate::chat::{reaches, ChatRoom, Delivery};
use crate::error::ErrorKind;
use crate::fanout::{channel_recipients, recipients_for_channel, recipients_for_direct_message};
use crate::model::AccessModel;
use crate::model::AccessView;
use crate::permissions::{
    authorize_channel_message, bypass_granted, channel_action_result, check_permission,
    get_user_has_access_to_channel, global_permission, is_active_user, role_channel_access,
    ChatPermission, Permission,
};

verus! {

/// What a message's `reference_id` names.
#[derive(Clone, Copy, Debug, PartialEq, Eq, Structural)]
pub enum RecipientType {
    /// A peer user: a direct message.
    User,
    /// A channel.
    Channel,
}

/// Who is told of a message, an edit or a deletion: the channel's audience,
/// or both parties of a direct message.
pub open spec fn message_audience(
    m: AccessView,
    sender_id: u128,
    recipient_type: RecipientType,
    reference_id: u128,
) -> Set<u128> {
    match recipient_type {
        RecipientType::Channel => channel_recipients(m, reference_id),
        RecipientType::User => set![reference_id, sender_id],
    }
}

/// Who is shown a typing indicator: the channel's audience, or the peer.
pub open spec fn typing_audience(
    m: AccessView,
    recipient_type: RecipientType,
    reference_id: u128,
) -> Set<u128> {
    match recipient_type {
        RecipientType::Channel => channel_recipients(m, reference_id),
        RecipientType::User => set![reference_id],
    }
}

/// What the authorization of an edit or a deletion reads of a stored
/// message.
#[derive(Clone, Copy, Debug, PartialEq, Eq, Structural)]
pub struct StoredMessage {
    pub author_id: u128,
    /// The message is a chat message, not a system event.
    pub is_chat_message: bool,
    pub recipient_type: RecipientType,
    pub reference_id: u128,
}

/// The outcome of a request by `user_id` to post to `reference_id`.
pub open spec fn send_result(
    m: AccessView,
    user_id: u128,
    recipient_type: RecipientType,
    reference_id: u128,
    bypass: bool,
) -> Result<(), ErrorKind> {
    match recipient_type {
        RecipientType::Channel => channel_action_result(
            m,
            user_id,
            reference_id,
            ChatPermission::CanWrite,
            bypass,
        ),
        RecipientType::User => Ok(()),
    }
}

/// The outcome of a request by `user_id` to replace the content of
/// `message` with `content`: only the author may edit a chat message, the
/// content must not be empty, and in a channel the author must still read it.
pub open spec fn edit_result(
    m: AccessView,
    user_id: u128,
    message: StoredMessage,
    content: Option<Seq<char>>,
    bypass: bool,
) -> Result<(), ErrorKind> {
    if !message.is_chat_message || message.author_id != user_id {
        Err(ErrorKind::BadRequest)
    } else if content is None || content->0.len() == 0 {
        Err(ErrorKind::BadRequest)
    } else {
        match message.recipient_type {
            RecipientType::Channel => channel_action_result(
                m,
                user_id,
                message.reference_id,
                ChatPermission::CanRead,
                bypass,
            ),
            RecipientType::User => Ok(()),
        }
    }
}

/// The outcome of a request by `user_id` to delete `message`: the author or
/// a channel manager may delete a chat message, and in a channel the
/// requester must have access to it.
pub open spec fn delete_result(
    m: AccessView,
    user_id: u128,
    message: StoredMessage,
    bypass: bool,
) -> Result<(), ErrorKind> {
    if !message.is_chat_message {
        Err(ErrorKind::BadRequest)
    } else if message.author_id != user_id && !(bypass || global_permission(
        m,
        user_id,
        Permission::ManageChannels,
    )) {
        Err(ErrorKind::BadRequest)
    } else {
        match message.recipient_type {
            RecipientType::Channel => if !m.active_user(user_id) || !m.active_channel(
                message.reference_id,
            ) {
                Err(ErrorKind::NotFound)
            } else if !(m.same_organization(user_id, message.reference_id) && role_channel_access(
                m,
                user_id,
                message.reference_id,
                ChatPermission::CanRead,
            )) {
                Err(ErrorKind::Forbidden)
            } else {
                Ok(())
            },
            RecipientType::User => Ok(()),
        }
    }
}

/// Decides whether `user_id` may post to `reference_id`. Direct messages
/// need no permission; posting to a channel needs access and write
/// permission.
pub fn authorize_send(
    model: &AccessModel,
    user_id: u128,
    recipient_type: RecipientType,
    reference_id: u128,
    client_secret: &Option<String>,
    configured_secret: &String,
) -> (r: Result<(), ErrorKind>)
    ensures
        r == send_result(
            model@,
            user_id,
            recipient_type,
            reference_id,
            bypass_granted(*client_secret, *configured_secret),
        ),
{
    match recipient_type {
        RecipientType::Channel => authorize_channel_message(
            model,
            user_id,
            reference_id,
            ChatPermission::CanWrite,
            client_secret,
            configured_secret,
        ),
        RecipientType::User => Ok(()),
    }
}

/// Decides whether `user_id` may replace the content of `message` with
/// `content`.
pub fn authorize_edit(
    model: &AccessModel,
    user_id: u128,
    message: &StoredMessage,
    content: &Option<String>,
    client_secret: &Option<String>,
    configured_secret: &String,
) -> (r: Result<(), ErrorKind>)
    ensures
        r == edit_result(
            model@,
            user_id,
            *message,
            match content {
                Some(c) => Some(c@),
                None => None,
            },
            bypass_granted(*client_secret, *configured_secret),
        ),
{
    if !message.is_chat_message || message.author_id != user_id {
        return Err(ErrorKind::BadRequest);
    }
    match content {
        None => {
            return Err(ErrorKind::BadRequest);
        },
        Some(c) => {
            if c.as_str().is_empty() {
                return Err(ErrorKind::BadRequest);
            }
        },
    }
    match message.recipient_type {
        RecipientType::Channel => authorize_channel_message(
            model,
            user_id,
            message.reference_id,
            ChatPermission::CanRead,
            client_secret,
            configured_secret,
        ),
        RecipientType::User => Ok(()),
    }
}

/// Decides whether `user_id` may delete `message`.
pub fn authorize_delete(
    model: &AccessModel,
    user_id: u128,
    message: &StoredMessage,
    client_secret: &Option<String>,
    configured_secret: &String,
) -> (r: Result<(), ErrorKind>)
    ensures
        r == delete_result(
            model@,
            user_id,
            *message,
            bypass_granted(*client_secret, *configured_secret),
        ),
{
    if !message.is_chat_message {
        return Err(ErrorKind::BadRequest);
    }
    if message.author_id != user_id && !check_permission(
        model,
        user_id,
        client_secret,
        configured_secret,
        Permission::ManageChannels,
    ) {
        return Err(ErrorKind::BadRequest);
    }
    match message.recipient_type {
        RecipientType::Channel => match get_user_has_access_to_channel(
            model,
            user_id,
            message.reference_id,
        ) {
            Err(e) => Err(e),
            Ok(false) => Err(ErrorKind::Forbidden),
            Ok(true) => Ok(()),
        },
        RecipientType::User => Ok(()),
    }
}

/// The users told of a message event, each once.
pub fn message_recipients(
    model: &AccessModel,
    sender_id: u128,
    recipient_type: RecipientType,
    reference_id: u128,
) -> (r: Vec<u128>)
    ensures
        r@.no_duplicates(),
        r@.to_set() == message_audience(model@, sender_id, recipient_type, reference_id),
{
    match recipient_type {
        RecipientType::Channel => recipients_for_channel(model, reference_id),
        RecipientType::User => {
            let r = recipients_for_direct_message(reference_id, sender_id);
            proof {
                assert(set![reference_id, sender_id] =~= set![reference_id, sender_id]);
            }
            r
        },
    }
}

/// The users shown a typing indicator, each once.
pub fn typing_recipients(model: &AccessModel, recipient_type: RecipientType, reference_id: u128) -> (r:
    Vec<u128>)
    ensures
        r@.no_duplicates(),
        r@.to_set() == typing_audience(model@, recipient_type, reference_id),
{
    match recipient_type {
        RecipientType::Channel => recipients_for_channel(model, reference_id),
        RecipientType::User => {
            let mut r: Vec<u128> = Vec::new();
            r.push(reference_id);
            proof {
                assert(r@.to_set() =~= set![reference_id]) by {
                    assert(r@[0] == reference_id);
                }
            }
            r
        },
    }
}

/// Hands a message event to the connected users it concerns.
pub fn notify_message(
    room: &ChatRoom,
    model: &AccessModel,
    sender_id: u128,
    recipient_type: RecipientType,
    reference_id: u128,
    payload: &str,
) -> (d: Delivery)
    requires
        room.wf(),
    ensures
        d.message.0@ == payload@,
        reaches(
            room@.users,
            d.handles@,
            message_audience(model@, sender_id, recipient_type, reference_id),
        ),
{
    let ids = message_recipients(model, sender_id, recipient_type, reference_id);
    room.send_message(&ids, payload)
}

/// Hands a typing indicator to the connected users it concerns.
pub fn notify_typing(
    room: &ChatRoom,
    model: &AccessModel,
    recipient_type: RecipientType,
    reference_id: u128,
    payload: &str,
) -> (d: Delivery)
    requires
        room.wf(),
    ensures
        d.message.0@ == payload@,
        reaches(room@.users, d.handles@, typing_audience(model@, recipient_type, reference_id)),
{
    let ids = typing_recipients(model, recipient_type, reference_id);
    room.send_message(&ids, payload)
}

/// Tells whether users `u` and `v` are live rows of one organization.
pub fn is_same_organization_as(model: &AccessModel, u: u128, v: u128) -> (r: bool)
    ensures
        r == model@.share_organization(u, v),
{
    let mut i: usize = 0;
    while i < model.users.len()
        invariant
            i <= model.users.len(),
            forall|i2: int, j: int|
                #![trigger model@.users[i2], model@.users[j]]
                0 <= i2 < i && 0 <= j < model.users.len() ==> !(model@.users[i2].id == u
                    && !model@.users[i2].deleted && model@.users[j].id == v
                    && !model@.users[j].deleted && model@.users[i2].organization_id
                    == model@.users[j].organization_id),
        decreases model.users.len() - i,
    {
        let first = model.users[i];
        if first.id == u && !first.deleted {
            let mut j: usize = 0;
            while j < model.users.len()
                invariant
                    i < model.users.len(),
                    j <= model.users.len(),
                    first == model@.users[i as int],
                    first.id == u,
                    !first.deleted,
                    forall|j2: int|
                        0 <= j2 < j ==> !(#[trigger] model@.users[j2].id == v
                            && !model@.users[j2].deleted && first.organization_id
                            == model@.users[j2].organization_id),
                decreases model.users.len() - j,
            {
                let second = model.users[j];
                if second.id == v && !second.deleted && second.organization_id
                    == first.organization_id {
                    assert(model@.users[i as int] == first && model@.users[j as int] == second);
                    return true;
                }
                j += 1;
            }
        }
        i += 1;
    }
    false
}

/// The connected users that share an organization with `user_id`, each
/// once; `NotFound` when `user_id` is not a live user.
pub fn connected_users_in_organization(room: &ChatRoom, model: &AccessModel, user_id: u128) -> (r:
    Result<Vec<u128>, ErrorKind>)
    requires
        room.wf(),
    ensures
        !model@.active_user(user_id) ==> r == Err::<Vec<u128>, ErrorKind>(ErrorKind::NotFound),
        model@.active_user(user_id) ==> (r matches Ok(ids) && ids@.no_duplicates()
            && ids@.to_set() == room@.users.dom().filter(
            |v: u128| model@.share_organization(user_id, v),
        )),
{
    if !is_active_user(model, user_id) {
        return Err(ErrorKind::NotFound);
    }
    let connected = room.get_connected_user_ids();
    let mut ids: Vec<u128> = Vec::new();
    let mut k: usize = 0;
    while k < connected.len()
        invariant
            k <= connected@.len(),
            connected@.no_duplicates(),
            ids@.no_duplicates(),
            forall|x: u128|
                ids@.contains(x) <==> exists|k2: int|
                    0 <= k2 < k && #[trigger] connected@[k2] == x && model@.share_organization(
                        user_id,
                        x,
                    ),
        decreases connected.len() - k,
    {
        let v = connected[k];
        let ghost before = ids@;
        if is_same_organization_as(model, user_id, v) {
            proof {
                if before.contains(v) {
                    let k1 = choose|k1: int| 0 <= k1 < k && #[trigger] connected@[k1] == v
                        && model@.share_organization(user_id, v);
                    assert(connected@[k1] == connected@[k as int]);
                }
            }
            ids.push(v);
            proof {
                assert forall|a: int, b: int|
                    0 <= a < ids@.len() && 0 <= b < ids@.len() && a != b implies ids@[a] != ids@[b] by {
                    if a < before.len() && b < before.len() {
                    } else if a < before.len() {
                        assert(before.contains(ids@[a]));
                    } else if b < before.len() {
                        assert(before.contains(ids@[b]));
                    }
                }
            }
        }
        proof {
            assert forall|x: u128|
                ids@.contains(x) <==> exists|k2: int|
                    0 <= k2 < k + 1 && #[trigger] connected@[k2] == x
                        && model@.share_organization(user_id, x) by {
                if ids@.contains(x) && !before.contains(x) {
                    assert(connected@[k as int] == x);
                }
                if before.contains(x) {
                    let q = choose|q: int| 0 <= q < before.len() && before[q] == x;
                    if ids@.len() != before.len() {
                        assert(ids@[q] == x);
                    }
                }
                if connected@[k as int] == x && model@.share_organization(user_id, x) {
                    assert(ids@[ids@.len() - 1] == x);
                }
            }
        }
        k += 1;
    }
    proof {
        assert forall|x: u128| ids@.to_set().contains(x) <==> room@.users.dom().filter(
            |v: u128| model@.share_organization(user_id, v),
        ).contains(x) by {
            assert(connected@.to_set().contains(x) == room@.users.dom().contains(x));
            if connected@.contains(x) {
                let q = choose|q: int| 0 <= q < connected@.len() && connected@[q] == x;
                assert(connected@[q] == x);
            }
        }
        assert(ids@.to_set() =~= room@.users.dom().filter(
            |v: u128| model@.share_organization(user_id, v),
        ));
    }
    Ok(ids)
}

} // verus!
