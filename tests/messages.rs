use chat_fanout::message::{
    authorize_delete, authorize_edit, authorize_send, RecipientType, StoredMessage,
};
use chat_fanout::{
    AccessModel, ChannelRoleAccessRow, ChannelRow, ErrorKind, RoleRow, UserRoleAccessRow, UserRow,
};

const ORG: u128 = 1;
const WRITER: u128 = 0x10;
const READER: u128 = 0x11;
const MANAGER: u128 = 0x12;
const OUTSIDER: u128 = 0x13;
const X: u128 = 0x100;
const WRITE_ROLE: u128 = 0x200;
const READ_ROLE: u128 = 0x201;
const MANAGER_ROLE: u128 = 0x202;

fn role(id: u128, manage_channels: bool) -> RoleRow {
    RoleRow {
        id,
        organization_id: ORG,
        administrator: false,
        manage_users: false,
        manage_channels,
        manage_roles: false,
        deleted: false,
    }
}

fn model() -> AccessModel {
    AccessModel {
        users: [WRITER, READER, MANAGER, OUTSIDER]
            .iter()
            .map(|&id| UserRow { id, organization_id: ORG, deleted: false })
            .collect(),
        roles: vec![role(WRITE_ROLE, false), role(READ_ROLE, false), role(MANAGER_ROLE, true)],
        channels: vec![ChannelRow { id: X, organization_id: ORG, deleted: false }],
        channel_role_accesses: vec![
            ChannelRoleAccessRow {
                channel_id: X,
                role_id: WRITE_ROLE,
                can_read: true,
                can_write: true,
                deleted: false,
            },
            ChannelRoleAccessRow {
                channel_id: X,
                role_id: READ_ROLE,
                can_read: true,
                can_write: false,
                deleted: false,
            },
        ],
        user_role_accesses: vec![
            UserRoleAccessRow { user_id: WRITER, role_id: WRITE_ROLE, deleted: false },
            UserRoleAccessRow { user_id: READER, role_id: READ_ROLE, deleted: false },
            UserRoleAccessRow { user_id: MANAGER, role_id: MANAGER_ROLE, deleted: false },
        ],
    }
}

fn secret() -> String {
    "configured".to_string()
}

fn in_channel(author_id: u128) -> StoredMessage {
    StoredMessage {
        author_id,
        is_chat_message: true,
        recipient_type: RecipientType::Channel,
        reference_id: X,
    }
}

#[test]
fn send_to_channel_needs_write_permission() {
    let m = model();
    let send = |u: u128| authorize_send(&m, u, RecipientType::Channel, X, &None, &secret());
    assert_eq!(send(WRITER), Ok(()));
    assert_eq!(send(MANAGER), Ok(()));
    assert_eq!(send(READER), Err(ErrorKind::Forbidden));
    assert_eq!(send(OUTSIDER), Err(ErrorKind::Forbidden));
    assert_eq!(send(0x99), Err(ErrorKind::NotFound));
    assert_eq!(
        authorize_send(&m, WRITER, RecipientType::Channel, 0x999, &None, &secret()),
        Err(ErrorKind::NotFound)
    );
    assert_eq!(authorize_send(&m, OUTSIDER, RecipientType::User, WRITER, &None, &secret()), Ok(()));
}

#[test]
fn edit_is_for_the_author_with_content() {
    let m = model();
    let some = |s: &str| Some(s.to_string());
    assert_eq!(authorize_edit(&m, READER, &in_channel(READER), &some("new"), &None, &secret()), Ok(()));
    assert_eq!(
        authorize_edit(&m, WRITER, &in_channel(READER), &some("new"), &None, &secret()),
        Err(ErrorKind::BadRequest)
    );
    assert_eq!(
        authorize_edit(&m, READER, &in_channel(READER), &some(""), &None, &secret()),
        Err(ErrorKind::BadRequest)
    );
    assert_eq!(
        authorize_edit(&m, READER, &in_channel(READER), &None, &None, &secret()),
        Err(ErrorKind::BadRequest)
    );
    let mut event = in_channel(READER);
    event.is_chat_message = false;
    assert_eq!(
        authorize_edit(&m, READER, &event, &some("x"), &None, &secret()),
        Err(ErrorKind::BadRequest)
    );
    assert_eq!(
        authorize_edit(&m, OUTSIDER, &in_channel(OUTSIDER), &some("x"), &None, &secret()),
        Err(ErrorKind::Forbidden)
    );
}

#[test]
fn delete_is_for_the_author_or_a_channel_manager() {
    let m = model();
    assert_eq!(authorize_delete(&m, READER, &in_channel(READER), &None, &secret()), Ok(()));
    assert_eq!(authorize_delete(&m, MANAGER, &in_channel(READER), &None, &secret()), Ok(()));
    assert_eq!(
        authorize_delete(&m, WRITER, &in_channel(READER), &None, &secret()),
        Err(ErrorKind::BadRequest)
    );
    let direct = StoredMessage {
        author_id: OUTSIDER,
        is_chat_message: true,
        recipient_type: RecipientType::User,
        reference_id: WRITER,
    };
    assert_eq!(authorize_delete(&m, OUTSIDER, &direct, &None, &secret()), Ok(()));
    assert_eq!(
        authorize_delete(&m, OUTSIDER, &in_channel(OUTSIDER), &None, &secret()),
        Err(ErrorKind::Forbidden)
    );
}
