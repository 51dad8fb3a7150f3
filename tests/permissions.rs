use chat_fanout::permissions::{
    authorize_channel_message, check_chat_permission, check_client_secret, check_permission,
    get_organization_id_from_user_id, get_user_has_access_to_channel, match_chat_permission,
    match_permission,
};
use chat_fanout::{
    AccessModel, ChannelRoleAccessRow, ChannelRow, ChatPermission, ErrorKind, Permission, RoleRow,
    UserRoleAccessRow, UserRow,
};

const ORG: u128 = 0x1000;
const OTHER_ORG: u128 = 0x2000;
const ALICE: u128 = 0x11;
const BOB: u128 = 0x12;
const CAROL: u128 = 0x13;
const MALLORY: u128 = 0x21;
const CHANNEL_X: u128 = 0x100;
const CHANNEL_Y: u128 = 0x101;
const FOREIGN_CHANNEL: u128 = 0x200;
const ADMIN_ROLE: u128 = 0x501;
const READER_ROLE: u128 = 0x502;
const WRITER_ROLE: u128 = 0x503;
const FOREIGN_ADMIN_ROLE: u128 = 0x601;

fn user(id: u128, organization_id: u128) -> UserRow {
    UserRow { id, organization_id, deleted: false }
}

fn role(id: u128, organization_id: u128, administrator: bool) -> RoleRow {
    RoleRow {
        id,
        organization_id,
        administrator,
        manage_users: false,
        manage_channels: false,
        manage_roles: false,
        deleted: false,
    }
}

fn channel(id: u128, organization_id: u128) -> ChannelRow {
    ChannelRow { id, organization_id, deleted: false }
}

fn grant(user_id: u128, role_id: u128) -> UserRoleAccessRow {
    UserRoleAccessRow { user_id, role_id, deleted: false }
}

fn access(channel_id: u128, role_id: u128, can_read: bool, can_write: bool) -> ChannelRoleAccessRow {
    ChannelRoleAccessRow { channel_id, role_id, can_read, can_write, deleted: false }
}

/// Alice is an administrator, Bob reads channel X, Carol writes channel X
/// (write only), Mallory administers another organization.
fn sample() -> AccessModel {
    AccessModel {
        users: vec![
            user(ALICE, ORG),
            user(BOB, ORG),
            user(CAROL, ORG),
            user(MALLORY, OTHER_ORG),
        ],
        roles: vec![
            role(ADMIN_ROLE, ORG, true),
            role(READER_ROLE, ORG, false),
            role(WRITER_ROLE, ORG, false),
            role(FOREIGN_ADMIN_ROLE, OTHER_ORG, true),
        ],
        channels: vec![
            channel(CHANNEL_X, ORG),
            channel(CHANNEL_Y, ORG),
            channel(FOREIGN_CHANNEL, OTHER_ORG),
        ],
        channel_role_accesses: vec![
            access(CHANNEL_X, READER_ROLE, true, false),
            access(CHANNEL_X, WRITER_ROLE, false, true),
        ],
        user_role_accesses: vec![
            grant(ALICE, ADMIN_ROLE),
            grant(BOB, READER_ROLE),
            grant(CAROL, WRITER_ROLE),
            grant(MALLORY, FOREIGN_ADMIN_ROLE),
        ],
    }
}

fn no_secret() -> Option<String> {
    None
}

fn secret() -> String {
    "s3cr3t".to_string()
}

fn can(model: &AccessModel, u: u128, c: u128, p: ChatPermission) -> bool {
    check_chat_permission(model, u, &no_secret(), &secret(), p, c)
}

#[test]
fn user_without_grants_has_no_permission() {
    let mut model = sample();
    model.users.push(user(0x14, ORG));
    for p in [
        Permission::Administrator,
        Permission::ManageChannels,
        Permission::ManageRoles,
        Permission::ManageUsers,
    ] {
        assert!(!check_permission(&model, 0x14, &no_secret(), &secret(), p));
    }
    for c in [CHANNEL_X, CHANNEL_Y, FOREIGN_CHANNEL] {
        assert!(!can(&model, 0x14, c, ChatPermission::CanRead));
        assert!(!can(&model, 0x14, c, ChatPermission::CanWrite));
    }
}

#[test]
fn administrator_writes_every_channel_without_grant_rows() {
    let mut model = sample();
    model.channel_role_accesses.clear();
    assert!(can(&model, ALICE, CHANNEL_X, ChatPermission::CanWrite));
    assert!(can(&model, ALICE, CHANNEL_Y, ChatPermission::CanWrite));
    assert!(can(&model, ALICE, CHANNEL_Y, ChatPermission::CanRead));
    for p in [
        Permission::Administrator,
        Permission::ManageChannels,
        Permission::ManageRoles,
        Permission::ManageUsers,
    ] {
        assert!(check_permission(&model, ALICE, &no_secret(), &secret(), p));
    }
}

#[test]
fn write_grant_implies_read() {
    let model = sample();
    assert!(can(&model, CAROL, CHANNEL_X, ChatPermission::CanWrite));
    assert!(can(&model, CAROL, CHANNEL_X, ChatPermission::CanRead));
    assert!(!can(&model, CAROL, CHANNEL_Y, ChatPermission::CanRead));
}

#[test]
fn read_grant_does_not_allow_writing() {
    let model = sample();
    assert!(can(&model, BOB, CHANNEL_X, ChatPermission::CanRead));
    assert!(!can(&model, BOB, CHANNEL_X, ChatPermission::CanWrite));
}

#[test]
fn cross_organization_is_denied_whatever_the_roles() {
    let model = sample();
    assert!(!can(&model, ALICE, FOREIGN_CHANNEL, ChatPermission::CanRead));
    assert!(!can(&model, MALLORY, CHANNEL_X, ChatPermission::CanWrite));
    let presented = Some(secret());
    assert!(!check_chat_permission(
        &model,
        MALLORY,
        &presented,
        &secret(),
        ChatPermission::CanRead,
        CHANNEL_X
    ));
}

#[test]
fn client_secret_bypasses_role_checks() {
    let model = sample();
    let presented = Some(secret());
    assert!(check_permission(&model, 0x99, &presented, &secret(), Permission::ManageRoles));
    assert!(check_chat_permission(
        &model,
        BOB,
        &presented,
        &secret(),
        ChatPermission::CanWrite,
        CHANNEL_Y
    ));
    let wrong = Some("s3cr3".to_string());
    assert!(!check_permission(&model, BOB, &wrong, &secret(), Permission::ManageRoles));
    assert!(check_client_secret(&presented, &secret()));
    assert!(!check_client_secret(&wrong, &secret()));
    assert!(!check_client_secret(&None, &secret()));
}

#[test]
fn deleted_rows_grant_nothing() {
    let mut model = sample();
    model.user_role_accesses[1].deleted = true;
    assert!(!can(&model, BOB, CHANNEL_X, ChatPermission::CanRead));
    let mut model = sample();
    model.channel_role_accesses[0].deleted = true;
    assert!(!can(&model, BOB, CHANNEL_X, ChatPermission::CanRead));
    let mut model = sample();
    model.roles[0].deleted = true;
    assert!(!check_permission(&model, ALICE, &no_secret(), &secret(), Permission::Administrator));
    assert!(!can(&model, ALICE, CHANNEL_Y, ChatPermission::CanRead));
    let mut model = sample();
    model.users[0].deleted = true;
    assert!(!check_permission(&model, ALICE, &no_secret(), &secret(), Permission::Administrator));
}

#[test]
fn missing_role_is_skipped() {
    let mut model = sample();
    model.user_role_accesses.insert(1, grant(BOB, 0xdead));
    assert!(can(&model, BOB, CHANNEL_X, ChatPermission::CanRead));
}

#[test]
fn capability_flags_are_matched() {
    let mut model = sample();
    let mut manager = role(0x504, ORG, false);
    manager.manage_channels = true;
    model.roles.push(manager);
    model.user_role_accesses.push(grant(BOB, 0x504));
    assert!(check_permission(&model, BOB, &no_secret(), &secret(), Permission::ManageChannels));
    assert!(!check_permission(&model, BOB, &no_secret(), &secret(), Permission::ManageRoles));
    assert!(!check_permission(&model, BOB, &no_secret(), &secret(), Permission::Administrator));
    // A channel manager reads and writes every channel of its organization.
    assert!(can(&model, BOB, CHANNEL_Y, ChatPermission::CanWrite));
    assert!(!can(&model, BOB, FOREIGN_CHANNEL, ChatPermission::CanWrite));
}

#[test]
fn match_functions_read_the_right_flag() {
    let mut r = role(1, ORG, false);
    r.manage_users = true;
    assert!(match_permission(Permission::ManageUsers, &r));
    assert!(!match_permission(Permission::ManageChannels, &r));
    assert!(!match_permission(Permission::Administrator, &r));
    let a = access(1, 1, false, true);
    assert!(match_chat_permission(ChatPermission::CanRead, &a));
    assert!(match_chat_permission(ChatPermission::CanWrite, &a));
    let b = access(1, 1, true, false);
    assert!(match_chat_permission(ChatPermission::CanRead, &b));
    assert!(!match_chat_permission(ChatPermission::CanWrite, &b));
}

#[test]
fn channel_access_reports_missing_rows() {
    let model = sample();
    assert_eq!(get_user_has_access_to_channel(&model, 0x99, CHANNEL_X), Err(ErrorKind::NotFound));
    assert_eq!(get_user_has_access_to_channel(&model, BOB, 0x999), Err(ErrorKind::NotFound));
    assert_eq!(get_user_has_access_to_channel(&model, BOB, CHANNEL_X), Ok(true));
    assert_eq!(get_user_has_access_to_channel(&model, BOB, CHANNEL_Y), Ok(false));
    assert_eq!(get_user_has_access_to_channel(&model, MALLORY, CHANNEL_X), Ok(false));
}

#[test]
fn posting_needs_access_then_write_permission() {
    let model = sample();
    let post = |u: u128, c: u128| {
        authorize_channel_message(&model, u, c, ChatPermission::CanWrite, &None, &secret())
    };
    assert_eq!(post(CAROL, CHANNEL_X), Ok(()));
    assert_eq!(post(BOB, CHANNEL_X), Err(ErrorKind::Forbidden));
    assert_eq!(post(BOB, CHANNEL_Y), Err(ErrorKind::Forbidden));
    assert_eq!(post(0x99, CHANNEL_Y), Err(ErrorKind::NotFound));
    assert_eq!(
        authorize_channel_message(&model, BOB, CHANNEL_X, ChatPermission::CanRead, &None, &secret()),
        Ok(())
    );
    let presented = Some(secret());
    assert_eq!(
        authorize_channel_message(
            &model,
            BOB,
            CHANNEL_X,
            ChatPermission::CanWrite,
            &presented,
            &secret()
        ),
        Ok(())
    );
}

#[test]
fn organization_of_user() {
    let model = sample();
    assert_eq!(get_organization_id_from_user_id(&model, MALLORY), Ok(OTHER_ORG));
    assert_eq!(get_organization_id_from_user_id(&model, 0x99), Err(ErrorKind::NotFound));
}

#[test]
fn error_status_codes() {
    assert_eq!(ErrorKind::Unauthorized.status_code(), 401);
    assert_eq!(ErrorKind::Forbidden.status_code(), 403);
    assert_eq!(ErrorKind::NotFound.status_code(), 404);
    assert_eq!(ErrorKind::StoreUnavailable.status_code(), 500);
}
