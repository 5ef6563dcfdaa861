//! The channel tables and what is done to them.
use crate::channel::rows::{
    ChannelConnectionRow, ChannelConversationBindingRow, ChannelPairingRequestRow, ChannelUserRow,
    ConversationOwnerRow, StoredChannelUserRow, StoredPairingRequestRow,
    UpdateConnectionStatusParams,
};
use crate::error::{conflict, missing, not_found, DbError};
use crate::table::{
    any_where, delete_where, exists_in, find_where, lookup, model, ordered, removed, select_where,
    selected, sort_rows, update_where, updated, Record,
};
use crate::text::{copy_opt, holds, is_some_text, is_within, joined, opt_str, opt_text, same};
use vstd::prelude::*;

verus! {

/// The model of a connection.
pub type Connection = ChannelConnectionRow<Seq<char>>;

/// The model of a stored channel user.
pub type Member = StoredChannelUserRow<Seq<char>>;

/// The model of a channel user.
pub type ChannelUser = ChannelUserRow<Seq<char>>;

/// The model of a binding.
pub type Binding = ChannelConversationBindingRow<Seq<char>>;

/// The model of a stored request.
pub type Request = StoredPairingRequestRow<Seq<char>>;

/// The model of a request.
pub type Pairing = ChannelPairingRequestRow<Seq<char>>;

/// The channel tables, and whose each conversation is.
#[derive(Debug, Clone, PartialEq, Eq)]
pub struct ChannelStore {
    pub connections: Vec<ChannelConnectionRow>,
    pub users: Vec<StoredChannelUserRow>,
    pub bindings: Vec<ChannelConversationBindingRow>,
    pub pairings: Vec<StoredPairingRequestRow>,
    pub conversations: Vec<ConversationOwnerRow>,
}

/// The model of the channel tables.
#[verifier::ext_equal]
pub struct ChannelModel {
    pub connections: Seq<Connection>,
    pub users: Seq<Member>,
    pub bindings: Seq<Binding>,
    pub pairings: Seq<Request>,
    pub conversations: Seq<ConversationOwnerRow<Seq<char>>>,
}

impl View for ChannelStore {
    type V = ChannelModel;

    open spec fn view(&self) -> ChannelModel {
        ChannelModel {
            connections: model(self.connections@),
            users: model(self.users@),
            bindings: model(self.bindings@),
            pairings: model(self.pairings@),
            conversations: model(self.conversations@),
        }
    }
}

/// Whether an operation was carried out as `expected` says.
pub open spec fn store_changed(
    expected: Result<ChannelModel, DbError<Seq<char>>>,
    result: Result<(), DbError>,
    before: ChannelModel,
    after: ChannelModel,
) -> bool {
    match expected {
        Err(wanted) => (result matches Err(error) && error@ == wanted) && after == before,
        Ok(store) => result is Ok && after == store,
    }
}

/// The error for a row that refers to one that is not there.
pub open spec fn reference_missing() -> DbError<Seq<char>> {
    DbError::Query("FOREIGN KEY constraint failed"@)
}

fn missing_reference() -> (error: DbError)
    ensures
        error@ == reference_missing(),
{
    DbError::Query("FOREIGN KEY constraint failed".to_owned())
}

// ----------------------------------------------------------------------------
// Connections
// ----------------------------------------------------------------------------

/// An owner's connections.
pub open spec fn connection_of(owner: Seq<char>) -> spec_fn(Connection) -> bool {
    |row: Connection| row.owner_user_id == owner
}

/// An owner's connection by its id.
pub open spec fn connection_with_id(
    owner: Seq<char>,
    id: Seq<char>,
) -> spec_fn(Connection) -> bool {
    |row: Connection| row.owner_user_id == owner && row.id == id
}

/// An owner's connection to a platform.
pub open spec fn connection_to(
    owner: Seq<char>,
    plugin_key: Seq<char>,
) -> spec_fn(Connection) -> bool {
    |row: Connection| row.owner_user_id == owner && row.plugin_key == plugin_key
}

/// An owner's other connections to a platform.
pub open spec fn other_connection_to(
    owner: Seq<char>,
    id: Seq<char>,
    plugin_key: Seq<char>,
) -> spec_fn(
    Connection,
) -> bool {
    |row: Connection|
        row.owner_user_id == owner && row.id != id && row.plugin_key == plugin_key
}

/// The order of connections: the oldest first.
pub open spec fn older_connection() -> spec_fn(Connection, Connection) -> bool {
    |a: Connection, b: Connection| a.created_at < b.created_at
}

/// A connection written anew. Its age stays.
pub open spec fn connection_becomes(new: Connection) -> spec_fn(Connection) -> Connection {
    |row: Connection|
        ChannelConnectionRow {
            plugin_key: new.plugin_key,
            name: new.name,
            enabled: new.enabled,
            config: new.config,
            status: new.status,
            last_connected: new.last_connected,
            updated_at: new.updated_at,
            ..row
        }
}

/// What writing a connection comes to. An owner has at most one connection to a
/// platform.
pub open spec fn upsert_connection_step(
    store: ChannelModel,
    owner: Seq<char>,
    row: Connection,
) -> Result<
    ChannelModel,
    DbError<Seq<char>>,
> {
    if exists_in(store.connections, other_connection_to(owner, row.id, row.plugin_key)) {
        Err(
            DbError::Query(
                "UNIQUE constraint failed: channel_connections.owner_user_id, channel_connections.plugin_key"@,
            ),
        )
    } else {
        let hit = connection_with_id(owner, row.id);
        Ok(
            ChannelModel {
                connections: if exists_in(store.connections, hit) {
                    updated(store.connections, hit, connection_becomes(row))
                } else {
                    store.connections.push(ChannelConnectionRow { owner_user_id: owner, ..row })
                },
                ..store
            },
        )
    }
}

/// A connection with another status.
pub open spec fn connection_reports(params: UpdateConnectionStatusParams, now: i64) -> spec_fn(
    Connection,
) -> Connection {
    |row: Connection|
        ChannelConnectionRow {
            status: if params.status is Some {
                opt_text(params.status)
            } else {
                row.status
            },
            last_connected: if params.last_connected is Some {
                params.last_connected
            } else {
                row.last_connected
            },
            enabled: match params.enabled {
                Some(flag) => flag,
                None => row.enabled,
            },
            updated_at: now,
            ..row
        }
}

/// The error for an unknown connection.
pub open spec fn connection_missing(id: Seq<char>) -> DbError<Seq<char>> {
    missing("Connection '"@, id, "' not found"@)
}

/// What updating a connection's status comes to. Without a change to make,
/// nothing is looked at.
pub open spec fn connection_status_step(
    store: ChannelModel,
    owner: Seq<char>,
    id: Seq<char>,
    params: UpdateConnectionStatusParams,
    now: i64,
) -> Result<ChannelModel, DbError<Seq<char>>> {
    if params.status is None && params.last_connected is None && params.enabled is None {
        Ok(store)
    } else if !exists_in(store.connections, connection_with_id(owner, id)) {
        Err(connection_missing(id))
    } else {
        Ok(
            ChannelModel {
                connections: updated(
                    store.connections,
                    connection_with_id(owner, id),
                    connection_reports(params, now),
                ),
                ..store
            },
        )
    }
}

/// What deleting a connection comes to.
pub open spec fn delete_connection_step(
    store: ChannelModel,
    owner: Seq<char>,
    id: Seq<char>,
) -> Result<
    ChannelModel,
    DbError<Seq<char>>,
> {
    if !exists_in(store.connections, connection_with_id(owner, id)) {
        Err(connection_missing(id))
    } else {
        Ok(
            ChannelModel {
                connections: removed(store.connections, connection_with_id(owner, id)),
                ..store
            },
        )
    }
}

// ----------------------------------------------------------------------------
// People
// ----------------------------------------------------------------------------

/// The platform of a connection.
pub open spec fn platform_of(
    connections: Seq<Connection>,
    owner: Seq<char>,
    id: Seq<char>,
) -> Option<
    Seq<char>,
> {
    match lookup(connections, connection_with_id(owner, id)) {
        Some(row) => Some(row.plugin_key),
        None => None,
    }
}

/// An owner's active channel users whose connection is there.
pub open spec fn active_user(
    connections: Seq<Connection>,
    owner: Seq<char>,
) -> spec_fn(Member) -> bool {
    |user: Member|
        user.owner_user_id == owner && user.status == "active"@ && platform_of(
            connections,
            owner,
            user.connection_id,
        ) is Some
}

/// An owner's active channel user by their name on a platform.
pub open spec fn active_on_platform(
    connections: Seq<Connection>,
    owner: Seq<char>,
    external: Seq<char>,
    platform: Seq<char>,
) -> spec_fn(Member) -> bool {
    |user: Member|
        user.owner_user_id == owner && user.external_user_id == external && user.status
            == "active"@ && platform_of(connections, owner, user.connection_id) == Some(platform)
}

/// A channel user as callers see it.
pub open spec fn shown_user(user: Member, connections: Seq<Connection>) -> ChannelUser {
    ChannelUserRow {
        id: user.id,
        owner_user_id: user.owner_user_id,
        connection_id: user.connection_id,
        platform_user_id: user.external_user_id,
        platform_type: match platform_of(connections, user.owner_user_id, user.connection_id) {
            Some(platform) => platform,
            None => Seq::empty(),
        },
        display_name: user.display_name,
        status: user.status,
        revoked_at: user.revoked_at,
        authorized_at: user.authorized_at,
        last_active: user.last_active,
    }
}

/// Channel users as callers see them.
pub open spec fn shown_users(users: Seq<Member>, connections: Seq<Connection>) -> Seq<ChannelUser> {
    Seq::new(users.len(), |i: int| shown_user(users[i], connections))
}

/// The order of channel users: those let in last first.
pub open spec fn later_user() -> spec_fn(Member, Member) -> bool {
    |a: Member, b: Member| a.authorized_at > b.authorized_at
}

/// An owner's channel user by their name on a connection.
pub open spec fn known_as(
    owner: Seq<char>,
    connection_id: Seq<char>,
    external: Seq<char>,
) -> spec_fn(
    Member,
) -> bool {
    |user: Member|
        user.owner_user_id == owner && user.connection_id == connection_id && user.external_user_id
            == external
}

/// An owner's channel user by their id.
pub open spec fn member_of(owner: Seq<char>, id: Seq<char>) -> spec_fn(Member) -> bool {
    |user: Member| user.owner_user_id == owner && user.id == id
}

/// The channel users with an id.
pub open spec fn member_with_id(id: Seq<char>) -> spec_fn(Member) -> bool {
    |user: Member| user.id == id
}

/// A channel user who was let in again.
pub open spec fn readmitted(row: ChannelUser) -> spec_fn(Member) -> Member {
    |user: Member|
        StoredChannelUserRow {
            status: "active"@,
            revoked_at: None,
            display_name: row.display_name,
            authorized_at: row.authorized_at,
            last_active: row.last_active,
            ..user
        }
}

/// A channel user who was let in for the first time.
pub open spec fn admitted(owner: Seq<char>, row: ChannelUser) -> Member {
    StoredChannelUserRow {
        id: row.id,
        owner_user_id: owner,
        connection_id: row.connection_id,
        external_user_id: row.platform_user_id,
        display_name: row.display_name,
        status: "active"@,
        revoked_at: None,
        authorized_at: row.authorized_at,
        last_active: row.last_active,
    }
}

/// The error for a channel user who is let in already.
pub open spec fn user_exists(row: ChannelUser) -> DbError<Seq<char>> {
    DbError::Conflict(
        "User '"@ + row.platform_user_id + ("' on connection '"@ + row.connection_id
            + "' already exists"@),
    )
}

/// What letting someone in comes to. One who was let in before and then turned
/// away is let in again under their old id.
pub open spec fn create_user_step(
    store: ChannelModel,
    owner: Seq<char>,
    row: ChannelUser,
) -> Result<
    ChannelModel,
    DbError<Seq<char>>,
> {
    match lookup(store.users, known_as(owner, row.connection_id, row.platform_user_id)) {
        Some(user) => if user.status == "active"@ {
            Err(user_exists(row))
        } else {
            Ok(
                ChannelModel {
                    users: updated(store.users, member_of(owner, user.id), readmitted(row)),
                    ..store
                },
            )
        },
        None => if exists_in(store.users, member_with_id(row.id)) {
            Err(user_exists(row))
        } else if !exists_in(store.connections, connection_with_id(owner, row.connection_id)) {
            Err(reference_missing())
        } else {
            Ok(ChannelModel { users: store.users.push(admitted(owner, row)), ..store })
        },
    }
}

/// The error for an unknown channel user.
pub open spec fn member_missing(id: Seq<char>) -> DbError<Seq<char>> {
    missing("User '"@, id, "' not found"@)
}

/// A channel user who was heard of.
pub open spec fn heard_at(time: i64) -> spec_fn(Member) -> Member {
    |user: Member| StoredChannelUserRow { last_active: Some(time), ..user }
}

/// An owner's active channel user by their id.
pub open spec fn active_member(owner: Seq<char>, id: Seq<char>) -> spec_fn(Member) -> bool {
    |user: Member| user.owner_user_id == owner && user.id == id && user.status == "active"@
}

/// A channel user who was turned away.
pub open spec fn turned_away(now: i64) -> spec_fn(Member) -> Member {
    |user: Member|
        StoredChannelUserRow { status: "revoked"@, revoked_at: Some(now), ..user }
}

/// The bindings of a channel user.
pub open spec fn binding_of_user(owner: Seq<char>, user_id: Seq<char>) -> spec_fn(Binding) -> bool {
    |row: Binding| row.owner_user_id == owner && row.user_id == user_id
}

/// What turning someone away comes to: their row stays, their bindings go.
pub open spec fn revoke_step(
    store: ChannelModel,
    owner: Seq<char>,
    id: Seq<char>,
    now: i64,
) -> Result<
    ChannelModel,
    DbError<Seq<char>>,
> {
    if !exists_in(store.users, active_member(owner, id)) {
        Err(member_missing(id))
    } else {
        Ok(
            ChannelModel {
                users: updated(store.users, active_member(owner, id), turned_away(now)),
                bindings: removed(store.bindings, binding_of_user(owner, id)),
                ..store
            },
        )
    }
}

// ----------------------------------------------------------------------------
// Bindings
// ----------------------------------------------------------------------------

/// An owner's bindings.
pub open spec fn binding_of(owner: Seq<char>) -> spec_fn(Binding) -> bool {
    |row: Binding| row.owner_user_id == owner
}

/// An owner's binding by its id.
pub open spec fn binding_with(owner: Seq<char>, id: Seq<char>) -> spec_fn(Binding) -> bool {
    |row: Binding| row.owner_user_id == owner && row.id == id
}

/// The bindings with an id.
pub open spec fn binding_with_id(id: Seq<char>) -> spec_fn(Binding) -> bool {
    |row: Binding| row.id == id
}

/// A channel user's binding for a chat.
pub open spec fn binding_for_chat(
    owner: Seq<char>,
    user_id: Seq<char>,
    chat_id: Seq<char>,
) -> spec_fn(
    Binding,
) -> bool {
    |row: Binding|
        row.owner_user_id == owner && row.user_id == user_id && row.chat_id == Some(chat_id)
}

/// The order of bindings: those used last first.
pub open spec fn later_binding() -> spec_fn(Binding, Binding) -> bool {
    |a: Binding, b: Binding| a.last_activity > b.last_activity
}

/// A binding that was used.
pub open spec fn used_at(time: i64) -> spec_fn(Binding) -> Binding {
    |row: Binding| ChannelConversationBindingRow { last_activity: time, ..row }
}

/// An owner's conversation.
pub open spec fn owned_conversation(owner: Seq<char>, id: Seq<char>) -> spec_fn(
    ConversationOwnerRow<Seq<char>>,
) -> bool {
    |row: ConversationOwnerRow<Seq<char>>| row.id == id && row.user_id == owner
}

/// The conversations with an id.
pub open spec fn conversation_with_id(id: Seq<char>) -> spec_fn(
    ConversationOwnerRow<Seq<char>>,
) -> bool {
    |row: ConversationOwnerRow<Seq<char>>| row.id == id
}

/// A new binding. Whose it is and on which connection comes from the channel
/// user, not from the caller.
pub open spec fn bound(user: Member, new_row: Binding) -> Binding {
    ChannelConversationBindingRow {
        id: new_row.id,
        owner_user_id: user.owner_user_id,
        connection_id: user.connection_id,
        user_id: user.id,
        chat_id: new_row.chat_id,
        conversation_id: new_row.conversation_id,
        created_at: new_row.created_at,
        last_activity: new_row.last_activity,
    }
}

/// Whether a binding may go to a conversation: to none, or to one of the
/// owner's.
pub open spec fn may_bind(
    store: ChannelModel,
    owner: Seq<char>,
    conversation_id: Option<Seq<char>>,
) -> bool {
    conversation_id matches Some(id) ==> exists_in(
        store.conversations,
        owned_conversation(owner, id),
    )
}

/// What asking for a chat's binding comes to: the one that is there, used again;
/// or else a new one for an active channel user.
pub open spec fn bind_step(
    store: ChannelModel,
    owner: Seq<char>,
    user_id: Seq<char>,
    chat_id: Seq<char>,
    new_row: Binding,
    now: i64,
) -> Result<(ChannelModel, Binding), DbError<Seq<char>>> {
    match lookup(store.bindings, binding_for_chat(owner, user_id, chat_id)) {
        Some(row) => Ok(
            (
                ChannelModel {
                    bindings: updated(store.bindings, binding_with_id(row.id), used_at(now)),
                    ..store
                },
                used_at(now)(row),
            ),
        ),
        None => match lookup(store.users, active_member(owner, user_id)) {
            Some(user) => if !may_bind(store, owner, new_row.conversation_id) {
                unbound(store, owner, user_id, new_row)
            } else if exists_in(store.bindings, binding_with_id(new_row.id)) {
                Err(DbError::Query("UNIQUE constraint failed: channel_conversation_bindings.id"@))
            } else {
                Ok(
                    (
                        ChannelModel {
                            bindings: store.bindings.push(bound(user, new_row)),
                            ..store
                        },
                        bound(user, new_row),
                    ),
                )
            },
            None => unbound(store, owner, user_id, new_row),
        },
    }
}

/// What comes of it where no binding can be made: the owner's binding of that id,
/// if there is one.
pub open spec fn unbound(
    store: ChannelModel,
    owner: Seq<char>,
    user_id: Seq<char>,
    new_row: Binding,
) -> Result<(ChannelModel, Binding), DbError<Seq<char>>> {
    match lookup(store.bindings, binding_with(owner, new_row.id)) {
        Some(row) => Ok((store, row)),
        None => Err(missing("Channel user '"@, user_id, "' not found"@)),
    }
}

/// The error for an unknown binding.
pub open spec fn binding_missing(id: Seq<char>) -> DbError<Seq<char>> {
    missing("Session '"@, id, "' not found"@)
}

/// What noting a binding's use comes to.
pub open spec fn binding_activity_step(
    store: ChannelModel,
    owner: Seq<char>,
    id: Seq<char>,
    time: i64,
) -> Result<ChannelModel, DbError<Seq<char>>> {
    if !exists_in(store.bindings, binding_with(owner, id)) {
        Err(binding_missing(id))
    } else {
        Ok(
            ChannelModel {
                bindings: updated(store.bindings, binding_with(owner, id), used_at(time)),
                ..store
            },
        )
    }
}

/// A binding that goes to another conversation.
pub open spec fn goes_to(conversation_id: Seq<char>, now: i64) -> spec_fn(Binding) -> Binding {
    |row: Binding|
        ChannelConversationBindingRow {
            conversation_id: Some(conversation_id),
            last_activity: now,
            ..row
        }
}

/// The error for a binding to another user's conversation.
pub open spec fn foreign_conversation() -> DbError<Seq<char>> {
    DbError::Conflict(
        "CROSS_ACCOUNT_REFERENCE: channel session conversation belongs to another user"@,
    )
}

/// What sending a binding to another conversation comes to.
pub open spec fn rebind_step(
    store: ChannelModel,
    owner: Seq<char>,
    id: Seq<char>,
    conversation_id: Seq<char>,
    now: i64,
) -> Result<ChannelModel, DbError<Seq<char>>> {
    if !exists_in(store.bindings, binding_with(owner, id)) {
        Err(binding_missing(id))
    } else if exists_in(store.conversations, owned_conversation(owner, conversation_id)) {
        Ok(
            ChannelModel {
                bindings: updated(
                    store.bindings,
                    binding_with(owner, id),
                    goes_to(conversation_id, now),
                ),
                ..store
            },
        )
    } else if lookup(store.conversations, conversation_with_id(conversation_id)) is Some {
        Err(foreign_conversation())
    } else {
        Err(binding_missing(id))
    }
}

// ----------------------------------------------------------------------------
// Requests to be let in
// ----------------------------------------------------------------------------

/// A pending request that bars another: from the same person on the connection,
/// or with the same code.
pub open spec fn bars_request(owner: Seq<char>, row: Pairing) -> spec_fn(Request) -> bool {
    |request: Request|
        request.owner_user_id == owner && request.status == "pending"@ && ((request.connection_id
            == row.connection_id && request.external_user_id == row.platform_user_id)
            || request.code_hash == row.code_hash)
}

/// The requests with an id.
pub open spec fn request_with_id(id: Seq<char>) -> spec_fn(Request) -> bool {
    |request: Request| request.id == id
}

/// A request as it is stored.
pub open spec fn filed(owner: Seq<char>, row: Pairing) -> Request {
    StoredPairingRequestRow {
        id: row.id,
        owner_user_id: owner,
        connection_id: row.connection_id,
        external_user_id: row.platform_user_id,
        display_name: row.display_name,
        code_hash: row.code_hash,
        status: row.status,
        requested_at: row.requested_at,
        expires_at: row.expires_at,
        approved_channel_user_id: row.approved_channel_user_id,
    }
}

/// What filing a request comes to.
pub open spec fn create_pairing_step(store: ChannelModel, owner: Seq<char>, row: Pairing) -> Result<
    ChannelModel,
    DbError<Seq<char>>,
> {
    if exists_in(store.pairings, request_with_id(row.id)) || (row.status == "pending"@ && exists_in(
        store.pairings,
        bars_request(owner, row),
    )) {
        Err(
            DbError::Conflict(
                "A pending pairing request already exists for this user or code"@,
            ),
        )
    } else if !exists_in(store.connections, connection_with_id(owner, row.connection_id)) {
        Err(reference_missing())
    } else {
        Ok(ChannelModel { pairings: store.pairings.push(filed(owner, row)), ..store })
    }
}

/// A request as callers see it.
pub open spec fn shown_request(request: Request, connections: Seq<Connection>) -> Pairing {
    ChannelPairingRequestRow {
        id: request.id,
        owner_user_id: request.owner_user_id,
        connection_id: request.connection_id,
        platform_user_id: request.external_user_id,
        platform_type: match platform_of(
            connections,
            request.owner_user_id,
            request.connection_id,
        ) {
            Some(platform) => platform,
            None => Seq::empty(),
        },
        display_name: request.display_name,
        code_hash: request.code_hash,
        status: request.status,
        requested_at: request.requested_at,
        expires_at: request.expires_at,
        approved_channel_user_id: request.approved_channel_user_id,
    }
}

/// Requests as callers see them.
pub open spec fn shown_requests(
    requests: Seq<Request>,
    connections: Seq<Connection>,
) -> Seq<Pairing> {
    Seq::new(requests.len(), |i: int| shown_request(requests[i], connections))
}

/// An owner's pending requests whose connection is there.
pub open spec fn pending_request(connections: Seq<Connection>, owner: Seq<char>) -> spec_fn(
    Request,
) -> bool {
    |request: Request|
        request.owner_user_id == owner && request.status == "pending"@ && platform_of(
            connections,
            owner,
            request.connection_id,
        ) is Some
}

/// The order of requests: the newest first.
pub open spec fn later_request() -> spec_fn(Request, Request) -> bool {
    |a: Request, b: Request| a.requested_at > b.requested_at
}

/// An owner's request by its id, where its connection is there.
pub open spec fn request_for(
    connections: Seq<Connection>,
    owner: Seq<char>,
    id: Seq<char>,
) -> spec_fn(
    Request,
) -> bool {
    |request: Request|
        request.owner_user_id == owner && request.id == id && platform_of(
            connections,
            owner,
            request.connection_id,
        ) is Some
}

/// An owner's pending request by its code, where its connection is there.
pub open spec fn request_by_code(
    connections: Seq<Connection>,
    owner: Seq<char>,
    code_hash: Seq<char>,
) -> spec_fn(Request) -> bool {
    |request: Request|
        request.owner_user_id == owner && request.code_hash == code_hash && request.status
            == "pending"@ && platform_of(connections, owner, request.connection_id) is Some
}

/// An owner's request by its id.
pub open spec fn request_of(owner: Seq<char>, id: Seq<char>) -> spec_fn(Request) -> bool {
    |request: Request| request.owner_user_id == owner && request.id == id
}

/// A request with another status, and who was let in by it.
pub open spec fn decided(
    status: Seq<char>,
    approved: Option<Seq<char>>,
) -> spec_fn(Request) -> Request {
    |request: Request|
        StoredPairingRequestRow {
            status,
            approved_channel_user_id: match approved {
                Some(id) => Some(id),
                None => request.approved_channel_user_id,
            },
            ..request
        }
}

/// What deciding on a request comes to.
pub open spec fn decide_step(
    store: ChannelModel,
    owner: Seq<char>,
    id: Seq<char>,
    status: Seq<char>,
    approved: Option<Seq<char>>,
) -> Result<ChannelModel, DbError<Seq<char>>> {
    if !exists_in(store.pairings, request_of(owner, id)) {
        Err(missing("Pairing request '"@, id, "' not found"@))
    } else {
        Ok(
            ChannelModel {
                pairings: updated(
                    store.pairings,
                    request_of(owner, id),
                    decided(status, approved),
                ),
                ..store
            },
        )
    }
}

/// A request that ran out.
pub open spec fn ran_out() -> spec_fn(Request) -> Request {
    |request: Request| StoredPairingRequestRow { status: "expired"@, ..request }
}

/// A person's pending requests on a connection.
pub open spec fn pending_from(
    owner: Seq<char>,
    connection_id: Seq<char>,
    external: Seq<char>,
) -> spec_fn(
    Request,
) -> bool {
    |request: Request|
        request.owner_user_id == owner && request.connection_id == connection_id
            && request.external_user_id == external && request.status == "pending"@
}

/// An owner's pending requests whose time is over.
pub open spec fn overdue(owner: Seq<char>, now: i64) -> spec_fn(Request) -> bool {
    |request: Request|
        request.owner_user_id == owner && request.status == "pending"@ && request.expires_at <= now
}

// ----------------------------------------------------------------------------
// Connections in running code
// ----------------------------------------------------------------------------

fn find_connection(
    rows: &Vec<ChannelConnectionRow>,
    owner: &str,
    id: &str,
) -> (found: Option<usize>)
    ensures
        match found {
            Some(at) => at < rows.len() && lookup(model(rows@), connection_with_id(owner@, id@))
                == Some(rows[at as int]@) && exists_in(
                model(rows@),
                connection_with_id(owner@, id@),
            ),
            None => lookup(model(rows@), connection_with_id(owner@, id@)) is None && !exists_in(
                model(rows@),
                connection_with_id(owner@, id@),
            ),
        },
{
    find_where(
        rows,
        |row: &ChannelConnectionRow| -> (yes: bool)
            ensures yes == connection_with_id(owner@, id@)(row@)
            { same(row.owner_user_id.as_str(), owner) && same(row.id.as_str(), id) },
        Ghost(connection_with_id(owner@, id@)),
    )
}

fn find_platform<'a>(
    rows: &'a Vec<ChannelConnectionRow>,
    owner: &str,
    id: &str,
) -> (platform: Option<
    &'a str,
>)
    ensures
        opt_str(platform) == platform_of(model(rows@), owner@, id@),
{
    match find_connection(rows, owner, id) {
        Some(at) => Some(rows[at].plugin_key.as_str()),
        None => None,
    }
}

impl ChannelStore {
    /// Tables without any row.
    pub fn new() -> (store: Self)
        ensures
            store@ == (ChannelModel {
                connections: Seq::empty(),
                users: Seq::empty(),
                bindings: Seq::empty(),
                pairings: Seq::empty(),
                conversations: Seq::empty(),
            }),
    {
        let store = ChannelStore {
            connections: Vec::new(),
            users: Vec::new(),
            bindings: Vec::new(),
            pairings: Vec::new(),
            conversations: Vec::new(),
        };
        assert(store@ =~= (ChannelModel {
            connections: Seq::empty(),
            users: Seq::empty(),
            bindings: Seq::empty(),
            pairings: Seq::empty(),
            conversations: Seq::empty(),
        }));
        store
    }

    /// An owner's connections, the oldest first.
    pub fn get_all_connections(&self, owner_user_id: &str) -> (list: Vec<ChannelConnectionRow>)
        ensures
            model(list@) == ordered(
                selected(self@.connections, connection_of(owner_user_id@)),
                older_connection(),
            ),
    {
        let hits = select_where(
            &self.connections,
            |row: &ChannelConnectionRow| -> (yes: bool)
                ensures yes == connection_of(owner_user_id@)(row@)
                { same(row.owner_user_id.as_str(), owner_user_id) },
            Ghost(connection_of(owner_user_id@)),
        );
        sort_rows(
            hits,
            |a: &ChannelConnectionRow, b: &ChannelConnectionRow| -> (yes: bool)
                ensures yes == older_connection()(a@, b@)
                { a.created_at < b.created_at },
            Ghost(older_connection()),
        )
    }

    /// An owner's connection by its id.
    pub fn get_connection(
        &self,
        owner_user_id: &str,
        id: &str,
    ) -> (found: Option<ChannelConnectionRow>)
        ensures
            (match found {
                Some(row) => Some(row@),
                None => None,
            }) == lookup(self@.connections, connection_with_id(owner_user_id@, id@)),
    {
        match find_connection(&self.connections, owner_user_id, id) {
            Some(at) => Some(self.connections[at].duplicate()),
            None => None,
        }
    }

    /// An owner's connection to a platform.
    pub fn get_connection_by_plugin_key(
        &self,
        owner_user_id: &str,
        plugin_key: &str,
    ) -> (found: Option<
        ChannelConnectionRow,
    >)
        ensures
            (match found {
                Some(row) => Some(row@),
                None => None,
            }) == lookup(self@.connections, connection_to(owner_user_id@, plugin_key@)),
    {
        let found = find_where(
            &self.connections,
            |row: &ChannelConnectionRow| -> (yes: bool)
                ensures yes == connection_to(owner_user_id@, plugin_key@)(row@)
                {
                    same(row.owner_user_id.as_str(), owner_user_id) && same(
                        row.plugin_key.as_str(),
                        plugin_key,
                    )
                },
            Ghost(connection_to(owner_user_id@, plugin_key@)),
        );
        match found {
            Some(at) => Some(self.connections[at].duplicate()),
            None => None,
        }
    }

    /// Writes a connection: a new one, or an owner's own anew.
    pub fn upsert_connection(
        &mut self,
        owner_user_id: &str,
        row: &ChannelConnectionRow,
    ) -> (result: Result<
        (),
        DbError,
    >)
        ensures
            store_changed(
                upsert_connection_step(old(self)@, owner_user_id@, row@),
                result,
                old(self)@,
                final(self)@,
            ),
    {
        let ghost other = other_connection_to(owner_user_id@, row@.id, row@.plugin_key);
        let taken = any_where(
            &self.connections,
            |known: &ChannelConnectionRow| -> (yes: bool)
                ensures yes == other(known@)
                {
                    same(known.owner_user_id.as_str(), owner_user_id) && !same(
                        known.id.as_str(),
                        row.id.as_str(),
                    ) && same(known.plugin_key.as_str(), row.plugin_key.as_str())
                },
            Ghost(other),
        );
        if taken {
            return Err(
                DbError::Query(
                    "UNIQUE constraint failed: channel_connections.owner_user_id, channel_connections.plugin_key".to_owned(),
                ),
            );
        }
        let ghost hit = connection_with_id(owner_user_id@, row@.id);
        match find_connection(&self.connections, owner_user_id, row.id.as_str()) {
            Some(_) => {
                let _count: u64 = update_where(
                    &mut self.connections,
                    |known: &ChannelConnectionRow| -> (yes: bool)
                        ensures yes == hit(known@)
                        {
                            same(known.owner_user_id.as_str(), owner_user_id) && same(
                                known.id.as_str(),
                                row.id.as_str(),
                            )
                        },
                    |known: &ChannelConnectionRow| -> (next: ChannelConnectionRow)
                        ensures next@ == connection_becomes(row@)(known@)
                        {
                            ChannelConnectionRow {
                                plugin_key: row.plugin_key.clone(),
                                name: row.name.clone(),
                                enabled: row.enabled,
                                config: row.config.clone(),
                                status: copy_opt(&row.status),
                                last_connected: row.last_connected,
                                updated_at: row.updated_at,
                                ..known.duplicate()
                            }
                        },
                    Ghost(hit),
                    Ghost(connection_becomes(row@)),
                );
            },
            None => {
                let copy = ChannelConnectionRow {
                    owner_user_id: owner_user_id.to_owned(),
                    ..row.duplicate()
                };
                let ghost start = self.connections@;
                self.connections.push(copy);
                assert(model(self.connections@) =~= model(start).push(copy@));
            },
        }
        Ok(())
    }

    /// Updates only what is given of a connection's status.
    pub fn update_connection_status(
        &mut self,
        owner_user_id: &str,
        id: &str,
        params: &UpdateConnectionStatusParams,
        now: i64,
    ) -> (result: Result<(), DbError>)
        ensures
            store_changed(
                connection_status_step(old(self)@, owner_user_id@, id@, *params, now),
                result,
                old(self)@,
                final(self)@,
            ),
    {
        if params.status.is_none() && params.last_connected.is_none() && params.enabled.is_none() {
            return Ok(());
        }
        if find_connection(&self.connections, owner_user_id, id).is_none() {
            return Err(not_found("Connection '", id, "' not found"));
        }
        let ghost hit = connection_with_id(owner_user_id@, id@);
        let ghost change = connection_reports(*params, now);
        let _count: u64 = update_where(
            &mut self.connections,
            |row: &ChannelConnectionRow| -> (yes: bool)
                ensures yes == hit(row@)
                { same(row.owner_user_id.as_str(), owner_user_id) && same(row.id.as_str(), id) },
            |row: &ChannelConnectionRow| -> (next: ChannelConnectionRow)
                ensures next@ == change(row@)
                {
                    ChannelConnectionRow {
                        status: if params.status.is_some() {
                            copy_opt(&params.status)
                        } else {
                            copy_opt(&row.status)
                        },
                        last_connected: if params.last_connected.is_some() {
                            params.last_connected
                        } else {
                            row.last_connected
                        },
                        enabled: match params.enabled {
                            Some(flag) => flag,
                            None => row.enabled,
                        },
                        updated_at: now,
                        ..row.duplicate()
                    }
                },
            Ghost(hit),
            Ghost(change),
        );
        Ok(())
    }

    /// Deletes a connection.
    pub fn delete_connection(
        &mut self,
        owner_user_id: &str,
        id: &str,
    ) -> (result: Result<(), DbError>)
        ensures
            store_changed(
                delete_connection_step(old(self)@, owner_user_id@, id@),
                result,
                old(self)@,
                final(self)@,
            ),
    {
        if find_connection(&self.connections, owner_user_id, id).is_none() {
            return Err(not_found("Connection '", id, "' not found"));
        }
        let ghost hit = connection_with_id(owner_user_id@, id@);
        let _count: u64 = delete_where(
            &mut self.connections,
            |row: &ChannelConnectionRow| -> (yes: bool)
                ensures yes == hit(row@)
                { same(row.owner_user_id.as_str(), owner_user_id) && same(row.id.as_str(), id) },
            Ghost(hit),
        );
        Ok(())
    }
}

// ----------------------------------------------------------------------------
// People in running code
// ----------------------------------------------------------------------------

fn show_user(user: &StoredChannelUserRow, connections: &Vec<ChannelConnectionRow>) -> (row:
    ChannelUserRow)
    ensures
        row@ == shown_user(user@, model(connections@)),
{
    let platform = find_platform(
        connections,
        user.owner_user_id.as_str(),
        user.connection_id.as_str(),
    );
    let platform_type = match platform {
        Some(text) => text.to_owned(),
        None => String::new(),
    };
    ChannelUserRow {
        id: user.id.clone(),
        owner_user_id: user.owner_user_id.clone(),
        connection_id: user.connection_id.clone(),
        platform_user_id: user.external_user_id.clone(),
        platform_type,
        display_name: copy_opt(&user.display_name),
        status: user.status.clone(),
        revoked_at: user.revoked_at,
        authorized_at: user.authorized_at,
        last_active: user.last_active,
    }
}

/// Whether a message of the storage engine reports that a unique index would
/// break.
pub open spec fn reports_unique_violation(message: Seq<char>) -> bool {
    is_within(message, "UNIQUE constraint failed"@)
}

/// Whether a message of the storage engine reports that a unique index would
/// break.
pub fn is_unique_violation(message: &str) -> (yes: bool)
    ensures
        yes == reports_unique_violation(message@),
{
    holds(message, "UNIQUE constraint failed")
}

/// The error for a channel user whom the storage engine turned down.
pub fn channel_user_write_error(row: &ChannelUserRow, message: &str) -> (error: DbError)
    ensures
        error@ == (if reports_unique_violation(message@) {
            user_exists(row@)
        } else {
            DbError::Query(message@)
        }),
{
    if is_unique_violation(message) {
        existing_user(row)
    } else {
        DbError::Query(message.to_owned())
    }
}

/// The error for a request that the storage engine turned down.
pub fn pairing_write_error(message: &str) -> (error: DbError)
    ensures
        error@ == (if reports_unique_violation(message@) {
            DbError::Conflict("A pending pairing request already exists for this user or code"@)
        } else {
            DbError::Query(message@)
        }),
{
    if is_unique_violation(message) {
        conflict("A pending pairing request already exists for this user or code")
    } else {
        DbError::Query(message.to_owned())
    }
}

fn existing_user(row: &ChannelUserRow) -> (error: DbError)
    ensures
        error@ == user_exists(row@),
{
    let tail = joined("' on connection '", row.connection_id.as_str(), "' already exists");
    DbError::Conflict(joined("User '", row.platform_user_id.as_str(), tail.as_str()))
}

impl ChannelStore {
    /// An owner's active channel users, those let in last first.
    pub fn get_all_users(&self, owner_user_id: &str) -> (list: Vec<ChannelUserRow>)
        ensures
            model(list@) == shown_users(
                ordered(
                    selected(self@.users, active_user(self@.connections, owner_user_id@)),
                    later_user(),
                ),
                self@.connections,
            ),
    {
        let ghost hit = active_user(self@.connections, owner_user_id@);
        let hits = select_where(
            &self.users,
            |user: &StoredChannelUserRow| -> (yes: bool)
                ensures yes == hit(user@)
                {
                    same(user.owner_user_id.as_str(), owner_user_id) && same(
                        user.status.as_str(),
                        "active",
                    ) && find_platform(
                        &self.connections,
                        owner_user_id,
                        user.connection_id.as_str(),
                    ).is_some()
                },
            Ghost(hit),
        );
        let sorted = sort_rows(
            hits,
            |a: &StoredChannelUserRow, b: &StoredChannelUserRow| -> (yes: bool)
                ensures yes == later_user()(a@, b@)
                { a.authorized_at > b.authorized_at },
            Ghost(later_user()),
        );
        let mut list: Vec<ChannelUserRow> = Vec::new();
        let mut i: usize = 0;
        while i < sorted.len()
            invariant
                i <= sorted.len(),
                list.len() == i,
                forall|k: int|
                    0 <= k < i ==> (#[trigger] list[k])@ == shown_user(
                        sorted[k]@,
                        model(self.connections@),
                    ),
            decreases sorted.len() - i,
        {
            list.push(show_user(&sorted[i], &self.connections));
            i = i + 1;
        }
        assert(model(list@) =~= shown_users(model(sorted@), model(self.connections@)));
        list
    }

    /// An owner's active channel user by their name on a platform.
    pub fn get_user_by_platform(
        &self,
        owner_user_id: &str,
        platform_user_id: &str,
        platform_type: &str,
    ) -> (found: Option<ChannelUserRow>)
        ensures
            match (
                found,
                lookup(
                    self@.users,
                    active_on_platform(
                        self@.connections,
                        owner_user_id@,
                        platform_user_id@,
                        platform_type@,
                    ),
                ),
            ) {
                (Some(row), Some(user)) => row@ == shown_user(user, self@.connections),
                (None, None) => true,
                _ => false,
            },
    {
        let ghost hit = active_on_platform(
            self@.connections,
            owner_user_id@,
            platform_user_id@,
            platform_type@,
        );
        let found = find_where(
            &self.users,
            |user: &StoredChannelUserRow| -> (yes: bool)
                ensures yes == hit(user@)
                {
                    same(user.owner_user_id.as_str(), owner_user_id) && same(
                        user.external_user_id.as_str(),
                        platform_user_id,
                    ) && same(user.status.as_str(), "active") && match find_platform(
                        &self.connections,
                        owner_user_id,
                        user.connection_id.as_str(),
                    ) {
                        Some(platform) => same(platform, platform_type),
                        None => false,
                    }
                },
            Ghost(hit),
        );
        match found {
            Some(at) => Some(show_user(&self.users[at], &self.connections)),
            None => None,
        }
    }

    /// Lets someone in, or in again who was turned away.
    pub fn create_user(&mut self, owner_user_id: &str, row: &ChannelUserRow) -> (result: Result<
        (),
        DbError,
    >)
        ensures
            store_changed(
                create_user_step(old(self)@, owner_user_id@, row@),
                result,
                old(self)@,
                final(self)@,
            ),
    {
        let ghost known = known_as(owner_user_id@, row@.connection_id, row@.platform_user_id);
        let found = find_where(
            &self.users,
            |user: &StoredChannelUserRow| -> (yes: bool)
                ensures yes == known(user@)
                {
                    same(user.owner_user_id.as_str(), owner_user_id) && same(
                        user.connection_id.as_str(),
                        row.connection_id.as_str(),
                    ) && same(user.external_user_id.as_str(), row.platform_user_id.as_str())
                },
            Ghost(known),
        );
        match found {
            Some(at) => {
                if same(self.users[at].status.as_str(), "active") {
                    return Err(existing_user(row));
                }
                let id = self.users[at].id.clone();
                let ghost hit = member_of(owner_user_id@, id@);
                let _count: u64 = update_where(
                    &mut self.users,
                    |user: &StoredChannelUserRow| -> (yes: bool)
                        ensures yes == hit(user@)
                        {
                            same(user.owner_user_id.as_str(), owner_user_id) && same(
                                user.id.as_str(),
                                id.as_str(),
                            )
                        },
                    |user: &StoredChannelUserRow| -> (next: StoredChannelUserRow)
                        ensures next@ == readmitted(row@)(user@)
                        {
                            StoredChannelUserRow {
                                status: "active".to_owned(),
                                revoked_at: None,
                                display_name: copy_opt(&row.display_name),
                                authorized_at: row.authorized_at,
                                last_active: row.last_active,
                                ..user.duplicate()
                            }
                        },
                    Ghost(hit),
                    Ghost(readmitted(row@)),
                );
                Ok(())
            },
            None => {
                let taken = any_where(
                    &self.users,
                    |user: &StoredChannelUserRow| -> (yes: bool)
                        ensures yes == member_with_id(row.id@)(user@)
                        { same(user.id.as_str(), row.id.as_str()) },
                    Ghost(member_with_id(row.id@)),
                );
                if taken {
                    return Err(existing_user(row));
                }
                if find_connection(
                    &self.connections,
                    owner_user_id,
                    row.connection_id.as_str(),
                ).is_none() {
                    return Err(missing_reference());
                }
                let user = StoredChannelUserRow {
                    id: row.id.clone(),
                    owner_user_id: owner_user_id.to_owned(),
                    connection_id: row.connection_id.clone(),
                    external_user_id: row.platform_user_id.clone(),
                    display_name: copy_opt(&row.display_name),
                    status: "active".to_owned(),
                    revoked_at: None,
                    authorized_at: row.authorized_at,
                    last_active: row.last_active,
                };
                let ghost start = self.users@;
                self.users.push(user);
                assert(model(self.users@) =~= model(start).push(user@));
                Ok(())
            },
        }
    }

    /// Notes when a channel user was last heard of.
    pub fn update_user_last_active(
        &mut self,
        owner_user_id: &str,
        id: &str,
        last_active: i64,
    ) -> (result:
        Result<(), DbError>)
        ensures
            store_changed(
                if exists_in(old(self)@.users, member_of(owner_user_id@, id@)) {
                    Ok(
                        ChannelModel {
                            users: updated(
                                old(self)@.users,
                                member_of(owner_user_id@, id@),
                                heard_at(last_active),
                            ),
                            ..old(self)@
                        },
                    )
                } else {
                    Err(member_missing(id@))
                },
                result,
                old(self)@,
                final(self)@,
            ),
    {
        let ghost hit = member_of(owner_user_id@, id@);
        let known = any_where(
            &self.users,
            |user: &StoredChannelUserRow| -> (yes: bool)
                ensures yes == hit(user@)
                { same(user.owner_user_id.as_str(), owner_user_id) && same(user.id.as_str(), id) },
            Ghost(hit),
        );
        if !known {
            return Err(not_found("User '", id, "' not found"));
        }
        let _count: u64 = update_where(
            &mut self.users,
            |user: &StoredChannelUserRow| -> (yes: bool)
                ensures yes == hit(user@)
                { same(user.owner_user_id.as_str(), owner_user_id) && same(user.id.as_str(), id) },
            |user: &StoredChannelUserRow| -> (next: StoredChannelUserRow)
                ensures next@ == heard_at(last_active)(user@)
                { StoredChannelUserRow { last_active: Some(last_active), ..user.duplicate() } },
            Ghost(hit),
            Ghost(heard_at(last_active)),
        );
        Ok(())
    }

    /// Turns a channel user away: the row stays on record, the bindings go.
    pub fn revoke_user(&mut self, owner_user_id: &str, id: &str, now: i64) -> (result: Result<
        (),
        DbError,
    >)
        ensures
            store_changed(
                revoke_step(old(self)@, owner_user_id@, id@, now),
                result,
                old(self)@,
                final(self)@,
            ),
    {
        let ghost hit = active_member(owner_user_id@, id@);
        if find_active(&self.users, owner_user_id, id).is_none() {
            return Err(not_found("User '", id, "' not found"));
        }
        let _count: u64 = update_where(
            &mut self.users,
            |user: &StoredChannelUserRow| -> (yes: bool)
                ensures yes == hit(user@)
                {
                    same(user.owner_user_id.as_str(), owner_user_id) && same(
                        user.id.as_str(),
                        id,
                    ) && same(user.status.as_str(), "active")
                },
            |user: &StoredChannelUserRow| -> (next: StoredChannelUserRow)
                ensures next@ == turned_away(now)(user@)
                {
                    StoredChannelUserRow {
                        status: "revoked".to_owned(),
                        revoked_at: Some(now),
                        ..user.duplicate()
                    }
                },
            Ghost(hit),
            Ghost(turned_away(now)),
        );
        self.delete_sessions_by_user(owner_user_id, id);
        Ok(())
    }
}

fn find_active(users: &Vec<StoredChannelUserRow>, owner: &str, id: &str) -> (found: Option<usize>)
    ensures
        match found {
            Some(at) => at < users.len() && lookup(model(users@), active_member(owner@, id@))
                == Some(users[at as int]@) && exists_in(model(users@), active_member(owner@, id@)),
            None => lookup(model(users@), active_member(owner@, id@)) is None && !exists_in(
                model(users@),
                active_member(owner@, id@),
            ),
        },
{
    find_where(
        users,
        |user: &StoredChannelUserRow| -> (yes: bool)
            ensures yes == active_member(owner@, id@)(user@)
            {
                same(user.owner_user_id.as_str(), owner) && same(user.id.as_str(), id) && same(
                    user.status.as_str(),
                    "active",
                )
            },
        Ghost(active_member(owner@, id@)),
    )
}

// ----------------------------------------------------------------------------
// Bindings in running code
// ----------------------------------------------------------------------------

fn find_binding(rows: &Vec<ChannelConversationBindingRow>, owner: &str, id: &str) -> (found: Option<
    usize,
>)
    ensures
        match found {
            Some(at) => at < rows.len() && lookup(model(rows@), binding_with(owner@, id@)) == Some(
                rows[at as int]@,
            ) && exists_in(model(rows@), binding_with(owner@, id@)),
            None => lookup(model(rows@), binding_with(owner@, id@)) is None && !exists_in(
                model(rows@),
                binding_with(owner@, id@),
            ),
        },
{
    find_where(
        rows,
        |row: &ChannelConversationBindingRow| -> (yes: bool)
            ensures yes == binding_with(owner@, id@)(row@)
            { same(row.owner_user_id.as_str(), owner) && same(row.id.as_str(), id) },
        Ghost(binding_with(owner@, id@)),
    )
}

fn owns_conversation(rows: &Vec<ConversationOwnerRow>, owner: &str, id: &str) -> (yes: bool)
    ensures
        yes == exists_in(model(rows@), owned_conversation(owner@, id@)),
{
    any_where(
        rows,
        |row: &ConversationOwnerRow| -> (yes: bool)
            ensures yes == owned_conversation(owner@, id@)(row@)
            { same(row.id.as_str(), id) && same(row.user_id.as_str(), owner) },
        Ghost(owned_conversation(owner@, id@)),
    )
}

impl ChannelStore {
    /// An owner's bindings, those used last first.
    pub fn get_all_sessions(
        &self,
        owner_user_id: &str,
    ) -> (list: Vec<ChannelConversationBindingRow>)
        ensures
            model(list@) == ordered(
                selected(self@.bindings, binding_of(owner_user_id@)),
                later_binding(),
            ),
    {
        let hits = select_where(
            &self.bindings,
            |row: &ChannelConversationBindingRow| -> (yes: bool)
                ensures yes == binding_of(owner_user_id@)(row@)
                { same(row.owner_user_id.as_str(), owner_user_id) },
            Ghost(binding_of(owner_user_id@)),
        );
        sort_rows(
            hits,
            |a: &ChannelConversationBindingRow, b: &ChannelConversationBindingRow| -> (yes: bool)
                ensures yes == later_binding()(a@, b@)
                { a.last_activity > b.last_activity },
            Ghost(later_binding()),
        )
    }

    /// An owner's binding by its id.
    pub fn get_session(&self, owner_user_id: &str, id: &str) -> (found: Option<
        ChannelConversationBindingRow,
    >)
        ensures
            (match found {
                Some(row) => Some(row@),
                None => None,
            }) == lookup(self@.bindings, binding_with(owner_user_id@, id@)),
    {
        match find_binding(&self.bindings, owner_user_id, id) {
            Some(at) => Some(self.bindings[at].duplicate()),
            None => None,
        }
    }

    /// The binding of a channel user's chat: the one that is there, used again, or
    /// a new one.
    pub fn get_or_create_session(
        &mut self,
        owner_user_id: &str,
        channel_user_id: &str,
        chat_id: &str,
        new_row: &ChannelConversationBindingRow,
        now: i64,
    ) -> (result: Result<ChannelConversationBindingRow, DbError>)
        ensures
            match bind_step(
                old(self)@,
                owner_user_id@,
                channel_user_id@,
                chat_id@,
                new_row@,
                now,
            ) {
                Err(wanted) => {
                    &&& result matches Err(error) && error@ == wanted
                    &&& final(self)@ == old(self)@
                },
                Ok((store, row)) => {
                    &&& result matches Ok(found) && found@ == row
                    &&& final(self)@ == store
                },
            },
    {
        let ghost chat = binding_for_chat(owner_user_id@, channel_user_id@, chat_id@);
        let found = find_where(
            &self.bindings,
            |row: &ChannelConversationBindingRow| -> (yes: bool)
                ensures yes == chat(row@)
                {
                    same(row.owner_user_id.as_str(), owner_user_id) && same(
                        row.user_id.as_str(),
                        channel_user_id,
                    ) && is_some_text(&row.chat_id, chat_id)
                },
            Ghost(chat),
        );
        match found {
            Some(at) => {
                let row = self.bindings[at].duplicate();
                let ghost hit = binding_with_id(row.id@);
                let _count: u64 = update_where(
                    &mut self.bindings,
                    |known: &ChannelConversationBindingRow| -> (yes: bool)
                        ensures yes == hit(known@)
                        { same(known.id.as_str(), row.id.as_str()) },
                    |known: &ChannelConversationBindingRow| -> (next:
                        ChannelConversationBindingRow)
                        ensures next@ == used_at(now)(known@)
                        {
                            ChannelConversationBindingRow {
                                last_activity: now,
                                ..known.duplicate()
                            }
                        },
                    Ghost(hit),
                    Ghost(used_at(now)),
                );
                return Ok(ChannelConversationBindingRow { last_activity: now, ..row });
            },
            None => {},
        }
        let allowed = match &new_row.conversation_id {
            Some(id) => owns_conversation(&self.conversations, owner_user_id, id.as_str()),
            None => true,
        };
        match find_active(&self.users, owner_user_id, channel_user_id) {
            Some(at) => {
                if allowed {
                    let taken = any_where(
                        &self.bindings,
                        |row: &ChannelConversationBindingRow| -> (yes: bool)
                            ensures yes == binding_with_id(new_row.id@)(row@)
                            { same(row.id.as_str(), new_row.id.as_str()) },
                        Ghost(binding_with_id(new_row.id@)),
                    );
                    if taken {
                        return Err(
                            DbError::Query(
                                "UNIQUE constraint failed: channel_conversation_bindings.id".to_owned(),
                            ),
                        );
                    }
                    let row = ChannelConversationBindingRow {
                        id: new_row.id.clone(),
                        owner_user_id: self.users[at].owner_user_id.clone(),
                        connection_id: self.users[at].connection_id.clone(),
                        user_id: self.users[at].id.clone(),
                        chat_id: copy_opt(&new_row.chat_id),
                        conversation_id: copy_opt(&new_row.conversation_id),
                        created_at: new_row.created_at,
                        last_activity: new_row.last_activity,
                    };
                    let copy = row.duplicate();
                    let ghost start = self.bindings@;
                    self.bindings.push(row);
                    assert(model(self.bindings@) =~= model(start).push(copy@));
                    return Ok(copy);
                }
            },
            None => {},
        }
        match find_binding(&self.bindings, owner_user_id, new_row.id.as_str()) {
            Some(at) => Ok(self.bindings[at].duplicate()),
            None => Err(not_found("Channel user '", channel_user_id, "' not found")),
        }
    }

    /// Notes when a binding was last used.
    pub fn update_session_activity(
        &mut self,
        owner_user_id: &str,
        id: &str,
        last_activity: i64,
    ) -> (result:
        Result<(), DbError>)
        ensures
            store_changed(
                binding_activity_step(old(self)@, owner_user_id@, id@, last_activity),
                result,
                old(self)@,
                final(self)@,
            ),
    {
        if find_binding(&self.bindings, owner_user_id, id).is_none() {
            return Err(not_found("Session '", id, "' not found"));
        }
        let ghost hit = binding_with(owner_user_id@, id@);
        let _count: u64 = update_where(
            &mut self.bindings,
            |row: &ChannelConversationBindingRow| -> (yes: bool)
                ensures yes == hit(row@)
                { same(row.owner_user_id.as_str(), owner_user_id) && same(row.id.as_str(), id) },
            |row: &ChannelConversationBindingRow| -> (next: ChannelConversationBindingRow)
                ensures next@ == used_at(last_activity)(row@)
                { ChannelConversationBindingRow { last_activity, ..row.duplicate() } },
            Ghost(hit),
            Ghost(used_at(last_activity)),
        );
        Ok(())
    }

    /// Sends a binding to another of the owner's conversations.
    pub fn update_session_conversation(
        &mut self,
        owner_user_id: &str,
        id: &str,
        conversation_id: &str,
        now: i64,
    ) -> (result: Result<(), DbError>)
        ensures
            store_changed(
                rebind_step(old(self)@, owner_user_id@, id@, conversation_id@, now),
                result,
                old(self)@,
                final(self)@,
            ),
    {
        if find_binding(&self.bindings, owner_user_id, id).is_none() {
            return Err(not_found("Session '", id, "' not found"));
        }
        if !owns_conversation(&self.conversations, owner_user_id, conversation_id) {
            let known = find_where(
                &self.conversations,
                |row: &ConversationOwnerRow| -> (yes: bool)
                    ensures yes == conversation_with_id(conversation_id@)(row@)
                    { same(row.id.as_str(), conversation_id) },
                Ghost(conversation_with_id(conversation_id@)),
            );
            return match known {
                Some(_) => Err(
                    conflict(
                        "CROSS_ACCOUNT_REFERENCE: channel session conversation belongs to another user",
                    ),
                ),
                None => Err(not_found("Session '", id, "' not found")),
            };
        }
        let ghost hit = binding_with(owner_user_id@, id@);
        let ghost change = goes_to(conversation_id@, now);
        let _count: u64 = update_where(
            &mut self.bindings,
            |row: &ChannelConversationBindingRow| -> (yes: bool)
                ensures yes == hit(row@)
                { same(row.owner_user_id.as_str(), owner_user_id) && same(row.id.as_str(), id) },
            |row: &ChannelConversationBindingRow| -> (next: ChannelConversationBindingRow)
                ensures next@ == change(row@)
                {
                    ChannelConversationBindingRow {
                        conversation_id: Some(conversation_id.to_owned()),
                        last_activity: now,
                        ..row.duplicate()
                    }
                },
            Ghost(hit),
            Ghost(change),
        );
        Ok(())
    }

    /// Deletes a channel user's bindings.
    pub fn delete_sessions_by_user(&mut self, owner_user_id: &str, channel_user_id: &str)
        ensures
            final(self)@ == (ChannelModel {
                bindings: removed(
                    old(self)@.bindings,
                    binding_of_user(owner_user_id@, channel_user_id@),
                ),
                ..old(self)@
            }),
    {
        let ghost hit = binding_of_user(owner_user_id@, channel_user_id@);
        let _count: u64 = delete_where(
            &mut self.bindings,
            |row: &ChannelConversationBindingRow| -> (yes: bool)
                ensures yes == hit(row@)
                {
                    same(row.owner_user_id.as_str(), owner_user_id) && same(
                        row.user_id.as_str(),
                        channel_user_id,
                    )
                },
            Ghost(hit),
        );
    }

    /// Deletes the binding of a channel user's chat.
    pub fn delete_session_by_user_chat(
        &mut self,
        owner_user_id: &str,
        channel_user_id: &str,
        chat_id: &str,
    )
        ensures
            final(self)@ == (ChannelModel {
                bindings: removed(
                    old(self)@.bindings,
                    binding_for_chat(owner_user_id@, channel_user_id@, chat_id@),
                ),
                ..old(self)@
            }),
    {
        let ghost hit = binding_for_chat(owner_user_id@, channel_user_id@, chat_id@);
        let _count: u64 = delete_where(
            &mut self.bindings,
            |row: &ChannelConversationBindingRow| -> (yes: bool)
                ensures yes == hit(row@)
                {
                    same(row.owner_user_id.as_str(), owner_user_id) && same(
                        row.user_id.as_str(),
                        channel_user_id,
                    ) && is_some_text(&row.chat_id, chat_id)
                },
            Ghost(hit),
        );
    }
}

// ----------------------------------------------------------------------------
// Requests in running code
// ----------------------------------------------------------------------------

fn show_request(request: &StoredPairingRequestRow, connections: &Vec<ChannelConnectionRow>) -> (row:
    ChannelPairingRequestRow)
    ensures
        row@ == shown_request(request@, model(connections@)),
{
    let platform = find_platform(
        connections,
        request.owner_user_id.as_str(),
        request.connection_id.as_str(),
    );
    let platform_type = match platform {
        Some(text) => text.to_owned(),
        None => String::new(),
    };
    ChannelPairingRequestRow {
        id: request.id.clone(),
        owner_user_id: request.owner_user_id.clone(),
        connection_id: request.connection_id.clone(),
        platform_user_id: request.external_user_id.clone(),
        platform_type,
        display_name: copy_opt(&request.display_name),
        code_hash: request.code_hash.clone(),
        status: request.status.clone(),
        requested_at: request.requested_at,
        expires_at: request.expires_at,
        approved_channel_user_id: copy_opt(&request.approved_channel_user_id),
    }
}

fn expire(request: &StoredPairingRequestRow) -> (next: StoredPairingRequestRow)
    ensures
        next@ == ran_out()(request@),
{
    StoredPairingRequestRow { status: "expired".to_owned(), ..request.duplicate() }
}

impl ChannelStore {
    /// Files a request to be let in. Only the hash of its code is kept.
    pub fn create_pairing(
        &mut self,
        owner_user_id: &str,
        row: &ChannelPairingRequestRow,
    ) -> (result: Result<
        (),
        DbError,
    >)
        ensures
            store_changed(
                create_pairing_step(old(self)@, owner_user_id@, row@),
                result,
                old(self)@,
                final(self)@,
            ),
    {
        let taken = any_where(
            &self.pairings,
            |request: &StoredPairingRequestRow| -> (yes: bool)
                ensures yes == request_with_id(row.id@)(request@)
                { same(request.id.as_str(), row.id.as_str()) },
            Ghost(request_with_id(row.id@)),
        );
        let ghost bar = bars_request(owner_user_id@, row@);
        let barred = any_where(
            &self.pairings,
            |request: &StoredPairingRequestRow| -> (yes: bool)
                ensures yes == bar(request@)
                {
                    same(request.owner_user_id.as_str(), owner_user_id) && same(
                        request.status.as_str(),
                        "pending",
                    ) && ((same(request.connection_id.as_str(), row.connection_id.as_str()) && same(
                        request.external_user_id.as_str(),
                        row.platform_user_id.as_str(),
                    )) || same(request.code_hash.as_str(), row.code_hash.as_str()))
                },
            Ghost(bar),
        );
        if taken || (same(row.status.as_str(), "pending") && barred) {
            return Err(
                conflict("A pending pairing request already exists for this user or code"),
            );
        }
        if find_connection(
            &self.connections,
            owner_user_id,
            row.connection_id.as_str(),
        ).is_none() {
            return Err(missing_reference());
        }
        let request = StoredPairingRequestRow {
            id: row.id.clone(),
            owner_user_id: owner_user_id.to_owned(),
            connection_id: row.connection_id.clone(),
            external_user_id: row.platform_user_id.clone(),
            display_name: copy_opt(&row.display_name),
            code_hash: row.code_hash.clone(),
            status: row.status.clone(),
            requested_at: row.requested_at,
            expires_at: row.expires_at,
            approved_channel_user_id: copy_opt(&row.approved_channel_user_id),
        };
        let ghost start = self.pairings@;
        self.pairings.push(request);
        assert(model(self.pairings@) =~= model(start).push(request@));
        Ok(())
    }

    /// An owner's pending requests, the newest first.
    pub fn get_pending_pairings(&self, owner_user_id: &str) -> (list: Vec<ChannelPairingRequestRow>)
        ensures
            model(list@) == shown_requests(
                ordered(
                    selected(self@.pairings, pending_request(self@.connections, owner_user_id@)),
                    later_request(),
                ),
                self@.connections,
            ),
    {
        let ghost hit = pending_request(self@.connections, owner_user_id@);
        let hits = select_where(
            &self.pairings,
            |request: &StoredPairingRequestRow| -> (yes: bool)
                ensures yes == hit(request@)
                {
                    same(request.owner_user_id.as_str(), owner_user_id) && same(
                        request.status.as_str(),
                        "pending",
                    ) && find_platform(
                        &self.connections,
                        owner_user_id,
                        request.connection_id.as_str(),
                    ).is_some()
                },
            Ghost(hit),
        );
        let sorted = sort_rows(
            hits,
            |a: &StoredPairingRequestRow, b: &StoredPairingRequestRow| -> (yes: bool)
                ensures yes == later_request()(a@, b@)
                { a.requested_at > b.requested_at },
            Ghost(later_request()),
        );
        let mut list: Vec<ChannelPairingRequestRow> = Vec::new();
        let mut i: usize = 0;
        while i < sorted.len()
            invariant
                i <= sorted.len(),
                list.len() == i,
                forall|k: int|
                    0 <= k < i ==> (#[trigger] list[k])@ == shown_request(
                        sorted[k]@,
                        model(self.connections@),
                    ),
            decreases sorted.len() - i,
        {
            list.push(show_request(&sorted[i], &self.connections));
            i = i + 1;
        }
        assert(model(list@) =~= shown_requests(model(sorted@), model(self.connections@)));
        list
    }

    /// An owner's request by its id.
    pub fn get_pairing(&self, owner_user_id: &str, id: &str) -> (found: Option<
        ChannelPairingRequestRow,
    >)
        ensures
            match (
                found,
                lookup(
                    self@.pairings,
                    request_for(self@.connections, owner_user_id@, id@),
                ),
            ) {
                (Some(row), Some(request)) => row@ == shown_request(request, self@.connections),
                (None, None) => true,
                _ => false,
            },
    {
        let ghost hit = request_for(self@.connections, owner_user_id@, id@);
        let found = find_where(
            &self.pairings,
            |request: &StoredPairingRequestRow| -> (yes: bool)
                ensures yes == hit(request@)
                {
                    same(request.owner_user_id.as_str(), owner_user_id) && same(
                        request.id.as_str(),
                        id,
                    ) && find_platform(
                        &self.connections,
                        owner_user_id,
                        request.connection_id.as_str(),
                    ).is_some()
                },
            Ghost(hit),
        );
        match found {
            Some(at) => Some(show_request(&self.pairings[at], &self.connections)),
            None => None,
        }
    }

    /// An owner's pending request by the hash of its code.
    pub fn get_pending_pairing_by_code_hash(
        &self,
        owner_user_id: &str,
        code_hash: &str,
    ) -> (found: Option<
        ChannelPairingRequestRow,
    >)
        ensures
            match (
                found,
                lookup(
                    self@.pairings,
                    request_by_code(self@.connections, owner_user_id@, code_hash@),
                ),
            ) {
                (Some(row), Some(request)) => row@ == shown_request(request, self@.connections),
                (None, None) => true,
                _ => false,
            },
    {
        let ghost hit = request_by_code(self@.connections, owner_user_id@, code_hash@);
        let found = find_where(
            &self.pairings,
            |request: &StoredPairingRequestRow| -> (yes: bool)
                ensures yes == hit(request@)
                {
                    same(request.owner_user_id.as_str(), owner_user_id) && same(
                        request.code_hash.as_str(),
                        code_hash,
                    ) && same(request.status.as_str(), "pending") && find_platform(
                        &self.connections,
                        owner_user_id,
                        request.connection_id.as_str(),
                    ).is_some()
                },
            Ghost(hit),
        );
        match found {
            Some(at) => Some(show_request(&self.pairings[at], &self.connections)),
            None => None,
        }
    }

    /// Decides on a request, and notes who was let in by it.
    pub fn update_pairing_status(
        &mut self,
        owner_user_id: &str,
        id: &str,
        status: &str,
        approved_channel_user_id: Option<&str>,
    ) -> (result: Result<(), DbError>)
        ensures
            store_changed(
                decide_step(
                    old(self)@,
                    owner_user_id@,
                    id@,
                    status@,
                    opt_str(approved_channel_user_id),
                ),
                result,
                old(self)@,
                final(self)@,
            ),
    {
        let ghost hit = request_of(owner_user_id@, id@);
        let known = any_where(
            &self.pairings,
            |request: &StoredPairingRequestRow| -> (yes: bool)
                ensures yes == hit(request@)
                {
                    same(request.owner_user_id.as_str(), owner_user_id) && same(
                        request.id.as_str(),
                        id,
                    )
                },
            Ghost(hit),
        );
        if !known {
            return Err(not_found("Pairing request '", id, "' not found"));
        }
        let ghost change = decided(status@, opt_str(approved_channel_user_id));
        let _count: u64 = update_where(
            &mut self.pairings,
            |request: &StoredPairingRequestRow| -> (yes: bool)
                ensures yes == hit(request@)
                {
                    same(request.owner_user_id.as_str(), owner_user_id) && same(
                        request.id.as_str(),
                        id,
                    )
                },
            |request: &StoredPairingRequestRow| -> (next: StoredPairingRequestRow)
                ensures next@ == change(request@)
                {
                    StoredPairingRequestRow {
                        status: status.to_owned(),
                        approved_channel_user_id: match approved_channel_user_id {
                            Some(user_id) => Some(user_id.to_owned()),
                            None => copy_opt(&request.approved_channel_user_id),
                        },
                        ..request.duplicate()
                    }
                },
            Ghost(hit),
            Ghost(change),
        );
        Ok(())
    }

    /// Lets a person's pending requests on a connection run out and counts them.
    pub fn expire_pending_pairings_for_user(
        &mut self,
        owner_user_id: &str,
        connection_id: &str,
        external_user_id: &str,
    ) -> (count: u64)
        ensures
            final(self)@ == (ChannelModel {
                pairings: updated(
                    old(self)@.pairings,
                    pending_from(owner_user_id@, connection_id@, external_user_id@),
                    ran_out(),
                ),
                ..old(self)@
            }),
            count == selected(
                old(self)@.pairings,
                pending_from(owner_user_id@, connection_id@, external_user_id@),
            ).len(),
    {
        let ghost hit = pending_from(owner_user_id@, connection_id@, external_user_id@);
        update_where(
            &mut self.pairings,
            |request: &StoredPairingRequestRow| -> (yes: bool)
                ensures yes == hit(request@)
                {
                    same(request.owner_user_id.as_str(), owner_user_id) && same(
                        request.connection_id.as_str(),
                        connection_id,
                    ) && same(request.external_user_id.as_str(), external_user_id) && same(
                        request.status.as_str(),
                        "pending",
                    )
                },
            |request: &StoredPairingRequestRow| -> (next: StoredPairingRequestRow)
                ensures next@ == ran_out()(request@)
                { expire(request) },
            Ghost(hit),
            Ghost(ran_out()),
        )
    }

    /// Lets an owner's pending requests whose time is over run out and counts
    /// them.
    pub fn cleanup_expired_pairings(&mut self, owner_user_id: &str, now: i64) -> (count: u64)
        ensures
            final(self)@ == (ChannelModel {
                pairings: updated(
                    old(self)@.pairings,
                    overdue(owner_user_id@, now),
                    ran_out(),
                ),
                ..old(self)@
            }),
            count == selected(old(self)@.pairings, overdue(owner_user_id@, now)).len(),
    {
        let ghost hit = overdue(owner_user_id@, now);
        update_where(
            &mut self.pairings,
            |request: &StoredPairingRequestRow| -> (yes: bool)
                ensures yes == hit(request@)
                {
                    same(request.owner_user_id.as_str(), owner_user_id) && same(
                        request.status.as_str(),
                        "pending",
                    ) && request.expires_at <= now
                },
            |request: &StoredPairingRequestRow| -> (next: StoredPairingRequestRow)
                ensures next@ == ran_out()(request@)
                { expire(request) },
            Ghost(hit),
            Ghost(ran_out()),
        )
    }
}

} // verus!
