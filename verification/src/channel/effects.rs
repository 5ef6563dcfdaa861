//! What operations on channels come to, told by the rows.
use crate::channel::rows::{ConversationOwnerRow, UpdateConnectionStatusParams};
use crate::error::DbError;
use crate::channel::store::{
    active_member, active_on_platform, active_user, bars_request, bind_step, binding_activity_step,
    binding_for_chat, binding_of, binding_of_user, binding_with, binding_with_id, connection_of,
    connection_status_step, connection_with_id, create_pairing_step, create_user_step, decide_step,
    delete_connection_step, connection_to, request_for, shown_requests, shown_users, store_changed,
    heard_at, known_as, later_binding, later_request, later_user, may_bind, member_of,
    member_with_id, older_connection, other_connection_to, overdue, owned_conversation,
    pending_from, pending_request, platform_of, ran_out, rebind_step, request_by_code, request_of,
    request_with_id, revoke_step, shown_request, shown_user, upsert_connection_step, Binding,
    ChannelModel, ChannelUser, Connection, Member, Pairing, Request,
};
use crate::table::{
    exists_in, law_full_listing, law_removed, lemma_lookup, lookup, ordered, orders, removed,
    selected, updated,
};
use crate::text::opt_text;
use vstd::prelude::*;

verus! {

/// Whether a connection of an owner's is there.
pub open spec fn has_connection(rows: Seq<Connection>, owner: Seq<char>, id: Seq<char>) -> bool {
    exists|i: int|
        0 <= i < rows.len() && (#[trigger] rows[i]).owner_user_id == owner && rows[i].id == id
}

proof fn lemma_has_connection(rows: Seq<Connection>, owner: Seq<char>, id: Seq<char>)
    ensures
        exists_in(rows, connection_with_id(owner, id)) == has_connection(rows, owner, id),
{
    let hit = connection_with_id(owner, id);
    if exists_in(rows, hit) {
        let i = choose|i: int| 0 <= i < rows.len() && hit(#[trigger] rows[i]);
        assert(rows[i].id == id);
    }
    if has_connection(rows, owner, id) {
        let i = choose|i: int|
            0 <= i < rows.len() && (#[trigger] rows[i]).owner_user_id == owner && rows[i].id == id;
        assert(hit(rows[i]));
    }
}

/// Whether a connection of an owner's goes to a platform.
pub open spec fn is_on_platform(
    rows: Seq<Connection>,
    owner: Seq<char>,
    id: Seq<char>,
    platform: Seq<char>,
) -> bool {
    exists|i: int|
        0 <= i < rows.len() && (#[trigger] rows[i]).owner_user_id == owner && rows[i].id == id
            && rows[i].plugin_key == platform
}

proof fn lemma_platform(rows: Seq<Connection>, owner: Seq<char>, id: Seq<char>)
    ensures
        platform_of(rows, owner, id) is Some == has_connection(rows, owner, id),
        platform_of(rows, owner, id) matches Some(platform) ==> is_on_platform(
            rows,
            owner,
            id,
            platform,
        ),
{
    let hit = connection_with_id(owner, id);
    lemma_has_connection(rows, owner, id);
    lemma_lookup(rows, hit);
    if let Some(row) = lookup(rows, hit) {
        let i = choose|i: int| 0 <= i < rows.len() && rows[i] == row;
        assert(rows[i].id == id);
    }
}

// ----------------------------------------------------------------------------
// Connections
// ----------------------------------------------------------------------------

/// Whether a connection has what is saved of it.
pub open spec fn is_saved(row: Connection, new: Connection, owner: Seq<char>) -> bool {
    &&& row.id == new.id
    &&& row.owner_user_id == owner
    &&& row.plugin_key == new.plugin_key
    &&& row.name == new.name
    &&& row.enabled == new.enabled
    &&& row.config == new.config
    &&& row.status == new.status
    &&& row.last_connected == new.last_connected
    &&& row.updated_at == new.updated_at
}

/// Saving a connection makes the owner's row of that id what is saved, or adds it;
/// no owner has two connections to one plugin, and no other row changes.
pub proof fn law_connection_is_saved(store: ChannelModel, owner: Seq<char>, new: Connection)
    ensures
        upsert_connection_step(store, owner, new) matches Ok(after) ==> {
            let old = store.connections;
            let rows = after.connections;
            &&& forall|i: int|
                0 <= i < old.len() && !(old[i].owner_user_id == owner && old[i].id == new.id)
                    ==> #[trigger] rows[i] == old[i]
            &&& forall|i: int|
                0 <= i < old.len() && old[i].owner_user_id == owner && old[i].id == new.id
                    ==> is_saved(#[trigger] rows[i], new, owner) && rows[i].created_at
                    == old[i].created_at && rows.len() == old.len()
            &&& !has_connection(old, owner, new.id) ==> rows.len() == old.len() + 1 && is_saved(
                rows.last(),
                new,
                owner,
            ) && rows.last().created_at == new.created_at
            &&& forall|i: int|
                0 <= i < old.len() && (#[trigger] old[i]).owner_user_id == owner && old[i].id
                    != new.id ==> old[i].plugin_key != new.plugin_key
            &&& after.users == store.users
            &&& after.bindings == store.bindings
            &&& after.pairings == store.pairings
        },
{
    lemma_has_connection(store.connections, owner, new.id);
    if upsert_connection_step(store, owner, new) is Ok {
        let bar = other_connection_to(owner, new.id, new.plugin_key);
        assert forall|i: int|
            0 <= i < store.connections.len() && (#[trigger] store.connections[i]).owner_user_id
                == owner && store.connections[i].id != new.id
                implies store.connections[i].plugin_key != new.plugin_key by {
            assert(!bar(store.connections[i]));
        }
    }
}

/// A report on a connection changes what it reports of the owner's connection and
/// nothing else.
pub proof fn law_connection_reports(
    store: ChannelModel,
    owner: Seq<char>,
    id: Seq<char>,
    params: UpdateConnectionStatusParams,
    now: i64,
)
    ensures
        connection_status_step(store, owner, id, params, now) matches Ok(after) ==> {
            let old = store.connections;
            let rows = after.connections;
            let says = params.status is Some || params.last_connected is Some || params.enabled
                is Some;
            &&& rows.len() == old.len()
            &&& says ==> has_connection(old, owner, id)
            &&& forall|i: int|
                0 <= i < old.len() && (!says || !(old[i].owner_user_id == owner && old[i].id == id))
                    ==> #[trigger] rows[i] == old[i]
            &&& forall|i: int|
                0 <= i < old.len() && says && old[i].owner_user_id == owner && old[i].id == id ==> {
                    &&& (#[trigger] rows[i]).id == id
                    &&& rows[i].owner_user_id == owner
                    &&& rows[i].plugin_key == old[i].plugin_key
                    &&& rows[i].name == old[i].name
                    &&& rows[i].config == old[i].config
                    &&& rows[i].created_at == old[i].created_at
                    &&& rows[i].updated_at == now
                    &&& params.status is Some ==> rows[i].status == opt_text(params.status)
                    &&& params.status is None ==> rows[i].status == old[i].status
                    &&& params.last_connected is Some ==> rows[i].last_connected
                        == params.last_connected
                    &&& params.last_connected is None ==> rows[i].last_connected
                        == old[i].last_connected
                    &&& params.enabled is Some ==> rows[i].enabled == params.enabled->0
                    &&& params.enabled is None ==> rows[i].enabled == old[i].enabled
                }
            &&& after.users == store.users
            &&& after.bindings == store.bindings
            &&& after.pairings == store.pairings
        },
        connection_status_step(store, owner, id, params, now) is Err ==> !has_connection(
            store.connections,
            owner,
            id,
        ),
{
    lemma_has_connection(store.connections, owner, id);
}

/// Deleting a connection deletes the owner's connection of that id and no other.
pub proof fn law_connection_is_deleted(store: ChannelModel, owner: Seq<char>, id: Seq<char>)
    ensures
        delete_connection_step(store, owner, id) is Ok == has_connection(
            store.connections,
            owner,
            id,
        ),
        delete_connection_step(store, owner, id) matches Ok(after) ==> {
            &&& forall|row: Connection| #[trigger]
                after.connections.contains(row) <==> store.connections.contains(row) && !(
                row.owner_user_id == owner && row.id == id)
            &&& after.users == store.users
            &&& after.bindings == store.bindings
            &&& after.pairings == store.pairings
        },
{
    lemma_has_connection(store.connections, owner, id);
    law_removed(store.connections, connection_with_id(owner, id));
}

// ----------------------------------------------------------------------------
// People
// ----------------------------------------------------------------------------

/// Letting a person in makes them an active user of the owner's connection: the
/// row that was turned away before, or a new one. Nobody else's row changes.
pub proof fn law_person_is_let_in(store: ChannelModel, owner: Seq<char>, row: ChannelUser)
    requires
        forall|i: int, j: int|
            0 <= i < store.users.len() && 0 <= j < store.users.len() && (
            #[trigger] store.users[i]).id == (#[trigger] store.users[j]).id ==> i == j,
    ensures
        create_user_step(store, owner, row) matches Ok(after) ==> {
            ||| exists|k: int|
                #![trigger store.users[k]]
                {
                    let old = store.users[k];
                    let new = after.users[k];
                    &&& 0 <= k < store.users.len()
                    &&& after.users.len() == store.users.len()
                    &&& old.owner_user_id == owner
                    &&& old.connection_id == row.connection_id
                    &&& old.external_user_id == row.platform_user_id
                    &&& old.status != "active"@
                    &&& new.id == old.id
                    &&& is_let_in(new, owner, row)
                    &&& forall|i: int|
                        0 <= i < store.users.len() && i != k ==> #[trigger] after.users[i]
                            == store.users[i]
                }
            ||| after.users.len() == store.users.len() + 1 && after.users.last().id == row.id
                && is_let_in(after.users.last(), owner, row) && has_connection(
                store.connections,
                owner,
                row.connection_id,
            ) && forall|i: int|
                0 <= i < store.users.len() ==> #[trigger] after.users[i] == store.users[i]
        },
        create_user_step(store, owner, row) matches Ok(after) ==> after.connections
            == store.connections && after.bindings == store.bindings && after.pairings
            == store.pairings,
{
    let known = known_as(owner, row.connection_id, row.platform_user_id);
    lemma_lookup(store.users, known);
    lemma_has_connection(store.connections, owner, row.connection_id);
    if let Ok(after) = create_user_step(store, owner, row) {
        if let Some(user) = lookup(store.users, known) {
            let k = choose|k: int| 0 <= k < store.users.len() && store.users[k] == user;
            assert(known(store.users[k]));
            assert forall|i: int| 0 <= i < store.users.len() && i != k
                implies #[trigger] after.users[i] == store.users[i] by {
                assert(store.users[i].id != store.users[k].id);
            }
            assert(is_let_in(after.users[k], owner, row));
        }
    }
}

/// Whether a person is an active user of an owner's connection, as they were let in.
pub open spec fn is_let_in(user: Member, owner: Seq<char>, row: ChannelUser) -> bool {
    &&& user.owner_user_id == owner
    &&& user.connection_id == row.connection_id
    &&& user.external_user_id == row.platform_user_id
    &&& user.display_name == row.display_name
    &&& user.status == "active"@
    &&& user.revoked_at is None
    &&& user.authorized_at == row.authorized_at
    &&& user.last_active == row.last_active
}

/// Turning a person away takes them off the active users of the owner, when it
/// was, and deletes their bindings; nothing else changes.
pub proof fn law_person_is_turned_away(
    store: ChannelModel,
    owner: Seq<char>,
    id: Seq<char>,
    now: i64,
)
    ensures
        revoke_step(store, owner, id, now) matches Ok(after) ==> {
            &&& after.users.len() == store.users.len()
            &&& forall|i: int|
                0 <= i < store.users.len() && store.users[i].owner_user_id == owner
                    && store.users[i].id == id && store.users[i].status == "active"@ ==> {
                    &&& (#[trigger] after.users[i]).id == id
                    &&& after.users[i].owner_user_id == owner
                    &&& after.users[i].connection_id == store.users[i].connection_id
                    &&& after.users[i].external_user_id == store.users[i].external_user_id
                    &&& after.users[i].display_name == store.users[i].display_name
                    &&& after.users[i].authorized_at == store.users[i].authorized_at
                    &&& after.users[i].last_active == store.users[i].last_active
                    &&& after.users[i].status == "revoked"@
                    &&& after.users[i].revoked_at == Some(now)
                }
            &&& forall|i: int|
                0 <= i < store.users.len() && !(store.users[i].owner_user_id == owner
                    && store.users[i].id == id && store.users[i].status == "active"@)
                    ==> #[trigger] after.users[i] == store.users[i]
            &&& forall|row: Binding| #[trigger]
                after.bindings.contains(row) <==> store.bindings.contains(row) && !(
                row.owner_user_id == owner && row.user_id == id)
            &&& after.connections == store.connections
            &&& after.pairings == store.pairings
        },
        revoke_step(store, owner, id, now) is Ok <==> exists|i: int|
            0 <= i < store.users.len() && (#[trigger] store.users[i]).owner_user_id == owner
                && store.users[i].id == id && store.users[i].status == "active"@,
{
    law_removed(store.bindings, binding_of_user(owner, id));
    let hit = active_member(owner, id);
    if exists_in(store.users, hit) {
        let i = choose|i: int| 0 <= i < store.users.len() && hit(#[trigger] store.users[i]);
        assert(store.users[i].id == id);
    }
    if exists|i: int|
        0 <= i < store.users.len() && (#[trigger] store.users[i]).owner_user_id == owner
            && store.users[i].id == id && store.users[i].status == "active"@ {
        let i = choose|i: int|
            0 <= i < store.users.len() && (#[trigger] store.users[i]).owner_user_id == owner
                && store.users[i].id == id && store.users[i].status == "active"@;
        assert(hit(store.users[i]));
    }
}

/// Hearing from a person says when, and changes nothing else.
pub proof fn law_person_is_heard(
    users: Seq<Member>,
    owner: Seq<char>,
    id: Seq<char>,
    time: i64,
    i: int,
)
    requires
        0 <= i < users.len(),
    ensures
        ({
            let after = updated(users, member_of(owner, id), heard_at(time));
            let own = users[i].owner_user_id == owner && users[i].id == id;
            &&& after.len() == users.len()
            &&& !own ==> after[i] == users[i]
            &&& own ==> after[i].last_active == Some(time) && after[i].id == id
                && after[i].owner_user_id == owner && after[i].status == users[i].status
                && after[i].connection_id == users[i].connection_id && after[i].external_user_id
                == users[i].external_user_id && after[i].revoked_at == users[i].revoked_at
                && after[i].authorized_at == users[i].authorized_at && after[i].display_name
                == users[i].display_name
        }),
{
}

/// A message is routed to a person only where they are an active user of the
/// owner's, known on that platform by that name; and where it is not, there is no
/// such person on a connection whose id is the owner's once.
pub proof fn law_routing_finds_active_people(
    store: ChannelModel,
    owner: Seq<char>,
    external: Seq<char>,
    platform: Seq<char>,
)
    requires
        forall|i: int, j: int|
            0 <= i < store.connections.len() && 0 <= j < store.connections.len() && (
            #[trigger] store.connections[i]).owner_user_id == (
            #[trigger] store.connections[j]).owner_user_id && store.connections[i].id
                == store.connections[j].id ==> i == j,
    ensures
        ({
            let found = lookup(
                store.users,
                active_on_platform(store.connections, owner, external, platform),
            );
            &&& found matches Some(user) ==> store.users.contains(user) && is_reached(
                user,
                store.connections,
                owner,
                external,
                platform,
            )
            &&& found is None ==> forall|i: int|
                0 <= i < store.users.len() ==> !is_reached(
                    #[trigger] store.users[i],
                    store.connections,
                    owner,
                    external,
                    platform,
                )
        }),
{
    let hit = active_on_platform(store.connections, owner, external, platform);
    lemma_lookup(store.users, hit);
    if let Some(user) = lookup(store.users, hit) {
        lemma_platform(store.connections, owner, user.connection_id);
    } else {
        assert forall|i: int| 0 <= i < store.users.len() implies !is_reached(
            #[trigger] store.users[i],
            store.connections,
            owner,
            external,
            platform,
        ) by {
            let user = store.users[i];
            assert(!hit(user));
            lemma_platform(store.connections, owner, user.connection_id);
        }
    }
}

/// Whether a person is an active user of an owner's, known on a platform by a name.
pub open spec fn is_reached(
    user: Member,
    connections: Seq<Connection>,
    owner: Seq<char>,
    external: Seq<char>,
    platform: Seq<char>,
) -> bool {
    &&& user.owner_user_id == owner
    &&& user.external_user_id == external
    &&& user.status == "active"@
    &&& is_on_platform(connections, owner, user.connection_id, platform)
}

/// A person is shown as they are stored, with the platform of their connection.
pub proof fn law_person_is_shown(user: Member, connections: Seq<Connection>)
    ensures
        ({
            let shown = shown_user(user, connections);
            &&& shown.id == user.id
            &&& shown.owner_user_id == user.owner_user_id
            &&& shown.connection_id == user.connection_id
            &&& shown.platform_user_id == user.external_user_id
            &&& shown.display_name == user.display_name
            &&& shown.status == user.status
            &&& shown.revoked_at == user.revoked_at
            &&& shown.authorized_at == user.authorized_at
            &&& shown.last_active == user.last_active
            &&& has_connection(connections, user.owner_user_id, user.connection_id)
                ==> is_on_platform(
                connections,
                user.owner_user_id,
                user.connection_id,
                shown.platform_type,
            )
        }),
{
    lemma_platform(connections, user.owner_user_id, user.connection_id);
}

/// The list of people holds the owner's active users of connections that are
/// there, and no others, the one let in last first.
pub proof fn law_people_are_listed(store: ChannelModel, owner: Seq<char>)
    ensures
        ({
            let list = ordered(
                selected(store.users, active_user(store.connections, owner)),
                later_user(),
            );
            &&& forall|user: Member| #[trigger]
                list.contains(user) <==> store.users.contains(user) && user.owner_user_id == owner
                    && user.status == "active"@ && has_connection(
                    store.connections,
                    owner,
                    user.connection_id,
                )
            &&& forall|i: int, j: int|
                0 <= i < j < list.len() ==> (#[trigger] list[i]).authorized_at >= (
                #[trigger] list[j]).authorized_at
        }),
{
    let hit = active_user(store.connections, owner);
    let less = later_user();
    let list = ordered(selected(store.users, hit), less);
    assert(orders(less));
    law_full_listing(store.users, hit, less);
    assert forall|user: Member| #[trigger]
        list.contains(user) <==> store.users.contains(user) && user.owner_user_id == owner
            && user.status == "active"@ && has_connection(
            store.connections,
            owner,
            user.connection_id,
        ) by {
        lemma_platform(store.connections, owner, user.connection_id);
    }
    assert forall|i: int, j: int| 0 <= i < j < list.len() implies (
    #[trigger] list[i]).authorized_at >= (#[trigger] list[j]).authorized_at by {
        assert(!less(list[j], list[i]));
    }
}

// ----------------------------------------------------------------------------
// Bindings
// ----------------------------------------------------------------------------

/// Whether a conversation is an owner's.
pub open spec fn owns_conversation(
    rows: Seq<ConversationOwnerRow<Seq<char>>>,
    owner: Seq<char>,
    id: Seq<char>,
) -> bool {
    exists|i: int|
        0 <= i < rows.len() && (#[trigger] rows[i]).id == id && rows[i].user_id == owner
}

proof fn lemma_owns_conversation(
    rows: Seq<ConversationOwnerRow<Seq<char>>>,
    owner: Seq<char>,
    id: Seq<char>,
)
    ensures
        exists_in(rows, owned_conversation(owner, id)) == owns_conversation(rows, owner, id),
{
    let hit = owned_conversation(owner, id);
    if exists_in(rows, hit) {
        let i = choose|i: int| 0 <= i < rows.len() && hit(#[trigger] rows[i]);
        assert(rows[i].id == id);
    }
    if owns_conversation(rows, owner, id) {
        let i = choose|i: int|
            0 <= i < rows.len() && (#[trigger] rows[i]).id == id && rows[i].user_id == owner;
        assert(hit(rows[i]));
    }
}

/// A chat that is bound stays bound as it is, and says when it was used; one that
/// is not is bound for an active user of the owner's, on that user's connection,
/// to a conversation of the owner's or to none. No other binding changes.
pub proof fn law_chat_is_bound(
    store: ChannelModel,
    owner: Seq<char>,
    user_id: Seq<char>,
    chat_id: Seq<char>,
    new: Binding,
    now: i64,
)
    requires
        forall|i: int, j: int|
            0 <= i < store.bindings.len() && 0 <= j < store.bindings.len() && (
            #[trigger] store.bindings[i]).id == (#[trigger] store.bindings[j]).id ==> i == j,
    ensures
        bind_step(store, owner, user_id, chat_id, new, now) matches Ok((after, row)) ==> {
            ||| exists|k: int|
                #![trigger store.bindings[k]]
                {
                    let old = store.bindings[k];
                    &&& 0 <= k < store.bindings.len()
                    &&& after.bindings.len() == store.bindings.len()
                    &&& old.owner_user_id == owner
                    &&& old.user_id == user_id
                    &&& old.chat_id == Some(chat_id)
                    &&& after.bindings[k] == row
                    &&& row.id == old.id
                    &&& row.owner_user_id == owner
                    &&& row.user_id == user_id
                    &&& row.connection_id == old.connection_id
                    &&& row.chat_id == old.chat_id
                    &&& row.conversation_id == old.conversation_id
                    &&& row.created_at == old.created_at
                    &&& row.last_activity == now
                    &&& forall|i: int|
                        0 <= i < store.bindings.len() && i != k ==> #[trigger] after.bindings[i]
                            == store.bindings[i]
                }
            ||| after.bindings == store.bindings.push(row) && is_newly_bound(
                row,
                store,
                owner,
                user_id,
                new,
            )
            ||| after == store && store.bindings.contains(row) && row.owner_user_id == owner
                && row.id == new.id
        },
{
    let hit = binding_for_chat(owner, user_id, chat_id);
    lemma_lookup(store.bindings, hit);
    lemma_lookup(store.bindings, binding_with(owner, new.id));
    let member = active_member(owner, user_id);
    lemma_lookup(store.users, member);
    if let Ok((after, row)) = bind_step(store, owner, user_id, chat_id, new, now) {
        if let Some(found) = lookup(store.bindings, hit) {
            let k = choose|k: int| 0 <= k < store.bindings.len() && store.bindings[k] == found;
            assert(hit(store.bindings[k]));
            assert forall|i: int| 0 <= i < store.bindings.len() && i != k
                implies #[trigger] after.bindings[i] == store.bindings[i] by {
                assert(store.bindings[i].id != store.bindings[k].id);
            }
            assert(after.bindings[k] == row);
        } else if let Some(user) = lookup(store.users, member) {
            if may_bind(store, owner, new.conversation_id) {
                let u = choose|u: int| 0 <= u < store.users.len() && store.users[u] == user;
                assert(store.users[u].id == user_id);
                if let Some(id) = new.conversation_id {
                    lemma_owns_conversation(store.conversations, owner, id);
                }
            }
        }
    }
}

/// Whether a binding is a new one of an active user of the owner's.
pub open spec fn is_newly_bound(
    row: Binding,
    store: ChannelModel,
    owner: Seq<char>,
    user_id: Seq<char>,
    new: Binding,
) -> bool {
    &&& row.id == new.id
    &&& row.owner_user_id == owner
    &&& row.user_id == user_id
    &&& row.chat_id == new.chat_id
    &&& row.conversation_id == new.conversation_id
    &&& row.created_at == new.created_at
    &&& row.last_activity == new.last_activity
    &&& exists|u: int|
        0 <= u < store.users.len() && (#[trigger] store.users[u]).id == user_id
            && store.users[u].owner_user_id == owner && store.users[u].status == "active"@
            && row.connection_id == store.users[u].connection_id
    &&& new.conversation_id matches Some(id) ==> owns_conversation(store.conversations, owner, id)
}

/// A binding goes over to another conversation only of the owner's; it says when,
/// and nothing else changes.
pub proof fn law_binding_goes_over(
    store: ChannelModel,
    owner: Seq<char>,
    id: Seq<char>,
    conversation_id: Seq<char>,
    now: i64,
)
    ensures
        rebind_step(store, owner, id, conversation_id, now) matches Ok(after) ==> {
            &&& owns_conversation(store.conversations, owner, conversation_id)
            &&& after.bindings.len() == store.bindings.len()
            &&& forall|i: int|
                0 <= i < store.bindings.len() && !(store.bindings[i].owner_user_id == owner
                    && store.bindings[i].id == id) ==> #[trigger] after.bindings[i]
                    == store.bindings[i]
            &&& forall|i: int|
                0 <= i < store.bindings.len() && store.bindings[i].owner_user_id == owner
                    && store.bindings[i].id == id ==> {
                    &&& (#[trigger] after.bindings[i]).conversation_id == Some(conversation_id)
                    &&& after.bindings[i].last_activity == now
                    &&& after.bindings[i].id == id
                    &&& after.bindings[i].owner_user_id == owner
                    &&& after.bindings[i].user_id == store.bindings[i].user_id
                    &&& after.bindings[i].chat_id == store.bindings[i].chat_id
                    &&& after.bindings[i].connection_id == store.bindings[i].connection_id
                    &&& after.bindings[i].created_at == store.bindings[i].created_at
                }
            &&& after.users == store.users
            &&& after.connections == store.connections
            &&& after.pairings == store.pairings
        },
{
    lemma_owns_conversation(store.conversations, owner, conversation_id);
}

/// Using a binding says when, of the owner's binding alone, and changes nothing
/// else.
pub proof fn law_binding_is_used(
    store: ChannelModel,
    owner: Seq<char>,
    id: Seq<char>,
    time: i64,
)
    ensures
        binding_activity_step(store, owner, id, time) matches Ok(after) ==> {
            &&& after.bindings.len() == store.bindings.len()
            &&& forall|i: int|
                0 <= i < store.bindings.len() && !(store.bindings[i].owner_user_id == owner
                    && store.bindings[i].id == id) ==> #[trigger] after.bindings[i]
                    == store.bindings[i]
            &&& forall|i: int|
                0 <= i < store.bindings.len() && store.bindings[i].owner_user_id == owner
                    && store.bindings[i].id == id ==> (#[trigger] after.bindings[i]).last_activity
                    == time && after.bindings[i].conversation_id
                    == store.bindings[i].conversation_id && after.bindings[i].user_id
                    == store.bindings[i].user_id && after.bindings[i].chat_id
                    == store.bindings[i].chat_id && after.bindings[i].id == id
            &&& after.users == store.users
            &&& after.connections == store.connections
            &&& after.pairings == store.pairings
        },
{
}

/// Deleting a user's bindings deletes those of the owner's user and no others;
/// deleting a chat's deletes those of that chat alone.
pub proof fn law_bindings_are_deleted(
    bindings: Seq<Binding>,
    owner: Seq<char>,
    user_id: Seq<char>,
    chat_id: Seq<char>,
)
    ensures
        forall|row: Binding| #[trigger]
            removed(bindings, binding_of_user(owner, user_id)).contains(row) <==> bindings.contains(
                row,
            ) && !(row.owner_user_id == owner && row.user_id == user_id),
        forall|row: Binding| #[trigger]
            removed(bindings, binding_for_chat(owner, user_id, chat_id)).contains(row)
                <==> bindings.contains(row) && !(row.owner_user_id == owner && row.user_id
                == user_id && row.chat_id == Some(chat_id)),
{
    law_removed(bindings, binding_of_user(owner, user_id));
    law_removed(bindings, binding_for_chat(owner, user_id, chat_id));
}

/// The list of bindings holds the owner's and no others, the one used last first.
pub proof fn law_bindings_are_listed(bindings: Seq<Binding>, owner: Seq<char>)
    ensures
        ({
            let list = ordered(selected(bindings, binding_of(owner)), later_binding());
            &&& forall|row: Binding| #[trigger]
                list.contains(row) <==> bindings.contains(row) && row.owner_user_id == owner
            &&& forall|i: int, j: int|
                0 <= i < j < list.len() ==> (#[trigger] list[i]).last_activity >= (
                #[trigger] list[j]).last_activity
        }),
{
    let less = later_binding();
    let list = ordered(selected(bindings, binding_of(owner)), less);
    assert(orders(less));
    law_full_listing(bindings, binding_of(owner), less);
    assert forall|i: int, j: int| 0 <= i < j < list.len() implies (
    #[trigger] list[i]).last_activity >= (#[trigger] list[j]).last_activity by {
        assert(!less(list[j], list[i]));
    }
}

/// The list of connections holds the owner's and no others, the oldest first.
pub proof fn law_connections_are_listed(rows: Seq<Connection>, owner: Seq<char>)
    ensures
        ({
            let list = ordered(selected(rows, connection_of(owner)), older_connection());
            &&& forall|row: Connection| #[trigger]
                list.contains(row) <==> rows.contains(row) && row.owner_user_id == owner
            &&& forall|i: int, j: int|
                0 <= i < j < list.len() ==> (#[trigger] list[i]).created_at <= (
                #[trigger] list[j]).created_at
        }),
{
    let less = older_connection();
    let list = ordered(selected(rows, connection_of(owner)), less);
    assert(orders(less));
    law_full_listing(rows, connection_of(owner), less);
    assert forall|i: int, j: int| 0 <= i < j < list.len() implies (#[trigger] list[i]).created_at
        <= (#[trigger] list[j]).created_at by {
        assert(!less(list[j], list[i]));
    }
}

// ----------------------------------------------------------------------------
// Pairing
// ----------------------------------------------------------------------------

/// A request to be let in is filed as it was made, for the owner's connection; one
/// that waits is refused where the same person, or the same code, waits already.
pub proof fn law_request_is_filed(store: ChannelModel, owner: Seq<char>, row: Pairing)
    ensures
        create_pairing_step(store, owner, row) matches Ok(after) ==> {
            let new = after.pairings.last();
            &&& after.pairings == store.pairings.push(new)
            &&& new.id == row.id
            &&& new.owner_user_id == owner
            &&& new.connection_id == row.connection_id
            &&& new.external_user_id == row.platform_user_id
            &&& new.display_name == row.display_name
            &&& new.code_hash == row.code_hash
            &&& new.status == row.status
            &&& new.requested_at == row.requested_at
            &&& new.expires_at == row.expires_at
            &&& new.approved_channel_user_id == row.approved_channel_user_id
            &&& has_connection(store.connections, owner, row.connection_id)
            &&& forall|i: int|
                0 <= i < store.pairings.len() ==> (#[trigger] store.pairings[i]).id != row.id
            &&& row.status == "pending"@ ==> forall|i: int|
                0 <= i < store.pairings.len() && (#[trigger] store.pairings[i]).owner_user_id
                    == owner && store.pairings[i].status == "pending"@
                    ==> store.pairings[i].code_hash != row.code_hash && !(
                store.pairings[i].connection_id == row.connection_id
                    && store.pairings[i].external_user_id == row.platform_user_id)
            &&& after.users == store.users
            &&& after.connections == store.connections
            &&& after.bindings == store.bindings
        },
{
    lemma_has_connection(store.connections, owner, row.connection_id);
    if create_pairing_step(store, owner, row) is Ok {
        assert forall|i: int| 0 <= i < store.pairings.len() implies (
        #[trigger] store.pairings[i]).id != row.id by {
            assert(!request_with_id(row.id)(store.pairings[i]));
        }
        if row.status == "pending"@ {
            assert forall|i: int|
                0 <= i < store.pairings.len() && (#[trigger] store.pairings[i]).owner_user_id
                    == owner && store.pairings[i].status == "pending"@
                    implies store.pairings[i].code_hash != row.code_hash && !(
            store.pairings[i].connection_id == row.connection_id
                && store.pairings[i].external_user_id == row.platform_user_id) by {
                assert(!bars_request(owner, row)(store.pairings[i]));
            }
        }
    }
}

/// A decision on a request of the owner's says what was decided, and for whom it
/// was approved; nothing else of it or of any other request changes.
pub proof fn law_request_is_decided(
    store: ChannelModel,
    owner: Seq<char>,
    id: Seq<char>,
    status: Seq<char>,
    approved: Option<Seq<char>>,
)
    ensures
        decide_step(store, owner, id, status, approved) matches Ok(after) ==> {
            &&& after.pairings.len() == store.pairings.len()
            &&& forall|i: int|
                0 <= i < store.pairings.len() && !(store.pairings[i].owner_user_id == owner
                    && store.pairings[i].id == id) ==> #[trigger] after.pairings[i]
                    == store.pairings[i]
            &&& forall|i: int|
                0 <= i < store.pairings.len() && store.pairings[i].owner_user_id == owner
                    && store.pairings[i].id == id ==> {
                    &&& (#[trigger] after.pairings[i]).status == status
                    &&& approved is Some ==> after.pairings[i].approved_channel_user_id == approved
                    &&& approved is None ==> after.pairings[i].approved_channel_user_id
                        == store.pairings[i].approved_channel_user_id
                    &&& is_the_same_request(after.pairings[i], store.pairings[i])
                }
            &&& after.users == store.users
            &&& after.connections == store.connections
            &&& after.bindings == store.bindings
        },
{
}

/// Whether a request is the one that was made.
pub open spec fn is_the_same_request(new: Request, old: Request) -> bool {
    &&& new.id == old.id
    &&& new.owner_user_id == old.owner_user_id
    &&& new.connection_id == old.connection_id
    &&& new.external_user_id == old.external_user_id
    &&& new.display_name == old.display_name
    &&& new.code_hash == old.code_hash
    &&& new.requested_at == old.requested_at
    &&& new.expires_at == old.expires_at
}

/// Requests of the owner's that wait run out when their time is over, or when the
/// same person asks anew, and no others do.
pub proof fn law_requests_run_out(
    pairings: Seq<Request>,
    owner: Seq<char>,
    now: i64,
    connection_id: Seq<char>,
    external: Seq<char>,
    i: int,
)
    requires
        0 <= i < pairings.len(),
    ensures
        ({
            let after = updated(pairings, overdue(owner, now), ran_out());
            let over = pairings[i].owner_user_id == owner && pairings[i].status == "pending"@
                && pairings[i].expires_at <= now;
            &&& after.len() == pairings.len()
            &&& !over ==> after[i] == pairings[i]
            &&& over ==> after[i].status == "expired"@ && is_the_same_request(
                after[i],
                pairings[i],
            ) && after[i].approved_channel_user_id == pairings[i].approved_channel_user_id
        }),
        ({
            let after = updated(
                pairings,
                pending_from(owner, connection_id, external),
                ran_out(),
            );
            let over = pairings[i].owner_user_id == owner && pairings[i].status == "pending"@
                && pairings[i].connection_id == connection_id && pairings[i].external_user_id
                == external;
            &&& after.len() == pairings.len()
            &&& !over ==> after[i] == pairings[i]
            &&& over ==> after[i].status == "expired"@ && is_the_same_request(
                after[i],
                pairings[i],
            )
        }),
{
}

/// A code finds a request of the owner's that waits, on a connection that is
/// there, and finds none only where there is none.
pub proof fn law_code_finds_request(store: ChannelModel, owner: Seq<char>, code: Seq<char>)
    ensures
        ({
            let found = lookup(store.pairings, request_by_code(store.connections, owner, code));
            &&& found matches Some(request) ==> store.pairings.contains(request)
                && request.owner_user_id == owner && request.code_hash == code && request.status
                == "pending"@ && has_connection(store.connections, owner, request.connection_id)
            &&& found is None ==> forall|i: int|
                0 <= i < store.pairings.len() ==> !((#[trigger] store.pairings[i]).owner_user_id
                    == owner && store.pairings[i].code_hash == code && store.pairings[i].status
                    == "pending"@ && has_connection(
                    store.connections,
                    owner,
                    store.pairings[i].connection_id,
                ))
        }),
{
    let hit = request_by_code(store.connections, owner, code);
    lemma_lookup(store.pairings, hit);
    if let Some(request) = lookup(store.pairings, hit) {
        lemma_platform(store.connections, owner, request.connection_id);
    } else {
        assert forall|i: int| 0 <= i < store.pairings.len() implies !((
        #[trigger] store.pairings[i]).owner_user_id == owner && store.pairings[i].code_hash == code
            && store.pairings[i].status == "pending"@ && has_connection(
            store.connections,
            owner,
            store.pairings[i].connection_id,
        )) by {
            assert(!hit(store.pairings[i]));
            lemma_platform(store.connections, owner, store.pairings[i].connection_id);
        }
    }
}

/// The list of requests holds those of the owner's that wait, on connections that
/// are there, and no others, the latest first.
pub proof fn law_requests_are_listed(store: ChannelModel, owner: Seq<char>)
    ensures
        ({
            let list = ordered(
                selected(store.pairings, pending_request(store.connections, owner)),
                later_request(),
            );
            &&& forall|row: Request| #[trigger]
                list.contains(row) <==> store.pairings.contains(row) && row.owner_user_id == owner
                    && row.status == "pending"@ && has_connection(
                    store.connections,
                    owner,
                    row.connection_id,
                )
            &&& forall|i: int, j: int|
                0 <= i < j < list.len() ==> (#[trigger] list[i]).requested_at >= (
                #[trigger] list[j]).requested_at
        }),
{
    let hit = pending_request(store.connections, owner);
    let less = later_request();
    let list = ordered(selected(store.pairings, hit), less);
    assert(orders(less));
    law_full_listing(store.pairings, hit, less);
    assert forall|row: Request| #[trigger]
        list.contains(row) <==> store.pairings.contains(row) && row.owner_user_id == owner
            && row.status == "pending"@ && has_connection(
            store.connections,
            owner,
            row.connection_id,
        ) by {
        lemma_platform(store.connections, owner, row.connection_id);
    }
    assert forall|i: int, j: int| 0 <= i < j < list.len() implies (#[trigger] list[i]).requested_at
        >= (#[trigger] list[j]).requested_at by {
        assert(!less(list[j], list[i]));
    }
}

/// A request is shown as it is stored, with the platform of its connection.
pub proof fn law_request_is_shown(request: Request, connections: Seq<Connection>)
    ensures
        ({
            let shown = shown_request(request, connections);
            &&& shown.id == request.id
            &&& shown.owner_user_id == request.owner_user_id
            &&& shown.connection_id == request.connection_id
            &&& shown.platform_user_id == request.external_user_id
            &&& shown.display_name == request.display_name
            &&& shown.code_hash == request.code_hash
            &&& shown.status == request.status
            &&& shown.requested_at == request.requested_at
            &&& shown.expires_at == request.expires_at
            &&& shown.approved_channel_user_id == request.approved_channel_user_id
            &&& has_connection(connections, request.owner_user_id, request.connection_id)
                ==> is_on_platform(
                connections,
                request.owner_user_id,
                request.connection_id,
                shown.platform_type,
            )
        }),
{
    lemma_platform(connections, request.owner_user_id, request.connection_id);
}

// ----------------------------------------------------------------------------
// What is owed
// ----------------------------------------------------------------------------

/// A person who is not an active user yet is let in on a connection that is there:
/// one who was turned away before, and one who is new under a new id.
pub proof fn law_letting_in_is_owed(store: ChannelModel, owner: Seq<char>, row: ChannelUser)
    requires
        forall|i: int|
            0 <= i < store.users.len() && (#[trigger] store.users[i]).owner_user_id == owner
                && store.users[i].connection_id == row.connection_id
                && store.users[i].external_user_id == row.platform_user_id
                ==> store.users[i].status != "active"@,
        forall|i: int| 0 <= i < store.users.len() ==> (#[trigger] store.users[i]).id != row.id,
        has_connection(store.connections, owner, row.connection_id),
    ensures
        create_user_step(store, owner, row) is Ok,
{
    let known = known_as(owner, row.connection_id, row.platform_user_id);
    lemma_lookup(store.users, known);
    lemma_has_connection(store.connections, owner, row.connection_id);
    if let Some(user) = lookup(store.users, known) {
        let k = choose|k: int| 0 <= k < store.users.len() && store.users[k] == user;
        assert(known(store.users[k]));
    }
    let taken = member_with_id(row.id);
    if exists_in(store.users, taken) {
        let i = choose|i: int| 0 <= i < store.users.len() && taken(#[trigger] store.users[i]);
        assert(store.users[i].id == row.id);
    }
}

/// A chat of an active user is bound: it is bound already, or it is bound now under
/// a new id, to a conversation of the owner's or to none.
pub proof fn law_binding_is_owed(
    store: ChannelModel,
    owner: Seq<char>,
    user_id: Seq<char>,
    chat_id: Seq<char>,
    new: Binding,
    now: i64,
)
    requires
        exists|u: int|
            0 <= u < store.users.len() && (#[trigger] store.users[u]).id == user_id
                && store.users[u].owner_user_id == owner && store.users[u].status == "active"@,
        forall|i: int| 0 <= i < store.bindings.len() ==> (#[trigger] store.bindings[i]).id != new.id,
        new.conversation_id matches Some(id) ==> owns_conversation(store.conversations, owner, id),
    ensures
        bind_step(store, owner, user_id, chat_id, new, now) matches Ok((after, row))
            && row.owner_user_id == owner && row.user_id == user_id && after.bindings.contains(row),
{
    let hit = binding_for_chat(owner, user_id, chat_id);
    lemma_lookup(store.bindings, hit);
    let member = active_member(owner, user_id);
    lemma_lookup(store.users, member);
    let u = choose|u: int|
        0 <= u < store.users.len() && (#[trigger] store.users[u]).id == user_id
            && store.users[u].owner_user_id == owner && store.users[u].status == "active"@;
    assert(member(store.users[u]));
    if let Some(id) = new.conversation_id {
        lemma_owns_conversation(store.conversations, owner, id);
    }
    let taken = binding_with_id(new.id);
    if exists_in(store.bindings, taken) {
        let i = choose|i: int| 0 <= i < store.bindings.len() && taken(#[trigger] store.bindings[i]);
        assert(store.bindings[i].id == new.id);
    }
    let (after, row) = bind_step(store, owner, user_id, chat_id, new, now)->Ok_0;
    if let Some(found) = lookup(store.bindings, hit) {
        let k = choose|k: int| 0 <= k < store.bindings.len() && store.bindings[k] == found;
        assert(after.bindings[k] == row);
    } else {
        assert(after.bindings[after.bindings.len() - 1] == row);
    }
}

/// A request that waits is filed where its id is new, the connection is there, and
/// neither the person nor the code waits already.
pub proof fn law_filing_is_owed(store: ChannelModel, owner: Seq<char>, row: Pairing)
    requires
        forall|i: int| 0 <= i < store.pairings.len() ==> (#[trigger] store.pairings[i]).id != row.id,
        has_connection(store.connections, owner, row.connection_id),
        row.status == "pending"@ ==> forall|i: int|
            0 <= i < store.pairings.len() && (#[trigger] store.pairings[i]).owner_user_id == owner
                && store.pairings[i].status == "pending"@ ==> store.pairings[i].code_hash
                != row.code_hash && !(store.pairings[i].connection_id == row.connection_id
                && store.pairings[i].external_user_id == row.platform_user_id),
    ensures
        create_pairing_step(store, owner, row) is Ok,
{
    lemma_has_connection(store.connections, owner, row.connection_id);
    let taken = request_with_id(row.id);
    if exists_in(store.pairings, taken) {
        let i = choose|i: int| 0 <= i < store.pairings.len() && taken(#[trigger] store.pairings[i]);
        assert(store.pairings[i].id == row.id);
    }
    let bar = bars_request(owner, row);
    if exists_in(store.pairings, bar) {
        let i = choose|i: int| 0 <= i < store.pairings.len() && bar(#[trigger] store.pairings[i]);
        assert(store.pairings[i].owner_user_id == owner);
    }
}

/// A request of the owner's can be decided on, and a binding of the owner's can go
/// over to any conversation of the owner's.
pub proof fn law_decisions_are_owed(
    store: ChannelModel,
    owner: Seq<char>,
    id: Seq<char>,
    status: Seq<char>,
    approved: Option<Seq<char>>,
    conversation_id: Seq<char>,
    now: i64,
)
    ensures
        (exists|i: int|
            0 <= i < store.pairings.len() && (#[trigger] store.pairings[i]).owner_user_id == owner
                && store.pairings[i].id == id) ==> decide_step(
            store,
            owner,
            id,
            status,
            approved,
        ) is Ok,
        (exists|i: int|
            0 <= i < store.bindings.len() && (#[trigger] store.bindings[i]).owner_user_id == owner
                && store.bindings[i].id == id) && owns_conversation(
            store.conversations,
            owner,
            conversation_id,
        ) ==> rebind_step(store, owner, id, conversation_id, now) is Ok,
        (exists|i: int|
            0 <= i < store.bindings.len() && (#[trigger] store.bindings[i]).owner_user_id == owner
                && store.bindings[i].id == id) ==> binding_activity_step(
            store,
            owner,
            id,
            now,
        ) is Ok,
{
    let own = request_of(owner, id);
    if exists|i: int|
        0 <= i < store.pairings.len() && (#[trigger] store.pairings[i]).owner_user_id == owner
            && store.pairings[i].id == id {
        let i = choose|i: int|
            0 <= i < store.pairings.len() && (#[trigger] store.pairings[i]).owner_user_id == owner
                && store.pairings[i].id == id;
        assert(own(store.pairings[i]));
    }
    let here = binding_with(owner, id);
    if exists|i: int|
        0 <= i < store.bindings.len() && (#[trigger] store.bindings[i]).owner_user_id == owner
            && store.bindings[i].id == id {
        let i = choose|i: int|
            0 <= i < store.bindings.len() && (#[trigger] store.bindings[i]).owner_user_id == owner
                && store.bindings[i].id == id;
        assert(here(store.bindings[i]));
    }
    lemma_owns_conversation(store.conversations, owner, conversation_id);
}

/// An owner's connection to a platform is the owner's and goes there, and one that is
/// there is found.
pub proof fn law_platform_finds_connection(
    rows: Seq<Connection>,
    owner: Seq<char>,
    platform: Seq<char>,
)
    ensures
        lookup(rows, connection_to(owner, platform)) matches Some(row) ==> rows.contains(row)
            && row.owner_user_id == owner && row.plugin_key == platform,
        forall|i: int|
            0 <= i < rows.len() && (#[trigger] rows[i]).owner_user_id == owner && rows[i].plugin_key
                == platform ==> lookup(rows, connection_to(owner, platform)) is Some,
{
    let hit = connection_to(owner, platform);
    lemma_lookup(rows, hit);
    assert forall|i: int|
        0 <= i < rows.len() && (#[trigger] rows[i]).owner_user_id == owner && rows[i].plugin_key
            == platform implies lookup(rows, hit) is Some by {
        assert(hit(rows[i]));
    }
}

/// A request by its id is the owner's, over a connection of the owner's that is there;
/// such a request is found.
pub proof fn law_id_finds_request(store: ChannelModel, owner: Seq<char>, id: Seq<char>)
    ensures
        ({
            let found = lookup(store.pairings, request_for(store.connections, owner, id));
            &&& found matches Some(request) ==> store.pairings.contains(request)
                && request.owner_user_id == owner && request.id == id && has_connection(
                store.connections,
                owner,
                request.connection_id,
            )
            &&& forall|i: int|
                0 <= i < store.pairings.len() && (#[trigger] store.pairings[i]).owner_user_id
                    == owner && store.pairings[i].id == id && has_connection(
                    store.connections,
                    owner,
                    store.pairings[i].connection_id,
                ) ==> found is Some
        }),
{
    let hit = request_for(store.connections, owner, id);
    lemma_lookup(store.pairings, hit);
    if let Some(request) = lookup(store.pairings, hit) {
        lemma_platform(store.connections, owner, request.connection_id);
    }
    assert forall|i: int|
        0 <= i < store.pairings.len() && (#[trigger] store.pairings[i]).owner_user_id == owner
            && store.pairings[i].id == id && has_connection(
            store.connections,
            owner,
            store.pairings[i].connection_id,
        ) implies lookup(store.pairings, hit) is Some by {
        lemma_platform(store.connections, owner, store.pairings[i].connection_id);
        assert(hit(store.pairings[i]));
    }
}

/// A list shows the people and the requests one for one, in their order.
pub proof fn law_lists_show_each(
    users: Seq<Member>,
    requests: Seq<Request>,
    connections: Seq<Connection>,
)
    ensures
        shown_users(users, connections).len() == users.len(),
        forall|i: int|
            0 <= i < users.len() ==> #[trigger] shown_users(users, connections)[i] == shown_user(
                users[i],
                connections,
            ),
        shown_requests(requests, connections).len() == requests.len(),
        forall|i: int|
            0 <= i < requests.len() ==> #[trigger] shown_requests(requests, connections)[i]
                == shown_request(requests[i], connections),
{
}

/// An operation that fails changes nothing, and one that does not came to its outcome.
pub proof fn law_failure_changes_nothing(
    expected: Result<ChannelModel, DbError<Seq<char>>>,
    result: Result<(), DbError>,
    before: ChannelModel,
    after: ChannelModel,
)
    requires
        store_changed(expected, result, before, after),
    ensures
        result matches Err(error) ==> after == before && expected == Err::<
            ChannelModel,
            DbError<Seq<char>>,
        >(error@),
        result is Ok ==> expected == Ok::<ChannelModel, DbError<Seq<char>>>(after),
{
}

} // verus!
