//! Owners are apart: what one of them does is out of sight for every other.
use crate::channel::rows::UpdateConnectionStatusParams;
use crate::channel::store::{
    active_member, bind_step, binding_activity_step, binding_for_chat, binding_of, binding_of_user,
    binding_with, binding_with_id, bound, connection_becomes, connection_of, connection_reports,
    connection_status_step, connection_with_id, create_pairing_step, create_user_step, decide_step,
    decided, delete_connection_step, filed, goes_to, heard_at, known_as, member_of, overdue,
    pending_from, ran_out, readmitted, rebind_step, request_of, revoke_step, turned_away,
    upsert_connection_step, used_at, Binding, ChannelModel, ChannelUser, Connection, Member,
    Pairing, Request,
};
use crate::table::{
    law_added_apart, law_kept_apart, lemma_lookup, lookup, removed, selected, updated,
};
use vstd::prelude::*;

verus! {

/// An owner's channel users.
pub open spec fn user_of(owner: Seq<char>) -> spec_fn(Member) -> bool {
    |row: Member| row.owner_user_id == owner
}

/// An owner's requests to be let in.
pub open spec fn asked_of(owner: Seq<char>) -> spec_fn(Request) -> bool {
    |row: Request| row.owner_user_id == owner
}

/// Whether an owner has the same connections, people, bindings and requests, in
/// the same order, in two stores.
pub open spec fn same_for(owner: Seq<char>, one: ChannelModel, two: ChannelModel) -> bool {
    &&& selected(one.connections, connection_of(owner)) == selected(
        two.connections,
        connection_of(owner),
    )
    &&& selected(one.users, user_of(owner)) == selected(two.users, user_of(owner))
    &&& selected(one.bindings, binding_of(owner)) == selected(two.bindings, binding_of(owner))
    &&& selected(one.pairings, asked_of(owner)) == selected(two.pairings, asked_of(owner))
}

/// What an owner does to connections is out of sight for every other owner.
pub proof fn law_connections_are_apart(
    store: ChannelModel,
    owner: Seq<char>,
    other: Seq<char>,
    row: Connection,
    id: Seq<char>,
    params: UpdateConnectionStatusParams,
    now: i64,
)
    requires
        other != owner,
    ensures
        upsert_connection_step(store, owner, row) matches Ok(after) ==> same_for(
            other,
            store,
            after,
        ),
        connection_status_step(store, owner, id, params, now) matches Ok(after) ==> same_for(
            other,
            store,
            after,
        ),
        delete_connection_step(store, owner, id) matches Ok(after) ==> same_for(
            other,
            store,
            after,
        ),
{
    let kept = connection_of(other);
    law_kept_apart(
        store.connections,
        connection_with_id(owner, row.id),
        connection_becomes(row),
        kept,
    );
    law_kept_apart(
        store.connections,
        connection_with_id(owner, id),
        connection_reports(params, now),
        kept,
    );
    if let Ok(after) = upsert_connection_step(store, owner, row) {
        if after.connections.len() > store.connections.len() {
            law_added_apart(store.connections, after.connections.last(), kept);
        }
    }
}

/// Letting people in, hearing of them and turning them away is out of sight for
/// every other owner.
pub proof fn law_people_are_apart(
    store: ChannelModel,
    owner: Seq<char>,
    other: Seq<char>,
    row: ChannelUser,
    id: Seq<char>,
    now: i64,
)
    requires
        other != owner,
    ensures
        create_user_step(store, owner, row) matches Ok(after) ==> same_for(other, store, after),
        revoke_step(store, owner, id, now) matches Ok(after) ==> same_for(other, store, after),
        same_for(
            other,
            store,
            (ChannelModel {
                users: updated(store.users, member_of(owner, id), heard_at(now)),
                ..store
            }),
        ),
{
    let kept = user_of(other);
    law_kept_apart(store.users, active_member(owner, id), turned_away(now), kept);
    law_kept_apart(store.users, member_of(owner, id), heard_at(now), kept);
    law_kept_apart(store.bindings, binding_of_user(owner, id), used_at(now), binding_of(other));
    if let Ok(after) = create_user_step(store, owner, row) {
        match lookup(
            store.users,
            known_as(owner, row.connection_id, row.platform_user_id),
        ) {
            Some(user) => {
                law_kept_apart(store.users, member_of(owner, user.id), readmitted(row), kept);
            },
            None => {
                law_added_apart(store.users, after.users.last(), kept);
            },
        }
    }
}

/// Whether no two bindings share an id.
pub open spec fn distinct_bindings(bindings: Seq<Binding>) -> bool {
    forall|i: int, j: int|
        0 <= i < bindings.len() && 0 <= j < bindings.len() && i != j ==> (
        #[trigger] bindings[i]).id != (#[trigger] bindings[j]).id
}

/// What an owner does to bindings is out of sight for every other owner.
pub proof fn law_bindings_are_apart(
    store: ChannelModel,
    owner: Seq<char>,
    other: Seq<char>,
    user_id: Seq<char>,
    chat_id: Seq<char>,
    new_row: Binding,
    id: Seq<char>,
    conversation_id: Seq<char>,
    now: i64,
)
    requires
        other != owner,
        distinct_bindings(store.bindings),
    ensures
        bind_step(store, owner, user_id, chat_id, new_row, now) matches Ok((after, _))
            ==> same_for(other, store, after),
        binding_activity_step(store, owner, id, now) matches Ok(after) ==> same_for(
            other,
            store,
            after,
        ),
        rebind_step(store, owner, id, conversation_id, now) matches Ok(after) ==> same_for(
            other,
            store,
            after,
        ),
        same_for(
            other,
            store,
            (ChannelModel {
                bindings: removed(store.bindings, binding_of_user(owner, user_id)),
                ..store
            }),
        ),
        same_for(
            other,
            store,
            (ChannelModel {
                bindings: removed(store.bindings, binding_for_chat(owner, user_id, chat_id)),
                ..store
            }),
        ),
{
    let kept = binding_of(other);
    let rows = store.bindings;
    law_kept_apart(rows, binding_with(owner, id), used_at(now), kept);
    law_kept_apart(rows, binding_with(owner, id), goes_to(conversation_id, now), kept);
    law_kept_apart(rows, binding_of_user(owner, user_id), used_at(now), kept);
    law_kept_apart(rows, binding_for_chat(owner, user_id, chat_id), used_at(now), kept);
    let chat = binding_for_chat(owner, user_id, chat_id);
    lemma_lookup(rows, chat);
    match lookup(rows, chat) {
        Some(row) => {
            let own = binding_with(owner, row.id);
            let k = choose|k: int| 0 <= k < rows.len() && rows[k] == row;
            assert forall|i: int| 0 <= i < rows.len() implies binding_with_id(row.id)(
                #[trigger] rows[i],
            ) == own(rows[i]) by {
                if i != k {
                    assert(rows[i].id != rows[k].id);
                }
            }
            assert(updated(rows, binding_with_id(row.id), used_at(now)) =~= updated(
                rows,
                own,
                used_at(now),
            ));
            law_kept_apart(rows, own, used_at(now), kept);
        },
        None => {
            lemma_lookup(store.users, active_member(owner, user_id));
            if let Some(user) = lookup(store.users, active_member(owner, user_id)) {
                law_added_apart(rows, bound(user, new_row), kept);
            }
        },
    }
}

/// Filing, deciding on and ending requests is out of sight for every other owner.
pub proof fn law_requests_are_apart(
    store: ChannelModel,
    owner: Seq<char>,
    other: Seq<char>,
    row: Pairing,
    id: Seq<char>,
    status: Seq<char>,
    approved: Option<Seq<char>>,
    connection_id: Seq<char>,
    external: Seq<char>,
    now: i64,
)
    requires
        other != owner,
    ensures
        create_pairing_step(store, owner, row) matches Ok(after) ==> same_for(other, store, after),
        decide_step(store, owner, id, status, approved) matches Ok(after) ==> same_for(
            other,
            store,
            after,
        ),
        same_for(
            other,
            store,
            (ChannelModel {
                pairings: updated(
                    store.pairings,
                    pending_from(owner, connection_id, external),
                    ran_out(),
                ),
                ..store
            }),
        ),
        same_for(
            other,
            store,
            (ChannelModel {
                pairings: updated(store.pairings, overdue(owner, now), ran_out()),
                ..store
            }),
        ),
{
    let kept = asked_of(other);
    law_added_apart(store.pairings, filed(owner, row), kept);
    law_kept_apart(store.pairings, request_of(owner, id), decided(status, approved), kept);
    law_kept_apart(
        store.pairings,
        pending_from(owner, connection_id, external),
        ran_out(),
        kept,
    );
    law_kept_apart(store.pairings, overdue(owner, now), ran_out(), kept);
}

} // verus!
