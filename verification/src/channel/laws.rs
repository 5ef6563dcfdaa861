//! What the channels promise: a person who was turned away is no longer routed, a
//! binding is its channel user's, and a code is used once.
use crate::channel::rows::ChannelConversationBindingRow;
use crate::channel::store::{
    active_member, active_on_platform, bars_request, bind_step, binding_for_chat, binding_of_user,
    binding_with, bound, create_pairing_step, create_user_step, decide_step, decided, known_as,
    member_of, readmitted, request_by_code, request_of, revoke_step, turned_away, Binding,
    ChannelModel, ChannelUser, Member, Pairing, Request,
};
use crate::table::{
    exists_in, first_at, law_removed, lemma_lookup, lemma_lookup_first, lemma_lookup_none, lookup,
    updated,
};
use vstd::prelude::*;

verus! {

proof fn lemma_statuses_differ()
    ensures
        "active"@ != "revoked"@,
        "pending"@ != "approved"@,
{
    reveal_strlit("active");
    reveal_strlit("revoked");
    reveal_strlit("pending");
    reveal_strlit("approved");
    assert("active"@[0] == 'a' && "revoked"@[0] == 'r' && "pending"@[0] == 'p' && "approved"@[0]
        == 'a');
}

/// Someone who was turned away is found on no platform any more, has no binding,
/// and gets none; their row is still there.
pub proof fn law_revoked_is_not_routed(
    store: ChannelModel,
    owner: Seq<char>,
    id: Seq<char>,
    now: i64,
    external: Seq<char>,
    platform: Seq<char>,
    chat_id: Seq<char>,
    new_row: Binding,
    later: i64,
)
    ensures
        revoke_step(store, owner, id, now) matches Ok(after) ==> {
            &&& lookup(
                after.users,
                active_on_platform(after.connections, owner, external, platform),
            ) matches Some(user) ==> user.id != id
            &&& forall|row: Binding| #[trigger]
                after.bindings.contains(row) ==> row.owner_user_id != owner || row.user_id != id
            &&& bind_step(after, owner, id, chat_id, new_row, later) matches Ok((_, row))
                ==> row.user_id != id
            &&& after.users.len() == store.users.len()
            &&& exists_in(after.users, member_of(owner, id))
        },
{
    if let Ok(after) = revoke_step(store, owner, id, now) {
        lemma_statuses_differ();
        let hit = active_member(owner, id);
        let routed = active_on_platform(after.connections, owner, external, platform);
        lemma_lookup(after.users, routed);
        if let Some(user) = lookup(after.users, routed) {
            let k = choose|k: int| 0 <= k < after.users.len() && after.users[k] == user;
            assert(after.users[k] == (if hit(store.users[k]) {
                turned_away(now)(store.users[k])
            } else {
                store.users[k]
            }));
        }
        law_removed(store.bindings, binding_of_user(owner, id));
        let chat = binding_for_chat(owner, id, chat_id);
        lemma_lookup(after.bindings, chat);
        assert forall|k: int|
            0 <= k < after.users.len() implies !hit(#[trigger] after.users[k]) by {
            if hit(store.users[k]) {
                assert(after.users[k] == turned_away(now)(store.users[k]));
            }
        }
        lemma_lookup_none(after.users, hit);
        let other = binding_with(owner, new_row.id);
        lemma_lookup(after.bindings, other);
        let m = choose|m: int| 0 <= m < store.users.len() && hit(#[trigger] store.users[m]);
        assert(member_of(owner, id)(after.users[m]));
    }
}

/// Someone who was turned away and is let in again keeps their id; no row is
/// added.
pub proof fn law_readmission_keeps_identity(
    store: ChannelModel,
    owner: Seq<char>,
    user: Member,
    row: ChannelUser,
)
    requires
        lookup(store.users, known_as(owner, row.connection_id, row.platform_user_id)) == Some(user),
        user.status != "active"@,
    ensures
        create_user_step(store, owner, row) matches Ok(after) && after.users.len()
            == store.users.len() && (lookup(
            after.users,
            known_as(owner, row.connection_id, row.platform_user_id),
        ) matches Some(found) && found.id == user.id && found.status == "active"@
            && found.revoked_at is None && found.display_name == row.display_name),
{
    let known = known_as(owner, row.connection_id, row.platform_user_id);
    lemma_lookup(store.users, known);
    let at = choose|at: int| #[trigger] first_at(store.users, known, at);
    lemma_lookup_first(store.users, known, at);
    let hit = member_of(owner, user.id);
    let after = updated(store.users, hit, readmitted(row));
    assert(hit(store.users[at]));
    assert(after[at] == readmitted(row)(user));
    assert forall|k: int| 0 <= k < at implies !known(#[trigger] after[k]) by {
        assert(!known(store.users[k]));
    }
    assert(first_at(after, known, at));
    lemma_lookup_first(after, known, at);
}

/// A new binding is its channel user's, on that user's connection, whatever the
/// caller claims.
pub proof fn law_binding_ignores_claims(
    store: ChannelModel,
    owner: Seq<char>,
    user_id: Seq<char>,
    chat_id: Seq<char>,
    new_row: Binding,
    now: i64,
    claimed_owner: Seq<char>,
    claimed_connection: Seq<char>,
    claimed_user: Seq<char>,
)
    ensures
        bind_step(store, owner, user_id, chat_id, new_row, now) == bind_step(
            store,
            owner,
            user_id,
            chat_id,
            ChannelConversationBindingRow {
                owner_user_id: claimed_owner,
                connection_id: claimed_connection,
                user_id: claimed_user,
                ..new_row
            },
            now,
        ),
{
    let claimed = ChannelConversationBindingRow {
        owner_user_id: claimed_owner,
        connection_id: claimed_connection,
        user_id: claimed_user,
        ..new_row
    };
    if let Some(user) = lookup(store.users, active_member(owner, user_id)) {
        assert(bound(user, new_row) == bound(user, claimed));
    }
}

// ----------------------------------------------------------------------------
// Codes
// ----------------------------------------------------------------------------

/// Whether no two of an owner's pending requests have one code.
pub open spec fn codes_distinct(pairings: Seq<Request>) -> bool {
    forall|i: int, j: int|
        0 <= i < pairings.len() && 0 <= j < pairings.len() && i != j && (
        #[trigger] pairings[i]).status == "pending"@ && (#[trigger] pairings[j]).status
            == "pending"@ && pairings[i].owner_user_id == pairings[j].owner_user_id
            ==> pairings[i].code_hash != pairings[j].code_hash
}

/// Filing a request keeps the codes of an owner's pending requests distinct.
pub proof fn law_codes_stay_distinct(store: ChannelModel, owner: Seq<char>, row: Pairing)
    requires
        codes_distinct(store.pairings),
    ensures
        create_pairing_step(store, owner, row) matches Ok(after) ==> codes_distinct(
            after.pairings,
        ),
{
    if let Ok(after) = create_pairing_step(store, owner, row) {
        let bar = bars_request(owner, row);
        assert forall|i: int, j: int|
            0 <= i < after.pairings.len() && 0 <= j < after.pairings.len() && i != j && (
            #[trigger] after.pairings[i]).status == "pending"@ && (
            #[trigger] after.pairings[j]).status == "pending"@ && after.pairings[i].owner_user_id
                == after.pairings[j].owner_user_id implies after.pairings[i].code_hash
            != after.pairings[j].code_hash by {
            let last = store.pairings.len();
            if i < last {
                assert(after.pairings[i] == store.pairings[i]);
            }
            if j < last {
                assert(after.pairings[j] == store.pairings[j]);
            }
            if i == last {
                assert(!bar(store.pairings[j]));
            }
            if j == last {
                assert(!bar(store.pairings[i]));
            }
        }
    }
}

/// A code is used once: a request that was decided on is not found by its code
/// any more.
pub proof fn law_code_is_used_once(
    store: ChannelModel,
    owner: Seq<char>,
    request: Request,
    status: Seq<char>,
    approved: Option<Seq<char>>,
)
    requires
        codes_distinct(store.pairings),
        store.pairings.contains(request),
        request.owner_user_id == owner,
        request.status == "pending"@,
        status != "pending"@,
    ensures
        decide_step(store, owner, request.id, status, approved) matches Ok(after) && lookup(
            after.pairings,
            request_by_code(after.connections, owner, request.code_hash),
        ) is None,
{
    let k = choose|k: int| 0 <= k < store.pairings.len() && store.pairings[k] == request;
    let hit = request_of(owner, request.id);
    assert(hit(store.pairings[k]));
    let after = updated(store.pairings, hit, decided(status, approved));
    let code = request_by_code(store.connections, owner, request.code_hash);
    assert forall|i: int| 0 <= i < after.len() implies !code(#[trigger] after[i]) by {
        if i != k && code(after[i]) {
            assert(after[i] == store.pairings[i]);
            assert(store.pairings[i].code_hash != store.pairings[k].code_hash);
        }
    }
    lemma_lookup_none(after, code);
}

} // verus!
