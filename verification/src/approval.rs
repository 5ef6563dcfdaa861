//! Requests to let an agent act: they are answered once, by the user who made
//! them, before they expire.
use crate::error::DbError;
use crate::table::{
    exists_in, fetch_where, found, law_full_listing, lemma_lookup, lemma_orders_by, list_where,
    lookup, model, ordered, selected, update_where, updated, Record,
};
use crate::text::{before, copy_opt, is_some_text, opt_str, opt_text, same, text_before};
use crate::write::{add_row, added, rows_changed};
use vstd::prelude::*;

verus! {

/// A request to let an agent act, and what became of it.
#[derive(Debug, Clone, PartialEq, Eq)]
pub struct ApprovalRequestRow<T = String> {
    pub id: T,
    pub requester_user_id: T,
    pub project_id: Option<T>,
    pub run_id: Option<T>,
    pub task_id: Option<T>,
    pub conversation_id: T,
    pub agent_id: Option<T>,
    pub call_id: T,
    pub action_type: T,
    pub command: Option<T>,
    pub working_directory: Option<T>,
    pub risk_level: T,
    pub options: T,
    pub status: T,
    pub approver_user_id: Option<T>,
    pub source_channel: Option<T>,
    pub source_chat_id: Option<T>,
    pub source_thread_id: Option<i64>,
    pub expires_at: i64,
    pub consumed_at: Option<i64>,
    pub created_at: i64,
    pub updated_at: i64,
}

impl View for ApprovalRequestRow<String> {
    type V = ApprovalRequestRow<Seq<char>>;

    open spec fn view(&self) -> ApprovalRequestRow<Seq<char>> {
        ApprovalRequestRow {
            id: self.id@,
            requester_user_id: self.requester_user_id@,
            project_id: opt_text(self.project_id),
            run_id: opt_text(self.run_id),
            task_id: opt_text(self.task_id),
            conversation_id: self.conversation_id@,
            agent_id: opt_text(self.agent_id),
            call_id: self.call_id@,
            action_type: self.action_type@,
            command: opt_text(self.command),
            working_directory: opt_text(self.working_directory),
            risk_level: self.risk_level@,
            options: self.options@,
            status: self.status@,
            approver_user_id: opt_text(self.approver_user_id),
            source_channel: opt_text(self.source_channel),
            source_chat_id: opt_text(self.source_chat_id),
            source_thread_id: self.source_thread_id,
            expires_at: self.expires_at,
            consumed_at: self.consumed_at,
            created_at: self.created_at,
            updated_at: self.updated_at,
        }
    }
}

impl Record for ApprovalRequestRow<String> {
    fn duplicate(&self) -> (copy: Self) {
        ApprovalRequestRow {
            id: self.id.clone(),
            requester_user_id: self.requester_user_id.clone(),
            project_id: copy_opt(&self.project_id),
            run_id: copy_opt(&self.run_id),
            task_id: copy_opt(&self.task_id),
            conversation_id: self.conversation_id.clone(),
            agent_id: copy_opt(&self.agent_id),
            call_id: self.call_id.clone(),
            action_type: self.action_type.clone(),
            command: copy_opt(&self.command),
            working_directory: copy_opt(&self.working_directory),
            risk_level: self.risk_level.clone(),
            options: self.options.clone(),
            status: self.status.clone(),
            approver_user_id: copy_opt(&self.approver_user_id),
            source_channel: copy_opt(&self.source_channel),
            source_chat_id: copy_opt(&self.source_chat_id),
            source_thread_id: self.source_thread_id,
            expires_at: self.expires_at,
            consumed_at: self.consumed_at,
            created_at: self.created_at,
            updated_at: self.updated_at,
        }
    }
}

/// The model of a request.
pub type Approval = ApprovalRequestRow<Seq<char>>;

/// The request with an id.
pub open spec fn with_id(id: Seq<char>) -> spec_fn(Approval) -> bool {
    |row: Approval| row.id == id
}

/// The request for a call in a conversation.
pub open spec fn of_call(
    conversation_id: Seq<char>,
    call_id: Seq<char>,
) -> spec_fn(Approval) -> bool {
    |row: Approval| row.conversation_id == conversation_id && row.call_id == call_id
}

/// A user's requests, of one run where it is given.
pub open spec fn of_user(
    user_id: Seq<char>,
    run_id: Option<Seq<char>>,
) -> spec_fn(Approval) -> bool {
    |row: Approval|
        row.requester_user_id == user_id
            && (run_id matches Some(wanted) ==> row.run_id == Some(wanted))
}

/// The order of requests: the latest first.
pub open spec fn latest_first() -> spec_fn(Approval, Approval) -> bool {
    |a: Approval, b: Approval|
        b.created_at < a.created_at || (a.created_at == b.created_at && (text_before(a.id, b.id)))
}

/// A request that its user can still answer at a time.
pub open spec fn can_answer(
    id: Seq<char>,
    user_id: Seq<char>,
    now: i64,
) -> spec_fn(Approval) -> bool {
    |row: Approval|
        row.id == id && row.requester_user_id == user_id && row.status == "pending"@
            && row.expires_at > now
}

/// An answered request.
pub open spec fn answered(
    approver: Seq<char>,
    status: Seq<char>,
    now: i64,
) -> spec_fn(Approval) -> Approval {
    |row: Approval|
        ApprovalRequestRow {
            status,
            approver_user_id: Some(approver),
            consumed_at: Some(now),
            updated_at: now,
            ..row
        }
}

/// A request whose answer its approver can still take back.
pub open spec fn can_cancel(id: Seq<char>, approver: Seq<char>) -> spec_fn(Approval) -> bool {
    |row: Approval|
        row.id == id && row.approver_user_id == Some(approver)
            && (row.status == "approved"@ || row.status == "rejected"@)
}

/// A request that was brought to an end.
pub open spec fn ended(status: Seq<char>, now: i64) -> spec_fn(Approval) -> Approval {
    |row: Approval| ApprovalRequestRow { status, updated_at: now, ..row }
}

/// The requests that were not answered in time.
pub open spec fn is_overdue(now: i64) -> spec_fn(Approval) -> bool {
    |row: Approval| row.status == "pending"@ && row.expires_at <= now
}

/// The requests.
#[derive(Debug, Clone, PartialEq, Eq)]
pub struct ApprovalStore {
    pub requests: Vec<ApprovalRequestRow>,
}

impl View for ApprovalStore {
    type V = Seq<Approval>;

    open spec fn view(&self) -> Seq<Approval> {
        model(self.requests@)
    }
}

impl ApprovalStore {
    /// Adds a request.
    pub fn create(&mut self, row: &ApprovalRequestRow) -> (result: Result<(), DbError>)
        ensures
            rows_changed(
                added(
                    old(self)@,
                    with_id(row@.id),
                    row@,
                    "UNIQUE constraint failed: approval_requests.id"@,
                ),
                result,
                old(self)@,
                final(self)@,
            ),
    {
        let id = row.id.as_str();
        add_row(
            &mut self.requests,
            row.duplicate(),
            |row: &ApprovalRequestRow| -> (yes: bool)
                ensures yes == with_id(id@)(row@)
                { same(row.id.as_str(), id) },
            "UNIQUE constraint failed: approval_requests.id",
            Ghost(with_id(id@)),
        )
    }

    /// A request.
    pub fn get(&self, id: &str) -> (row: Option<ApprovalRequestRow>)
        ensures
            found(row) == lookup(self@, with_id(id@)),
    {
        fetch_where(
            &self.requests,
            |row: &ApprovalRequestRow| -> (yes: bool)
                ensures yes == with_id(id@)(row@)
                { same(row.id.as_str(), id) },
            Ghost(with_id(id@)),
        )
    }

    /// The request for a call in a conversation.
    pub fn get_by_conversation_call(
        &self,
        conversation_id: &str,
        call_id: &str,
    ) -> (row: Option<ApprovalRequestRow>)
        ensures
            found(row) == lookup(self@, of_call(conversation_id@, call_id@)),
    {
        fetch_where(
            &self.requests,
            |row: &ApprovalRequestRow| -> (yes: bool)
                ensures yes == of_call(conversation_id@, call_id@)(row@)
                {
                    same(row.conversation_id.as_str(), conversation_id)
                        && same(row.call_id.as_str(), call_id)
                },
            Ghost(of_call(conversation_id@, call_id@)),
        )
    }

    /// A user's requests, of one run where it is given.
    pub fn list_for_user(
        &self,
        requester_user_id: &str,
        run_id: Option<&str>,
    ) -> (list: Vec<ApprovalRequestRow>)
        ensures
            model(list@) == ordered(
                selected(self@, of_user(requester_user_id@, opt_str(run_id))),
                latest_first(),
            ),
    {
        list_where(
            &self.requests,
            |row: &ApprovalRequestRow| -> (yes: bool)
                ensures yes == of_user(requester_user_id@, opt_str(run_id))(row@)
                {
                    same(row.requester_user_id.as_str(), requester_user_id)
                        && match run_id {
                            Some(wanted) => is_some_text(&row.run_id, wanted),
                            None => true,
                        }
                },
            |a: &ApprovalRequestRow, b: &ApprovalRequestRow| -> (yes: bool)
                ensures yes == latest_first()(a@, b@)
                {
                    b.created_at < a.created_at
                        || (a.created_at == b.created_at && (before(a.id.as_str(), b.id.as_str())))
                },
            Ghost(of_user(requester_user_id@, opt_str(run_id))),
            Ghost(latest_first()),
        )
    }

    /// Answers a request, and says whether that was still possible.
    pub fn consume(
        &mut self,
        id: &str,
        approver_user_id: &str,
        status: &str,
        now: i64,
    ) -> (done: bool)
        ensures
            final(self)@ == updated(
                old(self)@,
                can_answer(id@, approver_user_id@, now),
                answered(approver_user_id@, status@, now),
            ),
            done == (selected(old(self)@, can_answer(id@, approver_user_id@, now)).len() == 1),
    {
        let count: u64 = update_where(
            &mut self.requests,
            |row: &ApprovalRequestRow| -> (yes: bool)
                ensures yes == can_answer(id@, approver_user_id@, now)(row@)
                {
                    same(row.id.as_str(), id) && same(
                        row.requester_user_id.as_str(),
                        approver_user_id,
                    ) && same(row.status.as_str(), "pending") && row.expires_at > now
                },
            |row: &ApprovalRequestRow| -> (next: ApprovalRequestRow)
                ensures next@ == answered(approver_user_id@, status@, now)(row@)
                {
                    ApprovalRequestRow {
                        status: status.to_owned(),
                        approver_user_id: Some(approver_user_id.to_owned()),
                        consumed_at: Some(now),
                        updated_at: now,
                        ..row.duplicate()
                    }
                },
            Ghost(can_answer(id@, approver_user_id@, now)),
            Ghost(answered(approver_user_id@, status@, now)),
        );
        count == 1
    }

    /// Takes an answer back, and says whether that was still possible.
    pub fn cancel_consumed(&mut self, id: &str, approver_user_id: &str, now: i64) -> (done: bool)
        ensures
            final(self)@ == updated(
                old(self)@,
                can_cancel(id@, approver_user_id@),
                ended("cancelled"@, now),
            ),
            done == (selected(old(self)@, can_cancel(id@, approver_user_id@)).len() == 1),
    {
        let count: u64 = update_where(
            &mut self.requests,
            |row: &ApprovalRequestRow| -> (yes: bool)
                ensures yes == can_cancel(id@, approver_user_id@)(row@)
                {
                    same(row.id.as_str(), id) && is_some_text(
                        &row.approver_user_id,
                        approver_user_id,
                    ) && (same(row.status.as_str(), "approved") || same(
                        row.status.as_str(),
                        "rejected",
                    ))
                },
            |row: &ApprovalRequestRow| -> (next: ApprovalRequestRow)
                ensures next@ == ended("cancelled"@, now)(row@)
                {
                    ApprovalRequestRow {
                        status: "cancelled".to_owned(),
                        updated_at: now,
                        ..row.duplicate()
                    }
                },
            Ghost(can_cancel(id@, approver_user_id@)),
            Ghost(ended("cancelled"@, now)),
        );
        count == 1
    }

    /// Ends the requests that were not answered in time, and counts them.
    pub fn mark_expired(&mut self, now: i64) -> (count: u64)
        ensures
            final(self)@ == updated(old(self)@, is_overdue(now), ended("expired"@, now)),
            count == selected(old(self)@, is_overdue(now)).len(),
    {
        update_where(
            &mut self.requests,
            |row: &ApprovalRequestRow| -> (yes: bool)
                ensures yes == is_overdue(now)(row@)
                { same(row.status.as_str(), "pending") && row.expires_at <= now },
            |row: &ApprovalRequestRow| -> (next: ApprovalRequestRow)
                ensures next@ == ended("expired"@, now)(row@)
                {
                    ApprovalRequestRow {
                        status: "expired".to_owned(),
                        updated_at: now,
                        ..row.duplicate()
                    }
                },
            Ghost(is_overdue(now)),
            Ghost(ended("expired"@, now)),
        )
    }
}

// ----------------------------------------------------------------------------
// What the requests promise
// ----------------------------------------------------------------------------

/// A request is answered at most once: after an answer nobody can answer it,
/// whenever they try.
pub proof fn law_answered_once(
    rows: Seq<Approval>,
    id: Seq<char>,
    user_id: Seq<char>,
    status: Seq<char>,
    now: i64,
    again: Seq<char>,
    later: i64,
)
    requires
        exists_in(rows, can_answer(id, user_id, now)),
        forall|i: int, j: int|
            0 <= i < rows.len() && 0 <= j < rows.len()
                && #[trigger] rows[i].id == #[trigger] rows[j].id
                ==> i == j,
        status != "pending"@,
    ensures
        !exists_in(
            updated(rows, can_answer(id, user_id, now), answered(user_id, status, now)),
            can_answer(id, again, later),
        ),
{
    let hit = can_answer(id, user_id, now);
    let after = updated(rows, hit, answered(user_id, status, now));
    let at = choose|i: int| 0 <= i < rows.len() && hit(#[trigger] rows[i]);
    assert forall|k: int| 0 <= k < after.len() implies !can_answer(id, again, later)(
        #[trigger] after[k],
    ) by {
        assert(after[k].id == rows[k].id);
        if rows[k].id == id {
            assert(rows[at].id == rows[k].id);
            assert(k == at);
        }
    }
}

/// Nobody but the user who made a request answers it, and not once it is overdue.
pub proof fn law_answer_is_owned(row: Approval, id: Seq<char>, user_id: Seq<char>, now: i64)
    ensures
        can_answer(id, user_id, now)(row) ==> row.requester_user_id == user_id && !is_overdue(now)(
            row,
        ),
{
}

/// Once the overdue requests were ended, none of them can be answered, then or
/// later.
pub proof fn law_expired_is_final(
    rows: Seq<Approval>,
    now: i64,
    i: int,
    id: Seq<char>,
    user_id: Seq<char>,
    later: i64,
)
    requires
        0 <= i < rows.len(),
        is_overdue(now)(rows[i]),
    ensures
        ({
            let after = updated(rows, is_overdue(now), ended("expired"@, now));
            after[i].status == "expired"@ && !can_answer(id, user_id, later)(after[i])
        }),
{
    reveal_strlit("expired");
    reveal_strlit("pending");
    assert("expired"@[0] != "pending"@[0]);
}

/// Whether a request asks for what it asked for.
pub open spec fn asks_the_same(new: Approval, old: Approval) -> bool {
    &&& new.id == old.id
    &&& new.requester_user_id == old.requester_user_id
    &&& new.project_id == old.project_id
    &&& new.run_id == old.run_id
    &&& new.task_id == old.task_id
    &&& new.conversation_id == old.conversation_id
    &&& new.agent_id == old.agent_id
    &&& new.call_id == old.call_id
    &&& new.action_type == old.action_type
    &&& new.command == old.command
    &&& new.working_directory == old.working_directory
    &&& new.risk_level == old.risk_level
    &&& new.options == old.options
    &&& new.source_channel == old.source_channel
    &&& new.source_chat_id == old.source_chat_id
    &&& new.source_thread_id == old.source_thread_id
    &&& new.expires_at == old.expires_at
    &&& new.created_at == old.created_at
}

/// An answer is put on the request of that id, where it is the user's, waits and
/// is in time; it says who answered, what and when. Nothing else changes.
pub proof fn law_answer_is_on_record(
    rows: Seq<Approval>,
    id: Seq<char>,
    user_id: Seq<char>,
    status: Seq<char>,
    now: i64,
    i: int,
)
    requires
        0 <= i < rows.len(),
    ensures
        ({
            let after = updated(
                rows,
                can_answer(id, user_id, now),
                answered(user_id, status, now),
            );
            let waits = rows[i].id == id && rows[i].requester_user_id == user_id && rows[i].status
                == "pending"@ && rows[i].expires_at > now;
            &&& after.len() == rows.len()
            &&& !waits ==> after[i] == rows[i]
            &&& waits ==> asks_the_same(after[i], rows[i]) && after[i].status == status
                && after[i].approver_user_id == Some(user_id) && after[i].consumed_at == Some(now)
                && after[i].updated_at == now
        }),
{
}

/// An answer is taken back only by whom it was given, and only where one was given;
/// a request that waits runs out only when its time is over. Who answered, and
/// when, stays.
pub proof fn law_request_is_ended(
    rows: Seq<Approval>,
    id: Seq<char>,
    approver: Seq<char>,
    now: i64,
    i: int,
)
    requires
        0 <= i < rows.len(),
    ensures
        ({
            let after = updated(rows, can_cancel(id, approver), ended("cancelled"@, now));
            let own = rows[i].id == id && rows[i].approver_user_id == Some(approver) && (
            rows[i].status == "approved"@ || rows[i].status == "rejected"@);
            &&& after.len() == rows.len()
            &&& !own ==> after[i] == rows[i]
            &&& own ==> asks_the_same(after[i], rows[i]) && after[i].status == "cancelled"@
                && after[i].approver_user_id == rows[i].approver_user_id && after[i].consumed_at
                == rows[i].consumed_at && after[i].updated_at == now
        }),
        ({
            let after = updated(rows, is_overdue(now), ended("expired"@, now));
            let over = rows[i].status == "pending"@ && rows[i].expires_at <= now;
            &&& after.len() == rows.len()
            &&& !over ==> after[i] == rows[i]
            &&& over ==> asks_the_same(after[i], rows[i]) && after[i].status == "expired"@
                && after[i].approver_user_id == rows[i].approver_user_id && after[i].consumed_at
                == rows[i].consumed_at && after[i].updated_at == now
        }),
{
}

/// The request for a call is that of the conversation and the call.
pub proof fn law_call_finds_request(rows: Seq<Approval>, conversation: Seq<char>, call: Seq<char>)
    ensures
        lookup(rows, of_call(conversation, call)) matches Some(row) ==> rows.contains(row)
            && row.conversation_id == conversation && row.call_id == call,
        lookup(rows, of_call(conversation, call)) is None ==> forall|i: int|
            0 <= i < rows.len() ==> !((#[trigger] rows[i]).conversation_id == conversation
                && rows[i].call_id == call),
{
    let hit = of_call(conversation, call);
    lemma_lookup(rows, hit);
    if lookup(rows, hit) is None {
        assert forall|i: int| 0 <= i < rows.len() implies !((#[trigger] rows[i]).conversation_id
            == conversation && rows[i].call_id == call) by {
            assert(!hit(rows[i]));
        }
    }
}

/// The list of a user's requests holds exactly those, of the run that is named,
/// the latest first.
pub proof fn law_requests_are_listed(
    rows: Seq<Approval>,
    user_id: Seq<char>,
    run_id: Option<Seq<char>>,
)
    ensures
        ({
            let list = ordered(selected(rows, of_user(user_id, run_id)), latest_first());
            &&& forall|row: Approval| #[trigger]
                list.contains(row) <==> rows.contains(row) && row.requester_user_id == user_id && (
                run_id is Some ==> row.run_id == run_id)
            &&& forall|i: int, j: int|
                0 <= i < j < list.len() ==> (#[trigger] list[i]).created_at >= (
                #[trigger] list[j]).created_at
        }),
{
    let less = latest_first();
    let list = ordered(selected(rows, of_user(user_id, run_id)), less);
    lemma_orders_by(less, |a: Approval| -(a.created_at as int), |a: Approval| a.id, false);
    law_full_listing(rows, of_user(user_id, run_id), less);
    assert forall|i: int, j: int| 0 <= i < j < list.len() implies (#[trigger] list[i]).created_at
        >= (#[trigger] list[j]).created_at by {
        assert(!less(list[j], list[i]));
    }
}

} // verus!
