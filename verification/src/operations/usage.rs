//! What runs use, and what it costs.
use crate::error::DbError;
use crate::operations::rows::{
    Columns, DevelopmentPricedUsageEventRow, DevelopmentUsageDimensionSummary,
    DevelopmentUsageEventRow, DevelopmentUsageSummary, PriceColumns, PricedUsage, Usage,
    UsageDimension,
};
use crate::operations::store::{clamp_limit, clamped, OperationsModel, OperationsStore};
use crate::table::{
    exists_in, fetch_least, found, law_selected, least, limited, list_where, model, ordered,
    select_where, selected, take_limited, Record,
};
use crate::text::{before, copy_opt, is_some_text, opt_str, same, text_before};
use crate::write::{add_row, added, rows_changed};
use vstd::prelude::*;

verus! {

/// The most uses that are listed at once.
pub const MAX_USES: i64 = 500;

/// The use with an id.
pub open spec fn use_with_id(id: Seq<char>) -> spec_fn(PricedUsage) -> bool {
    |row: PricedUsage| row.id == id
}

/// A user's uses on a project, of one run where it is given.
pub open spec fn uses_of(
    user_id: Seq<char>,
    project_id: Seq<char>,
    run_id: Option<Seq<char>>,
) -> spec_fn(PricedUsage) -> bool {
    |row: PricedUsage|
        row.user_id == user_id && row.project_id == project_id
            && (run_id matches Some(wanted) ==> row.run_id == Some(wanted))
}

/// The order of uses: the latest first.
pub open spec fn latest_use() -> spec_fn(PricedUsage, PricedUsage) -> bool {
    |a: PricedUsage, b: PricedUsage|
        b.created_at < a.created_at || (a.created_at == b.created_at && (text_before(b.id, a.id)))
}

/// A user's uses in a conversation.
pub open spec fn in_conversation(
    user_id: Seq<char>,
    conversation_id: Seq<char>,
) -> spec_fn(PricedUsage) -> bool {
    |row: PricedUsage| row.user_id == user_id && row.conversation_id == Some(conversation_id)
}

/// A use as it is stored when it was written without a price.
pub open spec fn unpriced(row: Usage, columns: Columns) -> PricedUsage {
    DevelopmentPricedUsageEventRow {
        id: row.id,
        user_id: row.user_id,
        project_id: row.project_id,
        run_id: row.run_id,
        task_id: row.task_id,
        conversation_id: None,
        agent_id: None,
        team_id: None,
        usage_type: row.usage_type,
        source: row.source,
        confidence: row.confidence,
        provider: None,
        model: None,
        input_tokens: row.input_tokens,
        output_tokens: row.output_tokens,
        cache_read_tokens: columns.cache_read_tokens,
        cache_write_tokens: columns.cache_write_tokens,
        cost_microunits: row.cost_microunits,
        cost_status: columns.cost_status,
        cost_origin: columns.cost_origin,
        price_source_id: None,
        price_version: None,
        price_effective_at: None,
        duration_ms: row.duration_ms,
        retry_count: row.retry_count,
        metadata_json: row.metadata_json,
        created_at: row.created_at,
    }
}

/// A use without its price.
pub open spec fn plain(row: PricedUsage) -> Usage {
    DevelopmentUsageEventRow {
        id: row.id,
        user_id: row.user_id,
        project_id: row.project_id,
        run_id: row.run_id,
        task_id: row.task_id,
        usage_type: row.usage_type,
        source: row.source,
        confidence: row.confidence,
        input_tokens: row.input_tokens,
        output_tokens: row.output_tokens,
        cost_microunits: row.cost_microunits,
        duration_ms: row.duration_ms,
        retry_count: row.retry_count,
        metadata_json: row.metadata_json,
        created_at: row.created_at,
    }
}

/// Uses without their prices.
pub open spec fn all_plain(rows: Seq<PricedUsage>) -> Seq<Usage> {
    Seq::new(rows.len(), |i: int| plain(rows[i]))
}

/// The uses after one was added, unless it was there.
pub open spec fn uses_after(rows: Seq<PricedUsage>, row: PricedUsage) -> Seq<PricedUsage> {
    if exists_in(rows, use_with_id(row.id)) {
        rows
    } else {
        rows.push(row)
    }
}

/// A user's uses of one kind.
pub open spec fn in_dimension(user_id: Seq<char>, dimension: UsageDimension<Seq<char>>) -> spec_fn(
    PricedUsage,
) -> bool {
    |row: PricedUsage|
        row.user_id == user_id && match dimension {
            UsageDimension::Project(id) => row.project_id == id,
            UsageDimension::Run(id) => row.run_id == Some(id),
            UsageDimension::Task(id) => row.task_id == Some(id),
            UsageDimension::Conversation(id) => row.conversation_id == Some(id),
            UsageDimension::Agent(id) => row.agent_id == Some(id),
            UsageDimension::Team(id) => row.team_id == Some(id),
        }
}

/// A sum that is taken row by row, unless it leaves the range of numbers on the
/// way.
pub open spec fn summed<V>(rows: Seq<V>, amount: spec_fn(V) -> int) -> Option<int>
    decreases rows.len(),
{
    if rows.len() == 0 {
        Some(0)
    } else {
        match summed(rows.drop_last(), amount) {
            None => None,
            Some(sum) => if i64::MIN <= sum + amount(rows.last()) <= i64::MAX {
                Some(sum + amount(rows.last()))
            } else {
                None
            },
        }
    }
}

/// What was put in.
pub open spec fn input() -> spec_fn(PricedUsage) -> int {
    |row: PricedUsage| row.input_tokens as int
}

/// What came out.
pub open spec fn output() -> spec_fn(PricedUsage) -> int {
    |row: PricedUsage| row.output_tokens as int
}

/// What was read from a cache.
pub open spec fn cache_read() -> spec_fn(PricedUsage) -> int {
    |row: PricedUsage| row.cache_read_tokens as int
}

/// What was written to a cache.
pub open spec fn cache_write() -> spec_fn(PricedUsage) -> int {
    |row: PricedUsage| row.cache_write_tokens as int
}

/// The cost, where there is one.
pub open spec fn cost() -> spec_fn(PricedUsage) -> int {
    |row: PricedUsage|
        match row.cost_microunits {
            Some(cost) => cost as int,
            None => 0,
        }
}

/// The cost, where it is known.
pub open spec fn known_cost() -> spec_fn(PricedUsage) -> int {
    |row: PricedUsage|
        if row.cost_status == "known"@ {
            cost()(row)
        } else {
            0
        }
}

/// One for a use whose cost is unknown.
pub open spec fn unknown_cost() -> spec_fn(PricedUsage) -> int {
    |row: PricedUsage|
        if row.cost_status == "unknown"@ {
            1
        } else {
            0
        }
}

/// How long it took.
pub open spec fn duration() -> spec_fn(PricedUsage) -> int {
    |row: PricedUsage| row.duration_ms as int
}

/// How often it was tried again.
pub open spec fn retries() -> spec_fn(PricedUsage) -> int {
    |row: PricedUsage| row.retry_count as int
}

/// The error for a sum that leaves the range of numbers.
pub open spec fn sum_overflows() -> DbError<Seq<char>> {
    DbError::Query("integer overflow"@)
}

/// What uses come to.
pub open spec fn total(
    rows: Seq<PricedUsage>,
) -> Result<DevelopmentUsageSummary, DbError<Seq<char>>> {
    match (
        summed(rows, input()),
        summed(rows, output()),
        summed(rows, cost()),
        summed(rows, duration()),
        summed(rows, retries()),
    ) {
        (Some(input), Some(output), Some(cost), Some(duration), Some(retries)) => Ok(
            DevelopmentUsageSummary {
                event_count: rows.len() as i64,
                input_tokens: input as i64,
                output_tokens: output as i64,
                cost_microunits: cost as i64,
                duration_ms: duration as i64,
                retry_count: retries as i64,
            },
        ),
        _ => Err(sum_overflows()),
    }
}

/// What uses come to, with their caches, and with known and unknown costs apart.
pub open spec fn full_total(rows: Seq<PricedUsage>) -> Result<
    DevelopmentUsageDimensionSummary,
    DbError<Seq<char>>,
> {
    match (
        (summed(rows, input()), summed(rows, output())),
        (summed(rows, cache_read()), summed(rows, cache_write())),
        (summed(rows, known_cost()), summed(rows, unknown_cost())),
        (summed(rows, duration()), summed(rows, retries())),
    ) {
        (
            (Some(input), Some(output)),
            (Some(read), Some(write)),
            (Some(known), Some(unknown)),
            (Some(duration), Some(retries)),
        ) => Ok(
            DevelopmentUsageDimensionSummary {
                event_count: rows.len() as i64,
                input_tokens: input as i64,
                output_tokens: output as i64,
                cache_read_tokens: read as i64,
                cache_write_tokens: write as i64,
                known_cost_microunits: known as i64,
                unknown_cost_events: unknown as i64,
                duration_ms: duration as i64,
                retry_count: retries as i64,
            },
        ),
        _ => Err(sum_overflows()),
    }
}

/// Whether a summary is as `expected` says.
pub open spec fn summarized<S>(
    expected: Result<S, DbError<Seq<char>>>,
    result: Result<S, DbError>,
) -> bool {
    match expected {
        Ok(summary) => result matches Ok(given) && given == summary,
        Err(wanted) => result matches Err(error) && error@ == wanted,
    }
}

// ----------------------------------------------------------------------------
// The same in running code
// ----------------------------------------------------------------------------

/// The model of a sum.
pub open spec fn sum_of(sum: Option<i64>) -> Option<int> {
    match sum {
        Some(sum) => Some(sum as int),
        None => None,
    }
}

fn sum_rows<R: View, A: Fn(&R) -> i64>(
    rows: &Vec<R>,
    amount: A,
    Ghost(amount_spec): Ghost<spec_fn(R::V) -> int>,
) -> (sum: Option<i64>)
    requires
        forall|r: R| amount.requires((&r,)),
        forall|r: R, n: i64| amount.ensures((&r,), n) ==> n == amount_spec(r@),
    ensures
        sum_of(sum) == summed(model(rows@), amount_spec),
{
    let ghost all = model(rows@);
    let mut sum: i64 = 0;
    let mut i: usize = 0;
    assert(summed(all.take(0), amount_spec) == Some(0int));
    while i < rows.len()
        invariant
            i <= rows.len(),
            all == model(rows@),
            summed(all.take(i as int), amount_spec) == Some(sum as int),
            forall|r: R| amount.requires((&r,)),
            forall|r: R, n: i64| amount.ensures((&r,), n) ==> n == amount_spec(r@),
        decreases rows.len() - i,
    {
        let next: i64 = amount(&rows[i]);
        proof {
            let longer = all.take(i as int + 1);
            assert(longer.drop_last() =~= all.take(i as int));
            assert(longer.last() == rows[i as int]@);
        }
        match sum.checked_add(next) {
            Some(more) => {
                sum = more;
            },
            None => {
                proof {
                    lemma_overflow_stays(all, amount_spec, i as int + 1);
                }
                return None;
            },
        }
        i = i + 1;
    }
    assert(all.take(i as int) =~= all);
    Some(sum)
}

proof fn lemma_overflow_stays<V>(rows: Seq<V>, amount: spec_fn(V) -> int, count: int)
    requires
        0 <= count <= rows.len(),
        summed(rows.take(count), amount) is None,
    ensures
        summed(rows, amount) is None,
    decreases rows.len() - count,
{
    if count < rows.len() {
        assert(rows.take(count + 1).drop_last() =~= rows.take(count));
        lemma_overflow_stays(rows, amount, count + 1);
    } else {
        assert(rows.take(count) =~= rows);
    }
}

fn cost_of(row: &DevelopmentPricedUsageEventRow) -> (amount: i64)
    ensures
        amount == cost()(row@),
{
    match row.cost_microunits {
        Some(cost) => cost,
        None => 0,
    }
}

fn price_later(row: &DevelopmentUsageEventRow, columns: &PriceColumns) -> (stored:
    DevelopmentPricedUsageEventRow)
    ensures
        stored@ == unpriced(row@, columns@),
{
    DevelopmentPricedUsageEventRow {
        id: row.id.clone(),
        user_id: row.user_id.clone(),
        project_id: row.project_id.clone(),
        run_id: copy_opt(&row.run_id),
        task_id: copy_opt(&row.task_id),
        conversation_id: None,
        agent_id: None,
        team_id: None,
        usage_type: row.usage_type.clone(),
        source: row.source.clone(),
        confidence: row.confidence.clone(),
        provider: None,
        model: None,
        input_tokens: row.input_tokens,
        output_tokens: row.output_tokens,
        cache_read_tokens: columns.cache_read_tokens,
        cache_write_tokens: columns.cache_write_tokens,
        cost_microunits: row.cost_microunits,
        cost_status: columns.cost_status.clone(),
        cost_origin: copy_opt(&columns.cost_origin),
        price_source_id: None,
        price_version: None,
        price_effective_at: None,
        duration_ms: row.duration_ms,
        retry_count: row.retry_count,
        metadata_json: row.metadata_json.clone(),
        created_at: row.created_at,
    }
}

fn without_price(row: &DevelopmentPricedUsageEventRow) -> (bare: DevelopmentUsageEventRow)
    ensures
        bare@ == plain(row@),
{
    DevelopmentUsageEventRow {
        id: row.id.clone(),
        user_id: row.user_id.clone(),
        project_id: row.project_id.clone(),
        run_id: copy_opt(&row.run_id),
        task_id: copy_opt(&row.task_id),
        usage_type: row.usage_type.clone(),
        source: row.source.clone(),
        confidence: row.confidence.clone(),
        input_tokens: row.input_tokens,
        output_tokens: row.output_tokens,
        cost_microunits: row.cost_microunits,
        duration_ms: row.duration_ms,
        retry_count: row.retry_count,
        metadata_json: row.metadata_json.clone(),
        created_at: row.created_at,
    }
}

fn is_in_dimension(
    row: &DevelopmentPricedUsageEventRow,
    user_id: &str,
    dimension: &UsageDimension,
) -> (yes:
    bool)
    ensures
        yes == in_dimension(user_id@, dimension@)(row@),
{
    same(row.user_id.as_str(), user_id) && match dimension {
        UsageDimension::Project(id) => same(row.project_id.as_str(), id.as_str()),
        UsageDimension::Run(id) => is_some_text(&row.run_id, id.as_str()),
        UsageDimension::Task(id) => is_some_text(&row.task_id, id.as_str()),
        UsageDimension::Conversation(id) => is_some_text(&row.conversation_id, id.as_str()),
        UsageDimension::Agent(id) => is_some_text(&row.agent_id, id.as_str()),
        UsageDimension::Team(id) => is_some_text(&row.team_id, id.as_str()),
    }
}

impl OperationsStore {
    /// Adds a use without a price.
    pub fn append_usage(&mut self, row: &DevelopmentUsageEventRow) -> (result: Result<(), DbError>)
        ensures
            rows_changed(
                added(
                    old(self)@.usage,
                    use_with_id(row@.id),
                    unpriced(row@, old(self)@.usage_defaults),
                    "UNIQUE constraint failed: development_usage_events.id"@,
                ),
                result,
                old(self)@.usage,
                final(self)@.usage,
            ),
            final(self)@ == (OperationsModel { usage: final(self)@.usage, ..old(self)@ }),
    {
        let stored = price_later(row, &self.usage_defaults);
        add_row(
            &mut self.usage,
            stored,
            |known: &DevelopmentPricedUsageEventRow| -> (yes: bool)
                ensures yes == use_with_id(row@.id)(known@)
                { same(known.id.as_str(), row.id.as_str()) },
            "UNIQUE constraint failed: development_usage_events.id",
            Ghost(use_with_id(row@.id)),
        )
    }

    /// A user's uses on a project, of one run where it is given: the latest, as
    /// many as are asked for.
    pub fn list_usage(
        &self,
        user_id: &str,
        project_id: &str,
        run_id: Option<&str>,
        limit: i64,
    ) -> (list: Vec<
        DevelopmentUsageEventRow,
    >)
        ensures
            model(list@) == all_plain(
                limited(
                    ordered(
                        selected(self@.usage, uses_of(user_id@, project_id@, opt_str(run_id))),
                        latest_use(),
                    ),
                    clamped(limit, MAX_USES),
                    0,
                ),
            ),
    {
        let ghost hit = uses_of(user_id@, project_id@, opt_str(run_id));
        let all = list_where(
            &self.usage,
            |row: &DevelopmentPricedUsageEventRow| -> (yes: bool)
                ensures yes == hit(row@)
                {
                    same(row.user_id.as_str(), user_id) && same(row.project_id.as_str(), project_id)
                        && match run_id {
                            Some(wanted) => is_some_text(&row.run_id, wanted),
                            None => true,
                        }
                },
            |a: &DevelopmentPricedUsageEventRow, b: &DevelopmentPricedUsageEventRow| -> (yes: bool)
                ensures yes == latest_use()(a@, b@)
                {
                    b.created_at < a.created_at
                        || (a.created_at == b.created_at && (before(b.id.as_str(), a.id.as_str())))
                },
            Ghost(hit),
            Ghost(latest_use()),
        );
        let rows = take_limited(&all, clamp_limit(limit, MAX_USES), 0);
        let mut list: Vec<DevelopmentUsageEventRow> = Vec::new();
        let mut i: usize = 0;
        while i < rows.len()
            invariant
                i <= rows.len(),
                list.len() == i,
                forall|k: int| 0 <= k < i ==> (#[trigger] list[k])@ == plain(rows[k]@),
            decreases rows.len() - i,
        {
            list.push(without_price(&rows[i]));
            i = i + 1;
        }
        assert(model(list@) =~= all_plain(model(rows@)));
        list
    }

    /// What a user has used on a project, in one run where it is given.
    pub fn summarize_usage(
        &self,
        user_id: &str,
        project_id: &str,
        run_id: Option<&str>,
    ) -> (result: Result<
        DevelopmentUsageSummary,
        DbError,
    >)
        requires
            self@.usage.len() <= i64::MAX,
        ensures
            summarized(
                total(selected(self@.usage, uses_of(user_id@, project_id@, opt_str(run_id)))),
                result,
            ),
    {
        let ghost hit = uses_of(user_id@, project_id@, opt_str(run_id));
        let rows = select_where(
            &self.usage,
            |row: &DevelopmentPricedUsageEventRow| -> (yes: bool)
                ensures yes == hit(row@)
                {
                    same(row.user_id.as_str(), user_id) && same(row.project_id.as_str(), project_id)
                        && match run_id {
                            Some(wanted) => is_some_text(&row.run_id, wanted),
                            None => true,
                        }
                },
            Ghost(hit),
        );
        proof {
            law_selected(self@.usage, hit);
            assert(model(rows@).len() == rows.len());
        }
        let input_sum: Option<i64> = sum_rows(
            &rows,
            |row: &DevelopmentPricedUsageEventRow| -> (n: i64)
                ensures n == input()(row@)
                { row.input_tokens },
            Ghost(input()),
        );
        let output_sum: Option<i64> = sum_rows(
            &rows,
            |row: &DevelopmentPricedUsageEventRow| -> (n: i64)
                ensures n == output()(row@)
                { row.output_tokens },
            Ghost(output()),
        );
        let cost_sum: Option<i64> = sum_rows(
            &rows,
            |row: &DevelopmentPricedUsageEventRow| -> (n: i64)
                ensures n == cost()(row@)
                { cost_of(row) },
            Ghost(cost()),
        );
        let duration_sum: Option<i64> = sum_rows(
            &rows,
            |row: &DevelopmentPricedUsageEventRow| -> (n: i64)
                ensures n == duration()(row@)
                { row.duration_ms },
            Ghost(duration()),
        );
        let retry_sum: Option<i64> = sum_rows(
            &rows,
            |row: &DevelopmentPricedUsageEventRow| -> (n: i64)
                ensures n == retries()(row@)
                { row.retry_count },
            Ghost(retries()),
        );
        match (input_sum, output_sum, cost_sum, duration_sum, retry_sum) {
            (
                Some(input_tokens),
                Some(output_tokens),
                Some(cost_microunits),
                Some(duration_ms),
                Some(retry_count),
            ) => Ok(
                DevelopmentUsageSummary {
                    event_count: rows.len() as i64,
                    input_tokens,
                    output_tokens,
                    cost_microunits,
                    duration_ms,
                    retry_count,
                },
            ),
            _ => Err(DbError::Query("integer overflow".to_owned())),
        }
    }

    /// Adds a use with its price.
    pub fn append_priced_usage(
        &mut self,
        row: &DevelopmentPricedUsageEventRow,
    ) -> (result: Result<(), DbError>)
        ensures
            rows_changed(
                added(
                    old(self)@.usage,
                    use_with_id(row@.id),
                    row@,
                    "UNIQUE constraint failed: development_usage_events.id"@,
                ),
                result,
                old(self)@.usage,
                final(self)@.usage,
            ),
            final(self)@ == (OperationsModel { usage: final(self)@.usage, ..old(self)@ }),
    {
        add_row(
            &mut self.usage,
            row.duplicate(),
            |known: &DevelopmentPricedUsageEventRow| -> (yes: bool)
                ensures yes == use_with_id(row@.id)(known@)
                { same(known.id.as_str(), row.id.as_str()) },
            "UNIQUE constraint failed: development_usage_events.id",
            Ghost(use_with_id(row@.id)),
        )
    }

    /// Adds a use with its price unless it is there, and says whether it was added.
    pub fn append_priced_usage_once(&mut self, row: &DevelopmentPricedUsageEventRow) -> (done: bool)
        ensures
            done == !exists_in(old(self)@.usage, use_with_id(row@.id)),
            final(self)@ == (OperationsModel {
                usage: uses_after(old(self)@.usage, row@),
                ..old(self)@
            }),
    {
        match self.append_priced_usage(row) {
            Ok(()) => true,
            Err(_) => false,
        }
    }

    /// A user's latest use in a conversation.
    pub fn latest_priced_usage_for_conversation(
        &self,
        user_id: &str,
        conversation_id: &str,
    ) -> (row: Option<DevelopmentPricedUsageEventRow>)
        ensures
            found(row) == least(
                self@.usage,
                in_conversation(user_id@, conversation_id@),
                latest_use(),
            ),
    {
        fetch_least(
            &self.usage,
            |row: &DevelopmentPricedUsageEventRow| -> (yes: bool)
                ensures yes == in_conversation(user_id@, conversation_id@)(row@)
                {
                    same(row.user_id.as_str(), user_id)
                        && is_some_text(&row.conversation_id, conversation_id)
                },
            |a: &DevelopmentPricedUsageEventRow, b: &DevelopmentPricedUsageEventRow| -> (yes: bool)
                ensures yes == latest_use()(a@, b@)
                {
                    b.created_at < a.created_at
                        || (a.created_at == b.created_at && (before(b.id.as_str(), a.id.as_str())))
                },
            Ghost(in_conversation(user_id@, conversation_id@)),
            Ghost(latest_use()),
        )
    }

    /// What a user has used of one kind.
    pub fn summarize_usage_dimension(
        &self,
        user_id: &str,
        dimension: &UsageDimension,
    ) -> (result: Result<
        DevelopmentUsageDimensionSummary,
        DbError,
    >)
        requires
            self@.usage.len() <= i64::MAX,
        ensures
            summarized(
                full_total(selected(self@.usage, in_dimension(user_id@, dimension@))),
                result,
            ),
    {
        let ghost hit = in_dimension(user_id@, dimension@);
        let rows = select_where(
            &self.usage,
            |row: &DevelopmentPricedUsageEventRow| -> (yes: bool)
                ensures yes == hit(row@)
                { is_in_dimension(row, user_id, dimension) },
            Ghost(hit),
        );
        proof {
            law_selected(self@.usage, hit);
            assert(model(rows@).len() == rows.len());
        }
        let input_sum: Option<i64> = sum_rows(
            &rows,
            |row: &DevelopmentPricedUsageEventRow| -> (n: i64)
                ensures n == input()(row@)
                { row.input_tokens },
            Ghost(input()),
        );
        let output_sum: Option<i64> = sum_rows(
            &rows,
            |row: &DevelopmentPricedUsageEventRow| -> (n: i64)
                ensures n == output()(row@)
                { row.output_tokens },
            Ghost(output()),
        );
        let read_sum: Option<i64> = sum_rows(
            &rows,
            |row: &DevelopmentPricedUsageEventRow| -> (n: i64)
                ensures n == cache_read()(row@)
                { row.cache_read_tokens },
            Ghost(cache_read()),
        );
        let write_sum: Option<i64> = sum_rows(
            &rows,
            |row: &DevelopmentPricedUsageEventRow| -> (n: i64)
                ensures n == cache_write()(row@)
                { row.cache_write_tokens },
            Ghost(cache_write()),
        );
        let known_sum: Option<i64> = sum_rows(
            &rows,
            |row: &DevelopmentPricedUsageEventRow| -> (n: i64)
                ensures n == known_cost()(row@)
                { if same(row.cost_status.as_str(), "known") { cost_of(row) } else { 0 } },
            Ghost(known_cost()),
        );
        let unknown_sum: Option<i64> = sum_rows(
            &rows,
            |row: &DevelopmentPricedUsageEventRow| -> (n: i64)
                ensures n == unknown_cost()(row@)
                { if same(row.cost_status.as_str(), "unknown") { 1 } else { 0 } },
            Ghost(unknown_cost()),
        );
        let duration_sum: Option<i64> = sum_rows(
            &rows,
            |row: &DevelopmentPricedUsageEventRow| -> (n: i64)
                ensures n == duration()(row@)
                { row.duration_ms },
            Ghost(duration()),
        );
        let retry_sum: Option<i64> = sum_rows(
            &rows,
            |row: &DevelopmentPricedUsageEventRow| -> (n: i64)
                ensures n == retries()(row@)
                { row.retry_count },
            Ghost(retries()),
        );
        match (
            (input_sum, output_sum),
            (read_sum, write_sum),
            (known_sum, unknown_sum),
            (duration_sum, retry_sum),
        ) {
            (
                (Some(input_tokens), Some(output_tokens)),
                (Some(cache_read_tokens), Some(cache_write_tokens)),
                (Some(known_cost_microunits), Some(unknown_cost_events)),
                (Some(duration_ms), Some(retry_count)),
            ) => Ok(
                DevelopmentUsageDimensionSummary {
                    event_count: rows.len() as i64,
                    input_tokens,
                    output_tokens,
                    cache_read_tokens,
                    cache_write_tokens,
                    known_cost_microunits,
                    unknown_cost_events,
                    duration_ms,
                    retry_count,
                },
            ),
            _ => Err(DbError::Query("integer overflow".to_owned())),
        }
    }
}

// ----------------------------------------------------------------------------
// What counting promises
// ----------------------------------------------------------------------------

/// A use is counted once, however often it is reported.
pub proof fn law_use_is_counted_once(rows: Seq<PricedUsage>, row: PricedUsage)
    ensures
        uses_after(uses_after(rows, row), row) == uses_after(rows, row),
{
    if !exists_in(rows, use_with_id(row.id)) {
        assert(use_with_id(row.id)(rows.push(row)[rows.len() as int]));
    }
}

/// A summary grows by exactly what a new use of its kind adds, and a use of
/// another kind leaves it alone.
pub proof fn law_summary_grows(
    rows: Seq<PricedUsage>,
    row: PricedUsage,
    user_id: Seq<char>,
    dimension: UsageDimension<Seq<char>>,
    sum: DevelopmentUsageDimensionSummary,
    next: DevelopmentUsageDimensionSummary,
)
    requires
        rows.len() < i64::MAX,
        full_total(selected(rows, in_dimension(user_id, dimension))) == Ok::<
            DevelopmentUsageDimensionSummary,
            DbError<Seq<char>>,
        >(sum),
        full_total(selected(rows.push(row), in_dimension(user_id, dimension))) == Ok::<
            DevelopmentUsageDimensionSummary,
            DbError<Seq<char>>,
        >(next),
    ensures
        if in_dimension(user_id, dimension)(row) {
            &&& next.event_count == sum.event_count + 1
            &&& next.input_tokens == sum.input_tokens + row.input_tokens
            &&& next.output_tokens == sum.output_tokens + row.output_tokens
            &&& next.cache_read_tokens == sum.cache_read_tokens + row.cache_read_tokens
            &&& next.cache_write_tokens == sum.cache_write_tokens + row.cache_write_tokens
            &&& next.known_cost_microunits == sum.known_cost_microunits + known_cost()(row)
            &&& next.unknown_cost_events == sum.unknown_cost_events + unknown_cost()(row)
            &&& next.duration_ms == sum.duration_ms + row.duration_ms
            &&& next.retry_count == sum.retry_count + row.retry_count
        } else {
            next == sum
        },
{
    let hit = in_dimension(user_id, dimension);
    let before = selected(rows, hit);
    let after = selected(rows.push(row), hit);
    law_selected(rows, hit);
    assert(rows.push(row).drop_last() =~= rows);
    if hit(row) {
        assert(after.drop_last() =~= before);
        assert(after.last() == row);
        lemma_sum_in_range(before, input());
        lemma_sum_in_range(before, output());
        lemma_sum_in_range(before, cache_read());
        lemma_sum_in_range(before, cache_write());
        lemma_sum_in_range(before, known_cost());
        lemma_sum_in_range(before, unknown_cost());
        lemma_sum_in_range(before, duration());
        lemma_sum_in_range(before, retries());
    }
}

proof fn lemma_sum_in_range<V>(rows: Seq<V>, amount: spec_fn(V) -> int)
    ensures
        summed(rows, amount) matches Some(sum) ==> i64::MIN <= sum <= i64::MAX,
    decreases rows.len(),
{
    if rows.len() > 0 {
        lemma_sum_in_range(rows.drop_last(), amount);
    }
}

} // verus!
