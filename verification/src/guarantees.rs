//! What the monitor guarantees over whole cycles and sequences of cycles,
//! proved from the definitions that the contracts of the collector and the
//! scheduler use.

use crate::collector::{
    lemma_merges_reach_the_sampled, sampled_pids, AnswersView, MonitorView, Query,
    FULL_REFRESH_INTERVAL_MS,
};
use crate::format::{decimal_digits, digit_char};
use crate::history::{after_pushes, lemma_history_bound, HISTORY_CAPACITY};
use crate::metadata::{elapsed, user_name};
use crate::process::{ProcessView, SampleView};
use crate::scheduler::TICK_PERIOD_MS;
use crate::text::{decimal_value, is_digit, parsed_count};
use vstd::prelude::*;

verus! {

/// One reading of a process: CPU usage, memory and the time it was taken.
pub ghost struct Reading {
    pub cpu: u64,
    pub memory: u64,
    pub time: u64,
}

/// The snapshot after the readings of `readings` were recorded in order.
pub open spec fn after_readings(process: ProcessView, readings: Seq<Reading>) -> ProcessView
    decreases readings.len(),
{
    if readings.len() == 0 {
        process
    } else {
        after_readings(process, readings.drop_last()).with_reading(
            readings.last().cpu,
            readings.last().memory,
            readings.last().time,
        )
    }
}

proof fn lemma_readings_are_pushes(process: ProcessView, readings: Seq<Reading>)
    ensures
        after_readings(process, readings).cpu_history == after_pushes(
            process.cpu_history,
            readings.map_values(|r: Reading| r.cpu),
        ),
        after_readings(process, readings).memory_history == after_pushes(
            process.memory_history,
            readings.map_values(|r: Reading| r.memory),
        ),
    decreases readings.len(),
{
    if readings.len() > 0 {
        let front = readings.drop_last();
        lemma_readings_are_pushes(process, front);
        assert(readings.map_values(|r: Reading| r.cpu).drop_last() =~= front.map_values(
            |r: Reading| r.cpu,
        ));
        assert(readings.map_values(|r: Reading| r.memory).drop_last() =~= front.map_values(
            |r: Reading| r.memory,
        ));
    }
}

/// The histories of a process are bounded: after at least
/// [`HISTORY_CAPACITY`] readings each history holds exactly that many
/// samples, and they are the last readings in the order of their arrival.
pub proof fn lemma_process_history_bound(process: ProcessView, readings: Seq<Reading>)
    requires
        process.cpu_history.len() <= HISTORY_CAPACITY,
        process.memory_history.len() <= HISTORY_CAPACITY,
        readings.len() >= HISTORY_CAPACITY,
    ensures
        after_readings(process, readings).cpu_history.len() == HISTORY_CAPACITY,
        after_readings(process, readings).memory_history.len() == HISTORY_CAPACITY,
        after_readings(process, readings).cpu_history == readings.subrange(
            readings.len() - HISTORY_CAPACITY,
            readings.len() as int,
        ).map_values(|r: Reading| r.cpu),
        after_readings(process, readings).memory_history == readings.subrange(
            readings.len() - HISTORY_CAPACITY,
            readings.len() as int,
        ).map_values(|r: Reading| r.memory),
{
    let cpu = readings.map_values(|r: Reading| r.cpu);
    let memory = readings.map_values(|r: Reading| r.memory);
    let from = readings.len() - HISTORY_CAPACITY;
    lemma_readings_are_pushes(process, readings);
    lemma_history_bound(process.cpu_history, cpu);
    lemma_history_bound(process.memory_history, memory);
    assert(cpu.subrange(from, readings.len() as int) =~= readings.subrange(
        from,
        readings.len() as int,
    ).map_values(|r: Reading| r.cpu));
    assert(memory.subrange(from, readings.len() as int) =~= readings.subrange(
        from,
        readings.len() as int,
    ).map_values(|r: Reading| r.memory));
}

/// Eviction is exact: after a cycle the cache holds a process for every
/// identifier that the cycle's samples named, and for no other.
pub proof fn lemma_cycle_keeps_exactly_the_sampled(
    monitor: MonitorView,
    samples: Seq<SampleView>,
    is_full: bool,
    answers: AnswersView,
    now: u64,
)
    ensures
        monitor.after_cycle(samples, is_full, answers, now).processes.dom() == sampled_pids(
            samples,
        ).to_set(),
        forall|pid: u32|
            monitor.after_cycle(samples, is_full, answers, now).processes.contains_key(pid)
                <==> sampled_pids(samples).contains(pid),
{
    lemma_merges_reach_the_sampled(monitor, samples, is_full, answers, now);
    let active = sampled_pids(samples).to_set();
    assert(monitor.after_cycle(samples, is_full, answers, now).processes.dom() =~= active);
}

/// Every snapshot in the cache carries the identifier it is stored under,
/// once that holds of the cache a cycle starts from.
pub open spec fn keyed_by_pid(monitor: MonitorView) -> bool {
    forall|pid: u32| #[trigger]
        monitor.processes.contains_key(pid) ==> monitor.processes[pid].pid == pid
}

/// Merging keeps every snapshot under its own identifier.
pub proof fn lemma_merges_keep_keys(
    monitor: MonitorView,
    samples: Seq<SampleView>,
    is_full: bool,
    answers: AnswersView,
    now: u64,
)
    requires
        keyed_by_pid(monitor),
    ensures
        keyed_by_pid(monitor.after_merges(samples, is_full, answers, now)),
        keyed_by_pid(monitor.after_cycle(samples, is_full, answers, now)),
    decreases samples.len(),
{
    if samples.len() > 0 {
        lemma_merges_keep_keys(monitor, samples.drop_last(), is_full, answers, now);
    }
}

/// What a partial refresh must leave alone in a snapshot.
pub open spec fn same_metadata(a: ProcessView, b: ProcessView) -> bool {
    &&& a.user == b.user
    &&& a.threads == b.threads
    &&& a.status == b.status
    &&& a.parent == b.parent
    &&& a.cmd == b.cmd
}

/// Partial merges leave the metadata of every process that was already
/// cached as it was.
pub proof fn lemma_partial_merges_keep_metadata(
    monitor: MonitorView,
    samples: Seq<SampleView>,
    answers: AnswersView,
    now: u64,
    pid: u32,
)
    requires
        monitor.processes.contains_key(pid),
    ensures
        monitor.after_merges(samples, false, answers, now).processes.contains_key(pid),
        same_metadata(
            monitor.after_merges(samples, false, answers, now).processes[pid],
            monitor.processes[pid],
        ),
    decreases samples.len(),
{
    if samples.len() > 0 {
        lemma_partial_merges_keep_metadata(monitor, samples.drop_last(), answers, now, pid);
    }
}

/// A partial refresh does not regress what was resolved: a process that was
/// cached and is observed again keeps its user, thread count, status, parent
/// and command line, in the cache and in the published list.
pub proof fn lemma_partial_refresh_keeps_metadata(
    monitor: MonitorView,
    samples: Seq<SampleView>,
    answers: AnswersView,
    now: u64,
    i: int,
)
    requires
        0 <= i < samples.len(),
        monitor.processes.contains_key(samples[i].pid),
    ensures
        monitor.after_cycle(samples, false, answers, now).processes.contains_key(samples[i].pid),
        same_metadata(
            monitor.after_cycle(samples, false, answers, now).processes[samples[i].pid],
            monitor.processes[samples[i].pid],
        ),
        same_metadata(
            monitor.published(samples, false, answers, now)[i],
            monitor.processes[samples[i].pid],
        ),
{
    let pid = samples[i].pid;
    lemma_partial_merges_keep_metadata(monitor, samples, answers, now, pid);
    lemma_partial_merges_keep_metadata(monitor, samples.take(i), answers, now, pid);
    assert(sampled_pids(samples)[i] == pid);
    assert(sampled_pids(samples).to_set().contains(pid));
}

/// The user resolved from a query is never empty.
pub proof fn lemma_user_name_is_not_empty(output: Option<Seq<char>>)
    ensures
        user_name(output).len() > 0,
{
    reveal_strlit("unknown");
}

/// The text that stands for a user who is not resolved yet.
pub open spec fn pending_user() -> Seq<char> {
    "fetching..."@
}

/// A process seen for the first time is never left pending: unless the
/// owner query, or the cache, itself names the pending text as the user,
/// the user of the new snapshot is not that text, and it is not empty
/// unless the cache holds an empty user.
pub proof fn lemma_first_sighting_is_not_pending(
    monitor: MonitorView,
    sample: SampleView,
    is_full: bool,
    answers: AnswersView,
    now: u64,
)
    requires
        !monitor.processes.contains_key(sample.pid),
        user_name(answers.users.get(sample.pid)) != pending_user(),
        monitor.users.hit(sample.pid, now) ==> {
            let cached = monitor.users.refreshed(now).entries[sample.pid];
            cached != pending_user() && cached.len() > 0
        },
    ensures
        monitor.merged(sample, is_full, answers, now).user != pending_user(),
        monitor.merged(sample, is_full, answers, now).user.len() > 0,
{
    lemma_user_name_is_not_empty(answers.users.get(sample.pid));
}

/// A process seen for the first time is enriched whatever the refresh mode:
/// its user and thread count are resolved through the metadata caches, the
/// snapshot and the monitor are those a full refresh would leave, and the
/// user that was resolved is cached.
pub proof fn lemma_first_sighting_is_enriched(
    monitor: MonitorView,
    sample: SampleView,
    is_full: bool,
    answers: AnswersView,
    now: u64,
)
    requires
        !monitor.processes.contains_key(sample.pid),
    ensures
        monitor.merged(sample, is_full, answers, now) == ProcessView::first_sighting(
            sample,
            monitor.resolved_user(sample.pid, answers, now),
            monitor.resolved_threads(sample.pid, answers, now),
            now,
        ),
        monitor.merged(sample, is_full, answers, now) == monitor.merged(
            sample,
            true,
            answers,
            now,
        ),
        monitor.after_merge(sample, is_full, answers, now) == monitor.after_merge(
            sample,
            true,
            answers,
            now,
        ),
        monitor.after_merge(sample, is_full, answers, now).users.entries.contains_key(sample.pid),
        monitor.after_merge(sample, is_full, answers, now).users.entries[sample.pid]
            == monitor.merged(sample, is_full, answers, now).user,
        !monitor.users.hit(sample.pid, now) ==> monitor.merged(
            sample,
            is_full,
            answers,
            now,
        ).user == user_name(answers.users.get(sample.pid)),
{
}

proof fn lemma_decimal_digits(n: nat)
    ensures
        decimal_digits(n).len() > 0,
        forall|i: int| 0 <= i < decimal_digits(n).len() ==> is_digit(decimal_digits(n)[i]),
        decimal_value(decimal_digits(n)) == n,
    decreases n,
{
    let text = decimal_digits(n);
    if n < 10 {
        assert(text.drop_last() =~= Seq::<char>::empty());
        assert(decimal_value(text.drop_last()) == 0);
        assert(text.last() == digit_char(n));
    } else {
        lemma_decimal_digits(n / 10);
        assert(text.drop_last() =~= decimal_digits(n / 10));
        assert(text.last() == digit_char(n % 10));
    }
}

/// A count written in decimal reads back as itself.
pub proof fn lemma_decimal_reads_back(n: usize)
    ensures
        parsed_count(decimal_digits(n as nat)) == Some(n),
{
    lemma_decimal_digits(n as nat);
    assert(is_digit(decimal_digits(n as nat)[0]));
}

/// The monitor after the timer ticked at each of the times `ticks`, with no
/// refresh requested in between.
pub open spec fn after_ticks(monitor: MonitorView, ticks: Seq<u64>) -> MonitorView
    decreases ticks.len(),
{
    if ticks.len() == 0 {
        monitor
    } else {
        after_ticks(monitor, ticks.drop_last()).begun(false, ticks.last())
    }
}

/// Whether the `k`-th of the ticks is a full refresh.
pub open spec fn tick_refreshes_fully(monitor: MonitorView, ticks: Seq<u64>, k: int) -> bool {
    after_ticks(monitor, ticks.take(k)).full_refresh_due(ticks[k])
}

/// Right after a tick the last full refresh is never older than the
/// interval: a tick that finds it older makes one.
pub proof fn lemma_tick_bounds_refresh_age(monitor: MonitorView, ticks: Seq<u64>)
    requires
        ticks.len() > 0,
    ensures
        elapsed(after_ticks(monitor, ticks).last_full_refresh, ticks.last())
            <= FULL_REFRESH_INTERVAL_MS,
{
}

/// With no refresh requested, a full refresh occurs at least once per
/// interval plus one tick period: when the next tick comes within a tick
/// period of the last, it finds the last full refresh no older than that.
pub proof fn lemma_full_refresh_cadence(monitor: MonitorView, ticks: Seq<u64>, next: u64)
    requires
        ticks.len() > 0,
        ticks.last() <= next,
        next - ticks.last() <= TICK_PERIOD_MS,
    ensures
        elapsed(after_ticks(monitor, ticks).last_full_refresh, next) <= FULL_REFRESH_INTERVAL_MS
            + TICK_PERIOD_MS,
{
    lemma_tick_bounds_refresh_age(monitor, ticks);
}

proof fn lemma_full_tick_is_remembered(monitor: MonitorView, ticks: Seq<u64>, k: int, n: int)
    requires
        0 <= k < n <= ticks.len(),
        forall|a: int, b: int| 0 <= a <= b < ticks.len() ==> ticks[a] <= ticks[b],
        tick_refreshes_fully(monitor, ticks, k),
    ensures
        after_ticks(monitor, ticks.take(n)).last_full_refresh >= ticks[k],
    decreases n - k,
{
    assert(ticks.take(n).drop_last() =~= ticks.take(n - 1));
    assert(ticks.take(n).last() == ticks[n - 1]);
    if n > k + 1 {
        lemma_full_tick_is_remembered(monitor, ticks, k, n - 1);
    }
}

/// The timer alone never refreshes fully more often than once per
/// interval: two ticks that both are full refreshes lie further apart than
/// the interval, and so more than one tick apart.
pub proof fn lemma_timer_refreshes_are_spaced(
    monitor: MonitorView,
    ticks: Seq<u64>,
    k: int,
    j: int,
)
    requires
        0 <= k < j < ticks.len(),
        forall|a: int, b: int| 0 <= a <= b < ticks.len() ==> ticks[a] <= ticks[b],
        tick_refreshes_fully(monitor, ticks, k),
        tick_refreshes_fully(monitor, ticks, j),
    ensures
        ticks[j] - ticks[k] > FULL_REFRESH_INTERVAL_MS,
        ticks[j] - ticks[k] > TICK_PERIOD_MS,
{
    lemma_full_tick_is_remembered(monitor, ticks, k, j);
}

/// Whether two sets of answers give the same output for every query of
/// `queries`.
pub open spec fn answers_agree(a: AnswersView, b: AnswersView, queries: Seq<Query>) -> bool {
    forall|i: int|
        0 <= i < queries.len() ==> match #[trigger] queries[i] {
            Query::User(pid) => a.users.get(pid) == b.users.get(pid),
            Query::Threads(pid) => a.threads.get(pid) == b.threads.get(pid),
        }
}

proof fn lemma_planned_prefix(
    monitor: MonitorView,
    pids: Seq<u32>,
    k: int,
    is_full: bool,
    now: u64,
)
    requires
        0 <= k <= pids.len(),
    ensures
        monitor.planned(pids.take(k), is_full, now).is_prefix_of(
            monitor.planned(pids, is_full, now),
        ),
    decreases pids.len() - k,
{
    if k == pids.len() {
        assert(pids.take(k) =~= pids);
    } else {
        lemma_planned_prefix(monitor, pids.drop_last(), k, is_full, now);
        assert(pids.drop_last().take(k) =~= pids.take(k));
    }
}

proof fn lemma_first_sighting_is_planned(
    monitor: MonitorView,
    pids: Seq<u32>,
    i: int,
    is_full: bool,
    now: u64,
    query: Query,
)
    requires
        0 <= i < pids.len(),
        monitor.queries_for(pids[i], is_full, now).contains(query),
    ensures
        monitor.planned(pids, is_full, now).contains(query),
    decreases pids.len(),
{
    let front = pids.drop_last();
    let plan_front = monitor.planned(front, is_full, now);
    let plan = monitor.planned(pids, is_full, now);
    if i < pids.len() - 1 {
        lemma_first_sighting_is_planned(monitor, front, i, is_full, now, query);
        let at = choose|at: int| 0 <= at < plan_front.len() && plan_front[at] == query;
        assert(plan[at] == query);
    } else if front.contains(pids.last()) {
        let j = choose|j: int| 0 <= j < front.len() && front[j] == pids.last();
        lemma_first_sighting_is_planned(monitor, front, j, is_full, now, query);
        let at = choose|at: int| 0 <= at < plan_front.len() && plan_front[at] == query;
        assert(plan[at] == query);
    } else {
        let extra = monitor.queries_for(pids.last(), is_full, now);
        let at = choose|at: int| 0 <= at < extra.len() && extra[at] == query;
        assert(plan[plan_front.len() + at] == query);
    }
}

proof fn lemma_hits_persist(
    monitor: MonitorView,
    samples: Seq<SampleView>,
    is_full: bool,
    answers: AnswersView,
    now: u64,
    pid: u32,
)
    ensures
        monitor.users.hit(pid, now) ==> monitor.after_merges(
            samples,
            is_full,
            answers,
            now,
        ).users.hit(pid, now),
        monitor.threads.hit(pid, now) ==> monitor.after_merges(
            samples,
            is_full,
            answers,
            now,
        ).threads.hit(pid, now),
    decreases samples.len(),
{
    if samples.len() > 0 {
        lemma_hits_persist(monitor, samples.drop_last(), is_full, answers, now, pid);
    }
}

proof fn lemma_last_merge_reads_planned_answers(
    monitor: MonitorView,
    samples: Seq<SampleView>,
    is_full: bool,
    a: AnswersView,
    b: AnswersView,
    now: u64,
)
    requires
        samples.len() > 0,
        answers_agree(a, b, monitor.planned(sampled_pids(samples), is_full, now)),
    ensures
        monitor.after_merges(samples, is_full, a, now) == monitor.after_merges(
            samples,
            is_full,
            b,
            now,
        ),
        monitor.after_merges(samples.drop_last(), is_full, a, now).merged(
            samples.last(),
            is_full,
            a,
            now,
        ) == monitor.after_merges(samples.drop_last(), is_full, b, now).merged(
            samples.last(),
            is_full,
            b,
            now,
        ),
    decreases samples.len(),
{
    let pids = sampled_pids(samples);
    let front = samples.drop_last();
    let pid = samples.last().pid;
    let plan = monitor.planned(pids, is_full, now);
    assert(sampled_pids(front) =~= pids.drop_last());
    assert(pids.take(pids.len() - 1) =~= pids.drop_last());
    lemma_planned_prefix(monitor, pids, pids.len() - 1, is_full, now);
    if front.len() > 0 {
        lemma_last_merge_reads_planned_answers(monitor, front, is_full, a, b, now);
    }
    let state = monitor.after_merges(front, is_full, a, now);
    assert(state == monitor.after_merges(front, is_full, b, now));
    lemma_merges_reach_the_sampled(monitor, front, is_full, a, now);
    lemma_hits_persist(monitor, front, is_full, a, now, pid);
    if state.enriches(pid, is_full) {
        assert(monitor.enriches(pid, is_full));
        assert(pids[pids.len() - 1] == pid);
        if !state.users.hit(pid, now) {
            let query = Query::User(pid);
            assert(monitor.queries_for(pid, is_full, now)[0] == query);
            lemma_first_sighting_is_planned(monitor, pids, pids.len() - 1, is_full, now, query);
            let at = choose|at: int| 0 <= at < plan.len() && plan[at] == query;
            assert(plan[at] == query);
        }
        if !state.threads.hit(pid, now) {
            let query = Query::Threads(pid);
            let needed = monitor.queries_for(pid, is_full, now);
            assert(needed[needed.len() - 1] == query);
            lemma_first_sighting_is_planned(monitor, pids, pids.len() - 1, is_full, now, query);
            let at = choose|at: int| 0 <= at < plan.len() && plan[at] == query;
            assert(plan[at] == query);
        }
    }
}

/// A cycle reads no answer but those of the queries it planned: two sets of
/// answers that agree on the planned queries lead to the same published
/// list and leave the same monitor.
pub proof fn lemma_only_planned_answers_matter(
    monitor: MonitorView,
    samples: Seq<SampleView>,
    is_full: bool,
    a: AnswersView,
    b: AnswersView,
    now: u64,
)
    requires
        answers_agree(a, b, monitor.planned(sampled_pids(samples), is_full, now)),
    ensures
        monitor.published(samples, is_full, a, now) == monitor.published(
            samples,
            is_full,
            b,
            now,
        ),
        monitor.after_cycle(samples, is_full, a, now) == monitor.after_cycle(
            samples,
            is_full,
            b,
            now,
        ),
{
    let pids = sampled_pids(samples);
    if samples.len() > 0 {
        lemma_last_merge_reads_planned_answers(monitor, samples, is_full, a, b, now);
    }
    assert forall|i: int| 0 <= i < samples.len() implies #[trigger] monitor.published(
        samples,
        is_full,
        a,
        now,
    )[i] == monitor.published(samples, is_full, b, now)[i] by {
        let upto = samples.take(i + 1);
        lemma_planned_prefix(monitor, pids, i + 1, is_full, now);
        assert(sampled_pids(upto) =~= pids.take(i + 1));
        lemma_last_merge_reads_planned_answers(monitor, upto, is_full, a, b, now);
        assert(upto.drop_last() =~= samples.take(i));
        assert(upto.last() == samples[i]);
    }
    assert(monitor.published(samples, is_full, a, now) =~= monitor.published(
        samples,
        is_full,
        b,
        now,
    ));
}

} // verus!
