//! The snapshot collector: merges the samples of one cycle into the process
//! cache, drops the processes that are gone and decides how much of the
//! expensive metadata a cycle renews.

use crate::metadata::{elapsed, ThreadCache, ThreadCacheView, UserCache, UserCacheView};
use crate::process::{clone_strings, ProcessInfo, ProcessView, RawSample, SampleView};
use crate::status::ProcessStatus;
use std::collections::{HashMap, HashSet};
use vstd::prelude::*;

verus! {

/// Milliseconds after which the next cycle is a full refresh by itself.
pub const FULL_REFRESH_INTERVAL_MS: u64 = 10_000;

/// Number of processes handled between two pauses.
pub const BATCH_SIZE: usize = 50;

/// The outputs of the metadata queries that were run for a cycle, per
/// process identifier.
pub struct Answers {
    users: HashMap<u32, String>,
    threads: HashMap<u32, String>,
}

/// What [`Answers`] hold: the output of each query that succeeded.
pub ghost struct AnswersView {
    pub users: Map<u32, Seq<char>>,
    pub threads: Map<u32, Seq<char>>,
}

impl View for Answers {
    type V = AnswersView;

    closed spec fn view(&self) -> AnswersView {
        AnswersView {
            users: self.users@.map_values(|text: String| text@),
            threads: self.threads@.map_values(|text: String| text@),
        }
    }
}

impl Answers {
    /// No answers: every query counts as failed.
    pub fn new() -> (answers: Answers)
        ensures
            answers@ == (AnswersView { users: Map::empty(), threads: Map::empty() }),
    {
        let answers = Answers { users: HashMap::new(), threads: HashMap::new() };
        assert(answers@.users =~= Map::empty());
        assert(answers@.threads =~= Map::empty());
        answers
    }

    /// Records the output of the owner query for `pid`.
    pub fn record_user(&mut self, pid: u32, output: String)
        ensures
            final(self)@ == (AnswersView {
                users: old(self)@.users.insert(pid, output@),
                ..old(self)@
            }),
    {
        broadcast use vstd::std_specs::hash::group_hash_axioms;

        self.users.insert(pid, output);
        assert(self@.users =~= old(self)@.users.insert(pid, output@));
    }

    /// Records the output of the thread query for `pid`.
    pub fn record_threads(&mut self, pid: u32, output: String)
        ensures
            final(self)@ == (AnswersView {
                threads: old(self)@.threads.insert(pid, output@),
                ..old(self)@
            }),
    {
        broadcast use vstd::std_specs::hash::group_hash_axioms;

        self.threads.insert(pid, output);
        assert(self@.threads =~= old(self)@.threads.insert(pid, output@));
    }

    /// The output of the owner query for `pid`, if one was recorded.
    pub fn user_output(&self, pid: u32) -> (output: Option<&str>)
        ensures
            crate::metadata::text_of(output) == self@.users.get(pid),
    {
        broadcast use vstd::std_specs::hash::group_hash_axioms;

        match self.users.get(&pid) {
            Some(text) => Some(text.as_str()),
            None => None,
        }
    }

    /// The output of the thread query for `pid`, if one was recorded.
    pub fn thread_output(&self, pid: u32) -> (output: Option<&str>)
        ensures
            crate::metadata::text_of(output) == self@.threads.get(pid),
    {
        broadcast use vstd::std_specs::hash::group_hash_axioms;

        match self.threads.get(&pid) {
            Some(text) => Some(text.as_str()),
            None => None,
        }
    }
}

/// What a [`ProcessMonitor`] holds.
pub ghost struct MonitorView {
    pub users: UserCacheView,
    pub threads: ThreadCacheView,
    pub processes: Map<u32, ProcessView>,
    pub last_full_refresh: u64,
}

impl MonitorView {
    /// Whether a sighting of `pid` resolves the expensive metadata: on a
    /// full refresh always, otherwise only for a process not seen before.
    pub open spec fn enriches(self, pid: u32, is_full: bool) -> bool {
        is_full || !self.processes.contains_key(pid)
    }

    /// The user that the metadata cache resolves for `pid`.
    pub open spec fn resolved_user(self, pid: u32, answers: AnswersView, now: u64) -> Seq<char> {
        self.users.user(pid, now, answers.users.get(pid))
    }

    /// The thread count that the metadata cache resolves for `pid`.
    pub open spec fn resolved_threads(self, pid: u32, answers: AnswersView, now: u64) -> Option<
        usize,
    > {
        self.threads.threads(pid, now, answers.threads.get(pid))
    }

    /// The snapshot that merging `sample` leaves for its process.
    ///
    /// A process not seen before gets a fresh snapshot with resolved
    /// metadata. A known process gets the reading; on a full refresh its
    /// status, user, thread count, parent and command line are renewed as
    /// well, otherwise they stay as they were.
    pub open spec fn merged(
        self,
        sample: SampleView,
        is_full: bool,
        answers: AnswersView,
        now: u64,
    ) -> ProcessView {
        let user = self.resolved_user(sample.pid, answers, now);
        let threads = self.resolved_threads(sample.pid, answers, now);
        if self.processes.contains_key(sample.pid) {
            let read = self.processes[sample.pid].with_reading(
                sample.cpu_usage,
                sample.memory,
                now,
            );
            if is_full {
                read.with_metadata(sample, user, threads)
            } else {
                read
            }
        } else {
            ProcessView::first_sighting(sample, user, threads, now)
        }
    }

    /// The monitor after merging `sample`.
    pub open spec fn after_merge(
        self,
        sample: SampleView,
        is_full: bool,
        answers: AnswersView,
        now: u64,
    ) -> MonitorView {
        let pid = sample.pid;
        MonitorView {
            users: if self.enriches(pid, is_full) {
                self.users.after_lookup(pid, now, answers.users.get(pid))
            } else {
                self.users
            },
            threads: if self.enriches(pid, is_full) {
                self.threads.after_lookup(pid, now, answers.threads.get(pid))
            } else {
                self.threads
            },
            processes: self.processes.insert(pid, self.merged(sample, is_full, answers, now)),
            last_full_refresh: self.last_full_refresh,
        }
    }
}

/// A metadata query that a cycle needs the caller to run.
#[derive(Clone, Copy, Debug, PartialEq, Eq, Structural)]
pub enum Query {
    /// The owner of the process.
    User(u32),
    /// The thread count of the process.
    Threads(u32),
}

impl MonitorView {
    /// Whether the last full refresh lies further back than the interval.
    pub open spec fn full_refresh_due(self, now: u64) -> bool {
        elapsed(self.last_full_refresh, now) > FULL_REFRESH_INTERVAL_MS
    }

    /// Whether a cycle that starts at `now` is a full refresh: when one is
    /// forced, or when one is due.
    pub open spec fn refreshes_fully(self, force_full_refresh: bool, now: u64) -> bool {
        force_full_refresh || self.full_refresh_due(now)
    }

    /// The monitor once the cycle has begun: a full refresh is remembered
    /// with its time.
    pub open spec fn begun(self, force_full_refresh: bool, now: u64) -> MonitorView {
        MonitorView {
            last_full_refresh: if self.refreshes_fully(force_full_refresh, now) {
                now
            } else {
                self.last_full_refresh
            },
            ..self
        }
    }

    /// The queries that the first sighting of `pid` in a cycle needs: one
    /// for each kind of metadata that is resolved and not cached.
    pub open spec fn queries_for(self, pid: u32, is_full: bool, now: u64) -> Seq<Query> {
        if self.enriches(pid, is_full) {
            (if self.users.hit(pid, now) {
                Seq::<Query>::empty()
            } else {
                seq![Query::User(pid)]
            }) + (if self.threads.hit(pid, now) {
                Seq::<Query>::empty()
            } else {
                seq![Query::Threads(pid)]
            })
        } else {
            Seq::<Query>::empty()
        }
    }

    /// The queries that a cycle over processes `pids` needs, in the order
    /// of the processes and once per process.
    pub open spec fn planned(self, pids: Seq<u32>, is_full: bool, now: u64) -> Seq<Query>
        decreases pids.len(),
    {
        if pids.len() == 0 {
            Seq::<Query>::empty()
        } else {
            self.planned(pids.drop_last(), is_full, now) + (if pids.drop_last().contains(
                pids.last(),
            ) {
                Seq::<Query>::empty()
            } else {
                self.queries_for(pids.last(), is_full, now)
            })
        }
    }
}

/// Whether the driver pauses after the `done`-th process of a cycle: after
/// every full batch.
pub open spec fn pause_due(done: usize) -> bool {
    done > 0 && done % BATCH_SIZE == 0
}

/// Whether the driver pauses after the `done`-th process of a cycle, so
/// that a long scan does not keep other work waiting.
pub fn should_pause(done: usize) -> (pause: bool)
    ensures
        pause == pause_due(done),
{
    done > 0 && done % BATCH_SIZE == 0
}

/// What a list of samples holds.
pub open spec fn sample_views(samples: Seq<RawSample>) -> Seq<SampleView> {
    samples.map_values(|sample: RawSample| sample@)
}

/// What a list of snapshots holds.
pub open spec fn process_views(list: Seq<ProcessInfo>) -> Seq<ProcessView> {
    list.map_values(|info: ProcessInfo| info@)
}

/// The process identifiers of a list of samples, in order.
pub open spec fn sampled_pids(samples: Seq<SampleView>) -> Seq<u32> {
    samples.map_values(|sample: SampleView| sample.pid)
}

impl MonitorView {
    /// The monitor after merging `samples` one after the other.
    pub open spec fn after_merges(
        self,
        samples: Seq<SampleView>,
        is_full: bool,
        answers: AnswersView,
        now: u64,
    ) -> MonitorView
        decreases samples.len(),
    {
        if samples.len() == 0 {
            self
        } else {
            self.after_merges(samples.drop_last(), is_full, answers, now).after_merge(
                samples.last(),
                is_full,
                answers,
                now,
            )
        }
    }

    /// The list that a cycle over `samples` publishes: for each sample, in
    /// the order of the samples, the snapshot that its merge leaves.
    pub open spec fn published(
        self,
        samples: Seq<SampleView>,
        is_full: bool,
        answers: AnswersView,
        now: u64,
    ) -> Seq<ProcessView> {
        Seq::new(
            samples.len(),
            |i: int|
                self.after_merges(samples.take(i), is_full, answers, now).merged(
                    samples[i],
                    is_full,
                    answers,
                    now,
                ),
        )
    }

    /// The monitor without the processes whose identifier is not in `active`.
    pub open spec fn evicted(self, active: Set<u32>) -> MonitorView {
        MonitorView { processes: self.processes.restrict(active), ..self }
    }

    /// The monitor after a whole cycle over `samples`: every sample is
    /// merged, then the processes that no sample named are dropped.
    pub open spec fn after_cycle(
        self,
        samples: Seq<SampleView>,
        is_full: bool,
        answers: AnswersView,
        now: u64,
    ) -> MonitorView {
        self.after_merges(samples, is_full, answers, now).evicted(sampled_pids(samples).to_set())
    }
}

/// Merging samples adds their identifiers to the cache and removes none.
pub proof fn lemma_merges_reach_the_sampled(
    monitor: MonitorView,
    samples: Seq<SampleView>,
    is_full: bool,
    answers: AnswersView,
    now: u64,
)
    ensures
        monitor.after_merges(samples, is_full, answers, now).processes.dom()
            == monitor.processes.dom().union(sampled_pids(samples).to_set()),
        monitor.after_merges(samples, is_full, answers, now).last_full_refresh
            == monitor.last_full_refresh,
    decreases samples.len(),
{
    let after = monitor.after_merges(samples, is_full, answers, now);
    if samples.len() == 0 {
        assert(sampled_pids(samples).to_set() =~= Set::empty());
        assert(after.processes.dom() =~= monitor.processes.dom().union(Set::empty()));
    } else {
        let front = samples.drop_last();
        lemma_merges_reach_the_sampled(monitor, front, is_full, answers, now);
        assert(sampled_pids(samples) =~= sampled_pids(front).push(samples.last().pid));
        sampled_pids(front).lemma_push_to_set_commute(samples.last().pid);
        assert(after.processes.dom() =~= monitor.processes.dom().union(
            sampled_pids(samples).to_set(),
        ));
    }
}

/// Owns the metadata caches and the process cache, and merges each cycle's
/// samples into them.
pub struct ProcessMonitor {
    user_cache: UserCache,
    thread_cache: ThreadCache,
    process_cache: HashMap<u32, ProcessInfo>,
    last_full_refresh: u64,
}

impl View for ProcessMonitor {
    type V = MonitorView;

    closed spec fn view(&self) -> MonitorView {
        MonitorView {
            users: self.user_cache@,
            threads: self.thread_cache@,
            processes: self.process_cache@.map_values(|info: ProcessInfo| info@),
            last_full_refresh: self.last_full_refresh,
        }
    }
}

impl ProcessMonitor {
    /// A monitor that has seen no process, created at time `now`.
    pub fn new(now: u64) -> (monitor: ProcessMonitor)
        ensures
            monitor@ == (MonitorView {
                users: UserCacheView { entries: Map::empty(), since: now },
                threads: ThreadCacheView { entries: Map::empty(), since: now },
                processes: Map::empty(),
                last_full_refresh: now,
            }),
    {
        let monitor = ProcessMonitor {
            user_cache: UserCache::new(now),
            thread_cache: ThreadCache::new(now),
            process_cache: HashMap::new(),
            last_full_refresh: now,
        };
        assert(monitor@.processes =~= Map::empty());
        monitor
    }

    /// Merges one sample into the process cache and returns a copy of the
    /// snapshot it leaves.
    pub fn merge(&mut self, sample: &RawSample, is_full: bool, answers: &Answers, now: u64) -> (info:
        ProcessInfo)
        ensures
            info@ == old(self)@.merged(sample@, is_full, answers@, now),
            final(self)@ == old(self)@.after_merge(sample@, is_full, answers@, now),
    {
        broadcast use vstd::std_specs::hash::group_hash_axioms;

        let pid: u32 = sample.pid;
        let ghost before = self@;
        match self.process_cache.remove(&pid) {
            Some(mut entry) => {
                assert(before.processes.contains_key(pid));
                assert(entry@ == before.processes[pid]);
                entry.update_history(sample.cpu_usage, sample.memory, now);
                if is_full {
                    entry.status = ProcessStatus::from_os(sample.status);
                    entry.user = self.user_cache.get_user(pid, now, answers.user_output(pid));
                    entry.threads = self.thread_cache.get_thread_count(
                        pid,
                        now,
                        answers.thread_output(pid),
                    );
                    entry.parent = sample.parent;
                    entry.cmd = clone_strings(&sample.cmd);
                }
                let info = entry.clone();
                self.process_cache.insert(pid, entry);
                assert(self@.processes =~= before.processes.insert(pid, info@));
                info
            },
            None => {
                assert(!before.processes.contains_key(pid));
                let user = self.user_cache.get_user(pid, now, answers.user_output(pid));
                let threads = self.thread_cache.get_thread_count(
                    pid,
                    now,
                    answers.thread_output(pid),
                );
                let entry = ProcessInfo::new(
                    pid,
                    sample.name.clone(),
                    sample.cpu_usage,
                    sample.memory,
                    ProcessStatus::from_os(sample.status),
                    user,
                    sample.run_time,
                    clone_strings(&sample.cmd),
                    threads,
                    sample.parent,
                    now,
                );
                let info = entry.clone();
                self.process_cache.insert(pid, entry);
                assert(self@.processes =~= before.processes.insert(pid, info@));
                info
            },
        }
    }
}

impl ProcessMonitor {
    /// The time of the last full refresh.
    pub fn last_full_refresh(&self) -> (time: u64)
        ensures
            time == self@.last_full_refresh,
    {
        self.last_full_refresh
    }

    /// Begins a cycle at time `now` and says whether it is a full refresh.
    ///
    /// The cycle is a full refresh when one is forced or when the last one
    /// lies further back than the interval; a full refresh is remembered
    /// with its time.
    pub fn begin_cycle(&mut self, force_full_refresh: bool, now: u64) -> (is_full: bool)
        ensures
            is_full == old(self)@.refreshes_fully(force_full_refresh, now),
            final(self)@ == old(self)@.begun(force_full_refresh, now),
    {
        let age: u64 = if now >= self.last_full_refresh {
            now - self.last_full_refresh
        } else {
            0
        };
        let is_full = force_full_refresh || age > FULL_REFRESH_INTERVAL_MS;
        if is_full {
            self.last_full_refresh = now;
        }
        is_full
    }

    /// Lists the metadata queries that a cycle over `samples` needs.
    ///
    /// A process needs queries where its first sighting in the cycle
    /// resolves metadata, one for each kind that the caches do not hold at
    /// `now`. The caller runs them and records their outputs as the
    /// [`Answers`] of the cycle.
    pub fn plan(&self, samples: &Vec<RawSample>, is_full: bool, now: u64) -> (queries: Vec<Query>)
        ensures
            queries@ == self@.planned(sampled_pids(sample_views(samples@)), is_full, now),
    {
        broadcast use vstd::std_specs::hash::group_hash_axioms;

        let ghost pids = sampled_pids(sample_views(samples@));
        let mut queries: Vec<Query> = Vec::new();
        let mut seen: HashSet<u32> = HashSet::new();
        let mut i: usize = 0;
        while i < samples.len()
            invariant
                i <= samples.len(),
                pids == sampled_pids(sample_views(samples@)),
                seen@ == pids.take(i as int).to_set(),
                queries@ == self@.planned(pids.take(i as int), is_full, now),
            decreases samples.len() - i,
        {
            let pid: u32 = samples[i].pid;
            proof {
                assert(pids[i as int] == pid);
                assert(pids.take(i + 1).drop_last() =~= pids.take(i as int));
                assert(pids.take(i + 1).last() == pid);
                pids.take(i as int).lemma_push_to_set_commute(pid);
                assert(pids.take(i + 1) =~= pids.take(i as int).push(pid));
            }
            if !seen.contains(&pid) {
                if is_full || !self.process_cache.contains_key(&pid) {
                    if !self.user_cache.is_cached(pid, now) {
                        queries.push(Query::User(pid));
                    }
                    if !self.thread_cache.is_cached(pid, now) {
                        queries.push(Query::Threads(pid));
                    }
                }
                seen.insert(pid);
            }
            assert(queries@ =~= self@.planned(pids.take(i + 1), is_full, now));
            assert(seen@ =~= pids.take(i + 1).to_set());
            i += 1;
        }
        assert(pids.take(samples.len() as int) =~= pids);
        queries
    }

    /// Whether the process cache holds a snapshot for `pid`.
    pub fn is_known(&self, pid: u32) -> (known: bool)
        ensures
            known == self@.processes.contains_key(pid),
    {
        broadcast use vstd::std_specs::hash::group_hash_axioms;

        self.process_cache.contains_key(&pid)
    }

    /// Number of processes in the process cache.
    pub fn process_count(&self) -> (count: usize)
        ensures
            count == self@.processes.len(),
    {
        broadcast use vstd::std_specs::hash::group_hash_axioms;

        assert(self@.processes.dom() =~= self.process_cache@.dom());
        self.process_cache.len()
    }

    /// Drops every cached process whose identifier is not in `active`.
    pub fn evict_stale(&mut self, active: &Vec<u32>)
        ensures
            final(self)@ == old(self)@.evicted(active@.to_set()),
    {
        broadcast use vstd::std_specs::hash::group_hash_axioms;

        let ghost held = self.process_cache@;
        let mut kept: HashMap<u32, ProcessInfo> = HashMap::new();
        let mut i: usize = 0;
        while i < active.len()
            invariant
                i <= active.len(),
                kept@ == held.restrict(active@.take(i as int).to_set()),
                self.process_cache@ == held.remove_keys(active@.take(i as int).to_set()),
                self.user_cache == old(self).user_cache,
                self.thread_cache == old(self).thread_cache,
                self.last_full_refresh == old(self).last_full_refresh,
            decreases active.len() - i,
        {
            let pid: u32 = active[i];
            let ghost seen = active@.take(i as int).to_set();
            proof {
                assert(active@.take(i + 1) =~= active@.take(i as int).push(pid));
                active@.take(i as int).lemma_push_to_set_commute(pid);
            }
            match self.process_cache.remove(&pid) {
                Some(entry) => {
                    kept.insert(pid, entry);
                },
                None => {},
            }
            assert(kept@ =~= held.restrict(seen.insert(pid)));
            assert(self.process_cache@ =~= held.remove_keys(seen.insert(pid)));
            i += 1;
        }
        assert(active@.take(active.len() as int) =~= active@);
        self.process_cache = kept;
        assert(self@.processes =~= old(self)@.processes.restrict(active@.to_set()));
    }

    /// Runs one collection cycle over the samples of the process table.
    ///
    /// Every sample is merged in order, then the processes that no sample
    /// named are dropped from the cache. The list returned holds a copy of
    /// the snapshot of each sample, in the order of the samples.
    pub fn get_processes(
        &mut self,
        samples: &Vec<RawSample>,
        is_full: bool,
        answers: &Answers,
        now: u64,
    ) -> (list: Vec<ProcessInfo>)
        ensures
            process_views(list@) == old(self)@.published(
                sample_views(samples@),
                is_full,
                answers@,
                now,
            ),
            final(self)@ == old(self)@.after_cycle(sample_views(samples@), is_full, answers@, now),
            final(self)@.processes.dom() == sampled_pids(sample_views(samples@)).to_set(),
            list.len() == samples.len(),
    {
        let ghost start = self@;
        let ghost all = sample_views(samples@);
        let mut list: Vec<ProcessInfo> = Vec::new();
        let mut active: Vec<u32> = Vec::new();
        let mut i: usize = 0;
        while i < samples.len()
            invariant
                i <= samples.len(),
                all == sample_views(samples@),
                self@ == start.after_merges(all.take(i as int), is_full, answers@, now),
                active@ == sampled_pids(all).take(i as int),
                process_views(list@) == start.published(all, is_full, answers@, now).take(
                    i as int,
                ),
            decreases samples.len() - i,
        {
            let info = self.merge(&samples[i], is_full, answers, now);
            proof {
                assert(all[i as int] == samples@[i as int]@);
                assert(all.take(i + 1).drop_last() =~= all.take(i as int));
                assert(all.take(i + 1).last() == all[i as int]);
                let target = start.published(all, is_full, answers@, now);
                assert(target[i as int] == info@);
                assert(process_views(list@.push(info)) =~= process_views(list@).push(info@));
                assert(target.take(i + 1) =~= target.take(i as int).push(target[i as int]));
                assert(active@.push(samples[i as int].pid) =~= sampled_pids(all).take(i + 1));
            }
            active.push(samples[i].pid);
            list.push(info);
            i += 1;
        }
        proof {
            assert(all.take(samples.len() as int) =~= all);
            assert(sampled_pids(all).take(samples.len() as int) =~= sampled_pids(all));
            assert(start.published(all, is_full, answers@, now).take(samples.len() as int)
                =~= start.published(all, is_full, answers@, now));
        }
        self.evict_stale(&active);
        proof {
            lemma_merges_reach_the_sampled(start, all, is_full, answers@, now);
            assert(self@.processes.dom() =~= sampled_pids(all).to_set());
            assert(process_views(list@).len() == list.len());
        }
        list
    }
}

} // verus!
