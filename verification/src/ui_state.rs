//! The state of the interactive view: the list on display, the selection,
//! the tab, the sort order and the filter.

use crate::collector::process_views;
use crate::format::{decimal, decimal_digits};
use crate::history::HISTORY_CAPACITY;
use crate::metadata::elapsed;
use crate::process::{ProcessInfo, ProcessView};
use crate::scheduler::ProcessUpdate;
use crate::sort::{is_sort_order, is_stable_sort, is_sorted_along, sort_order, sorted_by, SortKey};
use crate::system::{SystemResources, SystemView};
use crate::text::{
    chars_of, contains_chars, lowercase, occurs_in, pop_char, push_char, to_lowercase,
};
use vstd::prelude::*;

verus! {

/// Milliseconds between two redraws.
pub const UI_REFRESH_INTERVAL_MS: u64 = 33;

/// Milliseconds between two updates of the data.
pub const DATA_REFRESH_INTERVAL_MS: u64 = 1_000;

/// Whether the process `p` passes the filter `needle`, which is in lower
/// case: the needle occurs in its name or its user, both taken in lower
/// case, or in its identifier written in decimal.
pub open spec fn passes_filter(p: ProcessView, needle: Seq<char>) -> bool {
    ||| occurs_in(needle, lowercase(p.name))
    ||| occurs_in(needle, decimal_digits(p.pid as nat))
    ||| occurs_in(needle, lowercase(p.user))
}

/// The test that the filter `needle` puts to a process.
pub open spec fn filter_rule(needle: Seq<char>) -> spec_fn(ProcessView) -> bool {
    |p: ProcessView| passes_filter(p, needle)
}

/// The processes of `list` that the filter leaves, in their order. An
/// empty filter leaves them all.
pub open spec fn filtered(list: Seq<ProcessView>, filter: Seq<char>) -> Seq<ProcessView> {
    if filter.len() == 0 {
        list
    } else {
        list.filter(filter_rule(lowercase(filter)))
    }
}

/// The first position of `list` that holds the process `pid`, or the
/// length of `list` if none does.
pub open spec fn position_of(list: Seq<ProcessView>, pid: u32) -> int
    decreases list.len(),
{
    if list.len() == 0 {
        0
    } else if list[0].pid == pid {
        0
    } else {
        1 + position_of(list.drop_first(), pid)
    }
}

/// The first `count` processes of `list` sorted by `key`, largest first.
pub open spec fn is_top(
    list: Seq<ProcessView>,
    top: Seq<ProcessView>,
    key: SortKey,
    count: usize,
) -> bool {
    exists|sorted: Seq<ProcessView>|
        #[trigger] is_stable_sort(list, sorted, key, false) && top == sorted.take(
            if count <= list.len() {
                count as int
            } else {
                list.len() as int
            },
        )
}

/// What a list of borrowed snapshots holds.
pub open spec fn borrowed_views(list: Seq<&ProcessInfo>) -> Seq<ProcessView> {
    list.map_values(|info: &ProcessInfo| info@)
}

/// The texts of a list of string slices.
pub open spec fn titles(list: Seq<&'static str>) -> Seq<Seq<char>> {
    list.map_values(|title: &'static str| title@)
}

/// The state of the interactive view.
pub struct App {
    pub processes: Vec<ProcessInfo>,
    pub selected_index: usize,
    pub previous_selected_pid: Option<u32>,
    pub current_tab: usize,
    pub tabs: Vec<&'static str>,
    pub sort_key: SortKey,
    pub sort_ascending: bool,
    pub system_resources: SystemResources,
    pub last_ui_refresh: u64,
    pub last_data_refresh: u64,
    pub ui_refresh_interval: u64,
    pub data_refresh_interval: u64,
    pub filter: String,
    pub show_help: bool,
    pub loading_status: String,
}

/// What an [`App`] holds, as mathematical values.
pub ghost struct AppView {
    pub processes: Seq<ProcessView>,
    pub selected_index: usize,
    pub previous_selected_pid: Option<u32>,
    pub current_tab: usize,
    pub tabs: Seq<Seq<char>>,
    pub sort_key: SortKey,
    pub sort_ascending: bool,
    pub system_resources: SystemView,
    pub last_ui_refresh: u64,
    pub last_data_refresh: u64,
    pub ui_refresh_interval: u64,
    pub data_refresh_interval: u64,
    pub filter: Seq<char>,
    pub show_help: bool,
    pub loading_status: Seq<char>,
}

impl View for App {
    type V = AppView;

    open spec fn view(&self) -> AppView {
        AppView {
            processes: process_views(self.processes@),
            selected_index: self.selected_index,
            previous_selected_pid: self.previous_selected_pid,
            current_tab: self.current_tab,
            tabs: titles(self.tabs@),
            sort_key: self.sort_key,
            sort_ascending: self.sort_ascending,
            system_resources: self.system_resources@,
            last_ui_refresh: self.last_ui_refresh,
            last_data_refresh: self.last_data_refresh,
            ui_refresh_interval: self.ui_refresh_interval,
            data_refresh_interval: self.data_refresh_interval,
            filter: self.filter@,
            show_help: self.show_help,
            loading_status: self.loading_status@,
        }
    }
}

impl AppView {
    /// The identifier of the selected process, if the selection lies in
    /// the list.
    pub open spec fn selected_pid(self) -> Option<u32> {
        if self.selected_index < self.processes.len() {
            Some(self.processes[self.selected_index as int].pid)
        } else {
            None
        }
    }

    /// The identifier that a move of the selection remembers: that of the
    /// selected process, or what was remembered before.
    pub open spec fn remembered_pid(self) -> Option<u32> {
        if self.selected_index < self.processes.len() {
            self.selected_pid()
        } else {
            self.previous_selected_pid
        }
    }

    /// The view after the selection moved down one row, from the last row
    /// to the first. An empty list leaves everything as it is.
    pub open spec fn after_next(self) -> AppView {
        if self.processes.len() == 0 {
            self
        } else {
            AppView {
                previous_selected_pid: self.remembered_pid(),
                selected_index: if self.selected_index + 1 < self.processes.len() {
                    (self.selected_index + 1) as usize
                } else {
                    0
                },
                ..self
            }
        }
    }

    /// The view after the selection moved up one row, from the first row
    /// to the last. An empty list leaves everything as it is.
    pub open spec fn after_previous(self) -> AppView {
        if self.processes.len() == 0 {
            self
        } else {
            AppView {
                previous_selected_pid: self.remembered_pid(),
                selected_index: if 0 < self.selected_index <= self.processes.len() {
                    (self.selected_index - 1) as usize
                } else {
                    (self.processes.len() - 1) as usize
                },
                ..self
            }
        }
    }

    /// The view after the next tab was chosen, from the last to the first.
    pub open spec fn after_next_tab(self) -> AppView {
        AppView {
            current_tab: if self.current_tab + 1 < self.tabs.len() {
                (self.current_tab + 1) as usize
            } else {
                0
            },
            ..self
        }
    }

    /// The view after the previous tab was chosen, from the first to the
    /// last.
    pub open spec fn after_previous_tab(self) -> AppView {
        AppView {
            current_tab: if self.current_tab > 0 {
                (self.current_tab - 1) as usize
            } else if self.tabs.len() > 0 {
                (self.tabs.len() - 1) as usize
            } else {
                0
            },
            ..self
        }
    }

    /// The view after the list was filtered and the selection set again.
    ///
    /// The filter is applied to the list. The selection then goes to the
    /// first row of the process that was selected before, or remembered,
    /// if the list still holds it; otherwise it stays where it was, moved
    /// back to the last row if it lies beyond it.
    pub open spec fn after_update_selection(self) -> AppView {
        let list = filtered(self.processes, self.filter);
        let clamped: usize = if list.len() == 0 {
            0
        } else if self.selected_index >= list.len() {
            (list.len() - 1) as usize
        } else {
            self.selected_index
        };
        let selected: usize = match self.remembered_pid() {
            Some(pid) => if position_of(list, pid) < list.len() {
                position_of(list, pid) as usize
            } else {
                clamped
            },
            None => clamped,
        };
        AppView { processes: list, selected_index: selected, ..self }
    }

    /// The view after the sort column `key` was chosen: the direction
    /// turns if the column was chosen already, else the column changes and
    /// the largest values come first. The list is not yet sorted again.
    pub open spec fn with_sort_key(self, key: SortKey) -> AppView {
        if self.sort_key == key {
            AppView { sort_ascending: !self.sort_ascending, ..self }
        } else {
            AppView { sort_key: key, sort_ascending: false, ..self }
        }
    }

    /// Whether `sorted` is this view with its list sorted by its column
    /// and direction, and nothing else changed.
    pub open spec fn is_sorted_as(self, sorted: AppView) -> bool {
        &&& sorted == AppView { processes: sorted.processes, ..self }
        &&& is_stable_sort(self.processes, sorted.processes, self.sort_key, self.sort_ascending)
    }
}

proof fn lemma_position_of_first(list: Seq<ProcessView>, pid: u32, at: int)
    requires
        0 <= at <= list.len(),
        forall|j: int| 0 <= j < at ==> list[j].pid != pid,
        at < list.len() ==> list[at].pid == pid,
    ensures
        position_of(list, pid) == at,
    decreases list.len(),
{
    if list.len() > 0 && at > 0 {
        let rest = list.drop_first();
        assert forall|j: int| 0 <= j < at - 1 implies rest[j].pid != pid by {
            assert(rest[j] == list[j + 1]);
        }
        lemma_position_of_first(rest, pid, at - 1);
    }
}

/// The first position of `list` that holds the process `pid`.
pub fn find_pid(list: &Vec<ProcessInfo>, pid: u32) -> (found: Option<usize>)
    ensures
        match found {
            Some(at) => at == position_of(process_views(list@), pid) && at < list.len(),
            None => position_of(process_views(list@), pid) == list.len(),
        },
{
    let mut at: usize = 0;
    while at < list.len()
        invariant
            at <= list.len(),
            forall|j: int| 0 <= j < at ==> process_views(list@)[j].pid != pid,
        decreases list.len() - at,
    {
        if list[at].pid == pid {
            proof {
                assert(process_views(list@)[at as int].pid == pid);
                lemma_position_of_first(process_views(list@), pid, at as int);
            }
            return Some(at);
        }
        at += 1;
    }
    proof {
        lemma_position_of_first(process_views(list@), pid, list.len() as int);
    }
    None
}

/// Whether `info` passes the filter `needle`, which is in lower case.
pub fn passes(info: &ProcessInfo, needle: &Vec<char>) -> (pass: bool)
    ensures
        pass == passes_filter(info@, needle@),
{
    let name = to_lowercase(info.name.as_str());
    if contains_chars(&chars_of(name.as_str()), needle) {
        return true;
    }
    let pid = decimal(info.pid as u64);
    if contains_chars(&chars_of(pid.as_str()), needle) {
        return true;
    }
    let user = to_lowercase(info.user.as_str());
    contains_chars(&chars_of(user.as_str()), needle)
}

impl App {
    /// The view at startup, at time `now`: no processes, the first tab,
    /// sorted by CPU usage with the largest first, and no filter.
    pub fn new(now: u64) -> (app: App)
        ensures
            app@ == (AppView {
                processes: Seq::empty(),
                selected_index: 0,
                previous_selected_pid: None,
                current_tab: 0,
                tabs: seq!["Dashboard"@, "All Processes"@, "User"@, "System"@, "Detailed"@],
                sort_key: SortKey::Cpu,
                sort_ascending: false,
                system_resources: SystemView {
                    cpu_usage: 0,
                    used_memory: 0,
                    total_memory: 1,
                    cpu_history: Seq::new(HISTORY_CAPACITY as nat, |i: int| 0u64),
                    memory_history: Seq::new(HISTORY_CAPACITY as nat, |i: int| 0u64),
                },
                last_ui_refresh: now,
                last_data_refresh: now,
                ui_refresh_interval: UI_REFRESH_INTERVAL_MS,
                data_refresh_interval: DATA_REFRESH_INTERVAL_MS,
                filter: Seq::empty(),
                show_help: false,
                loading_status: "Initializing..."@,
            }),
    {
        let mut tabs: Vec<&'static str> = Vec::new();
        tabs.push("Dashboard");
        tabs.push("All Processes");
        tabs.push("User");
        tabs.push("System");
        tabs.push("Detailed");
        let app = App {
            processes: Vec::new(),
            selected_index: 0,
            previous_selected_pid: None,
            current_tab: 0,
            tabs,
            sort_key: SortKey::Cpu,
            sort_ascending: false,
            system_resources: SystemResources::new(),
            last_ui_refresh: now,
            last_data_refresh: now,
            ui_refresh_interval: UI_REFRESH_INTERVAL_MS,
            data_refresh_interval: DATA_REFRESH_INTERVAL_MS,
            filter: String::new(),
            show_help: false,
            loading_status: String::from_str("Initializing..."),
        };
        assert(app@.processes =~= Seq::empty());
        assert(app@.tabs =~= seq![
            "Dashboard"@,
            "All Processes"@,
            "User"@,
            "System"@,
            "Detailed"@,
        ]);
        app
    }

    /// The selected process, if the selection lies in the list.
    pub fn selected(&self) -> (info: Option<&ProcessInfo>)
        ensures
            match info {
                Some(p) => self.selected_index < self.processes.len() && *p
                    == self.processes[self.selected_index as int],
                None => self.selected_index >= self.processes.len(),
            },
    {
        if self.selected_index < self.processes.len() {
            Some(&self.processes[self.selected_index])
        } else {
            None
        }
    }

    /// Moves the selection down one row, from the last row to the first,
    /// and remembers the process that was selected.
    pub fn next(&mut self)
        ensures
            final(self)@ == old(self)@.after_next(),
    {
        let n: usize = self.processes.len();
        if n > 0 {
            if self.selected_index < n {
                self.previous_selected_pid = Some(self.processes[self.selected_index].pid);
            }
            self.selected_index = if self.selected_index < n && self.selected_index + 1 < n {
                self.selected_index + 1
            } else {
                0
            };
        }
    }

    /// Moves the selection up one row, from the first row to the last, and
    /// remembers the process that was selected.
    pub fn previous(&mut self)
        ensures
            final(self)@ == old(self)@.after_previous(),
    {
        let n: usize = self.processes.len();
        if n > 0 {
            if self.selected_index < n {
                self.previous_selected_pid = Some(self.processes[self.selected_index].pid);
            }
            self.selected_index = if 0 < self.selected_index && self.selected_index <= n {
                self.selected_index - 1
            } else {
                n - 1
            };
        }
    }

    /// Chooses the next tab, from the last to the first.
    pub fn next_tab(&mut self)
        ensures
            final(self)@ == old(self)@.after_next_tab(),
    {
        let n: usize = self.tabs.len();
        self.current_tab = if self.current_tab < n && self.current_tab + 1 < n {
            self.current_tab + 1
        } else {
            0
        };
    }

    /// Chooses the previous tab, from the first to the last.
    pub fn previous_tab(&mut self)
        ensures
            final(self)@ == old(self)@.after_previous_tab(),
    {
        self.current_tab = if self.current_tab > 0 {
            self.current_tab - 1
        } else if self.tabs.len() > 0 {
            self.tabs.len() - 1
        } else {
            0
        };
    }

    /// Shows the help if it is hidden, hides it if it is shown.
    pub fn toggle_help(&mut self)
        ensures
            final(self)@ == (AppView { show_help: !old(self)@.show_help, ..old(self)@ }),
    {
        self.show_help = !self.show_help;
    }

    /// Applies the filter to the list and sets the selection again.
    pub fn update_selection(&mut self)
        ensures
            final(self)@ == old(self)@.after_update_selection(),
    {
        let previous_pid: Option<u32> = if self.selected_index < self.processes.len() {
            Some(self.processes[self.selected_index].pid)
        } else {
            self.previous_selected_pid
        };
        if !self.filter.as_str().is_empty() {
            let needle = chars_of(to_lowercase(self.filter.as_str()).as_str());
            let ghost all = process_views(self.processes@);
            let ghost pred = filter_rule(lowercase(self.filter@));
            let mut kept: Vec<ProcessInfo> = Vec::new();
            let mut i: usize = 0;
            while i < self.processes.len()
                invariant
                    i <= self.processes.len(),
                    all == process_views(self.processes@),
                    needle@ == lowercase(self.filter@),
                    pred == filter_rule(lowercase(self.filter@)),
                    process_views(kept@) == all.take(i as int).filter(pred),
                decreases self.processes.len() - i,
            {
                proof {
                    let seen = all.take(i as int);
                    assert(all.take(i + 1) =~= seen.push(self.processes[i as int]@));
                    seen.lemma_filter_push(self.processes[i as int]@, pred);
                }
                if passes(&self.processes[i], &needle) {
                    let copy = self.processes[i].clone();
                    assert(process_views(kept@.push(copy)) =~= process_views(kept@).push(copy@));
                    kept.push(copy);
                }
                i += 1;
            }
            assert(all.take(self.processes.len() as int) =~= all);
            self.processes = kept;
        }
        let n: usize = self.processes.len();
        if n == 0 {
            self.selected_index = 0;
        } else if self.selected_index >= n {
            self.selected_index = n - 1;
        }
        if let Some(pid) = previous_pid {
            if let Some(index) = find_pid(&self.processes, pid) {
                self.selected_index = index;
            }
        }
    }

    /// Clears the filter and says whether a refresh is to be requested, so
    /// that the whole list comes back: whenever there was a filter.
    pub fn clear_filter(&mut self) -> (refresh: bool)
        ensures
            refresh == (old(self)@.filter.len() > 0),
            final(self)@ == (AppView { filter: Seq::empty(), ..old(self)@ }),
    {
        if !self.filter.as_str().is_empty() {
            self.filter = String::new();
            true
        } else {
            assert(self@.filter =~= Seq::empty());
            false
        }
    }

    /// Whether the view is due to be drawn again at time `now`.
    pub fn should_refresh_ui(&self, now: u64) -> (due: bool)
        ensures
            due == (elapsed(self@.last_ui_refresh, now) >= self@.ui_refresh_interval),
    {
        let age: u64 = if now >= self.last_ui_refresh {
            now - self.last_ui_refresh
        } else {
            0
        };
        age >= self.ui_refresh_interval
    }

    /// Whether the data is due to be updated at time `now`.
    pub fn should_refresh_data(&self, now: u64) -> (due: bool)
        ensures
            due == (elapsed(self@.last_data_refresh, now) >= self@.data_refresh_interval),
    {
        let age: u64 = if now >= self.last_data_refresh {
            now - self.last_data_refresh
        } else {
            0
        };
        age >= self.data_refresh_interval
    }

    /// Records that the view was drawn at time `now`.
    pub fn refresh_ui(&mut self, now: u64)
        ensures
            final(self)@ == (AppView { last_ui_refresh: now, ..old(self)@ }),
    {
        self.last_ui_refresh = now;
    }

    /// Sorts the list by the chosen column and direction. The sort is
    /// stable: processes with equal values keep their order.
    pub fn sort_processes(&mut self)
        ensures
            old(self)@.is_sorted_as(final(self)@),
    {
        let sorted = sorted_by(&self.processes, self.sort_key, self.sort_ascending);
        self.processes = sorted;
    }

    /// Turns the direction of the sort and sorts the list again.
    pub fn toggle_sort(&mut self)
        ensures
            (AppView { sort_ascending: !old(self)@.sort_ascending, ..old(self)@ }).is_sorted_as(
                final(self)@,
            ),
    {
        self.sort_ascending = !self.sort_ascending;
        self.sort_processes();
    }

    /// Chooses the sort column and sorts the list again. Choosing the
    /// column already chosen turns the direction; a new column starts with
    /// the largest values first.
    pub fn set_sort_key(&mut self, key: SortKey)
        ensures
            old(self)@.with_sort_key(key).is_sorted_as(final(self)@),
    {
        if self.sort_key == key {
            self.sort_ascending = !self.sort_ascending;
        } else {
            self.sort_key = key;
            self.sort_ascending = false;
        }
        self.sort_processes();
    }

    /// The identifier of the process to terminate: that of the selected
    /// process. After the termination was asked for, a refresh is to be
    /// requested.
    pub fn kill_selected_process(&self) -> (pid: Option<u32>)
        ensures
            pid == self@.selected_pid(),
    {
        if self.selected_index < self.processes.len() {
            Some(self.processes[self.selected_index].pid)
        } else {
            None
        }
    }

    /// Adds `c` to the end of the filter and applies the filter.
    pub fn add_to_filter(&mut self, c: char)
        ensures
            final(self)@ == (AppView {
                filter: old(self)@.filter.push(c),
                ..old(self)@
            }).after_update_selection(),
    {
        push_char(&mut self.filter, c);
        self.update_selection();
    }

    /// Removes the last character of the filter, if it has one, and
    /// applies the filter.
    pub fn backspace_filter(&mut self)
        ensures
            final(self)@ == (AppView {
                filter: if old(self)@.filter.len() == 0 {
                    old(self)@.filter
                } else {
                    old(self)@.filter.drop_last()
                },
                ..old(self)@
            }).after_update_selection(),
    {
        pop_char(&mut self.filter);
        self.update_selection();
    }

    /// The `count` processes that use the most CPU and the `count` that
    /// use the most memory, largest first.
    pub fn top_processes(&self, count: usize) -> (top: (Vec<&ProcessInfo>, Vec<&ProcessInfo>))
        ensures
            is_top(self@.processes, borrowed_views(top.0@), SortKey::Cpu, count),
            is_top(self@.processes, borrowed_views(top.1@), SortKey::Memory, count),
    {
        (top_by(&self.processes, SortKey::Cpu, count), top_by(&self.processes, SortKey::Memory, count))
    }

    /// Applies an update from the monitor: a new list replaces the list,
    /// is filtered and sorted; system counters go into the system
    /// resources; a loading text replaces the loading text.
    pub fn apply(&mut self, update: ProcessUpdate)
        ensures
            match update {
                ProcessUpdate::ProcessList(list) => (AppView {
                    processes: process_views(list@),
                    ..old(self)@
                }).after_update_selection().is_sorted_as(final(self)@),
                ProcessUpdate::SystemInfo(cpu, used, total) => final(self)@ == (AppView {
                    system_resources: old(self)@.system_resources.updated(cpu, used, total),
                    ..old(self)@
                }),
                ProcessUpdate::LoadingStatus(text) => final(self)@ == (AppView {
                    loading_status: text@,
                    ..old(self)@
                }),
            },
    {
        match update {
            ProcessUpdate::ProcessList(list) => {
                self.processes = list;
                self.update_selection();
                self.sort_processes();
            },
            ProcessUpdate::SystemInfo(cpu, used, total) => {
                self.system_resources.update(cpu, used, total);
            },
            ProcessUpdate::LoadingStatus(text) => {
                self.loading_status = text;
            },
        }
    }
}

/// The first `count` processes of `list` sorted by `key`, largest first.
pub fn top_by(list: &Vec<ProcessInfo>, key: SortKey, count: usize) -> (top: Vec<&ProcessInfo>)
    ensures
        is_top(process_views(list@), borrowed_views(top@), key, count),
{
    let order = sort_order(list, key, false);
    let wanted: usize = if count <= list.len() {
        count
    } else {
        list.len()
    };
    let ghost views = process_views(list@);
    let ghost sorted = Seq::new(views.len(), |i: int| views[order@[i] as int]);
    let mut top: Vec<&ProcessInfo> = Vec::new();
    let mut i: usize = 0;
    while i < wanted
        invariant
            i <= wanted <= list.len(),
            views == process_views(list@),
            is_sort_order(views, key, false, 0, list.len() as int, order@),
            sorted == Seq::new(views.len(), |i: int| views[order@[i] as int]),
            borrowed_views(top@) == sorted.take(i as int),
        decreases wanted - i,
    {
        let info: &ProcessInfo = &list[order[i]];
        assert(borrowed_views(top@.push(info)) =~= borrowed_views(top@).push(info@));
        assert(sorted.take(i + 1) =~= sorted.take(i as int).push(sorted[i as int]));
        top.push(info);
        i += 1;
    }
    proof {
        assert(is_sorted_along(views, sorted, key, false, order@));
        assert(is_stable_sort(views, sorted, key, false));
    }
    top
}

} // verus!
