//! The process list: a snapshot of the device's processes, searched by
//! name, PID and user, and optionally ordered by a resource column.

use vstd::prelude::*;

use crate::device::{is_target, same_target, target_view, BridgeError, DeviceTarget};
use crate::text::{chars_of, contains, contains_text, decimal, decimal_chars, lowercase, string_of, to_lowercase, trim, trimmed};

verus! {

/// The column the list is ordered by; every order is descending, and `None`
/// keeps the backend's order.
#[derive(Clone, Copy, Debug, PartialEq, Eq, Structural)]
pub enum ProcessSort {
    Unsorted,
    Cpu,
    Memory,
    Resident,
}

impl Default for ProcessSort {
    fn default() -> (sort: Self)
        ensures
            sort == ProcessSort::Unsorted,
    {
        ProcessSort::Unsorted
    }
}

/// One process. Percentages are kept in hundredths of a percent.
#[derive(Clone, Debug, PartialEq, Eq)]
pub struct ProcessInfo {
    pub pid: u32,
    pub name: String,
    pub user: Option<String>,
    pub state: Option<String>,
    pub cpu_centi_percent: Option<u32>,
    pub memory_centi_percent: Option<u32>,
    pub resident_memory_kib: Option<u64>,
}

/// The value a column orders a process by; no column, or no data, gives none.
#[verifier::opaque]
pub open spec fn sort_key(sort: ProcessSort, process: ProcessInfo) -> Option<int> {
    match sort {
        ProcessSort::Cpu => match process.cpu_centi_percent {
            Some(v) => Some(v as int),
            None => None,
        },
        ProcessSort::Memory => match process.memory_centi_percent {
            Some(v) => Some(v as int),
            None => None,
        },
        ProcessSort::Resident => match process.resident_memory_kib {
            Some(v) => Some(v as int),
            None => None,
        },
        ProcessSort::Unsorted => None,
    }
}

/// The search box: a process matches when the trimmed, lower-cased needle
/// is empty or occurs in its lower-cased name, its PID in decimal or its
/// lower-cased user.
pub proof fn lemma_search_fields(process: ProcessInfo, search: Seq<char>)
    ensures
        search_hit(process, search) == (lowercase(trim(search)).len() == 0 || contains_text(lowercase(process.name@), lowercase(trim(search)))
            || contains_text(decimal(process.pid as nat), lowercase(trim(search))) || contains_text(
            lowercase(
                match process.user {
                    Some(u) => u@,
                    None => Seq::empty(),
                },
            ),
            lowercase(trim(search)),
        )),
{
    reveal(search_hit);
}

/// The columns: Cpu orders by the CPU share, Memory by the memory share,
/// Resident by the resident size, and no column by nothing.
pub proof fn lemma_sort_columns(process: ProcessInfo)
    ensures
        sort_key(ProcessSort::Cpu, process) == (match process.cpu_centi_percent {
            Some(v) => Some(v as int),
            None => None::<int>,
        }),
        sort_key(ProcessSort::Memory, process) == (match process.memory_centi_percent {
            Some(v) => Some(v as int),
            None => None::<int>,
        }),
        sort_key(ProcessSort::Resident, process) == (match process.resident_memory_kib {
            Some(v) => Some(v as int),
            None => None::<int>,
        }),
        sort_key(ProcessSort::Unsorted, process) is None,
{
    reveal(sort_key);
}

/// Rows in column order, stated by the process fields: under Cpu, Memory
/// and Resident a row with the value comes before every row without it, and
/// values never grow down the list.
pub proof fn lemma_row_order_columns(processes: Seq<ProcessInfo>, search: Seq<char>, sort: ProcessSort, rows: Seq<usize>)
    requires
        is_row_order(processes, search, sort, rows),
    ensures
        forall|a: int, b: int|
            0 <= a < b < rows.len() ==> column_descends(
                sort,
                #[trigger] processes[rows[a] as int],
                #[trigger] processes[rows[b] as int],
            ),
{
    assert forall|a: int, b: int|
        0 <= a < b < rows.len() implies column_descends(
            sort,
            #[trigger] processes[rows[a] as int],
            #[trigger] processes[rows[b] as int],
        ) by {
        lemma_sort_columns(processes[rows[a] as int]);
        lemma_sort_columns(processes[rows[b] as int]);
        assert(key_order(
            sort_key(sort, processes[rows[a] as int]),
            sort_key(sort, processes[rows[b] as int]),
        ) <= 0);
        reveal(key_order);
    }
}

/// `first` may stand above `second` in the given column: by CPU share,
/// memory share or resident size, larger first and missing values last.
pub open spec fn column_descends(sort: ProcessSort, first: ProcessInfo, second: ProcessInfo) -> bool {
    match sort {
        ProcessSort::Cpu => match (first.cpu_centi_percent, second.cpu_centi_percent) {
            (Some(x), Some(y)) => x >= y,
            (None, Some(_)) => false,
            _ => true,
        },
        ProcessSort::Memory => match (first.memory_centi_percent, second.memory_centi_percent) {
            (Some(x), Some(y)) => x >= y,
            (None, Some(_)) => false,
            _ => true,
        },
        ProcessSort::Resident => match (first.resident_memory_kib, second.resident_memory_kib) {
            (Some(x), Some(y)) => x >= y,
            (None, Some(_)) => false,
            _ => true,
        },
        ProcessSort::Unsorted => true,
    }
}

impl ProcessSort {
    /// The value this column orders `process` by.
    pub fn key(self, process: &ProcessInfo) -> (key: Option<u64>)
        ensures
            match key {
                Some(k) => sort_key(self, *process) == Some(k as int),
                None => sort_key(self, *process) is None,
            },
            key == match self {
                ProcessSort::Cpu => match process.cpu_centi_percent {
                    Some(v) => Some(v as u64),
                    None => None::<u64>,
                },
                ProcessSort::Memory => match process.memory_centi_percent {
                    Some(v) => Some(v as u64),
                    None => None::<u64>,
                },
                ProcessSort::Resident => process.resident_memory_kib,
                ProcessSort::Unsorted => None::<u64>,
            },
    {
        reveal(sort_key);
        match self {
            ProcessSort::Cpu => match process.cpu_centi_percent {
                Some(v) => Some(v as u64),
                None => None,
            },
            ProcessSort::Memory => match process.memory_centi_percent {
                Some(v) => Some(v as u64),
                None => None,
            },
            ProcessSort::Resident => process.resident_memory_kib,
            ProcessSort::Unsorted => None,
        }
    }
}

/// Descending order of keys with missing keys last: negative when `a` comes
/// first, zero when they tie.
#[verifier::opaque]
pub open spec fn key_order(a: Option<int>, b: Option<int>) -> int {
    match (a, b) {
        (Some(x), Some(y)) => if x > y {
            -1
        } else if x < y {
            1
        } else {
            0
        },
        (Some(_), None) => -1,
        (None, Some(_)) => 1,
        (None, None) => 0,
    }
}

/// Whether a process matches the search box: an empty (trimmed,
/// lower-cased) needle matches everything, otherwise the lower-cased name,
/// the PID or the lower-cased user must contain it.
#[verifier::opaque]
pub open spec fn search_hit(process: ProcessInfo, search: Seq<char>) -> bool {
    let needle = lowercase(trim(search));
    ||| needle.len() == 0
    ||| contains_text(lowercase(process.name@), needle)
    ||| contains_text(decimal(process.pid as nat), needle)
    ||| contains_text(
        lowercase(
            match process.user {
                Some(u) => u@,
                None => Seq::empty(),
            },
        ),
        needle,
    )
}

/// Case-insensitive search over the name, PID and user.
pub fn matches_search(process: &ProcessInfo, needle: &str) -> (hit: bool)
    ensures
        hit == search_hit(*process, needle@),
        hit == (lowercase(trim(needle@)).len() == 0 || contains_text(lowercase(process.name@), lowercase(trim(needle@)))
            || contains_text(decimal(process.pid as nat), lowercase(trim(needle@))) || contains_text(
            lowercase(
                match process.user {
                    Some(u) => u@,
                    None => Seq::empty(),
                },
            ),
            lowercase(trim(needle@)),
        )),
{
    reveal(search_hit);
    let cut = trimmed(needle);
    let needle = to_lowercase(cut.as_str());
    if needle.as_str().unicode_len() == 0 {
        return true;
    }
    let name = to_lowercase(process.name.as_str());
    if contains(name.as_str(), needle.as_str()) {
        return true;
    }
    let pid = string_of(decimal_chars(process.pid as u64).as_slice());
    if contains(pid.as_str(), needle.as_str()) {
        return true;
    }
    let user = match &process.user {
        Some(u) => to_lowercase(u.as_str()),
        None => to_lowercase(""),
    };
    proof {
        reveal_strlit("");
        assert(""@ =~= Seq::<char>::empty());
    }
    contains(user.as_str(), needle.as_str())
}

/// Clicking a column header: the active column goes back to the backend's
/// order, another column becomes active.
pub fn click_sort_header(sort: &mut ProcessSort, column: ProcessSort)
    ensures
        *final(sort) == if *old(sort) == column {
            ProcessSort::Unsorted
        } else {
            column
        },
{
    if *sort == column {
        *sort = ProcessSort::Unsorted;
    } else {
        *sort = column;
    }
}

/// `rows` lists, each once, exactly the processes matching the search,
/// ordered by the column (descending, missing values last), with ties in
/// list order.
pub open spec fn is_row_order(processes: Seq<ProcessInfo>, search: Seq<char>, sort: ProcessSort, rows: Seq<usize>) -> bool {
    &&& forall|k: int| 0 <= k < rows.len() ==> #[trigger] rows[k] < processes.len()
    &&& forall|k: int| 0 <= k < rows.len() ==> search_hit(processes[#[trigger] rows[k] as int], search)
    &&& forall|i: int|
        0 <= i < processes.len() && #[trigger] search_hit(processes[i], search) ==> exists|k: int|
            0 <= k < rows.len() && rows[k] == i
    &&& forall|a: int, b: int| 0 <= a < b < rows.len() ==> rows[a] != rows[b]
    &&& forall|a: int, b: int|
        0 <= a < b < rows.len() ==> key_order(
            sort_key(sort, processes[rows[a] as int]),
            sort_key(sort, processes[rows[b] as int]),
        ) <= 0
    &&& forall|a: int, b: int|
        0 <= a < b < rows.len() && key_order(
            sort_key(sort, processes[rows[a] as int]),
            sort_key(sort, processes[rows[b] as int]),
        ) == 0 ==> rows[a] < rows[b]
}

/// The rows built from the first `i` processes: the matching ones, each
/// once, in the order of the column with ties in list order.
#[verifier::opaque]
pub open spec fn rows_so_far(
    processes: Seq<ProcessInfo>,
    search: Seq<char>,
    sort: ProcessSort,
    rows: Seq<usize>,
    i: int,
) -> bool {
    &&& forall|k: int| 0 <= k < rows.len() ==> #[trigger] rows[k] < i
    &&& forall|k: int| 0 <= k < rows.len() ==> search_hit(processes[#[trigger] rows[k] as int], search)
    &&& forall|j: int|
        0 <= j < i && #[trigger] search_hit(processes[j], search) ==> exists|k: int|
            0 <= k < rows.len() && rows[k] == j
    &&& forall|a: int, b: int| 0 <= a < b < rows.len() ==> rows[a] != rows[b]
    &&& forall|a: int, b: int|
        0 <= a < b < rows.len() ==> key_order(
            sort_key(sort, processes[rows[a] as int]),
            sort_key(sort, processes[rows[b] as int]),
        ) <= 0
    &&& forall|a: int, b: int|
        0 <= a < b < rows.len() && key_order(
            sort_key(sort, processes[rows[a] as int]),
            sort_key(sort, processes[rows[b] as int]),
        ) == 0 ==> rows[a] < rows[b]
}

proof fn lemma_key_order_flip(a: Option<int>, b: Option<int>)
    ensures
        key_order(a, b) == -key_order(b, a),
{
    reveal(key_order);
}

/// Where an element of `rows` lands after inserting at `pos`.
proof fn lemma_inserted_index(old_rows: Seq<usize>, pos: int, v: usize, k: int)
    requires
        0 <= pos <= old_rows.len(),
        0 <= k < old_rows.len() + 1,
    ensures
        k < pos ==> old_rows.insert(pos, v)[k] == old_rows[k],
        k == pos ==> old_rows.insert(pos, v)[k] == v,
        k > pos ==> old_rows.insert(pos, v)[k] == old_rows[k - 1],
{
}

proof fn lemma_insert_row(
    ps: Seq<ProcessInfo>,
    search: Seq<char>,
    sort: ProcessSort,
    old_rows: Seq<usize>,
    pos: int,
    i: int,
)
    requires
        0 <= pos <= old_rows.len(),
        0 <= i < ps.len(),
        i + 1 <= usize::MAX,
        search_hit(ps[i], search),
        rows_so_far(ps, search, sort, old_rows, i),
        forall|k: int|
            0 <= k < pos ==> key_order(sort_key(sort, ps[#[trigger] old_rows[k] as int]), sort_key(sort, ps[i]))
                <= 0,
        forall|k: int|
            pos <= k < old_rows.len() ==> key_order(
                sort_key(sort, ps[#[trigger] old_rows[k] as int]),
                sort_key(sort, ps[i]),
            ) > 0,
    ensures
        rows_so_far(ps, search, sort, old_rows.insert(pos, i as usize), i + 1),
{
    reveal(rows_so_far);
    let rows = old_rows.insert(pos, i as usize);
    assert(rows.len() == old_rows.len() + 1);
    assert forall|k: int| 0 <= k < rows.len() implies #[trigger] rows[k] < i + 1 && search_hit(
        ps[rows[k] as int],
        search,
    ) by {
        lemma_inserted_index(old_rows, pos, i as usize, k);
        if k < pos {
            assert(old_rows[k] < i);
        } else if k > pos {
            assert(old_rows[k - 1] < i);
        }
    }
    assert forall|j: int| 0 <= j < i + 1 && #[trigger] search_hit(ps[j], search) implies exists|k: int|
        0 <= k < rows.len() && rows[k] == j by {
        if j == i {
            lemma_inserted_index(old_rows, pos, i as usize, pos);
        } else {
            let k = choose|k: int| 0 <= k < old_rows.len() && old_rows[k] == j;
            if k < pos {
                lemma_inserted_index(old_rows, pos, i as usize, k);
            } else {
                lemma_inserted_index(old_rows, pos, i as usize, k + 1);
            }
        }
    }
    assert forall|a: int, b: int| 0 <= a < b < rows.len() implies rows[a] != rows[b] && key_order(
        sort_key(sort, ps[rows[a] as int]),
        sort_key(sort, ps[rows[b] as int]),
    ) <= 0 && (key_order(sort_key(sort, ps[rows[a] as int]), sort_key(sort, ps[rows[b] as int])) == 0
        ==> rows[a] < rows[b]) by {
        lemma_inserted_index(old_rows, pos, i as usize, a);
        lemma_inserted_index(old_rows, pos, i as usize, b);
        if a == pos {
            assert(old_rows[b - 1] < i);
            lemma_key_order_flip(sort_key(sort, ps[old_rows[b - 1] as int]), sort_key(sort, ps[i]));
        } else if b == pos {
            assert(old_rows[a] < i);
        } else {
            let oa = if a < pos { a } else { a - 1 };
            let ob = if b < pos { b } else { b - 1 };
            assert(rows[a] == old_rows[oa]);
            assert(rows[b] == old_rows[ob]);
        }
    }
}

fn compare_keys(a: Option<u64>, b: Option<u64>) -> (order: i8)
    ensures
        order as int == key_order(
            match a {
                Some(x) => Some(x as int),
                None => None,
            },
            match b {
                Some(x) => Some(x as int),
                None => None,
            },
        ),
{
    reveal(key_order);
    match (a, b) {
        (Some(x), Some(y)) => if x > y {
            -1
        } else if x < y {
            1
        } else {
            0
        },
        (Some(_), None) => -1,
        (None, Some(_)) => 1,
        (None, None) => 0,
    }
}

/// Backend requests of the process list.
pub enum ProcessesCommand {
    LoadProcesses(DeviceTarget),
}

/// Backend reports the process list reacts to.
pub enum ProcessesEvent {
    ProcessesLoading(DeviceTarget),
    ProcessesLoaded { target: DeviceTarget, processes: Vec<ProcessInfo> },
    ProcessesFailed { target: DeviceTarget, error: BridgeError },
}

/// The process list.
pub struct ProcessesPanelState {
    pub target: Option<DeviceTarget>,
    pub processes: Vec<ProcessInfo>,
    pub loading: bool,
    pub search: String,
    pub sort: ProcessSort,
}

impl Default for ProcessesPanelState {
    fn default() -> (state: Self)
        ensures
            state.target is None,
            state.processes@.len() == 0,
            !state.loading,
            state.search@.len() == 0,
            state.sort == ProcessSort::Unsorted,
    {
        ProcessesPanelState {
            target: None,
            processes: Vec::new(),
            loading: false,
            search: String::new(),
            sort: ProcessSort::Unsorted,
        }
    }
}

fn copy_processes(processes: &Vec<ProcessInfo>) -> (copy: Vec<ProcessInfo>)
    ensures
        copy@ == processes@,
{
    let mut copy: Vec<ProcessInfo> = Vec::new();
    let mut k: usize = 0;
    while k < processes.len()
        invariant
            k <= processes@.len(),
            copy@ == processes@.take(k as int),
        decreases processes@.len() - k,
    {
        let p = &processes[k];
        let user = match &p.user {
            Some(u) => Some(u.clone()),
            None => None,
        };
        let state = match &p.state {
            Some(s) => Some(s.clone()),
            None => None,
        };
        copy.push(
            ProcessInfo {
                pid: p.pid,
                name: p.name.clone(),
                user,
                state,
                cpu_centi_percent: p.cpu_centi_percent,
                memory_centi_percent: p.memory_centi_percent,
                resident_memory_kib: p.resident_memory_kib,
            },
        );
        k = k + 1;
        assert(copy@ =~= processes@.take(k as int));
    }
    assert(processes@.take(processes@.len() as int) =~= processes@);
    copy
}

/// The list `after` following the device `target` from `before`: another
/// device empties it, keeping the search and the order.
pub open spec fn follows_target(before: ProcessesPanelState, after: ProcessesPanelState, target: Option<DeviceTarget>) -> bool {
    if target_view(before.target) == target_view(target) {
        after == before
    } else {
        after == (ProcessesPanelState { target, processes: after.processes, ..before }) && after.processes@.len() == 0
    }
}

impl ProcessesPanelState {
    /// Follows the selected device: another device empties the list.
    pub fn reset_for(&mut self, target: Option<DeviceTarget>)
        ensures
            follows_target(*old(self), *final(self), target),
    {
        if same_target(&self.target, &target) {
            return;
        }
        self.target = target;
        self.processes = Vec::new();
    }

    /// Applies one backend report about the current device.
    pub fn handle_event(&mut self, event: &ProcessesEvent)
        ensures
            match event {
                ProcessesEvent::ProcessesLoading(t) => if target_view(old(self).target) == Some(t@) {
                    *final(self) == (ProcessesPanelState { loading: true, ..*old(self) })
                } else {
                    *final(self) == *old(self)
                },
                ProcessesEvent::ProcessesLoaded { target: t, processes } => if target_view(
                    old(self).target,
                ) == Some(t@) {
                    final(self).processes@ == processes@ && *final(self) == (ProcessesPanelState {
                        loading: false,
                        processes: final(self).processes,
                        ..*old(self)
                    })
                } else {
                    *final(self) == *old(self)
                },
                ProcessesEvent::ProcessesFailed { target: t, .. } => if target_view(old(self).target)
                    == Some(t@) {
                    *final(self) == (ProcessesPanelState { loading: false, ..*old(self) })
                } else {
                    *final(self) == *old(self)
                },
            },
    {
        match event {
            ProcessesEvent::ProcessesLoading(t) => {
                if is_target(&self.target, t) {
                    self.loading = true;
                }
            },
            ProcessesEvent::ProcessesLoaded { target: t, processes } => {
                if is_target(&self.target, t) {
                    self.loading = false;
                    self.processes = copy_processes(processes);
                }
            },
            ProcessesEvent::ProcessesFailed { target: t, .. } => {
                if is_target(&self.target, t) {
                    self.loading = false;
                }
            },
        }
    }

    /// The refresh button: a click with a device and no load under way asks
    /// for a new snapshot.
    pub fn refresh(&mut self) -> (command: Option<ProcessesCommand>)
        ensures
            match old(self).target {
                Some(t) => if !old(self).loading {
                    (command matches Some(ProcessesCommand::LoadProcesses(c)) && c@ == t@)
                        && *final(self) == (ProcessesPanelState { loading: true, ..*old(self) })
                } else {
                    command is None && *final(self) == *old(self)
                },
                None => command is None && *final(self) == *old(self),
            },
    {
        if self.loading {
            return None;
        }
        match &self.target {
            Some(t) => {
                let target = t.duplicate();
                self.loading = true;
                Some(ProcessesCommand::LoadProcesses(target))
            },
            None => None,
        }
    }

    /// Puts row `i` among `rows` after every row that does not order after it.
    fn insert_row(&self, rows: &mut Vec<usize>, i: usize)
        requires
            i < self.processes.len(),
            search_hit(self.processes@[i as int], self.search@),
            rows_so_far(self.processes@, self.search@, self.sort, old(rows)@, i as int),
        ensures
            rows_so_far(self.processes@, self.search@, self.sort, final(rows)@, i + 1),
    {
        let ghost ps = self.processes@;
        proof {
            reveal(rows_so_far);
        }
        let key_i = self.sort.key(&self.processes[i]);
        let mut pos: usize = rows.len();
        while pos > 0 && compare_keys(self.sort.key(&self.processes[rows[pos - 1]]), key_i) > 0
            invariant
                pos <= rows@.len(),
                i < ps.len(),
                ps == self.processes@,
                rows@ == old(rows)@,
                forall|k: int| 0 <= k < rows@.len() ==> #[trigger] rows@[k] < i,
                key_i matches Some(x) ==> sort_key(self.sort, ps[i as int]) == Some(x as int),
                key_i is None ==> sort_key(self.sort, ps[i as int]) is None,
                forall|k: int|
                    pos <= k < rows@.len() ==> key_order(
                        sort_key(self.sort, ps[#[trigger] rows@[k] as int]),
                        sort_key(self.sort, ps[i as int]),
                    ) > 0,
            decreases pos,
        {
            pos = pos - 1;
        }
        let ghost old_rows = rows@;
        proof {
            reveal(key_order);
            assert forall|k: int| 0 <= k < pos implies key_order(
                sort_key(self.sort, ps[#[trigger] old_rows[k] as int]),
                sort_key(self.sort, ps[i as int]),
            ) <= 0 by {
                if pos > 0 {
                    assert(key_order(
                        sort_key(self.sort, ps[old_rows[pos - 1] as int]),
                        sort_key(self.sort, ps[i as int]),
                    ) <= 0);
                    if k < pos - 1 {
                        assert(key_order(
                            sort_key(self.sort, ps[old_rows[k] as int]),
                            sort_key(self.sort, ps[old_rows[pos - 1] as int]),
                        ) <= 0);
                    }
                }
            }
            lemma_insert_row(ps, self.search@, self.sort, old_rows, pos as int, i as int);
        }
        rows.insert(pos, i);
    }

    /// The rows shown, as indices into the list: the processes matching the
    /// search, ordered by the active column.
    pub fn visible_rows(&self) -> (rows: Vec<usize>)
        ensures
            is_row_order(self.processes@, self.search@, self.sort, rows@),
            forall|a: int, b: int|
                0 <= a < b < rows@.len() ==> column_descends(
                    self.sort,
                    #[trigger] self.processes@[rows@[a] as int],
                    #[trigger] self.processes@[rows@[b] as int],
                ),
    {
        let n = self.processes.len();
        let mut rows: Vec<usize> = Vec::new();
        proof {
            reveal(rows_so_far);
        }
        let mut i: usize = 0;
        while i < n
            invariant
                i <= n == self.processes@.len(),
                rows_so_far(self.processes@, self.search@, self.sort, rows@, i as int),
            decreases n - i,
        {
            if matches_search(&self.processes[i], self.search.as_str()) {
                self.insert_row(&mut rows, i);
            } else {
                proof {
                    reveal(rows_so_far);
                    let ps = self.processes@;
                    assert forall|j: int| 0 <= j < i + 1 && #[trigger] search_hit(ps[j], self.search@) implies exists|
                        k: int,
                    | 0 <= k < rows@.len() && rows@[k] == j by {
                        assert(j != i);
                    }
                }
            }
            i = i + 1;
        }
        proof {
            reveal(rows_so_far);
            lemma_row_order_columns(self.processes@, self.search@, self.sort, rows@);
        }
        rows
    }
}

} // verus!
