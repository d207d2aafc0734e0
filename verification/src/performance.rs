//! Live performance: the latest CPU and memory reading of the device, a
//! one-minute window of samples for the charts, and the runs of present
//! values a chart draws.

use vstd::prelude::*;

use crate::device::{is_target, same_target, target_view, BridgeError, DeviceTarget};
use crate::text::{chars_of, decimal, decimal_chars, push_chars, string_of};

verus! {

/// Samples kept: one a second, so the charts cover the last minute.
pub const MAX_SAMPLES: usize = 60;

/// What one performance snapshot says about CPU and memory. The CPU share
/// is kept in hundredths of a percent.
#[derive(Clone, Copy, Debug, PartialEq, Eq, Structural)]
pub struct PerformanceReading {
    pub cpu_centi_percent: Option<u32>,
    pub memory_total_kib: Option<u64>,
    pub memory_available_kib: Option<u64>,
}

/// One point of the charts.
#[derive(Clone, Copy, Debug, PartialEq, Eq, Structural)]
pub struct Sample {
    pub cpu_centi_percent: Option<u32>,
    pub memory_used_kib: Option<u64>,
}

/// Memory in use: total minus available, not below zero; unknown unless both
/// are known.
pub open spec fn used_kib(reading: PerformanceReading) -> Option<u64> {
    match (reading.memory_total_kib, reading.memory_available_kib) {
        (Some(total), Some(available)) => Some(
            if total >= available {
                (total - available) as u64
            } else {
                0
            },
        ),
        _ => None,
    }
}

/// The chart point of a reading.
pub open spec fn sample_of(reading: PerformanceReading) -> Sample {
    Sample { cpu_centi_percent: reading.cpu_centi_percent, memory_used_kib: used_kib(reading) }
}

/// The last `n` elements of `s` (all of them when it is shorter).
pub open spec fn last_n(s: Seq<Sample>, n: nat) -> Seq<Sample> {
    if s.len() <= n {
        s
    } else {
        s.skip(s.len() - n)
    }
}

/// The memory line: `used / total MiB`, or `-` unless both are known.
pub open spec fn memory_text(reading: PerformanceReading) -> Seq<char> {
    match (reading.memory_total_kib, reading.memory_available_kib) {
        (Some(total), Some(_)) => decimal((used_kib(reading)->0 / 1024) as nat) + " / "@ + decimal(
            (total / 1024) as nat,
        ) + " MiB"@,
        _ => "-"@,
    }
}

/// The memory line of the summary grid.
pub fn format_memory(reading: &PerformanceReading) -> (text: String)
    ensures
        text@ == memory_text(*reading),
{
    match (reading.memory_total_kib, reading.memory_available_kib) {
        (Some(total), Some(available)) => {
            let used = if total >= available {
                total - available
            } else {
                0
            };
            let mut text = string_of(decimal_chars(used / 1024).as_slice());
            push_chars(&mut text, chars_of(" / ").as_slice());
            push_chars(&mut text, decimal_chars(total / 1024).as_slice());
            push_chars(&mut text, chars_of(" MiB").as_slice());
            text
        },
        _ => string_of(chars_of("-").as_slice()),
    }
}

/// `runs` are the maximal stretches `[start, end)` of present values, left
/// to right.
pub open spec fn is_runs(present: Seq<bool>, runs: Seq<(usize, usize)>) -> bool {
    &&& forall|r: int| 0 <= r < runs.len() ==> #[trigger] runs[r].0 < runs[r].1 <= present.len()
    &&& forall|r: int, k: int|
        #![trigger runs[r], present[k]]
        0 <= r < runs.len() && runs[r].0 <= k < runs[r].1 ==> present[k]
    &&& forall|r: int| 0 <= r < runs.len() && runs[r].0 > 0 ==> !present[#[trigger] runs[r].0 - 1]
    &&& forall|r: int| 0 <= r < runs.len() && runs[r].1 < present.len() ==> !present[#[trigger] runs[r].1 as int]
    &&& forall|r: int, q: int| 0 <= r < q < runs.len() ==> #[trigger] runs[r].1 < #[trigger] runs[q].0
    &&& forall|k: int| 0 <= k < present.len() && #[trigger] present[k] ==> exists|r: int|
        0 <= r < runs.len() && (#[trigger] runs[r]).0 <= k < runs[r].1
}

/// The stretches of consecutive present values of a chart series.
pub fn present_runs(present: &Vec<bool>) -> (runs: Vec<(usize, usize)>)
    ensures
        is_runs(present@, runs@),
{
    let n = present.len();
    let mut runs: Vec<(usize, usize)> = Vec::new();
    let mut k: usize = 0;
    while k < n
        invariant
            k <= n == present@.len(),
            k < n ==> (k == 0 || !present@[k - 1]),
            forall|r: int| 0 <= r < runs@.len() ==> #[trigger] runs@[r].0 < runs@[r].1 <= k,
            forall|r: int, j: int|
                #![trigger runs@[r], present@[j]]
                0 <= r < runs@.len() && runs@[r].0 <= j < runs@[r].1 ==> present@[j],
            forall|r: int| 0 <= r < runs@.len() && runs@[r].0 > 0 ==> !present@[#[trigger] runs@[r].0 - 1],
            forall|r: int| 0 <= r < runs@.len() && runs@[r].1 < n ==> !present@[#[trigger] runs@[r].1 as int],
            forall|r: int, q: int| 0 <= r < q < runs@.len() ==> #[trigger] runs@[r].1 < #[trigger] runs@[q].0,
            forall|j: int| 0 <= j < k && #[trigger] present@[j] ==> exists|r: int|
                0 <= r < runs@.len() && (#[trigger] runs@[r]).0 <= j < runs@[r].1,
        decreases n - k,
    {
        if !present[k] {
            k = k + 1;
            continue;
        }
        let start = k;
        while k < n && present[k]
            invariant
                start <= k <= n == present@.len(),
                forall|j: int| start <= j < k ==> present@[j],
            decreases n - k,
        {
            k = k + 1;
        }
        let ghost old_runs = runs@;
        runs.push((start, k));
        proof {
            let r_new = old_runs.len() as int;
            assert(runs@[r_new] == (start, k));
            assert forall|j: int| 0 <= j < k && #[trigger] present@[j] implies exists|r: int|
                0 <= r < runs@.len() && (#[trigger] runs@[r]).0 <= j < runs@[r].1 by {
                if j >= start {
                    assert(runs@[r_new].0 <= j < runs@[r_new].1);
                } else {
                    let r = choose|r: int| 0 <= r < old_runs.len() && (#[trigger] old_runs[r]).0 <= j < old_runs[r].1;
                    assert(runs@[r] == old_runs[r]);
                }
            }
            assert forall|r: int, q: int| 0 <= r < q < runs@.len() implies #[trigger] runs@[r].1
                < #[trigger] runs@[q].0 by {
                if q == r_new {
                    assert(runs@[r] == old_runs[r]);
                    if old_runs[r].1 == start {
                        assert(!present@[start as int]);
                    }
                } else {
                    assert(runs@[r] == old_runs[r]);
                    assert(runs@[q] == old_runs[q]);
                }
            }
            assert forall|r: int| 0 <= r < runs@.len() && runs@[r].1 < n implies !present@[#[trigger] runs@[r].1 as int] by {
                if r < r_new {
                    assert(runs@[r] == old_runs[r]);
                }
            }
        }
        if k < n {
            k = k + 1;
        }
    }
    runs
}

/// Backend requests of the performance panel.
pub enum PerformanceCommand {
    LoadPerformance(DeviceTarget),
}

/// Backend reports the performance panel reacts to.
pub enum PerformanceEvent {
    PerformanceLoading(DeviceTarget),
    PerformanceLoaded { target: DeviceTarget, reading: PerformanceReading },
    PerformanceFailed { target: DeviceTarget, error: BridgeError },
}

/// The performance panel. The full snapshot (load averages and the like,
/// decimal numbers) is kept and shown by the application shell.
pub struct PerformancePanelState {
    pub target: Option<DeviceTarget>,
    pub latest: Option<PerformanceReading>,
    pub loading: bool,
    /// The chart window, oldest first, at most `MAX_SAMPLES` long.
    pub samples: Vec<Sample>,
}

impl Default for PerformancePanelState {
    fn default() -> (state: Self)
        ensures
            state.target is None,
            state.latest is None,
            !state.loading,
            state.samples@.len() == 0,
    {
        PerformancePanelState { target: None, latest: None, loading: false, samples: Vec::new() }
    }
}

/// The panel `after` following the device `target` from `before`: another
/// device drops the reading and the chart window.
pub open spec fn follows_target(
    before: PerformancePanelState,
    after: PerformancePanelState,
    target: Option<DeviceTarget>,
) -> bool {
    if target_view(before.target) == target_view(target) {
        after == before
    } else {
        after == (PerformancePanelState { target, latest: None, samples: after.samples, ..before })
            && after.samples@.len() == 0
    }
}

impl PerformancePanelState {
    /// Follows the selected device: another device drops the reading and
    /// the chart window. Returns whether it did, so the shell drops its
    /// snapshot too.
    pub fn reset_for(&mut self, target: Option<DeviceTarget>) -> (cleared: bool)
        ensures
            cleared == (target_view(old(self).target) != target_view(target)),
            follows_target(*old(self), *final(self), target),
    {
        if same_target(&self.target, &target) {
            return false;
        }
        self.target = target;
        self.latest = None;
        self.samples = Vec::new();
        true
    }

    /// Applies one backend report about the current device; a reading
    /// becomes the latest and joins the chart window, whose oldest samples
    /// drop out beyond the limit.
    pub fn handle_event(&mut self, event: &PerformanceEvent)
        ensures
            match event {
                PerformanceEvent::PerformanceLoading(t) => if target_view(old(self).target) == Some(t@) {
                    *final(self) == (PerformancePanelState { loading: true, ..*old(self) })
                } else {
                    *final(self) == *old(self)
                },
                PerformanceEvent::PerformanceLoaded { target: t, reading } => if target_view(
                    old(self).target,
                ) == Some(t@) {
                    &&& final(self).samples@ == last_n(
                        old(self).samples@.push(sample_of(*reading)),
                        MAX_SAMPLES as nat,
                    )
                    &&& *final(self) == (PerformancePanelState {
                        loading: false,
                        latest: Some(*reading),
                        samples: final(self).samples,
                        ..*old(self)
                    })
                } else {
                    *final(self) == *old(self)
                },
                PerformanceEvent::PerformanceFailed { target: t, .. } => if target_view(old(self).target)
                    == Some(t@) {
                    *final(self) == (PerformancePanelState { loading: false, ..*old(self) })
                } else {
                    *final(self) == *old(self)
                },
            },
    {
        match event {
            PerformanceEvent::PerformanceLoading(t) => {
                if is_target(&self.target, t) {
                    self.loading = true;
                }
            },
            PerformanceEvent::PerformanceLoaded { target: t, reading } => {
                if is_target(&self.target, t) {
                    self.loading = false;
                    self.latest = Some(*reading);
                    let used = match (reading.memory_total_kib, reading.memory_available_kib) {
                        (Some(total), Some(available)) => Some(
                            if total >= available {
                                total - available
                            } else {
                                0
                            },
                        ),
                        _ => None,
                    };
                    let mut samples: Vec<Sample> = Vec::new();
                    std::mem::swap(&mut samples, &mut self.samples);
                    let ghost before = samples@;
                    samples.push(Sample { cpu_centi_percent: reading.cpu_centi_percent, memory_used_kib: used });
                    assert(samples@ == before.push(sample_of(*reading)));
                    let ghost all = samples@;
                    let total = samples.len();
                    let mut dropped: usize = 0;
                    while samples.len() > MAX_SAMPLES
                        invariant
                            samples@ == all.skip(dropped as int),
                            dropped <= all.len() == total,
                            dropped > 0 ==> all.len() - dropped >= MAX_SAMPLES,
                        decreases samples@.len(),
                    {
                        samples.remove(0);
                        dropped = dropped + 1;
                        assert(samples@ =~= all.skip(dropped as int));
                    }
                    proof {
                        if all.len() <= MAX_SAMPLES {
                            assert(all.skip(0) =~= all);
                        } else {
                            assert(dropped == all.len() - MAX_SAMPLES);
                        }
                    }
                    self.samples = samples;
                }
            },
            PerformanceEvent::PerformanceFailed { target: t, .. } => {
                if is_target(&self.target, t) {
                    self.loading = false;
                }
            },
        }
    }

    /// The refresh button, enabled with a device while no load runs.
    pub fn refresh(&mut self) -> (command: Option<PerformanceCommand>)
        ensures
            match old(self).target {
                Some(t) => if !old(self).loading {
                    (command matches Some(PerformanceCommand::LoadPerformance(c)) && c@ == t@)
                        && *final(self) == (PerformancePanelState { loading: true, ..*old(self) })
                } else {
                    command is None && *final(self) == *old(self)
                },
                None => command is None && *final(self) == *old(self),
            },
    {
        if self.loading {
            return None;
        }
        match &self.target {
            Some(t) => {
                let target = t.duplicate();
                self.loading = true;
                Some(PerformanceCommand::LoadPerformance(target))
            },
            None => None,
        }
    }
}

/// The chart window never grows past its limit and always ends with the
/// newest sample.
pub proof fn lemma_window_bounded(samples: Seq<Sample>, newest: Sample)
    requires
        samples.len() <= MAX_SAMPLES,
    ensures
        last_n(samples.push(newest), MAX_SAMPLES as nat).len() <= MAX_SAMPLES,
        last_n(samples.push(newest), MAX_SAMPLES as nat).last() == newest,
{
}

} // verus!
