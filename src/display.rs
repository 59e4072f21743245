use vstd::prelude::*;
use crate::format::{decimal, push_decimal};
use crate::graph::{GraphView, SeriesGraph, SeriesView, recorded_series};

verus! {

/// Samples kept per series: one more than the ticks of history shown.
pub const HISTORY_LEN: usize = 61;

/// A share of one whole, in ten-thousandths: the full value of CPU, RAM and
/// swap samples.
pub const FULL_SHARE: u64 = 10_000;

/// The colour slot of the RAM series.
pub const RAM_COLOR: usize = 4;

/// The colour slot of the swap series.
pub const SWAP_COLOR: usize = 2;

/// `used / total` in ten-thousandths, at most one whole; 0 when `total` is 0.
pub open spec fn share(used: nat, total: nat) -> u64 {
    if total == 0 {
        0
    } else if used >= total {
        FULL_SHARE
    } else {
        ((used * (FULL_SHARE as nat)) / total) as u64
    }
}

/// Graph `g` after series `i` has recorded `vs[i]`, for each `i < n`.
pub open spec fn recorded_prefix(g: GraphView, vs: Seq<u64>, n: nat) -> GraphView
    decreases n,
{
    if n == 0 {
        g
    } else {
        recorded_series(recorded_prefix(g, vs, (n - 1) as nat), n - 1, vs[n - 1])
    }
}

/// A fresh series: a window of zeros, no fixed maximum.
pub open spec fn fresh_series(label: Seq<char>, color: Option<usize>) -> SeriesView {
    SeriesView {
        samples: Seq::new(HISTORY_LEN as nat, |i: int| 0u64),
        label,
        color,
        fixed_max: None,
    }
}

/// The label of the history of core `i`.
pub open spec fn core_label(i: nat) -> Seq<char> {
    seq!['p', 'r', 'o', 'c', 'e', 's', 's', ' '] + decimal(i)
}

/// The number of cores whose history is kept when the processor list has
/// `n` entries: every entry but the first, which is the total.
pub open spec fn core_count(n: nat) -> nat {
    if n == 0 {
        0
    } else {
        (n - 1) as nat
    }
}

/// The per-core samples of a processor list: all entries but the first.
pub open spec fn core_samples(s: Seq<u64>) -> Seq<u64> {
    if s.len() == 0 {
        s
    } else {
        s.subrange(1, s.len() as int)
    }
}

pub open spec fn min_nat(a: nat, b: nat) -> nat {
    if a <= b {
        a
    } else {
        b
    }
}

/// The histories behind the system usage panel: one graph for the cores,
/// one for RAM and swap, one for component temperatures and one for network
/// traffic.
pub struct DisplaySysInfo {
    pub cpu_usage_history: SeriesGraph,
    pub ram_usage_history: SeriesGraph,
    pub temperature_usage_history: SeriesGraph,
    pub network_history: SeriesGraph,
}

impl DisplaySysInfo {
    pub open spec fn wf(&self) -> bool {
        &&& self.cpu_usage_history.wf()
        &&& self.ram_usage_history.wf()
        &&& self.temperature_usage_history.wf()
        &&& self.network_history.wf()
        &&& self.ram_usage_history@.series.len() == 2
        &&& self.network_history@.series.len() == 2
    }

    /// Builds the histories for a processor list of `processor_count`
    /// entries (the first being the total) and the given components, every
    /// window filled with zeros.
    pub fn new(processor_count: usize, component_labels: &Vec<String>) -> (r: DisplaySysInfo)
        ensures
            r.wf(),
            r.cpu_usage_history@ == (GraphView {
                series: Seq::new(
                    core_count(processor_count as nat),
                    |i: int| fresh_series(core_label((i + 1) as nat), None),
                ),
                window: HISTORY_LEN as nat,
                global_max: Some(FULL_SHARE),
                dirty: true,
            }),
            r.ram_usage_history@ == (GraphView {
                series: seq![
                    fresh_series("RAM"@, Some(RAM_COLOR)),
                    fresh_series("Swap"@, Some(SWAP_COLOR)),
                ],
                window: HISTORY_LEN as nat,
                global_max: Some(FULL_SHARE),
                dirty: true,
            }),
            r.temperature_usage_history@ == (GraphView {
                series: Seq::new(
                    component_labels@.len(),
                    |i: int| fresh_series(component_labels@[i]@, None),
                ),
                window: HISTORY_LEN as nat,
                global_max: None,
                dirty: true,
            }),
            r.network_history@ == (GraphView {
                series: seq![
                    fresh_series("Input data"@, None),
                    fresh_series("Output data"@, None),
                ],
                window: HISTORY_LEN as nat,
                global_max: None,
                dirty: true,
            }),
    {
        let cores: usize = if processor_count == 0 {
            0
        } else {
            processor_count - 1
        };
        let mut cpu = SeriesGraph::new(HISTORY_LEN, Some(FULL_SHARE));
        let mut i: usize = 0;
        assert(cpu@.series =~= Seq::new(0, |j: int| fresh_series(core_label((j + 1) as nat), None)));
        while i < cores
            invariant
                cores == core_count(processor_count as nat),
                i <= cores,
                cpu.wf(),
                cpu@ == (GraphView {
                    series: Seq::new(i as nat, |j: int| fresh_series(core_label((j + 1) as nat), None)),
                    window: HISTORY_LEN as nat,
                    global_max: Some(FULL_SHARE),
                    dirty: true,
                }),
            decreases cores - i,
        {
            let label = core_label_string(i + 1);
            cpu.register_series(label.as_str(), None, None);
            i = i + 1;
            assert(cpu@.series =~= Seq::new(
                i as nat,
                |j: int| fresh_series(core_label((j + 1) as nat), None),
            ));
        }
        let mut ram = SeriesGraph::new(HISTORY_LEN, Some(FULL_SHARE));
        ram.register_series("RAM", Some(RAM_COLOR), None);
        ram.register_series("Swap", Some(SWAP_COLOR), None);
        assert(ram@.series =~= seq![
            fresh_series("RAM"@, Some(RAM_COLOR)),
            fresh_series("Swap"@, Some(SWAP_COLOR)),
        ]);
        let mut temperature = SeriesGraph::new(HISTORY_LEN, None);
        let mut c: usize = 0;
        assert(temperature@.series =~= Seq::new(0, |j: int| fresh_series(component_labels@[j]@, None)));
        while c < component_labels.len()
            invariant
                c <= component_labels@.len(),
                temperature.wf(),
                temperature@ == (GraphView {
                    series: Seq::new(c as nat, |j: int| fresh_series(component_labels@[j]@, None)),
                    window: HISTORY_LEN as nat,
                    global_max: None,
                    dirty: true,
                }),
            decreases component_labels@.len() - c,
        {
            temperature.register_series(component_labels[c].as_str(), None, None);
            c = c + 1;
            assert(temperature@.series =~= Seq::new(
                c as nat,
                |j: int| fresh_series(component_labels@[j]@, None),
            ));
        }
        let mut network = SeriesGraph::new(HISTORY_LEN, None);
        network.register_series("Input data", None, None);
        network.register_series("Output data", None, None);
        assert(network@.series =~= seq![
            fresh_series("Input data"@, None),
            fresh_series("Output data"@, None),
        ]);
        DisplaySysInfo {
            cpu_usage_history: cpu,
            ram_usage_history: ram,
            temperature_usage_history: temperature,
            network_history: network,
        }
    }

    /// Records one tick of memory, temperature and network samples: the RAM
    /// share of the total RAM, the swap share of the larger of total swap and
    /// total RAM, one temperature per component (as far as both lists go),
    /// and the bytes received and sent. The dirty flags are left as they are.
    pub fn update_ram_display(
        &mut self,
        total_ram: u64,
        used_ram: u64,
        total_swap: u64,
        used_swap: u64,
        temperatures: &Vec<u64>,
        income: u64,
        outcome: u64,
    )
        requires
            old(self).wf(),
        ensures
            final(self).wf(),
            final(self).cpu_usage_history@ == old(self).cpu_usage_history@,
            final(self).ram_usage_history@ == recorded_series(
                recorded_series(
                    old(self).ram_usage_history@,
                    0,
                    share(used_ram as nat, total_ram as nat),
                ),
                1,
                share(
                    used_swap as nat,
                    if total_swap >= total_ram {
                        total_swap as nat
                    } else {
                        total_ram as nat
                    },
                ),
            ),
            final(self).temperature_usage_history@ == recorded_prefix(
                old(self).temperature_usage_history@,
                temperatures@,
                min_nat(
                    temperatures@.len(),
                    old(self).temperature_usage_history@.series.len(),
                ),
            ),
            final(self).network_history@ == recorded_series(
                recorded_series(old(self).network_history@, 0, income),
                1,
                outcome,
            ),
    {
        self.ram_usage_history.record(0, share_of(used_ram, total_ram));
        let swap_total = if total_swap >= total_ram {
            total_swap
        } else {
            total_ram
        };
        self.ram_usage_history.record(1, share_of(used_swap, swap_total));

        let n: usize = if temperatures.len() <= self.temperature_usage_history.series_count() {
            temperatures.len()
        } else {
            self.temperature_usage_history.series_count()
        };
        let mut pos: usize = 0;
        while pos < n
            invariant
                pos <= n,
                n == min_nat(
                    temperatures@.len(),
                    old(self).temperature_usage_history@.series.len(),
                ),
                self.temperature_usage_history.wf(),
                self.temperature_usage_history@ == recorded_prefix(
                    old(self).temperature_usage_history@,
                    temperatures@,
                    pos as nat,
                ),
                self.temperature_usage_history@.series.len()
                    == old(self).temperature_usage_history@.series.len(),
                self.cpu_usage_history == old(self).cpu_usage_history,
                self.ram_usage_history.wf(),
                self.ram_usage_history@.series.len() == 2,
                self.ram_usage_history@ == recorded_series(
                    recorded_series(
                        old(self).ram_usage_history@,
                        0,
                        share(used_ram as nat, total_ram as nat),
                    ),
                    1,
                    share(used_swap as nat, swap_total as nat),
                ),
                self.network_history == old(self).network_history,
            decreases n - pos,
        {
            self.temperature_usage_history.record(pos, temperatures[pos]);
            pos = pos + 1;
        }

        self.network_history.record(0, income);
        self.network_history.record(1, outcome);
    }

    /// Records one tick of core usage (every entry of `cpu_usages` but the
    /// first, which is the total, as far as there are core series), then
    /// marks all four graphs dirty so the next paint shows the whole tick.
    pub fn update_process_display(&mut self, cpu_usages: &Vec<u64>)
        requires
            old(self).wf(),
        ensures
            final(self).wf(),
            final(self).cpu_usage_history@ == (GraphView {
                dirty: true,
                ..recorded_prefix(
                    old(self).cpu_usage_history@,
                    core_samples(cpu_usages@),
                    min_nat(
                        core_count(cpu_usages@.len()),
                        old(self).cpu_usage_history@.series.len(),
                    ),
                )
            }),
            final(self).ram_usage_history@ == (GraphView {
                dirty: true,
                ..old(self).ram_usage_history@
            }),
            final(self).temperature_usage_history@ == (GraphView {
                dirty: true,
                ..old(self).temperature_usage_history@
            }),
            final(self).network_history@ == (GraphView {
                dirty: true,
                ..old(self).network_history@
            }),
    {
        let cores: usize = if cpu_usages.len() == 0 {
            0
        } else {
            cpu_usages.len() - 1
        };
        let n: usize = if cores <= self.cpu_usage_history.series_count() {
            cores
        } else {
            self.cpu_usage_history.series_count()
        };
        let mut i: usize = 0;
        while i < n
            invariant
                i <= n,
                n == min_nat(
                    core_count(cpu_usages@.len()),
                    old(self).cpu_usage_history@.series.len(),
                ),
                self.cpu_usage_history.wf(),
                self.cpu_usage_history@ == recorded_prefix(
                    old(self).cpu_usage_history@,
                    core_samples(cpu_usages@),
                    i as nat,
                ),
                self.cpu_usage_history@.series.len() == old(self).cpu_usage_history@.series.len(),
                self.ram_usage_history == old(self).ram_usage_history,
                self.temperature_usage_history == old(self).temperature_usage_history,
                self.network_history == old(self).network_history,
            decreases n - i,
        {
            self.cpu_usage_history.record(i, cpu_usages[i + 1]);
            i = i + 1;
        }
        self.cpu_usage_history.invalidate();
        self.ram_usage_history.invalidate();
        self.temperature_usage_history.invalidate();
        self.network_history.invalidate();
    }
}

/// `used / total` in ten-thousandths.
fn share_of(used: u64, total: u64) -> (r: u64)
    ensures
        r == share(used as nat, total as nat),
{
    if total == 0 {
        0
    } else if used >= total {
        FULL_SHARE
    } else {
        assert((used as u128) * (FULL_SHARE as u128) <= 0xffff_ffff_ffff_ffffu128 * 10_000u128)
            by (nonlinear_arith)
            requires
                used <= 0xffff_ffff_ffff_ffffu128,
        ;
        let scaled: u128 = (used as u128) * (FULL_SHARE as u128);
        let q: u128 = scaled / (total as u128);
        assert(q < FULL_SHARE) by (nonlinear_arith)
            requires
                q == scaled / (total as u128),
                scaled == (used as u128) * 10_000u128,
                used < total,
                FULL_SHARE == 10_000u64,
        ;
        q as u64
    }
}

/// The label of the history of core `i`.
fn core_label_string(i: usize) -> (r: String)
    ensures
        r@ == core_label(i as nat),
{
    let mut r = String::new();
    proof {
        reveal_strlit("process ");
    }
    r.append("process ");
    push_decimal(&mut r, i as u64);
    r
}

} // verus!
