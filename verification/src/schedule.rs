//! The order in which the host builds, dumps, proves and emulates the
//! subblock programs and the aggregation program.

use vstd::prelude::*;

use vstd::arithmetic::div_mod::{lemma_fundamental_div_mod, lemma_mod_pos_bound};

use crate::paths::HostFlavor;

verus! {

/// One unit of host work.
#[derive(Clone, Copy, Debug, PartialEq, Eq, Structural)]
pub enum Step {
    /// Write the ELF of the subblock program and of the aggregation program
    /// to disk.
    DumpProgramElfs,
    /// Build the aggregation program's input, with the subblock proofs when
    /// there are any.
    BuildAggregationStdin,
    /// Write the aggregation program's input to disk.
    DumpAggregationStdin,
    /// Build subblock `i`'s input.
    BuildSubblockStdin(usize),
    /// Write subblock `i`'s input to disk.
    DumpSubblockStdin(usize),
    /// Prove subblock `i`.
    ProveSubblock(usize),
    /// Emulate subblock `i` and report its instruction rate.
    EmulateSubblock(usize),
    /// Prove the aggregation program.
    ProveAggregation,
    /// Emulate the aggregation program and report its instruction rate.
    EmulateAggregation,
}

/// What the host does for a block.
#[derive(Clone, Copy, Debug)]
pub struct ScheduleConfig {
    /// The number of subblocks.
    pub subblocks: usize,
    /// Whether the programs' inputs are written to disk.
    pub dump: bool,
    /// Whether the programs' ELFs are written to disk.
    pub dump_elfs: bool,
    /// Whether the subblocks and the aggregation are proved.
    pub prove: bool,
    /// Whether the programs are emulated to measure them.
    pub execute: bool,
    /// Whether the aggregation input is built before the subblocks are handled.
    pub aggregation_stdin_first: bool,
}

impl ScheduleConfig {
    /// The aggregation input, which carries the subblock proofs, is not built
    /// before the subblocks are proved.
    pub open spec fn consistent(&self) -> bool {
        self.prove ==> !self.aggregation_stdin_first
    }

    /// The configuration each host uses. The SP1 host, which has no proving
    /// client, builds the aggregation input first, always writes the inputs
    /// (not the ELFs) to its artifacts and proves nothing. The Pico host
    /// proves where `prove` is asked, builds the aggregation input after the
    /// subblocks (from their proofs, when there are any) and writes the ELFs
    /// and inputs only where a dump directory is given.
    pub fn for_flavor(
        flavor: HostFlavor,
        subblocks: usize,
        execute: bool,
        prove: bool,
        has_dump_dir: bool,
    ) -> (cfg: Self)
        ensures
            cfg.subblocks == subblocks,
            cfg.execute == execute,
            cfg.consistent(),
            match flavor {
                HostFlavor::Sp1 => cfg.dump && !cfg.dump_elfs && !cfg.prove
                    && cfg.aggregation_stdin_first,
                HostFlavor::Pico => cfg.dump == has_dump_dir && cfg.dump_elfs == has_dump_dir
                    && cfg.prove == prove && !cfg.aggregation_stdin_first,
            },
    {
        match flavor {
            HostFlavor::Sp1 => ScheduleConfig {
                subblocks,
                dump: true,
                dump_elfs: false,
                prove: false,
                execute,
                aggregation_stdin_first: true,
            },
            HostFlavor::Pico => ScheduleConfig {
                subblocks,
                dump: has_dump_dir,
                dump_elfs: has_dump_dir,
                prove,
                execute,
                aggregation_stdin_first: false,
            },
        }
    }
}

/// `1` where `b` holds, else `0`.
pub open spec fn count_if(b: bool) -> nat {
    if b {
        1
    } else {
        0
    }
}

/// The single step `s` where `b` holds, else nothing.
pub open spec fn step_if(b: bool, s: Step) -> Seq<Step> {
    if b {
        seq![s]
    } else {
        seq![]
    }
}

/// The steps for subblock `i`: build its input, then write it, prove it and
/// emulate it, each as configured.
pub open spec fn subblock_steps(cfg: ScheduleConfig, i: usize) -> Seq<Step> {
    seq![Step::BuildSubblockStdin(i)] + step_if(cfg.dump, Step::DumpSubblockStdin(i)) + step_if(
        cfg.prove,
        Step::ProveSubblock(i),
    ) + step_if(cfg.execute, Step::EmulateSubblock(i))
}

/// The steps for subblocks `0` to `m - 1`, one subblock after the other.
pub open spec fn subblocks_steps(cfg: ScheduleConfig, m: nat) -> Seq<Step>
    decreases m,
{
    if m == 0 {
        seq![]
    } else {
        subblocks_steps(cfg, (m - 1) as nat) + subblock_steps(cfg, (m - 1) as usize)
    }
}

/// Building the aggregation input and, as configured, writing it.
pub open spec fn aggregation_input_steps(cfg: ScheduleConfig) -> Seq<Step> {
    seq![Step::BuildAggregationStdin] + step_if(cfg.dump, Step::DumpAggregationStdin)
}

/// The steps before the subblocks: writing the ELFs, as configured, and the
/// aggregation input's steps where it comes first.
pub open spec fn opening_steps(cfg: ScheduleConfig) -> Seq<Step> {
    step_if(cfg.dump_elfs, Step::DumpProgramElfs) + if cfg.aggregation_stdin_first {
        aggregation_input_steps(cfg)
    } else {
        seq![]
    }
}

/// The steps after the subblocks: the aggregation input's steps where it
/// comes last, then proving and emulating the aggregation, as configured.
pub open spec fn closing_steps(cfg: ScheduleConfig) -> Seq<Step> {
    (if cfg.aggregation_stdin_first {
        seq![]
    } else {
        aggregation_input_steps(cfg)
    }) + step_if(cfg.prove, Step::ProveAggregation) + step_if(
        cfg.execute,
        Step::EmulateAggregation,
    )
}

/// The host's work for a block, in order.
pub open spec fn schedule_spec(cfg: ScheduleConfig) -> Seq<Step> {
    opening_steps(cfg) + subblocks_steps(cfg, cfg.subblocks as nat) + closing_steps(cfg)
}

/// The subblocks proved by `steps`, in the order of their proof steps: the
/// order in which their proofs are collected for the aggregation program.
pub open spec fn proved_subblocks(steps: Seq<Step>) -> Seq<usize>
    decreases steps.len(),
{
    if steps.len() == 0 {
        seq![]
    } else {
        proved_subblocks(steps.drop_last()) + match steps.last() {
            Step::ProveSubblock(i) => seq![i],
            _ => seq![],
        }
    }
}

proof fn lemma_proved_subblocks_concat(a: Seq<Step>, b: Seq<Step>)
    ensures
        proved_subblocks(a + b) == proved_subblocks(a) + proved_subblocks(b),
    decreases b.len(),
{
    if b.len() == 0 {
        assert(a + b =~= a);
        assert(proved_subblocks(a) + proved_subblocks(b) =~= proved_subblocks(a));
    } else {
        lemma_proved_subblocks_concat(a, b.drop_last());
        assert((a + b).drop_last() =~= a + b.drop_last());
        assert((a + b).last() == b.last());
        assert(proved_subblocks(a + b) =~= proved_subblocks(a) + proved_subblocks(b));
    }
}

proof fn lemma_proved_in_subblock(cfg: ScheduleConfig, i: usize)
    ensures
        proved_subblocks(subblock_steps(cfg, i)) == if cfg.prove {
            seq![i]
        } else {
            Seq::<usize>::empty()
        },
{
    let b = seq![Step::BuildSubblockStdin(i)];
    let d = step_if(cfg.dump, Step::DumpSubblockStdin(i));
    let p = step_if(cfg.prove, Step::ProveSubblock(i));
    let e = step_if(cfg.execute, Step::EmulateSubblock(i));
    reveal_with_fuel(proved_subblocks, 2);
    assert(proved_subblocks(b) =~= Seq::<usize>::empty()) by {
        assert(b.drop_last() =~= Seq::<Step>::empty());
    }
    assert(proved_subblocks(d) =~= Seq::<usize>::empty()) by {
        if cfg.dump {
            assert(d.drop_last() =~= Seq::<Step>::empty());
        }
    }
    assert(proved_subblocks(p) =~= (if cfg.prove { seq![i] } else { Seq::<usize>::empty() })) by {
        if cfg.prove {
            assert(p.drop_last() =~= Seq::<Step>::empty());
        }
    }
    assert(proved_subblocks(e) =~= Seq::<usize>::empty()) by {
        if cfg.execute {
            assert(e.drop_last() =~= Seq::<Step>::empty());
        }
    }
    lemma_proved_subblocks_concat(b, d);
    lemma_proved_subblocks_concat(b + d, p);
    lemma_proved_subblocks_concat(b + d + p, e);
    assert(proved_subblocks(subblock_steps(cfg, i)) =~= (if cfg.prove {
        seq![i]
    } else {
        Seq::<usize>::empty()
    }));
}

proof fn lemma_proved_in_subblocks(cfg: ScheduleConfig, m: nat)
    requires
        m <= usize::MAX + 1,
    ensures
        proved_subblocks(subblocks_steps(cfg, m)) == if cfg.prove {
            Seq::new(m, |i: int| i as usize)
        } else {
            Seq::<usize>::empty()
        },
    decreases m,
{
    if m == 0 {
        assert(proved_subblocks(subblocks_steps(cfg, m)) =~= Seq::<usize>::empty());
        assert(Seq::new(m, |i: int| i as usize) =~= Seq::<usize>::empty());
    } else {
        lemma_proved_in_subblocks(cfg, (m - 1) as nat);
        lemma_proved_in_subblock(cfg, (m - 1) as usize);
        lemma_proved_subblocks_concat(
            subblocks_steps(cfg, (m - 1) as nat),
            subblock_steps(cfg, (m - 1) as usize),
        );
        if cfg.prove {
            assert(Seq::new((m - 1) as nat, |i: int| i as usize).push((m - 1) as usize) =~= Seq::new(
                m,
                |i: int| i as usize,
            ));
        } else {
            assert(Seq::<usize>::empty() + Seq::<usize>::empty() =~= Seq::<usize>::empty());
        }
    }
}

proof fn lemma_no_subblock_proofs(s: Seq<Step>)
    requires
        forall|i: int| 0 <= i < s.len() ==> !(#[trigger] s[i] is ProveSubblock),
    ensures
        proved_subblocks(s) == Seq::<usize>::empty(),
    decreases s.len(),
{
    if s.len() > 0 {
        let d = s.drop_last();
        assert forall|i: int| 0 <= i < d.len() implies !(#[trigger] d[i] is ProveSubblock) by {
            assert(d[i] == s[i]);
        }
        lemma_no_subblock_proofs(d);
        assert(!(s[s.len() - 1] is ProveSubblock));
        assert(proved_subblocks(s) =~= Seq::<usize>::empty());
    }
}

/// The aggregation program receives one proof per subblock, in subblock
/// order, when the host proves; when it does not, no subblock is proved.
pub proof fn lemma_one_proof_per_subblock(cfg: ScheduleConfig)
    ensures
        proved_subblocks(schedule_spec(cfg)) == if cfg.prove {
            Seq::new(cfg.subblocks as nat, |i: int| i as usize)
        } else {
            Seq::<usize>::empty()
        },
{
    let o = opening_steps(cfg);
    let m = subblocks_steps(cfg, cfg.subblocks as nat);
    let c = closing_steps(cfg);
    lemma_proved_in_subblocks(cfg, cfg.subblocks as nat);
    lemma_proved_subblocks_concat(o, m);
    lemma_proved_subblocks_concat(o + m, c);
    assert forall|i: int| 0 <= i < o.len() implies !(#[trigger] o[i] is ProveSubblock) by {
        let e = step_if(cfg.dump_elfs, Step::DumpProgramElfs);
        if i >= e.len() {
            assert(o[i] == aggregation_input_steps(cfg)[i - e.len()]);
        }
    }
    assert forall|i: int| 0 <= i < c.len() implies !(#[trigger] c[i] is ProveSubblock) by {
        let a = if cfg.aggregation_stdin_first {
            Seq::<Step>::empty()
        } else {
            aggregation_input_steps(cfg)
        };
        let p = step_if(cfg.prove, Step::ProveAggregation);
        if i >= a.len() + p.len() {
            assert(c[i] == step_if(cfg.execute, Step::EmulateAggregation)[i - a.len() - p.len()]);
        } else if i >= a.len() {
            assert(c[i] == p[i - a.len()]);
        } else {
            assert(c[i] == a[i]);
        }
    }
    lemma_no_subblock_proofs(o);
    lemma_no_subblock_proofs(c);
    assert(proved_subblocks(schedule_spec(cfg)) =~= (if cfg.prove {
        Seq::new(cfg.subblocks as nat, |i: int| i as usize)
    } else {
        Seq::<usize>::empty()
    }));
}

/// The number of steps taken for each subblock.
pub open spec fn steps_per_subblock(cfg: ScheduleConfig) -> nat {
    1 + count_if(cfg.dump) + count_if(cfg.prove) + count_if(cfg.execute)
}

/// Whether a step concerns one subblock.
pub open spec fn is_subblock_step(s: Step) -> bool {
    match s {
        Step::BuildSubblockStdin(_) | Step::DumpSubblockStdin(_) | Step::ProveSubblock(_)
        | Step::EmulateSubblock(_) => true,
        _ => false,
    }
}

/// The subblock a step concerns.
pub open spec fn subblock_of(s: Step) -> usize {
    match s {
        Step::BuildSubblockStdin(i) => i,
        Step::DumpSubblockStdin(i) => i,
        Step::ProveSubblock(i) => i,
        Step::EmulateSubblock(i) => i,
        _ => 0,
    }
}

/// Whether the configuration calls for steps of this kind.
pub open spec fn step_enabled(cfg: ScheduleConfig, s: Step) -> bool {
    match s {
        Step::DumpProgramElfs => cfg.dump_elfs,
        Step::DumpSubblockStdin(_) | Step::DumpAggregationStdin => cfg.dump,
        Step::ProveSubblock(_) | Step::ProveAggregation => cfg.prove,
        Step::EmulateSubblock(_) | Step::EmulateAggregation => cfg.execute,
        _ => true,
    }
}

/// Where a subblock step stands among the steps of its subblock.
pub open spec fn step_offset(cfg: ScheduleConfig, s: Step) -> int {
    match s {
        Step::DumpSubblockStdin(_) => 1,
        Step::ProveSubblock(_) => 1 + count_if(cfg.dump) as int,
        Step::EmulateSubblock(_) => 1 + count_if(cfg.dump) as int + count_if(cfg.prove) as int,
        _ => 0,
    }
}

/// The number of steps before the subblock steps.
pub open spec fn opening_len(cfg: ScheduleConfig) -> int {
    count_if(cfg.dump_elfs) as int + if cfg.aggregation_stdin_first {
        1 + count_if(cfg.dump) as int
    } else {
        0int
    }
}

/// The index in the schedule of the step at `offset` among subblock `i`'s.
pub open spec fn subblock_position(cfg: ScheduleConfig, i: int, offset: int) -> int {
    opening_len(cfg) + i * steps_per_subblock(cfg) + offset
}

/// The index in the schedule at which the subblock steps end.
pub open spec fn subblocks_end(cfg: ScheduleConfig) -> int {
    opening_len(cfg) + cfg.subblocks * steps_per_subblock(cfg)
}

/// The index in the schedule at which proving and emulating the aggregation
/// begin.
pub open spec fn aggregation_tail_start(cfg: ScheduleConfig) -> int {
    subblocks_end(cfg) + if cfg.aggregation_stdin_first {
        0int
    } else {
        1 + count_if(cfg.dump) as int
    }
}

/// The index in the schedule of a step that concerns no single subblock.
pub open spec fn aggregation_position(cfg: ScheduleConfig, s: Step) -> int {
    let build = if cfg.aggregation_stdin_first {
        count_if(cfg.dump_elfs) as int
    } else {
        subblocks_end(cfg)
    };
    match s {
        Step::DumpProgramElfs => 0,
        Step::BuildAggregationStdin => build,
        Step::DumpAggregationStdin => build + 1,
        Step::ProveAggregation => aggregation_tail_start(cfg),
        _ => aggregation_tail_start(cfg) + count_if(cfg.prove),
    }
}

proof fn lemma_subblock_steps_shape(cfg: ScheduleConfig, i: usize)
    ensures
        subblock_steps(cfg, i).len() == steps_per_subblock(cfg),
        forall|k: int|
            0 <= k < steps_per_subblock(cfg) ==> {
                let s = #[trigger] subblock_steps(cfg, i)[k];
                &&& is_subblock_step(s)
                &&& subblock_of(s) == i
                &&& step_enabled(cfg, s)
                &&& step_offset(cfg, s) == k
            },
        subblock_steps(cfg, i)[0] == Step::BuildSubblockStdin(i),
        cfg.dump ==> subblock_steps(cfg, i)[1] == Step::DumpSubblockStdin(i),
        cfg.prove ==> subblock_steps(cfg, i)[step_offset(cfg, Step::ProveSubblock(i))]
            == Step::ProveSubblock(i),
        cfg.execute ==> subblock_steps(cfg, i)[step_offset(cfg, Step::EmulateSubblock(i))]
            == Step::EmulateSubblock(i),
{
    let b = subblock_steps(cfg, i);
    let d = step_if(cfg.dump, Step::DumpSubblockStdin(i));
    let p = step_if(cfg.prove, Step::ProveSubblock(i));
    let e = step_if(cfg.execute, Step::EmulateSubblock(i));
    let db = count_if(cfg.dump) as int;
    let pb = count_if(cfg.prove) as int;
    assert(b.len() == 1 + d.len() + p.len() + e.len());
    assert(b[0] == Step::BuildSubblockStdin(i));
    if cfg.dump {
        assert(b[1] == d[0]);
    }
    if cfg.prove {
        assert(b[1 + db] == p[0]);
    }
    if cfg.execute {
        assert(b[1 + db + pb] == e[0]);
    }
}

proof fn lemma_subblocks_index(cfg: ScheduleConfig, m: nat)
    requires
        m <= usize::MAX + 1,
    ensures
        subblocks_steps(cfg, m).len() == m * steps_per_subblock(cfg),
        forall|i: int, k: int|
            0 <= i < m && 0 <= k < steps_per_subblock(cfg) ==> subblocks_steps(cfg, m)[i
                * steps_per_subblock(cfg) + k] == #[trigger] subblock_steps(cfg, i as usize)[k],
    decreases m,
{
    let w = steps_per_subblock(cfg);
    if m > 0 {
        let m1 = (m - 1) as nat;
        lemma_subblocks_index(cfg, m1);
        lemma_subblock_steps_shape(cfg, m1 as usize);
        let prev = subblocks_steps(cfg, m1);
        let last = subblock_steps(cfg, m1 as usize);
        assert(m * w == m1 * w + w) by (nonlinear_arith)
            requires
                m == m1 + 1,
        ;
        assert forall|i: int, k: int| 0 <= i < m && 0 <= k < w implies subblocks_steps(
            cfg,
            m,
        )[i * w + k] == #[trigger] subblock_steps(cfg, i as usize)[k] by {
            if i < m1 {
                assert(i * w + k < m1 * w) by (nonlinear_arith)
                    requires
                        0 <= i < m1,
                        0 <= k < w,
                ;
                assert(subblocks_steps(cfg, m)[i * w + k] == prev[i * w + k]);
            } else {
                assert(i * w == m1 * w);
                assert(subblocks_steps(cfg, m)[i * w + k] == last[k]);
            }
        }
    }
}

proof fn lemma_subblocks_lookup(cfg: ScheduleConfig, j: int)
    requires
        cfg.subblocks <= usize::MAX,
        0 <= j < cfg.subblocks * steps_per_subblock(cfg),
    ensures
        ({
            let w = steps_per_subblock(cfg) as int;
            let q = j / w;
            let r = j % w;
            &&& 0 <= q < cfg.subblocks
            &&& 0 <= r < w
            &&& j == q * w + r
            &&& subblocks_steps(cfg, cfg.subblocks as nat)[j] == subblock_steps(cfg, q as usize)[r]
        }),
{
    let w = steps_per_subblock(cfg) as int;
    let n = cfg.subblocks as int;
    lemma_subblocks_index(cfg, cfg.subblocks as nat);
    lemma_fundamental_div_mod(j, w);
    lemma_mod_pos_bound(j, w);
    let q = j / w;
    let r = j % w;
    assert(j == q * w + r);
    assert(0 <= q < n) by (nonlinear_arith)
        requires
            j == q * w + r,
            0 <= r < w,
            0 <= j < n * w,
            w > 0,
    ;
    assert(subblock_steps(cfg, q as usize)[r] == subblocks_steps(cfg, n as nat)[q * w + r]);
}

proof fn lemma_opening_len(cfg: ScheduleConfig)
    ensures
        opening_steps(cfg).len() == opening_len(cfg),
{
}

proof fn lemma_opening_shape(cfg: ScheduleConfig)
    ensures
        opening_steps(cfg).len() == opening_len(cfg),
        forall|j: int|
            0 <= j < opening_steps(cfg).len() ==> {
                let s = #[trigger] opening_steps(cfg)[j];
                &&& !is_subblock_step(s)
                &&& step_enabled(cfg, s)
                &&& j == aggregation_position(cfg, s)
            },
{
    let o = opening_steps(cfg);
    let e = step_if(cfg.dump_elfs, Step::DumpProgramElfs);
    let a = aggregation_input_steps(cfg);
    assert forall|j: int| 0 <= j < o.len() implies {
        let s = #[trigger] o[j];
        &&& !is_subblock_step(s)
        &&& step_enabled(cfg, s)
        &&& j == aggregation_position(cfg, s)
    } by {
        if j >= e.len() {
            assert(o[j] == a[j - e.len()]);
        } else {
            assert(o[j] == e[j]);
        }
    }
}

proof fn lemma_closing_shape(cfg: ScheduleConfig)
    ensures
        closing_steps(cfg).len() == aggregation_tail_start(cfg) - subblocks_end(cfg) + count_if(
            cfg.prove,
        ) + count_if(cfg.execute),
        forall|x: int|
            0 <= x < closing_steps(cfg).len() ==> {
                let s = #[trigger] closing_steps(cfg)[x];
                &&& !is_subblock_step(s)
                &&& step_enabled(cfg, s)
                &&& subblocks_end(cfg) + x == aggregation_position(cfg, s)
            },
{
    let c = closing_steps(cfg);
    let c1 = if cfg.aggregation_stdin_first {
        Seq::<Step>::empty()
    } else {
        aggregation_input_steps(cfg)
    };
    let c2 = step_if(cfg.prove, Step::ProveAggregation);
    let c3 = step_if(cfg.execute, Step::EmulateAggregation);
    assert forall|x: int| 0 <= x < c.len() implies {
        let s = #[trigger] c[x];
        &&& !is_subblock_step(s)
        &&& step_enabled(cfg, s)
        &&& subblocks_end(cfg) + x == aggregation_position(cfg, s)
    } by {
        if x < c1.len() {
            assert(c[x] == c1[x]);
        } else if x < c1.len() + c2.len() {
            assert(c[x] == c2[x - c1.len()]);
        } else {
            assert(c[x] == c3[x - c1.len() - c2.len()]);
        }
    }
}

/// Every step of the schedule is one the configuration calls for, and
/// stands at its one place: a subblock step at its subblock's position, an
/// aggregation step after all the subblock steps (or, for the aggregation
/// input where it is built first, at the very start).
pub proof fn lemma_step_positions(cfg: ScheduleConfig, j: int)
    requires
        0 <= j < schedule_spec(cfg).len(),
    ensures
        step_enabled(cfg, schedule_spec(cfg)[j]),
        is_subblock_step(schedule_spec(cfg)[j]) ==> {
            &&& subblock_of(schedule_spec(cfg)[j]) < cfg.subblocks
            &&& j == subblock_position(
                cfg,
                subblock_of(schedule_spec(cfg)[j]) as int,
                step_offset(cfg, schedule_spec(cfg)[j]),
            )
        },
        !is_subblock_step(schedule_spec(cfg)[j]) ==> j == aggregation_position(
            cfg,
            schedule_spec(cfg)[j],
        ),
{
    let o = opening_steps(cfg);
    let w = steps_per_subblock(cfg) as int;
    let all = schedule_spec(cfg);
    lemma_opening_shape(cfg);
    lemma_closing_shape(cfg);
    lemma_subblocks_index(cfg, cfg.subblocks as nat);
    let mid_len = subblocks_steps(cfg, cfg.subblocks as nat).len() as int;
    let ol = o.len() as int;
    if j < ol {
        assert(all[j] == o[j]);
    } else if j < ol + mid_len {
        lemma_subblocks_lookup(cfg, j - ol);
        let q = (j - ol) / w;
        lemma_subblock_steps_shape(cfg, q as usize);
        assert(all[j] == subblocks_steps(cfg, cfg.subblocks as nat)[j - ol]);
    } else {
        let x = j - ol - mid_len;
        assert(all[j] == closing_steps(cfg)[x]);
        assert(subblocks_end(cfg) == ol + mid_len);
    }
}

/// Each step that the configuration calls for is in the schedule, at its
/// subblock's position.
proof fn lemma_schedule_middle(cfg: ScheduleConfig, x: int)
    requires
        0 <= x < subblocks_steps(cfg, cfg.subblocks as nat).len(),
    ensures
        schedule_spec(cfg)[opening_len(cfg) + x] == subblocks_steps(cfg, cfg.subblocks as nat)[x],
        opening_len(cfg) + subblocks_steps(cfg, cfg.subblocks as nat).len() <= schedule_spec(
            cfg,
        ).len(),
{
    lemma_opening_len(cfg);
}

pub proof fn lemma_subblock_steps_present(cfg: ScheduleConfig, i: usize)
    requires
        i < cfg.subblocks,
    ensures
        subblock_position(cfg, i as int, steps_per_subblock(cfg) - 1) < schedule_spec(cfg).len(),
        schedule_spec(cfg)[subblock_position(cfg, i as int, 0)] == Step::BuildSubblockStdin(i),
        cfg.dump ==> schedule_spec(cfg)[subblock_position(cfg, i as int, 1)]
            == Step::DumpSubblockStdin(i),
        cfg.prove ==> schedule_spec(cfg)[subblock_position(
            cfg,
            i as int,
            step_offset(cfg, Step::ProveSubblock(i)),
        )] == Step::ProveSubblock(i),
        cfg.execute ==> schedule_spec(cfg)[subblock_position(
            cfg,
            i as int,
            step_offset(cfg, Step::EmulateSubblock(i)),
        )] == Step::EmulateSubblock(i),
{
    let w = steps_per_subblock(cfg) as int;
    let ol = opening_len(cfg);
    lemma_subblocks_index(cfg, cfg.subblocks as nat);
    lemma_subblock_steps_shape(cfg, i);
    let mid = subblocks_steps(cfg, cfg.subblocks as nat);
    assert forall|k: int| 0 <= k < w implies schedule_spec(cfg)[ol + i * w + k]
        == #[trigger] subblock_steps(cfg, i)[k] by {
        assert(i * w + k < cfg.subblocks * w) by (nonlinear_arith)
            requires
                0 <= i < cfg.subblocks,
                0 <= k < w,
        ;
        assert((i as int) as usize == i);
        assert(mid[i * w + k] == subblock_steps(cfg, (i as int) as usize)[k]);
        lemma_schedule_middle(cfg, i * w + k);
    }
    assert(subblock_steps(cfg, i)[0] == Step::BuildSubblockStdin(i));
    assert(i * w + w <= cfg.subblocks * w) by (nonlinear_arith)
        requires
            0 <= i < cfg.subblocks,
            0 < w,
    ;
    lemma_schedule_middle(cfg, i * w);
}

/// The aggregation input is always built, once; the ELFs are written where
/// the host dumps them, and the aggregation input where it dumps inputs; the aggregation is
/// proved where the host proves and emulated where it executes; and the
/// schedule has no step beyond these and the subblock steps.
pub proof fn lemma_aggregation_steps_present(cfg: ScheduleConfig)
    ensures
        schedule_spec(cfg).len() == aggregation_tail_start(cfg) + count_if(cfg.prove) + count_if(
            cfg.execute,
        ),
        cfg.dump_elfs ==> schedule_spec(cfg)[aggregation_position(cfg, Step::DumpProgramElfs)]
            == Step::DumpProgramElfs,
        schedule_spec(cfg)[aggregation_position(cfg, Step::BuildAggregationStdin)]
            == Step::BuildAggregationStdin,
        cfg.dump ==> schedule_spec(cfg)[aggregation_position(cfg, Step::DumpAggregationStdin)]
            == Step::DumpAggregationStdin,
        cfg.prove ==> schedule_spec(cfg)[aggregation_position(cfg, Step::ProveAggregation)]
            == Step::ProveAggregation,
        cfg.execute ==> schedule_spec(cfg)[aggregation_position(cfg, Step::EmulateAggregation)]
            == Step::EmulateAggregation,
{
    lemma_subblocks_index(cfg, cfg.subblocks as nat);
    let o = opening_steps(cfg);
    let m = subblocks_steps(cfg, cfg.subblocks as nat);
    let c = closing_steps(cfg);
    let a = aggregation_input_steps(cfg);
    let all = schedule_spec(cfg);
    let e = subblocks_end(cfg);
    let d = count_if(cfg.dump) as int;
    let de = count_if(cfg.dump_elfs) as int;
    assert(o.len() == opening_len(cfg));
    assert(o.len() + m.len() == e);
    if cfg.dump_elfs {
        assert(all[0] == o[0]);
    }
    if cfg.aggregation_stdin_first {
        assert(all[de] == o[de]);
        assert(o[de] == a[0]);
        if cfg.dump {
            assert(all[de + 1] == o[de + 1]);
            assert(o[de + 1] == a[1]);
        }
    } else {
        assert(all[e] == c[0]);
        assert(c[0] == a[0]);
        if cfg.dump {
            assert(all[e + 1] == c[1]);
            assert(c[1] == a[1]);
        }
    }
    let c1: int = if cfg.aggregation_stdin_first {
        0
    } else {
        1 + d
    };
    if cfg.prove {
        assert(all[e + c1] == c[c1]);
    }
    if cfg.execute {
        assert(all[e + c1 + count_if(cfg.prove)] == c[c1 + count_if(cfg.prove)]);
    }
}

/// The order of the host's work: subblocks are handled one after another,
/// each built before it is written, proved or emulated (in that order); the
/// aggregation is proved and emulated after every subblock step; and where
/// the host proves, the aggregation input is built after every subblock
/// proof it carries. The ELFs are written before any subblock step; the
/// aggregation input is built and written before every subblock step where
/// it comes first (the SP1 host) and after every one otherwise.
pub proof fn lemma_schedule_order(cfg: ScheduleConfig, j1: int, j2: int)
    requires
        0 <= j1 < schedule_spec(cfg).len(),
        0 <= j2 < schedule_spec(cfg).len(),
        is_subblock_step(schedule_spec(cfg)[j1]),
    ensures
        ({
            let s1 = schedule_spec(cfg)[j1];
            let s2 = schedule_spec(cfg)[j2];
            &&& is_subblock_step(s2) && subblock_of(s1) < subblock_of(s2) ==> j1 < j2
            &&& is_subblock_step(s2) && subblock_of(s1) == subblock_of(s2) && step_offset(cfg, s1)
                < step_offset(cfg, s2) ==> j1 < j2
            &&& (s2 is ProveAggregation || s2 is EmulateAggregation) ==> j1 < j2
            &&& cfg.consistent() && s1 is ProveSubblock && s2 is BuildAggregationStdin ==> j1 < j2
            &&& cfg.aggregation_stdin_first && (s2 is BuildAggregationStdin
                || s2 is DumpAggregationStdin) ==> j2 < j1
            &&& !cfg.aggregation_stdin_first && (s2 is BuildAggregationStdin
                || s2 is DumpAggregationStdin) ==> j1 < j2
            &&& s2 is DumpProgramElfs ==> j2 < j1
        }),
{
    let s1 = schedule_spec(cfg)[j1];
    let s2 = schedule_spec(cfg)[j2];
    let w = steps_per_subblock(cfg) as int;
    let n = cfg.subblocks as int;
    lemma_step_positions(cfg, j1);
    lemma_step_positions(cfg, j2);
    let i1 = subblock_of(s1) as int;
    let k1 = step_offset(cfg, s1);
    assert(0 <= k1 < w);
    assert(i1 * w + k1 < n * w) by (nonlinear_arith)
        requires
            0 <= i1 < n,
            0 <= k1 < w,
    ;
    if is_subblock_step(s2) {
        let i2 = subblock_of(s2) as int;
        let k2 = step_offset(cfg, s2);
        assert(0 <= k2 < w);
        if i1 < i2 {
            assert(i1 * w + k1 < i2 * w + k2) by (nonlinear_arith)
                requires
                    0 <= i1 < i2,
                    0 <= k1 < w,
                    0 <= k2,
            ;
        }
    }
}

/// Lists the steps for subblock `i`.
fn subblock_plan(cfg: &ScheduleConfig, i: usize) -> (steps: Vec<Step>)
    ensures
        steps@ == subblock_steps(*cfg, i),
{
    let mut steps: Vec<Step> = Vec::new();
    steps.push(Step::BuildSubblockStdin(i));
    if cfg.dump {
        steps.push(Step::DumpSubblockStdin(i));
    }
    if cfg.prove {
        steps.push(Step::ProveSubblock(i));
    }
    if cfg.execute {
        steps.push(Step::EmulateSubblock(i));
    }
    assert(steps@ =~= subblock_steps(*cfg, i));
    steps
}

/// Lists the steps before the subblocks.
fn opening_plan(cfg: &ScheduleConfig) -> (steps: Vec<Step>)
    ensures
        steps@ == opening_steps(*cfg),
{
    let mut steps: Vec<Step> = Vec::new();
    if cfg.dump_elfs {
        steps.push(Step::DumpProgramElfs);
    }
    if cfg.aggregation_stdin_first {
        steps.push(Step::BuildAggregationStdin);
        if cfg.dump {
            steps.push(Step::DumpAggregationStdin);
        }
    }
    assert(steps@ =~= opening_steps(*cfg));
    steps
}

/// Lists the steps after the subblocks.
fn closing_plan(cfg: &ScheduleConfig) -> (steps: Vec<Step>)
    ensures
        steps@ == closing_steps(*cfg),
{
    let mut steps: Vec<Step> = Vec::new();
    if !cfg.aggregation_stdin_first {
        steps.push(Step::BuildAggregationStdin);
        if cfg.dump {
            steps.push(Step::DumpAggregationStdin);
        }
    }
    if cfg.prove {
        steps.push(Step::ProveAggregation);
    }
    if cfg.execute {
        steps.push(Step::EmulateAggregation);
    }
    assert(steps@ =~= closing_steps(*cfg));
    steps
}

/// Lists the host's work for a block, in the order in which it is done.
pub fn schedule(cfg: &ScheduleConfig) -> (steps: Vec<Step>)
    ensures
        steps@ == schedule_spec(*cfg),
{
    let mut steps = opening_plan(cfg);
    assert(steps@ =~= opening_steps(*cfg) + subblocks_steps(*cfg, 0));
    let mut i: usize = 0;
    while i < cfg.subblocks
        invariant
            i <= cfg.subblocks,
            steps@ =~= opening_steps(*cfg) + subblocks_steps(*cfg, i as nat),
        decreases cfg.subblocks - i,
    {
        let mut block = subblock_plan(cfg, i);
        steps.append(&mut block);
        assert(subblocks_steps(*cfg, (i + 1) as nat) == subblocks_steps(*cfg, i as nat)
            + subblock_steps(*cfg, i));
        assert(steps@ =~= opening_steps(*cfg) + subblocks_steps(*cfg, (i + 1) as nat));
        i = i + 1;
    }
    let mut closing = closing_plan(cfg);
    steps.append(&mut closing);
    assert(steps@ =~= schedule_spec(*cfg));
    steps
}

} // verus!
