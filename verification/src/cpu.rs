//! The CPU sampler: turns successive aggregate counter snapshots into a
//! utilization percentage. The first successful reading only seeds the
//! baseline; a repeated reading within the same tick keeps the previous
//! value; a failed reading keeps the last good value.

use vstd::prelude::*;

use crate::text;

verus! {

/// Why a CPU reading could not be used.
#[derive(Debug, PartialEq, Eq, Structural, Clone, Copy)]
pub enum CpuError {
    /// The counter line did not hold the fields the sampler needs.
    ReadProc,
    /// The counter source could not be read at all.
    Generic,
}

impl CpuError {
    /// A short description of the failure, for logging.
    pub fn message(&self) -> (r: &'static str)
        ensures
            self is ReadProc ==> r@ == "failed parsing `/proc/stat`"@,
            self is Generic ==> r@ == "generic error"@,
    {
        match self {
            CpuError::ReadProc => "failed parsing `/proc/stat`",
            CpuError::Generic => "generic error",
        }
    }
}

/// The aggregate total of a counter snapshot: the sum of its fields, of
/// which a well-formed snapshot has ten.
pub open spec fn total_of(s: Seq<u64>) -> int {
    if s.len() <= 10 {
        text::sum_of(s)
    } else {
        text::sum_of(s.take(10))
    }
}

/// The counter fields on the first line of the pseudo-file text.
pub open spec fn cpu_counters(s: Seq<char>) -> Seq<u64> {
    text::counters_of(s.take(text::line_len(s) as int))
}

/// Utilization over an interval: `100 * (delta_total - delta_idle) /
/// delta_total`, the division truncating toward zero.
pub open spec fn cpu_usage_of(dt: int, di: int) -> int
    recommends
        dt > 0,
{
    let num = 100 * (dt - di);
    if num >= 0 {
        num / dt
    } else {
        -((-num) / dt)
    }
}

proof fn lemma_sum_mono(a: Seq<u64>, b: Seq<u64>)
    requires
        a.len() == b.len(),
        forall|i: int| 0 <= i < a.len() ==> a[i] <= b[i],
    ensures
        text::sum_of(a) <= text::sum_of(b),
    decreases a.len(),
{
    if a.len() > 0 {
        assert forall|i: int| 0 <= i < a.drop_last().len() implies a.drop_last()[i]
            <= b.drop_last()[i] by {
            assert(a.drop_last()[i] == a[i] && b.drop_last()[i] == b[i]);
        }
        lemma_sum_mono(a.drop_last(), b.drop_last());
    }
}

/// A pointwise increase of every counter grows the sum by at least the
/// increase of any single counter.
proof fn lemma_sum_pointwise_ge(a: Seq<u64>, b: Seq<u64>, k: int)
    requires
        a.len() == b.len(),
        0 <= k < a.len(),
        forall|i: int| 0 <= i < a.len() ==> a[i] <= b[i],
    ensures
        text::sum_of(b) - text::sum_of(a) >= b[k] - a[k],
    decreases a.len(),
{
    assert forall|i: int| 0 <= i < a.drop_last().len() implies a.drop_last()[i]
        <= b.drop_last()[i] by {
        assert(a.drop_last()[i] == a[i] && b.drop_last()[i] == b[i]);
    }
    if k == a.len() - 1 {
        lemma_sum_mono(a.drop_last(), b.drop_last());
    } else {
        lemma_sum_pointwise_ge(a.drop_last(), b.drop_last(), k);
    }
}

/// For any two well-formed snapshots taken in order — every counter
/// non-decreasing and the total strictly grown — the utilization lies in
/// `[0, 100]`. The value is a function of the two snapshots alone, so it
/// does not depend on the time that passed between them.
pub proof fn lemma_usage_in_range(prev: Seq<u64>, cur: Seq<u64>)
    requires
        prev.len() == cur.len(),
        cur.len() >= 4,
        forall|i: int| 0 <= i < cur.len() ==> prev[i] <= cur[i],
        total_of(cur) > total_of(prev),
    ensures
        0 <= cpu_usage_of(total_of(cur) - total_of(prev), cur[3] - prev[3]) <= 100,
{
    let dt = total_of(cur) - total_of(prev);
    let di = cur[3] - prev[3];
    if cur.len() <= 10 {
        lemma_sum_pointwise_ge(prev, cur, 3);
    } else {
        assert forall|i: int| 0 <= i < prev.take(10).len() implies prev.take(10)[i]
            <= cur.take(10)[i] by {
            assert(prev.take(10)[i] == prev[i] && cur.take(10)[i] == cur[i]);
        }
        lemma_sum_pointwise_ge(prev.take(10), cur.take(10), 3);
        assert(prev.take(10)[3] == prev[3] && cur.take(10)[3] == cur[3]);
    }
    assert(0 <= di <= dt);
    let num = 100 * (dt - di);
    assert(num >= 0);
    vstd::arithmetic::div_mod::lemma_div_pos_is_pos(num, dt);
    vstd::arithmetic::div_mod::lemma_div_is_ordered(num, 100 * dt, dt);
    vstd::arithmetic::div_mod::lemma_div_multiples_vanish(100, dt);
    assert(dt * 100 == 100 * dt) by (nonlinear_arith);
    assert(num <= 100 * dt) by (nonlinear_arith)
        requires
            0 <= di <= dt,
            num == 100 * (dt - di),
    ;
}

/// A sampler that has no baseline — as `init` returns it — never reports a
/// percentage from its first reading, whatever that reading holds: the
/// reading only seeds the baseline.
pub proof fn lemma_first_update_no_value(
    pre: Cpu,
    content: Option<Seq<char>>,
    post: Cpu,
    r: Result<(), CpuError>,
)
    requires
        !pre.has_baseline,
        pre.val is None,
        Cpu::step_rel(pre, content, post, r),
    ensures
        post.val is None,
{
}

/// The bound carried through the sampler itself: for any valid two-sample
/// sequence — two successful readings whose counters never decrease and
/// whose total strictly grows — the reported usage lies in `[0, 100]`.
/// Neither reading carries a time, so the value cannot depend on the
/// interval between the samples.
pub proof fn lemma_usage_in_range_step(
    c0: Cpu,
    s1: Seq<char>,
    c1: Cpu,
    r1: Result<(), CpuError>,
    s2: Seq<char>,
    c2: Cpu,
    r2: Result<(), CpuError>,
)
    requires
        Cpu::step_rel(c0, Some(s1), c1, r1),
        Cpu::step_rel(c1, Some(s2), c2, r2),
        cpu_counters(s1).len() == cpu_counters(s2).len(),
        cpu_counters(s1).len() >= 4,
        forall|i: int|
            0 <= i < cpu_counters(s1).len() ==> cpu_counters(s1)[i] <= cpu_counters(s2)[i],
        total_of(cpu_counters(s2)) > total_of(cpu_counters(s1)),
    ensures
        c2.val matches Some(v) && 0 <= v <= 100,
{
    lemma_usage_in_range(cpu_counters(s1), cpu_counters(s2));
}

/// The CPU sampler's state: the previous snapshot's total and idle fields,
/// whether a baseline exists yet, and the last computed percentage.
#[derive(Debug, PartialEq, Clone, Copy)]
pub struct Cpu {
    /// A successful reading has seeded the baseline.
    pub has_baseline: bool,
    /// The aggregate total of the previous successful reading.
    pub last_total_sum: u128,
    /// The idle field of the previous successful reading.
    pub last_idle: u64,
    /// The most recently computed utilization percentage.
    pub val: Option<i128>,
}

impl Cpu {
    /// The state invariant: no value before the baseline, and bounds that
    /// keep the interval arithmetic exact.
    pub open spec fn wf(self) -> bool {
        &&& (!self.has_baseline ==> self.val is None)
        &&& self.last_total_sum <= 10 * (u64::MAX as int)
        &&& (self.val matches Some(v) ==> -(i128::MAX as int) <= v <= i128::MAX)
    }

    /// A sampler with no baseline and nothing to report.
    pub fn init() -> (c: Cpu)
        ensures
            c.wf(),
            !c.has_baseline,
            c.last_total_sum == 0,
            c.last_idle == 0,
            c.val is None,
    {
        Cpu { has_baseline: false, last_total_sum: 0, last_idle: 0, val: None }
    }

    /// How one reading transforms the sampler: `content` is the pseudo-file
    /// text, or nothing for an unreadable source. On any failure the state
    /// — and with it the last good rendering — is untouched. The first
    /// successful reading seeds the baseline without producing a value; a
    /// reading with no growth of the total keeps the previous value.
    pub open spec fn step_rel(
        pre: Cpu,
        content: Option<Seq<char>>,
        post: Cpu,
        r: Result<(), CpuError>,
    ) -> bool {
        match content {
            None => post == pre && r == Err::<(), CpuError>(CpuError::Generic),
            Some(s) => {
                let counters = cpu_counters(s);
                if counters.len() < 4 {
                    post == pre && r == Err::<(), CpuError>(CpuError::ReadProc)
                } else {
                    let sum = total_of(counters);
                    let idle = counters[3] as int;
                    let dt = sum - pre.last_total_sum;
                    let di = idle - pre.last_idle;
                    &&& r is Ok
                    &&& post.has_baseline
                    &&& post.last_total_sum as int == sum
                    &&& post.last_idle as int == idle
                    &&& (if !pre.has_baseline || dt <= 0 {
                        post.val == pre.val
                    } else {
                        post.val == Some(cpu_usage_of(dt, di) as i128)
                    })
                }
            },
        }
    }


    /// `step_rel` with the result abstracted away.
    pub open spec fn step_any(pre: Cpu, content: Option<Seq<char>>, post: Cpu) -> bool {
        exists|res: Result<(), CpuError>| Cpu::step_rel(pre, content, post, res)
    }

    /// Digests one reading of the counter pseudo-file, as `step_rel` says.
    pub fn update(&mut self, content: Option<&str>) -> (r: Result<(), CpuError>)
        requires
            old(self).wf(),
        ensures
            final(self).wf(),
            Cpu::step_rel(
                *old(self),
                match content {
                    Some(s) => Some(s@),
                    None => None,
                },
                *final(self),
                r,
            ),
    {
        let s = match content {
            None => {
                return Err(CpuError::Generic);
            },
            Some(s) => s,
        };
        let e = text::first_line_end(s);
        let counters = text::parse_counters(s, 0, e);
        proof {
            assert(s@.subrange(0, e as int) =~= s@.take(text::line_len(s@) as int));
        }
        if counters.len() < 4 {
            return Err(CpuError::ReadProc);
        }
        let m: usize = if counters.len() <= 10 {
            counters.len()
        } else {
            10
        };
        let mut sum: u128 = 0;
        let mut i: usize = 0;
        proof {
            assert(counters@.take(0) =~= Seq::<u64>::empty());
        }
        while i < m
            invariant
                0 <= i <= m <= counters@.len(),
                m <= 10,
                sum == text::sum_of(counters@.take(i as int)),
                sum <= i * (u64::MAX as int),
            decreases m - i,
        {
            proof {
                assert(counters@.take(i + 1).drop_last() =~= counters@.take(i as int));
                assert(counters@.take(i + 1).last() == counters@[i as int]);
            }
            sum = sum + (counters[i] as u128);
            i += 1;
        }
        proof {
            if counters@.len() <= 10 {
                assert(counters@.take(m as int) =~= counters@);
            }
            assert(sum == total_of(counters@));
        }
        let idle: u64 = counters[3];
        if !self.has_baseline {
            self.has_baseline = true;
            self.last_total_sum = sum;
            self.last_idle = idle;
            return Ok(());
        }
        let dt: i128 = sum as i128 - self.last_total_sum as i128;
        let di: i128 = idle as i128 - self.last_idle as i128;
        self.last_total_sum = sum;
        self.last_idle = idle;
        if dt <= 0 {
            return Ok(());
        }
        let diff: i128 = dt - di;
        let num: i128 = 100 * diff;
        let usage: i128 = if num >= 0 {
            ((num as u128) / (dt as u128)) as i128
        } else {
            proof {
                vstd::arithmetic::div_mod::lemma_div_pos_is_pos(-num as int, dt as int);
                vstd::arithmetic::div_mod::lemma_div_is_ordered(-num as int, -num as int, dt as int);
                vstd::arithmetic::div_mod::lemma_div_nonincreasing(-num as int, dt as int);
            }
            -((((-num) as u128) / (dt as u128)) as i128)
        };
        proof {
            if num >= 0 {
                vstd::arithmetic::div_mod::lemma_div_pos_is_pos(num as int, dt as int);
                vstd::arithmetic::div_mod::lemma_div_nonincreasing(num as int, dt as int);
            }
        }
        self.val = Some(usage);
        Ok(())
    }

    /// The rendered percentage, two digits wide, or nothing when no
    /// utilization has been computed yet.
    pub fn output(&self) -> (r: Option<String>)
        requires
            self.wf(),
        ensures
            match self.val {
                Some(v) => r matches Some(t) && t@ == text::pad2_seq(v as int),
                None => r is None,
            },
    {
        match self.val {
            Some(v) => Some(text::pad2_i128(v)),
            None => None,
        }
    }
}

} // verus!
