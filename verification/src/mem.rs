//! The memory sampler: reads the total and available amounts out of a
//! key/value pseudo-file and renders the used share as a percentage,
//! rounded to the nearest integer. A failed reading keeps the previous
//! value.

use vstd::prelude::*;

use crate::text;

verus! {

/// Why a memory reading could not be used.
#[derive(Debug, PartialEq, Eq, Structural, Clone, Copy)]
pub enum MemError {
    /// The pseudo-file could not be read at all.
    Read,
    /// A required key, its value, or a positive total was missing.
    Missing,
}

impl MemError {
    /// A short description of the failure, for logging.
    pub fn message(&self) -> (r: &'static str)
        ensures
            self is Read ==> r@ == "could not read `/proc/meminfo`"@,
            self is Missing ==> r@ == "`/proc/meminfo` is missing a required field"@,
    {
        match self {
            MemError::Read => "could not read `/proc/meminfo`",
            MemError::Missing => "`/proc/meminfo` is missing a required field",
        }
    }
}

/// The first numeric token on the first line of `s` that contains `key`.
pub open spec fn mem_value(s: Seq<char>, key: Seq<char>) -> Option<u64> {
    match text::key_line(s, key) {
        Some(l) => if text::counters_of(l).len() > 0 {
            Some(text::counters_of(l)[0])
        } else {
            None
        },
        None => None,
    }
}

/// The used share of memory as a percentage, `100 - 100 * avail / total`,
/// rounded to the nearest integer with halves rounding away from zero.
pub open spec fn mem_used_pct(total: int, avail: int) -> int
    recommends
        total > 0,
{
    if avail <= total {
        (200 * (total - avail) + total) / (2 * total)
    } else {
        -((200 * (avail - total) + total) / (2 * total))
    }
}

/// The memory sampler's state: the last successfully computed percentage.
#[derive(Debug, PartialEq, Clone, Copy)]
pub struct Mem {
    /// The most recently computed used percentage.
    pub used_mem: Option<i128>,
}

impl Mem {
    /// The state invariant: a stored percentage stays clear of the extreme
    /// the renderer cannot negate.
    pub open spec fn wf(self) -> bool {
        self.used_mem matches Some(v) ==> -(i128::MAX as int) <= v <= i128::MAX
    }

    /// A sampler with nothing to report.
    pub fn init() -> (m: Mem)
        ensures
            m.wf(),
            m.used_mem is None,
    {
        Mem { used_mem: None }
    }

    /// How one reading transforms the sampler: `content` is the pseudo-file
    /// text, or nothing for an unreadable source. The reading is used only
    /// when both the total and the available line carry a numeric value and
    /// the total is positive; otherwise the state — and the previous
    /// rendering — is untouched.
    pub open spec fn step_rel(
        pre: Mem,
        content: Option<Seq<char>>,
        post: Mem,
        r: Result<(), MemError>,
    ) -> bool {
        match content {
            None => post == pre && r == Err::<(), MemError>(MemError::Read),
            Some(s) => {
                let t = mem_value(s, "MemTotal"@);
                let a = mem_value(s, "MemAvailable"@);
                if t is None || a is None || t == Some(0u64) {
                    post == pre && r == Err::<(), MemError>(MemError::Missing)
                } else {
                    &&& r is Ok
                    &&& post.used_mem == Some(mem_used_pct(t->0 as int, a->0 as int) as i128)
                }
            },
        }
    }


    /// `step_rel` with the result abstracted away.
    pub open spec fn step_any(pre: Mem, content: Option<Seq<char>>, post: Mem) -> bool {
        exists|res: Result<(), MemError>| Mem::step_rel(pre, content, post, res)
    }

    /// Digests one reading of the key/value pseudo-file, as `step_rel`
    /// says.
    pub fn update(&mut self, content: Option<&str>) -> (r: Result<(), MemError>)
        requires
            old(self).wf(),
        ensures
            final(self).wf(),
            Mem::step_rel(
                *old(self),
                match content {
                    Some(s) => Some(s@),
                    None => None,
                },
                *final(self),
                r,
            ),
    {
        let s = match content {
            None => {
                return Err(MemError::Read);
            },
            Some(s) => s,
        };
        let total: u64 = match read_first_value(s, "MemTotal") {
            Some(v) => v,
            None => {
                return Err(MemError::Missing);
            },
        };
        let avail: u64 = match read_first_value(s, "MemAvailable") {
            Some(v) => v,
            None => {
                return Err(MemError::Missing);
            },
        };
        if total == 0 {
            return Err(MemError::Missing);
        }
        let pct: i128;
        if avail <= total {
            let num: u128 = 200 * ((total - avail) as u128) + (total as u128);
            let den: u128 = 2 * (total as u128);
            pct = (num / den) as i128;
        } else {
            let num: u128 = 200 * ((avail - total) as u128) + (total as u128);
            let den: u128 = 2 * (total as u128);
            pct = -((num / den) as i128);
        }
        self.used_mem = Some(pct);
        Ok(())
    }

    /// The rendered percentage, two digits wide, or nothing when no
    /// reading has succeeded yet.
    pub fn output(&self) -> (r: Option<String>)
        requires
            self.wf(),
        ensures
            match self.used_mem {
                Some(v) => r matches Some(t) && t@ == text::pad2_seq(v as int),
                None => r is None,
            },
    {
        match self.used_mem {
            Some(v) => Some(text::pad2_i128(v)),
            None => None,
        }
    }
}

/// A failed reading leaves the previously rendered value intact: after any
/// number of failed ticks the sampler still shows what it last computed,
/// and it shows nothing only if it never had a success.
pub proof fn lemma_failure_keeps_value(
    pre: Mem,
    content: Option<Seq<char>>,
    post: Mem,
    r: Result<(), MemError>,
)
    requires
        Mem::step_rel(pre, content, post, r),
        r is Err,
    ensures
        post == pre,
        post.used_mem is None <==> pre.used_mem is None,
{
}

/// Finds the first numeric value on the first line containing `key`.
fn read_first_value(s: &str, key: &str) -> (r: Option<u64>)
    ensures
        r == mem_value(s@, key@),
{
    match text::find_key_line(s, key) {
        Some((a, b)) => {
            let vals = text::parse_counters(s, a, b);
            if vals.len() > 0 {
                Some(vals[0])
            } else {
                None
            }
        },
        None => None,
    }
}

} // verus!
