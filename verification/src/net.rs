//! The network sampler: turns cumulative byte counters for one interface
//! into smoothed receive and transmit rates. Each reading's instantaneous
//! rate enters a three-slot rolling window; the window's mean is displayed
//! in MB/s with two decimals. A failed reading blanks the display rather
//! than showing a stale speed.

use vstd::prelude::*;

use crate::text;

verus! {

/// Why a network reading could not be used.
#[derive(Debug, PartialEq, Eq, Structural, Clone, Copy)]
pub enum NetError {
    /// No counters were found for the configured interface.
    EmptyVec,
}

impl NetError {
    /// A short description of the failure, for logging.
    pub fn message(&self) -> (r: &'static str)
        ensures
            self is EmptyVec ==> r@ == "vector is empty"@,
    {
        match self {
            NetError::EmptyVec => "vector is empty",
        }
    }
}

/// The counters of one device line, when its first token is the interface
/// name followed by a colon.
pub open spec fn net_line_counters(l: Seq<char>, iface: Seq<char>) -> Option<Seq<u64>> {
    let t = text::strip_lead(l);
    if t.len() > iface.len() && t.take(iface.len() as int) == iface && t[iface.len() as int]
        == ':' {
        Some(text::counters_of(t.skip(iface.len() + 1int)))
    } else {
        None
    }
}

/// The counters of the first line of `s` that belongs to `iface`.
pub open spec fn net_counters(s: Seq<char>, iface: Seq<char>) -> Option<Seq<u64>>
    decreases s.len(),
    via net_counters_decreases
{
    if s.len() == 0 {
        None
    } else {
        let n = text::line_len(s) as int;
        let l = s.take(n);
        match net_line_counters(l, iface) {
            Some(v) => Some(v),
            None => if n == s.len() {
                None
            } else {
                net_counters(s.skip(n + 1), iface)
            },
        }
    }
}

#[via_fn]
proof fn net_counters_decreases(s: Seq<char>, iface: Seq<char>) {
    text::lemma_line_len_bound(s);
}

/// The instantaneous rate in bytes per second; a counter that moved
/// backwards (wraparound or reset) counts as no traffic rather than a
/// negative rate.
pub open spec fn rate_of(new: u64, last: u64, elapsed: int) -> int
    recommends
        elapsed > 0,
{
    if new >= last {
        (new - last) / elapsed
    } else {
        0
    }
}

/// The mean of a full window, in hundredths of MB/s (1 MB = 10^6 bytes),
/// rounded to the nearest hundredth with halves rounding up.
pub open spec fn avg_hundredths(w: Seq<u64>) -> int
    recommends
        w.len() == 3,
{
    (200 * text::sum_of(w) + 3000000) / 6000000
}

/// One rate in hundredths of MB/s, rounded the same way.
pub open spec fn rate_hundredths(r: u64) -> int {
    (200 * r + 1000000) / 2000000
}

/// A window filled with one constant rate averages to exactly that rate's
/// display value: smoothing introduces no drift on steady traffic.
pub proof fn lemma_constant_window_avg(r: u64)
    ensures
        avg_hundredths(seq![r, r, r]) == rate_hundredths(r),
{
    let w = seq![r, r, r];
    assert(w.drop_last() =~= seq![r, r]);
    assert(seq![r, r].drop_last() =~= seq![r]);
    assert(seq![r].drop_last() =~= Seq::<u64>::empty());
    assert(text::sum_of(Seq::<u64>::empty()) == 0);
    assert(text::sum_of(seq![r]) == r);
    assert(text::sum_of(seq![r, r]) == 2 * r);
    assert(text::sum_of(w) == 3 * r);
    vstd::arithmetic::div_mod::lemma_div_multiples_vanish_quotient(
        3,
        200 * (r as int) + 1000000,
        2000000,
    );
    assert(3 * (200 * (r as int) + 1000000) == 200 * (3 * (r as int)) + 3000000) by (nonlinear_arith);
    assert(3 * 2000000 == 6000000int);
}

/// Three pushes of the same rate leave the window constant, whatever it
/// held before.
pub proof fn lemma_window_fills(w: Seq<u64>, r: u64)
    requires
        w.len() == 3,
    ensures
        w.drop_first().push(r).drop_first().push(r).drop_first().push(r) =~= seq![r, r, r],
{
}

/// A constant byte rate converges to its exact display value once the
/// window has filled: whatever the window held, three readings with the
/// same instantaneous rate make the rolling average equal that rate.
pub proof fn lemma_rolling_average_converges(w: Seq<u64>, r: u64)
    requires
        w.len() == 3,
    ensures
        avg_hundredths(w.drop_first().push(r).drop_first().push(r).drop_first().push(r))
            == rate_hundredths(r),
{
    lemma_window_fills(w, r);
    lemma_constant_window_avg(r);
}

/// The network sampler's state: the previous cumulative counters, one
/// rolling window per direction, the previous sample time, and the last
/// rendered averages.
#[derive(Debug, PartialEq, Clone)]
pub struct Net {
    /// Mean receive rate in hundredths of MB/s, if the last reading
    /// succeeded.
    pub avg_recv: Option<u64>,
    /// Mean transmit rate in hundredths of MB/s, if the last reading
    /// succeeded.
    pub avg_tran: Option<u64>,
    /// The cumulative received-bytes counter of the previous reading.
    pub recv: u64,
    /// The cumulative transmitted-bytes counter of the previous reading.
    pub tran: u64,
    /// The rolling window of receive rates, oldest first.
    pub recv_stack: Vec<u64>,
    /// The rolling window of transmit rates, oldest first.
    pub tran_stack: Vec<u64>,
    /// The time of the previous successful reading, in seconds.
    pub net_time: u64,
    /// The interface whose line is read.
    pub interface: String,
}

impl Net {
    /// The state invariant: both windows stay exactly three slots long.
    pub open spec fn wf(self) -> bool {
        self.recv_stack@.len() == 3 && self.tran_stack@.len() == 3
    }

    /// A sampler for `i`, with empty windows and nothing to report. The
    /// clock starts at `now` seconds.
    pub fn init(i: String, now: u64) -> (n: Net)
        ensures
            n.wf(),
            n.avg_recv is None,
            n.avg_tran is None,
            n.recv == 0 && n.tran == 0,
            n.recv_stack@ =~= seq![0u64, 0u64, 0u64],
            n.tran_stack@ =~= seq![0u64, 0u64, 0u64],
            n.net_time == now,
            n.interface == i,
    {
        let mut recv_stack: Vec<u64> = Vec::new();
        recv_stack.push(0);
        recv_stack.push(0);
        recv_stack.push(0);
        let mut tran_stack: Vec<u64> = Vec::new();
        tran_stack.push(0);
        tran_stack.push(0);
        tran_stack.push(0);
        Net {
            avg_recv: None,
            avg_tran: None,
            recv: 0,
            tran: 0,
            recv_stack,
            tran_stack,
            net_time: now,
            interface: i,
        }
    }

    /// How one reading at time `now` (in seconds) transforms the sampler:
    /// `content` is the pseudo-file text, or nothing for an unreadable
    /// source. A reading without at least nine counters for the interface
    /// fails, and any failure blanks both averages while leaving the
    /// counters, windows and clock alone. A successful reading pushes one
    /// instantaneous rate per direction into the windows — evicting the
    /// oldest slot — and renders the window means; elapsed time is clamped
    /// to at least one second.
    pub open spec fn step_rel(
        pre: Net,
        now: u64,
        content: Option<Seq<char>>,
        post: Net,
        r: Result<(), NetError>,
    ) -> bool {
        let parsed = match content {
            Some(s) => net_counters(s, pre.interface@),
            None => None,
        };
        match parsed {
            Some(v) => {
                if v.len() < 9 {
                    &&& post == (Net { avg_recv: None, avg_tran: None, ..pre })
                    &&& r == Err::<(), NetError>(NetError::EmptyVec)
                } else {
                    let elapsed = if now > pre.net_time {
                        now - pre.net_time
                    } else {
                        1
                    };
                    let rr = rate_of(v[0], pre.recv, elapsed);
                    let rt = rate_of(v[8], pre.tran, elapsed);
                    let wr = pre.recv_stack@.drop_first().push(rr as u64);
                    let wt = pre.tran_stack@.drop_first().push(rt as u64);
                    &&& r is Ok
                    &&& post.recv == v[0]
                    &&& post.tran == v[8]
                    &&& post.recv_stack@ == wr
                    &&& post.tran_stack@ == wt
                    &&& post.avg_recv == Some(avg_hundredths(wr) as u64)
                    &&& post.avg_tran == Some(avg_hundredths(wt) as u64)
                    &&& post.net_time == now
                    &&& post.interface == pre.interface
                }
            },
            None => {
                &&& post == (Net { avg_recv: None, avg_tran: None, ..pre })
                &&& r == Err::<(), NetError>(NetError::EmptyVec)
            },
        }
    }


    /// `step_rel` with the result abstracted away.
    pub open spec fn step_any(pre: Net, now: u64, content: Option<Seq<char>>, post: Net) -> bool {
        exists|res: Result<(), NetError>| Net::step_rel(pre, now, content, post, res)
    }

    /// Digests one reading of the device pseudo-file, as `step_rel` says.
    pub fn update(&mut self, now: u64, content: Option<&str>) -> (r: Result<(), NetError>)
        requires
            old(self).wf(),
        ensures
            final(self).wf(),
            Net::step_rel(
                *old(self),
                now,
                match content {
                    Some(s) => Some(s@),
                    None => None,
                },
                *final(self),
                r,
            ),
    {
        let vals = match content {
            None => {
                self.avg_recv = None;
                self.avg_tran = None;
                return Err(NetError::EmptyVec);
            },
            Some(s) => {
                match read_net_counters(s, self.interface.as_str()) {
                    Some(v) => v,
                    None => {
                        self.avg_recv = None;
                        self.avg_tran = None;
                        return Err(NetError::EmptyVec);
                    },
                }
            },
        };
        if vals.len() < 9 {
            self.avg_recv = None;
            self.avg_tran = None;
            return Err(NetError::EmptyVec);
        }
        let elapsed: u64 = if now > self.net_time {
            now - self.net_time
        } else {
            1
        };
        let new_recv: u64 = vals[0];
        let new_tran: u64 = vals[8];
        let rr: u64 = if new_recv >= self.recv {
            (new_recv - self.recv) / elapsed
        } else {
            0
        };
        let rt: u64 = if new_tran >= self.tran {
            (new_tran - self.tran) / elapsed
        } else {
            0
        };
        let ghost old_recv_stack = self.recv_stack@;
        let ghost old_tran_stack = self.tran_stack@;
        self.recv_stack.remove(0);
        self.recv_stack.push(rr);
        self.tran_stack.remove(0);
        self.tran_stack.push(rt);
        proof {
            assert(old_recv_stack.remove(0) =~= old_recv_stack.drop_first());
            assert(old_tran_stack.remove(0) =~= old_tran_stack.drop_first());
        }
        self.avg_recv = Some(window_avg(&self.recv_stack));
        self.avg_tran = Some(window_avg(&self.tran_stack));
        self.recv = new_recv;
        self.tran = new_tran;
        self.net_time = now;
        Ok(())
    }

    /// Both rates rendered on one line, or nothing when the last reading
    /// failed.
    pub fn output(&self) -> (r: Option<String>)
        ensures
            match (self.avg_recv, self.avg_tran) {
                (Some(hr), Some(ht)) => r matches Some(t) && t@ == seq!['\u{e061}'] + mb_text(
                    hr as int,
                ) + " MB/s \u{e060}"@ + mb_text(ht as int) + " MB/s"@,
                _ => r is None,
            },
    {
        match (self.avg_recv, self.avg_tran) {
            (Some(hr), Some(ht)) => {
                let mut out = String::new();
                text::push_char(&mut out, '\u{e061}');
                let rtext = render_mb(hr);
                out.append(rtext.as_str());
                out.append(" MB/s \u{e060}");
                let ttext = render_mb(ht);
                out.append(ttext.as_str());
                out.append(" MB/s");
                proof {
                    assert(Seq::<char>::empty().push('\u{e061}') =~= seq!['\u{e061}']);
                }
                Some(out)
            },
            _ => None,
        }
    }

    /// The receive rate alone, or nothing when the last reading failed.
    pub fn dl_output(&self) -> (r: Option<String>)
        ensures
            match self.avg_recv {
                Some(h) => r matches Some(t) && t@ == seq!['\u{e061}'] + mb_text(h as int)
                    + " MB/s"@,
                None => r is None,
            },
    {
        match self.avg_recv {
            Some(h) => {
                let mut out = String::new();
                text::push_char(&mut out, '\u{e061}');
                let t = render_mb(h);
                out.append(t.as_str());
                out.append(" MB/s");
                proof {
                    assert(Seq::<char>::empty().push('\u{e061}') =~= seq!['\u{e061}']);
                }
                Some(out)
            },
            None => None,
        }
    }

    /// The transmit rate alone, or nothing when the last reading failed.
    pub fn up_output(&self) -> (r: Option<String>)
        ensures
            match self.avg_tran {
                Some(h) => r matches Some(t) && t@ == seq!['\u{e060}'] + mb_text(h as int)
                    + " MB/s"@,
                None => r is None,
            },
    {
        match self.avg_tran {
            Some(h) => {
                let mut out = String::new();
                text::push_char(&mut out, '\u{e060}');
                let t = render_mb(h);
                out.append(t.as_str());
                out.append(" MB/s");
                proof {
                    assert(Seq::<char>::empty().push('\u{e060}') =~= seq!['\u{e060}']);
                }
                Some(out)
            },
            None => None,
        }
    }
}

/// A rate in hundredths of MB/s rendered with two decimals.
pub open spec fn mb_text(h: int) -> Seq<char>
    recommends
        h >= 0,
{
    text::dec_seq(h / 100) + seq!['.'] + text::pad2_seq(h % 100)
}

/// Renders hundredths of MB/s as a two-decimal number.
fn render_mb(h: u64) -> (r: String)
    ensures
        r@ == mb_text(h as int),
{
    let mut out = text::u64_to_dec(h / 100);
    text::push_char(&mut out, '.');
    let frac = text::pad2_i128((h % 100) as i128);
    out.append(frac.as_str());
    proof {
        assert(text::dec_seq((h / 100) as int).push('.') =~= text::dec_seq(h as int / 100)
            + seq!['.']);
    }
    out
}

/// The mean of a full window in hundredths of MB/s.
fn window_avg(w: &Vec<u64>) -> (r: u64)
    requires
        w@.len() == 3,
    ensures
        r == avg_hundredths(w@),
{
    let sum: u128 = (w[0] as u128) + (w[1] as u128) + (w[2] as u128);
    proof {
        assert(w@.drop_last() =~= seq![w@[0], w@[1]]);
        assert(seq![w@[0], w@[1]].drop_last() =~= seq![w@[0]]);
        assert(seq![w@[0]].drop_last() =~= Seq::<u64>::empty());
        assert(text::sum_of(Seq::<u64>::empty()) == 0);
        assert(text::sum_of(seq![w@[0]]) == w@[0]);
        assert(text::sum_of(seq![w@[0], w@[1]]) == w@[0] + w@[1]);
        assert(text::sum_of(w@) == w@[0] + w@[1] + w@[2]);
    }
    ((200 * sum + 3000000) / 6000000) as u64
}

/// Reads the counters of the first device line that belongs to `iface`.
fn read_net_counters(s: &str, iface: &str) -> (r: Option<Vec<u64>>)
    ensures
        match r {
            Some(v) => net_counters(s@, iface@) == Some(v@),
            None => net_counters(s@, iface@) is None,
        },
{
    let s_len: usize = s.unicode_len();
    let if_len: usize = iface.unicode_len();
    let mut i: usize = 0;
    proof {
        assert(s@.skip(0) =~= s@);
    }
    while i < s_len
        invariant
            0 <= i <= s_len,
            s_len == s@.len(),
            if_len == iface@.len(),
            net_counters(s@, iface@) == net_counters(s@.skip(i as int), iface@),
        decreases s_len - i,
    {
        let ghost rest = s@.skip(i as int);
        let mut e: usize = i;
        while e < s_len && s.get_char(e) != '\n'
            invariant
                i <= e <= s_len <= s@.len(),
                forall|k: int| i <= k < e ==> #[trigger] s@[k] != '\n',
            decreases s_len - e,
        {
            e += 1;
        }
        proof {
            assert forall|k: int| 0 <= k < e - i implies #[trigger] rest[k] != '\n' by {
                assert(rest[k] == s@[i + k]);
            }
            if e - i < rest.len() {
                assert(rest[e - i] == s@[e as int]);
            }
            text::lemma_line_len_is(rest, e - i);
            assert(rest.take(e - i) =~= s@.subrange(i as int, e as int));
        }
        let ghost line = s@.subrange(i as int, e as int);
        let a = text::lead_end(s, i, e);
        let ghost t = s@.subrange(a as int, e as int);
        let sel: bool = if_len < e - a && str_matches_tail(s, iface, a) && s.get_char(a + if_len)
            == ':';
        proof {
            if if_len < e - a {
                assert(t.take(if_len as int) =~= s@.subrange(a as int, a + if_len));
                assert(t[if_len as int] == s@[a + if_len]);
            }
            assert(t.len() == e - a);
        }
        if sel {
            let vals = text::parse_counters(s, a + if_len + 1, e);
            proof {
                assert(t.skip(if_len + 1int) =~= s@.subrange(a + if_len + 1, e as int));
                assert(net_line_counters(line, iface@) == Some(vals@));
            }
            return Some(vals);
        }
        proof {
            assert(net_line_counters(line, iface@) is None);
        }
        if e == s_len {
            proof {
                assert(e - i == rest.len());
            }
            return None;
        }
        proof {
            assert(rest.skip(e - i + 1) =~= s@.skip(e + 1));
        }
        i = e + 1;
    }
    proof {
        assert(s@.skip(i as int) =~= Seq::<char>::empty());
    }
    None
}

/// Whether `p` occurs in `s` at `i`, with the bound checked at run time.
fn str_matches_tail(s: &str, p: &str, i: usize) -> (b: bool)
    requires
        i <= s@.len(),
        i + p@.len() <= s@.len(),
    ensures
        b == (s@.subrange(i as int, i + p@.len()) == p@),
{
    text::str_matches_at(s, p, i)
}

/// Reads the numeric counters for `interface` out of device pseudo-file
/// text: the values of the first line whose first token is the interface
/// name followed by a colon.
pub fn read_net_proc(content: &str, interface: &str) -> (r: Result<Vec<u64>, NetError>)
    ensures
        match r {
            Ok(v) => net_counters(content@, interface@) == Some(v@) && v@.len() > 0,
            Err(e) => e == NetError::EmptyVec && (net_counters(content@, interface@) is None
                || net_counters(content@, interface@) == Some(Seq::<u64>::empty())),
        },
{
    match read_net_counters(content, interface) {
        Some(v) => {
            if v.len() == 0 {
                proof {
                    assert(v@ =~= Seq::<u64>::empty());
                }
                Err(NetError::EmptyVec)
            } else {
                Ok(v)
            }
        },
        None => Err(NetError::EmptyVec),
    }
}

} // verus!
