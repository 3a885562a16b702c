//! Per-process descriptor accounting: parses accounting lines, deduplicates
//! shared GPU contexts, and converts monotonic engine busy-time counters
//! into percentage-like rates between polls.

use vstd::prelude::*;

use std::collections::{HashMap, HashSet};

use crate::parse::{
    all_digits, digits_val, parse_u64_range, spec_find_from, spec_lines, spec_parse_u64,
    spec_starts_with, split_lines, str_equal, str_starts_with, find_tab,
};
use crate::render::{
    push_i64_padded, push_str_padded_right, push_u64_padded, spec_idec, spec_pad_left,
    spec_pad_right, spec_udec,
};
use crate::sort::{sort_proc_usage, spec_sort_samples};
use crate::text::Text;

verus! {

broadcast use vstd::std_specs::hash::group_hash_axioms;

/// The display name of a process is cut to this many characters.
pub const PROC_NAME_LEN: usize = 15;

/// One process to sample: its id, display name, and the contents of each
/// readable descriptor accounting file that points at the target device.
/// The host reads the files; the engine only parses their text.
#[derive(Clone, Debug)]
pub struct ProcInfo {
    pub pid: i32,
    pub name: String,
    pub fdinfo_texts: Vec<String>,
}

/// Cumulative usage attributed to one process: absolute memory magnitudes
/// in KiB and monotonic engine busy-time counters in nanoseconds. After a
/// poll's delta computation the engine fields hold percentage-like rates.
#[derive(Clone, Copy, Debug, PartialEq, Eq, Structural)]
pub struct FdInfoUsage {
    pub vram_usage: u64,
    pub gtt_usage: u64,
    pub cpu_accessible_usage: u64,
    pub gfx: i64,
    pub compute: i64,
    pub dma: i64,
    pub dec: i64,
    pub enc: i64,
    pub uvd_enc: i64,
    pub vcn_jpeg: i64,
}

/// One ephemeral usage sample: pid, truncated display name, absolute
/// memory fields and per-engine rates.
#[derive(Clone, Debug)]
pub struct ProcUsage {
    pub pid: i32,
    pub name: String,
    pub usage: FdInfoUsage,
}

/// The key the sample table is sorted by.
#[derive(Clone, Copy, Debug, PartialEq, Eq, Structural)]
pub enum FdInfoSortType {
    PID,
    VRAM,
    GFX,
    MediaEngine,
}

/// The usage record with every field zero.
pub open spec fn zero_usage() -> FdInfoUsage {
    FdInfoUsage {
        vram_usage: 0,
        gtt_usage: 0,
        cpu_accessible_usage: 0,
        gfx: 0,
        compute: 0,
        dma: 0,
        dec: 0,
        enc: 0,
        uvd_enc: 0,
        vcn_jpeg: 0,
    }
}

impl Default for FdInfoUsage {
    fn default() -> (r: Self)
        ensures
            r == zero_usage(),
    {
        FdInfoUsage {
            vram_usage: 0,
            gtt_usage: 0,
            cpu_accessible_usage: 0,
            gfx: 0,
            compute: 0,
            dma: 0,
            dec: 0,
            enc: 0,
            uvd_enc: 0,
            vcn_jpeg: 0,
        }
    }
}

/// Saturating addition of a memory magnitude.
pub open spec fn sat_add_u64(a: u64, b: u64) -> u64 {
    if a + b > u64::MAX {
        u64::MAX
    } else {
        (a + b) as u64
    }
}

/// Saturating addition of a non-negative engine magnitude to a counter.
pub open spec fn sat_add_i64(a: i64, b: i64) -> i64
    recommends
        b >= 0,
{
    if a + b > i64::MAX {
        i64::MAX
    } else {
        (a + b) as i64
    }
}

fn add_mem(a: u64, b: u64) -> (r: u64)
    ensures
        r == sat_add_u64(a, b),
{
    if a > u64::MAX - b {
        u64::MAX
    } else {
        a + b
    }
}

fn add_ns(a: i64, b: i64) -> (r: i64)
    requires
        b >= 0,
    ensures
        r == sat_add_i64(a, b),
{
    if a > i64::MAX - b {
        i64::MAX
    } else {
        a + b
    }
}

/// An engine magnitude: the value of a non-empty all-digit string that
/// fits in a signed 64-bit counter, and 0 for anything malformed.
pub open spec fn spec_parse_engine_mag(s: Seq<char>) -> i64 {
    if s.len() > 0 && all_digits(s) && digits_val(s) <= i64::MAX {
        digits_val(s) as i64
    } else {
        0
    }
}

fn parse_engine_mag(s: &str, from: usize, to: usize) -> (r: i64)
    requires
        from <= to <= s@.len(),
    ensures
        r == spec_parse_engine_mag(s@.subrange(from as int, to as int)),
{
    let v = parse_u64_range(s, from, to);
    if v > i64::MAX as u64 {
        0
    } else {
        v as i64
    }
}

/// The context id carried by a `drm-client-id` line: the digits after the
/// fixed 15-character prefix, 0 when malformed.
pub open spec fn spec_client_id(l: Seq<char>) -> u64 {
    if l.len() >= 15 {
        spec_parse_u64(l.subrange(15, l.len() as int))
    } else {
        0
    }
}

/// A context identity line.
pub open spec fn is_id_line(l: Seq<char>) -> bool {
    spec_starts_with(l, "drm-client-id"@)
}

/// A memory accounting line.
pub open spec fn is_mem_line(l: Seq<char>) -> bool {
    spec_starts_with(l, "drm-memory"@)
}

/// An engine busy-time line.
pub open spec fn is_engine_line(l: Seq<char>) -> bool {
    spec_starts_with(l, "drm-engine"@)
}

/// The usage record after one memory line: the category tag selects the
/// field, the KiB magnitude is added saturatingly; unknown tags and lines
/// too short to carry a magnitude change nothing.
pub open spec fn spec_apply_mem(u: FdInfoUsage, l: Seq<char>) -> FdInfoUsage {
    if l.len() >= 21 {
        let tag = l.subrange(11, 16);
        let amount = spec_parse_u64(l.subrange(17, l.len() - 4));
        if tag == "vram:"@ {
            FdInfoUsage { vram_usage: sat_add_u64(u.vram_usage, amount), ..u }
        } else if tag == "gtt: "@ {
            FdInfoUsage { gtt_usage: sat_add_u64(u.gtt_usage, amount), ..u }
        } else if tag == "cpu: "@ {
            FdInfoUsage { cpu_accessible_usage: sat_add_u64(u.cpu_accessible_usage, amount), ..u }
        } else {
            u
        }
    } else {
        u
    }
}

/// The usage record after one engine line: the tag between the fixed
/// prefix and the first tab selects the counter, the nanosecond magnitude
/// before the trailing unit is added saturatingly; lines without a tab,
/// with an unknown tag, or too short for a magnitude change nothing.
pub open spec fn spec_apply_engine(u: FdInfoUsage, l: Seq<char>) -> FdInfoUsage {
    match spec_find_from(l, '\t', 0) {
        None => u,
        Some(pos) => {
            if 11 <= pos && pos + 1 <= l.len() - 3 {
                let tag = l.subrange(11, pos);
                let ns = spec_parse_engine_mag(l.subrange(pos + 1, l.len() - 3));
                if tag == "gfx:"@ {
                    FdInfoUsage { gfx: sat_add_i64(u.gfx, ns), ..u }
                } else if tag == "compute:"@ {
                    FdInfoUsage { compute: sat_add_i64(u.compute, ns), ..u }
                } else if tag == "dma:"@ {
                    FdInfoUsage { dma: sat_add_i64(u.dma, ns), ..u }
                } else if tag == "dec:"@ {
                    FdInfoUsage { dec: sat_add_i64(u.dec, ns), ..u }
                } else if tag == "enc:"@ {
                    FdInfoUsage { enc: sat_add_i64(u.enc, ns), ..u }
                } else if tag == "enc_1:"@ {
                    FdInfoUsage { uvd_enc: sat_add_i64(u.uvd_enc, ns), ..u }
                } else if tag == "jpeg:"@ {
                    FdInfoUsage { vcn_jpeg: sat_add_i64(u.vcn_jpeg, ns), ..u }
                } else {
                    u
                }
            } else {
                u
            }
        },
    }
}

impl FdInfoUsage {
    /// Reads the context id off a `drm-client-id` line; malformed digits
    /// degrade to id 0 rather than aborting the poll.
    pub fn id_parse(s: &str) -> (r: u64)
        ensures
            r == spec_client_id(s@),
    {
        let n = s.unicode_len();
        if n < 15 {
            0
        } else {
            parse_u64_range(s, 15, n)
        }
    }

    /// Accumulates one memory accounting line into this record.
    pub fn mem_usage_parse(&mut self, s: &str)
        ensures
            *final(self) == spec_apply_mem(*old(self), s@),
    {
        let n = s.unicode_len();
        if n < 21 {
            return ;
        }
        let tag = s.substring_char(11, 16);
        let amount = parse_u64_range(s, 17, n - 4);
        if str_equal(tag, "vram:") {
            self.vram_usage = add_mem(self.vram_usage, amount);
        } else if str_equal(tag, "gtt: ") {
            self.gtt_usage = add_mem(self.gtt_usage, amount);
        } else if str_equal(tag, "cpu: ") {
            self.cpu_accessible_usage = add_mem(self.cpu_accessible_usage, amount);
        }
    }

    /// Accumulates one engine busy-time line into this record.
    pub fn engine_parse(&mut self, s: &str)
        ensures
            *final(self) == spec_apply_engine(*old(self), s@),
    {
        let n = s.unicode_len();
        let pos = match find_tab(s) {
            Some(pos) => pos,
            None => {
                return ;
            },
        };
        if pos < 11 || n < 4 || pos > n - 4 {
            return ;
        }
        let tag = s.substring_char(11, pos);
        let ns = parse_engine_mag(s, pos + 1, n - 3);
        if str_equal(tag, "gfx:") {
            self.gfx = add_ns(self.gfx, ns);
        } else if str_equal(tag, "compute:") {
            self.compute = add_ns(self.compute, ns);
        } else if str_equal(tag, "dma:") {
            self.dma = add_ns(self.dma, ns);
        } else if str_equal(tag, "dec:") {
            self.dec = add_ns(self.dec, ns);
        } else if str_equal(tag, "enc:") {
            self.enc = add_ns(self.enc, ns);
        } else if str_equal(tag, "enc_1:") {
            self.uvd_enc = add_ns(self.uvd_enc, ns);
        } else if str_equal(tag, "jpeg:") {
            self.vcn_jpeg = add_ns(self.vcn_jpeg, ns);
        }
    }

    /// Point-in-time samples derived from the previous and current
    /// counters: memory fields are copied absolute, engine counters become
    /// rates over the elapsed interval.
    pub fn calc_usage(&self, pre_stat: &Self, interval_ns: u64) -> (r: Self)
        ensures
            r == spec_calc_usage(*self, *pre_stat, interval_ns),
    {
        FdInfoUsage {
            vram_usage: self.vram_usage,
            gtt_usage: self.gtt_usage,
            cpu_accessible_usage: self.cpu_accessible_usage,
            gfx: rate(pre_stat.gfx, self.gfx, interval_ns),
            compute: rate(pre_stat.compute, self.compute, interval_ns),
            dma: rate(pre_stat.dma, self.dma, interval_ns),
            dec: rate(pre_stat.dec, self.dec, interval_ns),
            enc: rate(pre_stat.enc, self.enc, interval_ns),
            uvd_enc: rate(pre_stat.uvd_enc, self.uvd_enc, interval_ns),
            vcn_jpeg: rate(pre_stat.vcn_jpeg, self.vcn_jpeg, interval_ns),
        }
    }
}

/// The rate one engine reports: the non-negative counter delta divided by
/// one hundredth of the interval. Without a baseline (`pre == 0`), with a
/// shrinking counter, or with an interval shorter than 100 ns the rate
/// is 0 — never negative and never a division by zero.
pub open spec fn spec_rate(pre: i64, cur: i64, interval_ns: u64) -> i64 {
    let delta: int = if pre == 0 {
        0
    } else if cur - pre < 0 {
        0
    } else if cur - pre > i64::MAX {
        i64::MAX as int
    } else {
        cur - pre
    };
    let div = interval_ns / 100;
    if div == 0 {
        0
    } else {
        (delta / div as int) as i64
    }
}

fn rate(pre: i64, cur: i64, interval_ns: u64) -> (r: i64)
    ensures
        r == spec_rate(pre, cur, interval_ns),
{
    if pre == 0 {
        return 0;
    }
    let d: i128 = cur as i128 - pre as i128;
    let delta: i64 = if d <= 0 {
        0
    } else if d > i64::MAX as i128 {
        i64::MAX
    } else {
        d as i64
    };
    let div = interval_ns / 100;
    if div == 0 {
        return 0;
    }
    let q = (delta as u64) / div;
    proof {
        assert(delta as u64 / div <= delta as u64) by (nonlinear_arith)
            requires
                div >= 1,
        ;
    }
    q as i64
}

/// The sample for a process with a stored baseline.
pub open spec fn spec_calc_usage(cur: FdInfoUsage, pre: FdInfoUsage, interval_ns: u64)
    -> FdInfoUsage {
    FdInfoUsage {
        vram_usage: cur.vram_usage,
        gtt_usage: cur.gtt_usage,
        cpu_accessible_usage: cur.cpu_accessible_usage,
        gfx: spec_rate(pre.gfx, cur.gfx, interval_ns),
        compute: spec_rate(pre.compute, cur.compute, interval_ns),
        dma: spec_rate(pre.dma, cur.dma, interval_ns),
        dec: spec_rate(pre.dec, cur.dec, interval_ns),
        enc: spec_rate(pre.enc, cur.enc, interval_ns),
        uvd_enc: spec_rate(pre.uvd_enc, cur.uvd_enc, interval_ns),
        vcn_jpeg: spec_rate(pre.vcn_jpeg, cur.vcn_jpeg, interval_ns),
    }
}

/// The sample for a process seen for the first time: memory fields are
/// kept, every engine rate is 0.
pub open spec fn spec_first_sample(cur: FdInfoUsage) -> FdInfoUsage {
    FdInfoUsage {
        vram_usage: cur.vram_usage,
        gtt_usage: cur.gtt_usage,
        cpu_accessible_usage: cur.cpu_accessible_usage,
        ..zero_usage()
    }
}

/// A counter that did not move yields rate 0: polling the same counters
/// again, over any interval, reports an all-zero-rate sample with the
/// current memory fields.
pub proof fn lemma_unchanged_counters_zero_rates(u: FdInfoUsage, interval_ns: u64)
    ensures
        spec_calc_usage(u, u, interval_ns) == spec_first_sample(u),
{
}

/// A shrinking counter yields rate 0, never a negative rate.
pub proof fn lemma_decreasing_counter_zero_rate(pre: i64, cur: i64, interval_ns: u64)
    requires
        cur < pre,
    ensures
        spec_rate(pre, cur, interval_ns) == 0,
{
}

/// No rate is ever negative.
pub proof fn lemma_rate_nonnegative(pre: i64, cur: i64, interval_ns: u64)
    ensures
        spec_rate(pre, cur, interval_ns) >= 0,
{
}

/// A zero-length interval yields rate 0 rather than a division by zero.
pub proof fn lemma_zero_interval_zero_rate(pre: i64, cur: i64)
    ensures
        spec_rate(pre, cur, 0) == 0,
{
}

/// A line the accounting grammar does not recognize.
pub open spec fn is_unrecognized_line(l: Seq<char>) -> bool {
    !is_id_line(l) && !is_mem_line(l) && !is_engine_line(l)
}

/// The scan of one descriptor file's lines from position `i`: context
/// identity lines record their id, memory and engine lines accumulate,
/// anything else is ignored. A repeated id abandons the rest of the file
/// and raises the third component, the stop flag: a context seen twice
/// ends the whole poll of this process.
pub open spec fn spec_scan_lines(
    u: FdInfoUsage,
    ids: Set<u64>,
    lines: Seq<Seq<char>>,
    i: int,
) -> (FdInfoUsage, Set<u64>, bool)
    decreases lines.len() - i when 0 <= i <= lines.len()
{
    if i >= lines.len() {
        (u, ids, false)
    } else {
        let l = lines[i];
        if is_id_line(l) {
            let id = spec_client_id(l);
            if ids.contains(id) {
                (u, ids, true)
            } else {
                spec_scan_lines(u, ids.insert(id), lines, i + 1)
            }
        } else if is_mem_line(l) {
            spec_scan_lines(spec_apply_mem(u, l), ids, lines, i + 1)
        } else if is_engine_line(l) {
            spec_scan_lines(spec_apply_engine(u, l), ids, lines, i + 1)
        } else {
            spec_scan_lines(u, ids, lines, i + 1)
        }
    }
}

/// The scan of all of a process's descriptor files from position `i`.
/// Once one file reports a repeated context id, every remaining file is
/// skipped entirely: a context's resources are counted exactly once.
pub open spec fn spec_scan_texts(
    u: FdInfoUsage,
    ids: Set<u64>,
    texts: Seq<Seq<char>>,
    i: int,
) -> (FdInfoUsage, Set<u64>)
    decreases texts.len() - i when 0 <= i <= texts.len()
{
    if i >= texts.len() {
        (u, ids)
    } else {
        let r = spec_scan_lines(u, ids, spec_lines(texts[i]), 0);
        if r.2 {
            (r.0, r.1)
        } else {
            spec_scan_texts(r.0, r.1, texts, i + 1)
        }
    }
}

/// The cumulative usage one process's accounting texts parse to.
pub open spec fn spec_parse_proc(texts: Seq<Seq<char>>) -> FdInfoUsage {
    spec_scan_texts(zero_usage(), Set::empty(), texts, 0).0
}

/// The display name cut to the fixed maximum prefix length.
pub open spec fn spec_truncated_name(n: Seq<char>) -> Seq<char> {
    if n.len() > PROC_NAME_LEN {
        n.subrange(0, PROC_NAME_LEN as int)
    } else {
        n
    }
}

/// The sample a poll emits for a process: rates against the stored
/// baseline when one exists, all-zero rates on first sight.
pub open spec fn spec_sample_usage(
    baselines: Map<i32, FdInfoUsage>,
    pid: i32,
    cur: FdInfoUsage,
    interval_ns: u64,
) -> FdInfoUsage {
    if baselines.contains_key(pid) {
        spec_calc_usage(cur, baselines[pid], interval_ns)
    } else {
        spec_first_sample(cur)
    }
}

/// The per-process usage accumulator: baselines persist across polls and
/// are never pruned when a process disappears; samples are rebuilt whole
/// on every poll.
pub struct FdInfoView {
    /// Baseline counters per process id, persisting across polls.
    pub pid_map: HashMap<i32, FdInfoUsage>,
    pub proc_usage: Vec<ProcUsage>,
    /// Elapsed wall-clock time between this poll and the previous one,
    /// in nanoseconds.
    pub interval: u64,
    pub text: Text,
}

impl FdInfoView {
    /// The stored baseline counters, one per process id ever observed.
    pub open spec fn baselines(&self) -> Map<i32, FdInfoUsage> {
        self.pid_map@
    }

    /// A fresh view with no baselines, no samples and empty text.
    pub fn new(interval: u64) -> (r: Self)
        ensures
            r.baselines() == Map::<i32, FdInfoUsage>::empty(),
            r.proc_usage@ == Seq::<ProcUsage>::empty(),
            r.interval == interval,
            r.text.buf@ == Seq::<char>::empty(),
    {
        FdInfoView {
            pid_map: HashMap::new(),
            proc_usage: Vec::new(),
            interval,
            text: Text::new(),
        }
    }

    /// Parses one process's accounting texts, emits its sample, and
    /// replaces its stored baseline with the freshly parsed counters.
    pub fn get_proc_usage(&mut self, proc_info: &ProcInfo)
        ensures
            ({
                let cur = spec_parse_proc(proc_info.fdinfo_texts.deep_view());
                let pu = final(self).proc_usage@.last();
                &&& final(self).baselines() == old(self).baselines().insert(proc_info.pid, cur)
                &&& final(self).proc_usage@.len() == old(self).proc_usage@.len() + 1
                &&& final(self).proc_usage@.drop_last() == old(self).proc_usage@
                &&& pu.pid == proc_info.pid
                &&& pu.name@ == spec_truncated_name(proc_info.name@)
                &&& pu.usage == spec_sample_usage(
                    old(self).baselines(),
                    proc_info.pid,
                    cur,
                    old(self).interval,
                )
                &&& final(self).interval == old(self).interval
                &&& final(self).text == old(self).text
            }),
    {
        let ghost texts_dv = proc_info.fdinfo_texts.deep_view();
        let ghost target = spec_scan_texts(zero_usage(), Set::<u64>::empty(), texts_dv, 0);
        let pid = proc_info.pid;
        let nl = proc_info.name.as_str().unicode_len();
        let name = if nl > PROC_NAME_LEN {
            String::from_str(proc_info.name.as_str().substring_char(0, PROC_NAME_LEN))
        } else {
            proc_info.name.clone()
        };
        let mut ids: HashSet<u64> = HashSet::new();
        let mut stat = FdInfoUsage::default();
        let n_texts = proc_info.fdinfo_texts.len();
        let mut t: usize = 0;
        proof {
            assert(ids@ =~= Set::<u64>::empty());
        }
        while t < n_texts
            invariant_except_break
                spec_scan_texts(stat, ids@, texts_dv, t as int) == target,
            invariant
                t <= n_texts,
                n_texts == proc_info.fdinfo_texts@.len(),
                texts_dv == proc_info.fdinfo_texts.deep_view(),
                texts_dv.len() == n_texts,
                target == spec_scan_texts(zero_usage(), Set::<u64>::empty(), texts_dv, 0),
            ensures
                stat == target.0,
                ids@ == target.1,
            decreases n_texts - t,
        {
            let lines = split_lines(proc_info.fdinfo_texts[t].as_str());
            let ghost lines_dv = spec_lines(texts_dv[t as int]);
            proof {
                assert(proc_info.fdinfo_texts@[t as int]@ == texts_dv[t as int]);
                assert(lines.deep_view() == lines_dv);
            }
            let ghost stat0 = stat;
            let ghost ids0 = ids@;
            let n_lines = lines.len();
            let mut j: usize = 0;
            let mut stopped = false;
            while j < n_lines
                invariant_except_break
                    !stopped,
                invariant
                    j <= n_lines,
                    n_lines == lines@.len(),
                    lines.deep_view() == lines_dv,
                    spec_scan_lines(stat, ids@, lines_dv, j as int) == spec_scan_lines(
                        stat0,
                        ids0,
                        lines_dv,
                        0,
                    ),
                ensures
                    j <= n_lines,
                    spec_scan_lines(stat, ids@, lines_dv, j as int) == spec_scan_lines(
                        stat0,
                        ids0,
                        lines_dv,
                        0,
                    ),
                    stopped <==> j < n_lines,
                    stopped ==> ({
                        let l = lines_dv[j as int];
                        is_id_line(l) && ids@.contains(spec_client_id(l))
                    }),
                decreases n_lines - j,
            {
                let line = lines[j].as_str();
                proof {
                    assert(lines_dv[j as int] == lines@[j as int]@);
                }
                if str_starts_with(line, "drm-client-id") {
                    let id = FdInfoUsage::id_parse(line);
                    let ghost ids_before = ids@;
                    let fresh = ids.insert(id);
                    if !fresh {
                        stopped = true;
                        proof {
                            assert(ids@ =~= ids_before);
                        }
                        break ;
                    }
                } else if str_starts_with(line, "drm-memory") {
                    stat.mem_usage_parse(line);
                } else if str_starts_with(line, "drm-engine") {
                    stat.engine_parse(line);
                }
                j = j + 1;
            }
            if stopped {
                proof {
                    assert(spec_scan_lines(stat, ids@, lines_dv, j as int) == (
                        stat,
                        ids@,
                        true,
                    ));
                    assert(spec_scan_lines(stat0, ids0, lines_dv, 0) == (stat, ids@, true));
                    assert(spec_scan_texts(stat0, ids0, texts_dv, t as int) == (stat, ids@));
                }
                break ;
            }
            proof {
                assert(spec_scan_lines(stat, ids@, lines_dv, j as int) == (stat, ids@, false));
                assert(spec_scan_lines(stat0, ids0, lines_dv, 0) == (stat, ids@, false));
            }
            t = t + 1;
        }
        proof {
            assert(stat == spec_parse_proc(texts_dv));
        }
        let diff = match self.pid_map.get(&pid) {
            Some(pre) => {
                let pre_stat = *pre;
                stat.calc_usage(&pre_stat, self.interval)
            },
            None => {
                FdInfoUsage {
                    vram_usage: stat.vram_usage,
                    gtt_usage: stat.gtt_usage,
                    cpu_accessible_usage: stat.cpu_accessible_usage,
                    ..FdInfoUsage::default()
                }
            },
        };
        self.pid_map.insert(pid, stat);
        let ghost prev_samples = self.proc_usage@;
        self.proc_usage.push(ProcUsage { pid, name, usage: diff });
        proof {
            assert(final(self).proc_usage@.drop_last() =~= prev_samples);
        }
    }
}

/// Context identities are monotone along a scan: an id once recorded is
/// still recorded when the scan ends.
proof fn lemma_scan_ids_monotone(
    u: FdInfoUsage,
    ids: Set<u64>,
    lines: Seq<Seq<char>>,
    i: int,
    id: u64,
)
    requires
        0 <= i <= lines.len(),
        ids.contains(id),
    ensures
        spec_scan_lines(u, ids, lines, i).1.contains(id),
    decreases lines.len() - i,
{
    if i < lines.len() {
        let l = lines[i];
        if is_id_line(l) {
            let lid = spec_client_id(l);
            if !ids.contains(lid) {
                lemma_scan_ids_monotone(u, ids.insert(lid), lines, i + 1, id);
            }
        } else if is_mem_line(l) {
            lemma_scan_ids_monotone(spec_apply_mem(u, l), ids, lines, i + 1, id);
        } else if is_engine_line(l) {
            lemma_scan_ids_monotone(spec_apply_engine(u, l), ids, lines, i + 1, id);
        } else {
            lemma_scan_ids_monotone(u, ids, lines, i + 1, id);
        }
    }
}

/// Unrecognized lines leave the scan state untouched.
proof fn lemma_scan_skips_unrecognized(
    u: FdInfoUsage,
    ids: Set<u64>,
    lines: Seq<Seq<char>>,
    i: int,
    k: int,
)
    requires
        0 <= i <= k <= lines.len(),
        forall|j: int| i <= j < k ==> is_unrecognized_line(#[trigger] lines[j]),
    ensures
        spec_scan_lines(u, ids, lines, i) == spec_scan_lines(u, ids, lines, k),
    decreases k - i,
{
    if i < k {
        lemma_scan_skips_unrecognized(u, ids, lines, i + 1, k);
    }
}

/// After scanning a file whose first recognized line is a context
/// identity line, that context's id is recorded.
proof fn lemma_scan_records_first_id(
    u: FdInfoUsage,
    ids: Set<u64>,
    lines: Seq<Seq<char>>,
    k: int,
)
    requires
        0 <= k < lines.len(),
        is_id_line(lines[k]),
        forall|j: int| 0 <= j < k ==> is_unrecognized_line(#[trigger] lines[j]),
    ensures
        spec_scan_lines(u, ids, lines, 0).1.contains(spec_client_id(lines[k])),
{
    lemma_scan_skips_unrecognized(u, ids, lines, 0, k);
    let id = spec_client_id(lines[k]);
    if ids.contains(id) {
    } else {
        lemma_scan_ids_monotone(u, ids.insert(id), lines, k + 1, id);
    }
}

/// Context deduplication: when a second descriptor reports the same
/// context identity as the first — the identity line leading its file —
/// that context's memory and engine magnitudes are counted exactly once,
/// and neither the duplicate descriptor nor any descriptor after it
/// contributes anything.
pub proof fn lemma_context_dedup(t: Seq<char>, k: int, rest: Seq<Seq<char>>)
    requires
        0 <= k < spec_lines(t).len(),
        is_id_line(spec_lines(t)[k]),
        forall|j: int| 0 <= j < k ==> is_unrecognized_line(#[trigger] spec_lines(t)[j]),
    ensures
        spec_parse_proc(seq![t, t] + rest) == spec_parse_proc(seq![t]),
{
    let ls = spec_lines(t);
    let id = spec_client_id(ls[k]);
    let r1 = spec_scan_lines(zero_usage(), Set::<u64>::empty(), ls, 0);
    lemma_scan_records_first_id(zero_usage(), Set::<u64>::empty(), ls, k);
    let more = seq![t, t] + rest;
    let one = seq![t];
    assert(more[0] == t);
    assert(more[1] == t);
    assert(more.len() >= 2);
    if r1.2 {
        // The first file already repeats an id internally: everything
        // after it is skipped in both scans.
        assert(spec_scan_texts(zero_usage(), Set::<u64>::empty(), more, 0) == (r1.0, r1.1));
        assert(spec_scan_texts(zero_usage(), Set::<u64>::empty(), one, 0) == (r1.0, r1.1));
    } else {
        assert(spec_scan_texts(zero_usage(), Set::<u64>::empty(), more, 0) == spec_scan_texts(
            r1.0,
            r1.1,
            more,
            1,
        ));
        let r2 = spec_scan_lines(r1.0, r1.1, ls, 0);
        lemma_scan_skips_unrecognized(r1.0, r1.1, ls, 0, k);
        assert(r2 == (r1.0, r1.1, true));
        assert(spec_scan_texts(r1.0, r1.1, more, 1) == (r1.0, r1.1));
        assert(spec_scan_texts(zero_usage(), Set::<u64>::empty(), one, 0) == spec_scan_texts(
            r1.0,
            r1.1,
            one,
            1,
        ));
    }
}

/// Idempotence: parsing identical accounting text against the baseline it
/// itself produced yields an all-zero-rate sample with the same memory
/// fields, over any interval.
pub proof fn lemma_poll_idempotent(
    texts: Seq<Seq<char>>,
    baselines: Map<i32, FdInfoUsage>,
    pid: i32,
    interval_ns: u64,
)
    requires
        baselines.contains_key(pid),
        baselines[pid] == spec_parse_proc(texts),
    ensures
        spec_sample_usage(baselines, pid, spec_parse_proc(texts), interval_ns)
            == spec_first_sample(spec_parse_proc(texts)),
{
    lemma_unchanged_counters_zero_rates(spec_parse_proc(texts), interval_ns);
}

/// Saturating sum of two displayed media-engine rates.
pub open spec fn sat_add_media(a: i64, b: i64) -> i64 {
    if a + b > i64::MAX {
        i64::MAX
    } else if a + b < i64::MIN {
        i64::MIN
    } else {
        (a + b) as i64
    }
}

fn add_media(a: i64, b: i64) -> (r: i64)
    ensures
        r == sat_add_media(a, b),
{
    let s: i128 = a as i128 + b as i128;
    if s > i64::MAX as i128 {
        i64::MAX
    } else if s < i64::MIN as i128 {
        i64::MIN
    } else {
        s as i64
    }
}

/// The table's header line.
pub open spec fn spec_usage_header() -> Seq<char> {
    "                            |   VRAM   | GFX | Compute | DMA | DEC | ENC |\n"@
}

/// One engine-rate column: the rate right-aligned to the column label's
/// width, between a space and a percent sign.
pub open spec fn spec_engine_field(v: i64, width: nat) -> Seq<char> {
    " "@ + spec_pad_left(spec_idec(v as int), width) + "%|"@
}

/// One rendered table row: padded name, pid, VRAM in MiB (the KiB value
/// shifted down by 10), then one percentage column per engine with the
/// media engines combined.
pub open spec fn spec_usage_row(pu: ProcUsage) -> Seq<char> {
    " "@ + spec_pad_right(pu.name@, PROC_NAME_LEN as nat) + " ("@ + spec_pad_left(
        spec_idec(pu.pid as int),
        8,
    ) + ") | "@ + spec_pad_left(spec_udec((pu.usage.vram_usage >> 10) as nat), 5) + " MiB|"@
        + spec_engine_field(pu.usage.gfx, 3) + spec_engine_field(pu.usage.compute, 7)
        + spec_engine_field(pu.usage.dma, 3) + spec_engine_field(pu.usage.dec, 3)
        + spec_engine_field(sat_add_media(pu.usage.enc, pu.usage.uvd_enc), 3) + "\n"@
}

/// The rows for the first `k` samples, in order.
pub open spec fn spec_usage_rows_prefix(s: Seq<ProcUsage>, k: int) -> Seq<char>
    decreases k,
{
    if k <= 0 {
        Seq::<char>::empty()
    } else {
        spec_usage_rows_prefix(s, k - 1) + spec_usage_row(s[k - 1])
    }
}

/// The rows for all samples, in order.
pub open spec fn spec_usage_rows(s: Seq<ProcUsage>) -> Seq<char> {
    spec_usage_rows_prefix(s, s.len() as int)
}

fn push_engine_field(buf: &mut String, v: i64, width: usize)
    ensures
        final(buf)@ == old(buf)@ + spec_engine_field(v, width as nat),
{
    buf.append(" ");
    push_i64_padded(buf, v, width);
    buf.append("%|");
    assert(final(buf)@ =~= old(buf)@ + spec_engine_field(v, width as nat));
}

#[verifier::rlimit(30)]
fn push_usage_row(buf: &mut String, pu: &ProcUsage)
    ensures
        final(buf)@ == old(buf)@ + spec_usage_row(*pu),
{
    buf.append(" ");
    push_str_padded_right(buf, pu.name.as_str(), PROC_NAME_LEN);
    buf.append(" (");
    push_i64_padded(buf, pu.pid as i64, 8);
    buf.append(") | ");
    push_u64_padded(buf, pu.usage.vram_usage >> 10, 5);
    buf.append(" MiB|");
    push_engine_field(buf, pu.usage.gfx, 3);
    push_engine_field(buf, pu.usage.compute, 7);
    push_engine_field(buf, pu.usage.dma, 3);
    push_engine_field(buf, pu.usage.dec, 3);
    let enc_usage = add_media(pu.usage.enc, pu.usage.uvd_enc);
    push_engine_field(buf, enc_usage, 3);
    buf.append("\n");
    assert(final(buf)@ =~= old(buf)@ + spec_usage_row(*pu));
}

/// The baselines after the first `i` processes of a poll have been
/// handled: each stored baseline replaced, in order, by what its
/// accounting texts parse to.
pub open spec fn spec_baselines_after(
    m0: Map<i32, FdInfoUsage>,
    procs: Seq<ProcInfo>,
    i: int,
) -> Map<i32, FdInfoUsage>
    decreases i,
{
    if i <= 0 {
        m0
    } else {
        spec_baselines_after(m0, procs, i - 1).insert(
            procs[i - 1].pid,
            spec_parse_proc(procs[i - 1].fdinfo_texts.deep_view()),
        )
    }
}

/// The first `k` samples are exactly what a poll over `procs` emits,
/// starting from baselines `m0`: pid and truncated name copied, usage
/// rated against the baseline each process saw when its turn came.
pub open spec fn spec_samples_ok_upto(
    m0: Map<i32, FdInfoUsage>,
    interval_ns: u64,
    procs: Seq<ProcInfo>,
    samples: Seq<ProcUsage>,
    k: int,
) -> bool {
    &&& samples.len() == k
    &&& 0 <= k <= procs.len()
    &&& forall|i: int|
        0 <= i < k ==> {
            let cur = spec_parse_proc(procs[i].fdinfo_texts.deep_view());
            &&& (#[trigger] samples[i]).pid == procs[i].pid
            &&& samples[i].name@ == spec_truncated_name(procs[i].name@)
            &&& samples[i].usage == spec_sample_usage(
                spec_baselines_after(m0, procs, i),
                procs[i].pid,
                cur,
                interval_ns,
            )
        }
}

/// What a full poll leaves in the sample table: the samples the poll
/// emits, re-sorted by the selected key and direction.
pub open spec fn spec_poll_result(
    m0: Map<i32, FdInfoUsage>,
    interval_ns: u64,
    procs: Seq<ProcInfo>,
    st: FdInfoSortType,
    reverse: bool,
    out: Seq<ProcUsage>,
) -> bool {
    exists|samples: Seq<ProcUsage>|
        #[trigger] spec_samples_ok_upto(m0, interval_ns, procs, samples, procs.len() as int)
            && out == spec_sort_samples(st, reverse, samples)
}

/// One labelled quantity of the JSON summary.
#[derive(Clone, Debug)]
pub struct JsonEntry {
    pub label: String,
    pub value: i64,
    pub unit: String,
}

impl FdInfoView {
    /// Renders one table row per sample, in the current order.
    pub fn print_usage(&mut self)
        ensures
            final(self).text.buf@ == old(self).text.buf@ + spec_usage_rows(
                old(self).proc_usage@,
            ),
            final(self).proc_usage == old(self).proc_usage,
            final(self).pid_map == old(self).pid_map,
            final(self).interval == old(self).interval,
    {
        let ghost buf0 = self.text.buf@;
        let n = self.proc_usage.len();
        let mut i: usize = 0;
        while i < n
            invariant
                i <= n,
                n == self.proc_usage@.len(),
                self.text.buf@ == buf0 + spec_usage_rows_prefix(self.proc_usage@, i as int),
                self.proc_usage == old(self).proc_usage,
                self.pid_map == old(self).pid_map,
                self.interval == old(self).interval,
            decreases n - i,
        {
            push_usage_row(&mut self.text.buf, &self.proc_usage[i]);
            proof {
                assert(self.text.buf@ =~= buf0 + spec_usage_rows_prefix(
                    self.proc_usage@,
                    i as int + 1,
                ));
            }
            i = i + 1;
        }
    }

    /// One full poll: parses every process's accounting texts, emits one
    /// sample per process against the stored baselines, re-sorts the
    /// table and renders it under the header line.
    pub fn print(
        &mut self,
        slice_proc_info: &[ProcInfo],
        sort: &FdInfoSortType,
        reverse: bool,
    )
        ensures
            final(self).baselines() == spec_baselines_after(
                old(self).baselines(),
                slice_proc_info@,
                slice_proc_info@.len() as int,
            ),
            spec_poll_result(
                old(self).baselines(),
                old(self).interval,
                slice_proc_info@,
                *sort,
                reverse,
                final(self).proc_usage@,
            ),
            final(self).text.buf@ == spec_usage_header() + spec_usage_rows(
                final(self).proc_usage@,
            ),
            final(self).interval == old(self).interval,
    {
        let ghost m0 = self.baselines();
        let ghost interval0 = self.interval;
        let ghost procs = slice_proc_info@;
        self.text.clear();
        self.proc_usage.clear();
        self.text.buf.append(
            "                            |   VRAM   | GFX | Compute | DMA | DEC | ENC |\n",
        );
        proof {
            assert(self.text.buf@ =~= spec_usage_header());
        }
        let n = slice_proc_info.len();
        let mut i: usize = 0;
        while i < n
            invariant
                i <= n,
                n == procs.len(),
                procs == slice_proc_info@,
                self.baselines() == spec_baselines_after(m0, procs, i as int),
                spec_samples_ok_upto(m0, interval0, procs, self.proc_usage@, i as int),
                self.interval == interval0,
                self.text.buf@ == spec_usage_header(),
            decreases n - i,
        {
            let p = vstd::slice::slice_index_get(slice_proc_info, i);
            let ghost samples_before = self.proc_usage@;
            self.get_proc_usage(p);
            proof {
                assert(*p == procs[i as int]);
                assert(forall|j: int|
                    0 <= j < i ==> self.proc_usage@[j] == #[trigger] samples_before[j]);
                let cur = spec_parse_proc(procs[i as int].fdinfo_texts.deep_view());
                assert(self.proc_usage@[i as int] == self.proc_usage@.last());
                assert(self.proc_usage@[i as int].pid == procs[i as int].pid);
                assert(self.proc_usage@[i as int].name@ == spec_truncated_name(
                    procs[i as int].name@,
                ));
                assert(self.proc_usage@[i as int].usage == spec_sample_usage(
                    spec_baselines_after(m0, procs, i as int),
                    procs[i as int].pid,
                    cur,
                    interval0,
                ));
                assert(self.baselines() == spec_baselines_after(m0, procs, i as int + 1));
                assert forall|j: int| 0 <= j < i as int + 1 implies {
                    let curj = spec_parse_proc(procs[j].fdinfo_texts.deep_view());
                    &&& (#[trigger] self.proc_usage@[j]).pid == procs[j].pid
                    &&& self.proc_usage@[j].name@ == spec_truncated_name(procs[j].name@)
                    &&& self.proc_usage@[j].usage == spec_sample_usage(
                        spec_baselines_after(m0, procs, j),
                        procs[j].pid,
                        curj,
                        interval0,
                    )
                } by {
                    if j < i as int {
                        assert(self.proc_usage@[j] == samples_before[j]);
                        assert(spec_samples_ok_upto(m0, interval0, procs, samples_before, i as int));
                    }
                }
                assert(spec_samples_ok_upto(m0, interval0, procs, self.proc_usage@, i as int + 1));
            }
            i = i + 1;
        }
        let ghost samples = self.proc_usage@;
        sort_proc_usage(&mut self.proc_usage, sort, reverse);
        proof {
            assert(spec_samples_ok_upto(m0, interval0, procs, samples, procs.len() as int)
                && self.proc_usage@ == spec_sort_samples(*sort, reverse, samples));
            assert(spec_poll_result(m0, interval0, procs, *sort, reverse, self.proc_usage@));
        }
        self.print_usage();
    }

    /// The JSON summary of the sample at the top of the current sort
    /// order: memory quantities in MiB, engine rates in percent, media
    /// engines combined. Nothing is summarized while the table is empty.
    pub fn json_summary(&self) -> (r: Option<Vec<JsonEntry>>)
        ensures
            r is Some <==> self.proc_usage@.len() > 0,
            r matches Some(v) ==> {
                let pu = self.proc_usage@[0];
                &&& v@.len() == 7
                &&& v@[0].label@ == "VRAM Usage"@ && v@[0].unit@ == "MiB"@ && v@[0].value == (
                pu.usage.vram_usage >> 10) as i64
                &&& v@[1].label@ == "GTT Usage"@ && v@[1].unit@ == "MiB"@ && v@[1].value == (
                pu.usage.gtt_usage >> 10) as i64
                &&& v@[2].label@ == "GFX"@ && v@[2].unit@ == "%"@ && v@[2].value == pu.usage.gfx
                &&& v@[3].label@ == "Compute"@ && v@[3].unit@ == "%"@ && v@[3].value
                    == pu.usage.compute
                &&& v@[4].label@ == "DMA"@ && v@[4].unit@ == "%"@ && v@[4].value == pu.usage.dma
                &&& v@[5].label@ == "DEC"@ && v@[5].unit@ == "%"@ && v@[5].value == pu.usage.dec
                &&& v@[6].label@ == "ENC"@ && v@[6].unit@ == "%"@ && v@[6].value == sat_add_media(
                    pu.usage.enc,
                    pu.usage.uvd_enc,
                )
            },
    {
        if self.proc_usage.len() == 0 {
            return None;
        }
        let pu = &self.proc_usage[0];
        let vram_kib = pu.usage.vram_usage;
        let gtt_kib = pu.usage.gtt_usage;
        let vram_mib = vram_kib >> 10;
        let gtt_mib = gtt_kib >> 10;
        proof {
            assert(vram_kib >> 10u64 <= 0x003F_FFFF_FFFF_FFFFu64) by (bit_vector);
            assert(gtt_kib >> 10u64 <= 0x003F_FFFF_FFFF_FFFFu64) by (bit_vector);
        }
        let mut v: Vec<JsonEntry> = Vec::new();
        v.push(JsonEntry {
            label: String::from_str("VRAM Usage"),
            value: vram_mib as i64,
            unit: String::from_str("MiB"),
        });
        v.push(JsonEntry {
            label: String::from_str("GTT Usage"),
            value: gtt_mib as i64,
            unit: String::from_str("MiB"),
        });
        v.push(JsonEntry {
            label: String::from_str("GFX"),
            value: pu.usage.gfx,
            unit: String::from_str("%"),
        });
        v.push(JsonEntry {
            label: String::from_str("Compute"),
            value: pu.usage.compute,
            unit: String::from_str("%"),
        });
        v.push(JsonEntry {
            label: String::from_str("DMA"),
            value: pu.usage.dma,
            unit: String::from_str("%"),
        });
        v.push(JsonEntry {
            label: String::from_str("DEC"),
            value: pu.usage.dec,
            unit: String::from_str("%"),
        });
        v.push(JsonEntry {
            label: String::from_str("ENC"),
            value: add_media(pu.usage.enc, pu.usage.uvd_enc),
            unit: String::from_str("%"),
        });
        Some(v)
    }
}

/// First sight: a process without a stored baseline yields rate 0 on
/// every engine, whatever its raw counter values.
pub proof fn lemma_first_sight_zero_rates(
    baselines: Map<i32, FdInfoUsage>,
    pid: i32,
    cur: FdInfoUsage,
    interval_ns: u64,
)
    requires
        !baselines.contains_key(pid),
    ensures
        ({
            let s = spec_sample_usage(baselines, pid, cur, interval_ns);
            &&& s.gfx == 0
            &&& s.compute == 0
            &&& s.dma == 0
            &&& s.dec == 0
            &&& s.enc == 0
            &&& s.uvd_enc == 0
            &&& s.vcn_jpeg == 0
            &&& s.vram_usage == cur.vram_usage
            &&& s.gtt_usage == cur.gtt_usage
            &&& s.cpu_accessible_usage == cur.cpu_accessible_usage
        }),
{
}

} // verus!
