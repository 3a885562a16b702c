//! Versioned device telemetry: a decoded snapshot normalized into one of
//! two layout families, rendered with "unsupported" sentinel suppression
//! and fixed-point scaling.

use vstd::prelude::*;

use crate::render::{push_u64_padded, push_str_padded_right, spec_pad_left, spec_pad_right, spec_udec};
use crate::text::Text;

verus! {

/// Replaces a missing reading, or the `u16::MAX` "unsupported" sentinel,
/// by zero, so that the sentinel is never displayed as a real value.
pub fn none_or_max_to_zero(val: Option<u16>) -> (r: u16)
    ensures
        r == spec_none_or_max_to_zero(val),
{
    let v = match val {
        Some(v) => v,
        None => 0,
    };
    if v == u16::MAX {
        0
    } else {
        v
    }
}

/// What a telemetry reading is displayed as: 0 for a missing value and
/// for the reserved maximum sentinel, the raw value otherwise.
pub open spec fn spec_none_or_max_to_zero(val: Option<u16>) -> u16 {
    match val {
        Some(v) => if v == u16::MAX {
            0u16
        } else {
            v
        },
        None => 0u16,
    }
}

/// The single-frame telemetry family: whole-device temperatures, clock
/// pairs per domain, voltage rails, socket power and the optional
/// per-stack high-bandwidth-memory temperatures.
#[derive(Clone, Debug)]
pub struct MetricsV1 {
    pub format_revision: u8,
    pub content_revision: u8,
    pub socket_power: Option<u16>,
    pub temp_edge: Option<u16>,
    pub temp_hotspot: Option<u16>,
    pub temp_mem: Option<u16>,
    pub temp_vrgfx: Option<u16>,
    pub temp_vrsoc: Option<u16>,
    pub temp_vrmem: Option<u16>,
    pub avg_gfxclk: Option<u16>,
    pub cur_gfxclk: Option<u16>,
    pub avg_socclk: Option<u16>,
    pub cur_socclk: Option<u16>,
    pub avg_uclk: Option<u16>,
    pub cur_uclk: Option<u16>,
    pub avg_vclk: Option<u16>,
    pub cur_vclk: Option<u16>,
    pub avg_dclk: Option<u16>,
    pub cur_dclk: Option<u16>,
    pub avg_vclk1: Option<u16>,
    pub cur_vclk1: Option<u16>,
    pub avg_dclk1: Option<u16>,
    pub cur_dclk1: Option<u16>,
    pub volt_soc: Option<u16>,
    pub volt_gfx: Option<u16>,
    pub volt_mem: Option<u16>,
    pub hbm_temp: Option<Vec<u16>>,
}

/// The per-core-array telemetry family: GFX/SoC domain summaries, clock
/// pairs, and per-core and per-cache arrays in centi-units.
#[derive(Clone, Debug)]
pub struct MetricsV2 {
    pub format_revision: u8,
    pub content_revision: u8,
    pub temp_gfx: Option<u16>,
    pub avg_gfx_power: Option<u16>,
    pub cur_gfxclk: Option<u16>,
    pub temp_soc: Option<u16>,
    pub avg_soc_power: Option<u16>,
    pub cur_socclk: Option<u16>,
    pub socket_power: Option<u16>,
    pub avg_uclk: Option<u16>,
    pub cur_uclk: Option<u16>,
    pub avg_fclk: Option<u16>,
    pub cur_fclk: Option<u16>,
    pub avg_vclk: Option<u16>,
    pub cur_vclk: Option<u16>,
    pub avg_dclk: Option<u16>,
    pub cur_dclk: Option<u16>,
    pub core_temp: Option<Vec<u16>>,
    pub core_power: Option<Vec<u16>>,
    pub core_clk: Option<Vec<u16>>,
    pub l3_temp: Option<Vec<u16>>,
    pub l3_clk: Option<Vec<u16>>,
}

/// A decoded telemetry snapshot: one of the two layout families, or the
/// initial state before any successful read.
#[derive(Clone, Debug)]
pub enum GpuMetrics {
    V1(MetricsV1),
    V2(MetricsV2),
    Unknown,
}

/// One labelled, sentinel-suppressed reading: nothing at all when the
/// value is absent or carries the reserved maximum sentinel.
pub open spec fn spec_suppressed_field(
    label: Seq<char>,
    val: Option<u16>,
    width: nat,
    suffix: Seq<char>,
) -> Seq<char> {
    match val {
        Some(v) => if v != u16::MAX {
            " "@ + label + ": "@ + spec_pad_left(spec_udec(v as nat), width) + suffix
        } else {
            Seq::<char>::empty()
        },
        None => Seq::<char>::empty(),
    }
}

/// One clock-domain row: average and current frequency, sentinel and
/// missing readings shown as 0.
pub open spec fn spec_clock_row(
    label: Seq<char>,
    label_width: nat,
    avg: Option<u16>,
    cur: Option<u16>,
) -> Seq<char> {
    " "@ + spec_pad_right(label, label_width) + " Avg. "@ + spec_pad_left(
        spec_udec(spec_none_or_max_to_zero(avg) as nat),
        4,
    ) + " MHz, Cur. "@ + spec_pad_left(spec_udec(spec_none_or_max_to_zero(cur) as nat), 4)
        + " MHz\n"@
}

/// One cell of a domain summary row: the suppressed reading divided by
/// its fixed-point scale, with its unit.
pub open spec fn spec_v2_cell(val: Option<u16>, div: u16, unit: Seq<char>) -> Seq<char>
    recommends
        div > 0,
{
    spec_pad_left(spec_udec((spec_none_or_max_to_zero(val) / div) as nat), 5) + " "@ + unit
        + ", "@
}

/// The first `k` elements of an array rendered as fixed-width items:
/// scaled by `div`, and with each sentinel element shown as 0 when
/// `zero_sentinel` is set.
pub open spec fn spec_scaled_items(s: Seq<u16>, div: u16, zero_sentinel: bool, k: int) -> Seq<char>
    recommends
        div > 0,
    decreases k,
{
    if k <= 0 {
        Seq::<char>::empty()
    } else {
        let e = s[k - 1];
        let shown: u16 = if zero_sentinel && e == u16::MAX {
            0u16
        } else {
            (e / div) as u16
        };
        spec_scaled_items(s, div, zero_sentinel, k - 1) + spec_pad_left(spec_udec(shown as nat), 5)
            + ","@
    }
}

/// One per-core or per-cache array block, element-wise sentinel-to-zero.
pub open spec fn spec_array_block(
    label: Seq<char>,
    label_width: nat,
    val: Option<Seq<u16>>,
    div: u16,
) -> Seq<char>
    recommends
        div > 0,
{
    match val {
        Some(arr) => " "@ + spec_pad_right(label, label_width) + ": ["@ + spec_scaled_items(
            arr,
            div,
            true,
            arr.len() as int,
        ) + "]\n"@,
        None => Seq::<char>::empty(),
    }
}

/// Some element of the array carries the reserved maximum sentinel.
pub open spec fn spec_has_max(s: Seq<u16>) -> bool {
    exists|i: int| 0 <= i < s.len() && s[i] == u16::MAX
}

/// The high-bandwidth-memory temperature block: rendered only when the
/// hardware reports the stacks at all, that is when no element carries
/// the sentinel.
pub open spec fn spec_hbm_block(val: Option<Seq<u16>>) -> Seq<char> {
    match val {
        Some(arr) => if !spec_has_max(arr) {
            "HBM Temp (C) ["@ + spec_scaled_items(arr, 100, false, arr.len() as int) + "]\n"@
        } else {
            Seq::<char>::empty()
        },
        None => Seq::<char>::empty(),
    }
}

/// The socket power and temperature lines of a single-frame snapshot.
pub open spec fn spec_v1_temps(m: MetricsV1) -> Seq<char> {
    spec_suppressed_field("Socket Power"@, m.socket_power, 3, " W\n"@) + spec_suppressed_field(
        "Edge"@,
        m.temp_edge,
        3,
        " C,"@,
    ) + spec_suppressed_field("Hotspot"@, m.temp_hotspot, 3, " C,"@) + spec_suppressed_field(
        "Memory"@,
        m.temp_mem,
        3,
        " C,"@,
    ) + "\n"@ + spec_suppressed_field("VRGFX"@, m.temp_vrgfx, 3, " C,"@) + spec_suppressed_field(
        "VRSOC"@,
        m.temp_vrsoc,
        3,
        " C,"@,
    ) + spec_suppressed_field("VRMEM"@, m.temp_vrmem, 3, " C,"@) + "\n"@
}

/// The clock-domain rows of a single-frame snapshot.
pub open spec fn spec_v1_clocks(m: MetricsV1) -> Seq<char> {
    spec_clock_row("GFXCLK"@, 6, m.avg_gfxclk, m.cur_gfxclk) + spec_clock_row(
        "SOCCLK"@,
        6,
        m.avg_socclk,
        m.cur_socclk,
    ) + spec_clock_row("UMCCLK"@, 6, m.avg_uclk, m.cur_uclk) + spec_clock_row(
        "VCLK"@,
        6,
        m.avg_vclk,
        m.cur_vclk,
    ) + spec_clock_row("DCLK"@, 6, m.avg_dclk, m.cur_dclk) + spec_clock_row(
        "VCLK1"@,
        6,
        m.avg_vclk1,
        m.cur_vclk1,
    ) + spec_clock_row("DCLK1"@, 6, m.avg_dclk1, m.cur_dclk1)
}

/// The voltage-rail line of a single-frame snapshot.
pub open spec fn spec_v1_volts(m: MetricsV1) -> Seq<char> {
    spec_suppressed_field("SoC"@, m.volt_soc, 4, " mV, "@) + spec_suppressed_field(
        "GFX"@,
        m.volt_gfx,
        4,
        " mV, "@,
    ) + spec_suppressed_field("Mem"@, m.volt_mem, 4, " mV, "@) + "\n"@
}

/// The rendered text of a single-frame snapshot.
pub open spec fn spec_v1_text(m: MetricsV1) -> Seq<char> {
    spec_v1_temps(m) + spec_v1_clocks(m) + spec_v1_volts(m) + spec_hbm_block(
        match m.hbm_temp {
            Some(v) => Some(v@),
            None => None,
        },
    )
}

/// The rendered text of a per-core-array snapshot.
pub open spec fn spec_v2_text(m: MetricsV2) -> Seq<char> {
    " GFX: "@ + spec_v2_cell(m.temp_gfx, 100, "C"@) + spec_v2_cell(m.avg_gfx_power, 1, "mW"@)
        + spec_v2_cell(m.cur_gfxclk, 1, "MHz"@) + "\n"@ + " SoC: "@ + spec_v2_cell(
        m.temp_soc,
        100,
        "C"@,
    ) + spec_v2_cell(m.avg_soc_power, 1, "mW"@) + spec_v2_cell(m.cur_socclk, 1, "MHz"@) + "\n"@
        + spec_suppressed_field("Socket Power"@, m.socket_power, 3, " W\n"@) + spec_clock_row(
        "UMCCLK"@,
        0,
        m.avg_uclk,
        m.cur_uclk,
    ) + spec_clock_row("FCLK"@, 0, m.avg_fclk, m.cur_fclk) + spec_clock_row(
        "VCLK"@,
        0,
        m.avg_vclk,
        m.cur_vclk,
    ) + spec_clock_row("DCLK"@, 0, m.avg_dclk, m.cur_dclk) + spec_array_block(
        "Core Temp (C)"@,
        16,
        spec_opt_view(m.core_temp),
        100,
    ) + spec_array_block("Core Power (mW)"@, 16, spec_opt_view(m.core_power), 1)
        + spec_array_block("Core Clock (MHz)"@, 16, spec_opt_view(m.core_clk), 1)
        + spec_array_block("L3 Cache Temp (C)"@, 20, spec_opt_view(m.l3_temp), 100)
        + spec_array_block("L3 Cache Clock (MHz)"@, 20, spec_opt_view(m.l3_clk), 1)
}

/// The sequence held by an optional array.
pub open spec fn spec_opt_view(v: Option<Vec<u16>>) -> Option<Seq<u16>> {
    match v {
        Some(arr) => Some(arr@),
        None => None,
    }
}

/// The rendered text of any snapshot: the unknown state renders empty.
pub open spec fn spec_metrics_text(m: GpuMetrics) -> Seq<char> {
    match m {
        GpuMetrics::V1(v1) => spec_v1_text(v1),
        GpuMetrics::V2(v2) => spec_v2_text(v2),
        GpuMetrics::Unknown => Seq::<char>::empty(),
    }
}

fn push_suppressed_field(buf: &mut String, label: &str, val: Option<u16>, width: usize,
    suffix: &str)
    ensures
        final(buf)@ == old(buf)@ + spec_suppressed_field(label@, val, width as nat, suffix@),
{
    if let Some(v) = val {
        if v != u16::MAX {
            buf.append(" ");
            buf.append(label);
            buf.append(": ");
            push_u64_padded(buf, v as u64, width);
            buf.append(suffix);
            assert(final(buf)@ =~= old(buf)@ + spec_suppressed_field(
                label@,
                val,
                width as nat,
                suffix@,
            ));
        }
    }
}

fn push_clock_row(buf: &mut String, label: &str, label_width: usize, avg: Option<u16>,
    cur: Option<u16>)
    ensures
        final(buf)@ == old(buf)@ + spec_clock_row(label@, label_width as nat, avg, cur),
{
    buf.append(" ");
    push_str_padded_right(buf, label, label_width);
    buf.append(" Avg. ");
    push_u64_padded(buf, none_or_max_to_zero(avg) as u64, 4);
    buf.append(" MHz, Cur. ");
    push_u64_padded(buf, none_or_max_to_zero(cur) as u64, 4);
    buf.append(" MHz\n");
    assert(final(buf)@ =~= old(buf)@ + spec_clock_row(label@, label_width as nat, avg, cur));
}

fn push_v2_cell(buf: &mut String, val: Option<u16>, div: u16, unit: &str)
    requires
        div > 0,
    ensures
        final(buf)@ == old(buf)@ + spec_v2_cell(val, div, unit@),
{
    let v = none_or_max_to_zero(val) / div;
    push_u64_padded(buf, v as u64, 5);
    buf.append(" ");
    buf.append(unit);
    buf.append(", ");
    assert(final(buf)@ =~= old(buf)@ + spec_v2_cell(val, div, unit@));
}

fn push_scaled_items(buf: &mut String, arr: &Vec<u16>, div: u16, zero_sentinel: bool)
    requires
        div > 0,
    ensures
        final(buf)@ == old(buf)@ + spec_scaled_items(arr@, div, zero_sentinel, arr@.len() as int),
{
    let ghost buf0 = buf@;
    let n = arr.len();
    let mut i: usize = 0;
    while i < n
        invariant
            i <= n,
            n == arr@.len(),
            div > 0,
            buf@ == buf0 + spec_scaled_items(arr@, div, zero_sentinel, i as int),
        decreases n - i,
    {
        let e = arr[i];
        let shown: u16 = if zero_sentinel && e == u16::MAX {
            0
        } else {
            e / div
        };
        push_u64_padded(buf, shown as u64, 5);
        buf.append(",");
        proof {
            assert(buf@ =~= buf0 + spec_scaled_items(arr@, div, zero_sentinel, i as int + 1));
        }
        i = i + 1;
    }
}

fn push_array_block(buf: &mut String, label: &str, label_width: usize, val: &Option<Vec<u16>>,
    div: u16)
    requires
        div > 0,
    ensures
        final(buf)@ == old(buf)@ + spec_array_block(
            label@,
            label_width as nat,
            spec_opt_view(*val),
            div,
        ),
{
    if let Some(arr) = val {
        buf.append(" ");
        push_str_padded_right(buf, label, label_width);
        buf.append(": [");
        push_scaled_items(buf, arr, div, true);
        buf.append("]\n");
        assert(final(buf)@ =~= old(buf)@ + spec_array_block(
            label@,
            label_width as nat,
            spec_opt_view(*val),
            div,
        ));
    }
}

fn push_hbm_block(buf: &mut String, val: &Option<Vec<u16>>)
    ensures
        final(buf)@ == old(buf)@ + spec_hbm_block(spec_opt_view(*val)),
{
    if let Some(arr) = val {
        let n = arr.len();
        let mut i: usize = 0;
        let mut found = false;
        while i < n
            invariant
                i <= n,
                n == arr@.len(),
                !found ==> forall|j: int| 0 <= j < i ==> arr@[j] != u16::MAX,
                found ==> spec_has_max(arr@),
            decreases n - i,
        {
            if arr[i] == u16::MAX {
                found = true;
            }
            i = i + 1;
        }
        if !found {
            buf.append("HBM Temp (C) [");
            push_scaled_items(buf, arr, 100, false);
            buf.append("]\n");
            assert(final(buf)@ =~= old(buf)@ + spec_hbm_block(spec_opt_view(*val)));
        }
    }
}

/// The device telemetry view: the last successfully decoded snapshot and
/// its rendered text.
pub struct GpuMetricsView {
    pub metrics: GpuMetrics,
    pub text: Text,
}

impl GpuMetricsView {
    /// A fresh view in the unknown state, before any successful read.
    pub fn new() -> (r: Self)
        ensures
            r.metrics is Unknown,
            r.text.buf@ == Seq::<char>::empty(),
    {
        GpuMetricsView { metrics: GpuMetrics::Unknown, text: Text::new() }
    }

    /// The format/content revision pair of the active snapshot, or
    /// nothing before the first successful decode.
    pub fn version(&self) -> (r: Option<(u8, u8)>)
        ensures
            r == match self.metrics {
                GpuMetrics::V1(m) => Some((m.format_revision, m.content_revision)),
                GpuMetrics::V2(m) => Some((m.format_revision, m.content_revision)),
                GpuMetrics::Unknown => None::<(u8, u8)>,
            },
    {
        match &self.metrics {
            GpuMetrics::V1(m) => Some((m.format_revision, m.content_revision)),
            GpuMetrics::V2(m) => Some((m.format_revision, m.content_revision)),
            GpuMetrics::Unknown => None,
        }
    }

    /// Replaces the snapshot wholesale on a successful decode; a failed
    /// decode keeps the previous snapshot untouched and reports an error.
    pub fn update_metrics(&mut self, decoded: Option<GpuMetrics>) -> (r: Result<(), ()>)
        ensures
            decoded matches Some(m) ==> final(self).metrics == m && r is Ok,
            decoded is None ==> final(self).metrics == old(self).metrics && r is Err,
            final(self).text == old(self).text,
    {
        match decoded {
            Some(m) => {
                self.metrics = m;
                Ok(())
            },
            None => Err(()),
        }
    }

    /// Renders the active snapshot, dispatching on its layout family;
    /// the unknown state renders empty text.
    pub fn print(&mut self)
        ensures
            final(self).text.buf@ == spec_metrics_text(old(self).metrics),
            final(self).metrics == old(self).metrics,
    {
        self.text.clear();
        match &self.metrics {
            GpuMetrics::V1(m) => {
                for_v1(&mut self.text.buf, m);
                assert(self.text.buf@ =~= spec_metrics_text(old(self).metrics));
            },
            GpuMetrics::V2(m) => {
                for_v2(&mut self.text.buf, m);
                assert(self.text.buf@ =~= spec_metrics_text(old(self).metrics));
            },
            GpuMetrics::Unknown => {},
        }
    }
}

/// The socket power and temperature section of the single-frame
/// renderer; sentinel readings are suppressed.
#[verifier::rlimit(100)]
#[verifier::spinoff_prover]
fn v1_temps(buf: &mut String, m: &MetricsV1)
    ensures
        final(buf)@ == old(buf)@ + spec_v1_temps(*m),
{
    let ghost mut acc: Seq<char> = Seq::<char>::empty();
    push_suppressed_field(buf, "Socket Power", m.socket_power, 3, " W\n");
    proof {
        acc = spec_suppressed_field("Socket Power"@, m.socket_power, 3, " W\n"@);
        assert(buf@ =~= old(buf)@ + acc);
    }
    push_suppressed_field(buf, "Edge", m.temp_edge, 3, " C,");
    proof {
        acc = acc + spec_suppressed_field("Edge"@, m.temp_edge, 3, " C,"@);
        assert(buf@ =~= old(buf)@ + acc);
    }
    push_suppressed_field(buf, "Hotspot", m.temp_hotspot, 3, " C,");
    proof {
        acc = acc + spec_suppressed_field("Hotspot"@, m.temp_hotspot, 3, " C,"@);
        assert(buf@ =~= old(buf)@ + acc);
    }
    push_suppressed_field(buf, "Memory", m.temp_mem, 3, " C,");
    proof {
        acc = acc + spec_suppressed_field("Memory"@, m.temp_mem, 3, " C,"@);
        assert(buf@ =~= old(buf)@ + acc);
    }
    buf.append("\n");
    proof {
        acc = acc + "\n"@;
        assert(buf@ =~= old(buf)@ + acc);
    }
    push_suppressed_field(buf, "VRGFX", m.temp_vrgfx, 3, " C,");
    proof {
        acc = acc + spec_suppressed_field("VRGFX"@, m.temp_vrgfx, 3, " C,"@);
        assert(buf@ =~= old(buf)@ + acc);
    }
    push_suppressed_field(buf, "VRSOC", m.temp_vrsoc, 3, " C,");
    proof {
        acc = acc + spec_suppressed_field("VRSOC"@, m.temp_vrsoc, 3, " C,"@);
        assert(buf@ =~= old(buf)@ + acc);
    }
    push_suppressed_field(buf, "VRMEM", m.temp_vrmem, 3, " C,");
    proof {
        acc = acc + spec_suppressed_field("VRMEM"@, m.temp_vrmem, 3, " C,"@);
        assert(buf@ =~= old(buf)@ + acc);
    }
    buf.append("\n");
    proof {
        acc = acc + "\n"@;
        assert(buf@ =~= old(buf)@ + acc);
        assert(acc == spec_v1_temps(*m));
    }
}

/// The clock-domain section of the single-frame renderer.
#[verifier::rlimit(100)]
#[verifier::spinoff_prover]
fn v1_clocks(buf: &mut String, m: &MetricsV1)
    ensures
        final(buf)@ == old(buf)@ + spec_v1_clocks(*m),
{
    let ghost mut acc: Seq<char> = Seq::<char>::empty();
    push_clock_row(buf, "GFXCLK", 6, m.avg_gfxclk, m.cur_gfxclk);
    proof {
        acc = spec_clock_row("GFXCLK"@, 6, m.avg_gfxclk, m.cur_gfxclk);
        assert(buf@ =~= old(buf)@ + acc);
    }
    push_clock_row(buf, "SOCCLK", 6, m.avg_socclk, m.cur_socclk);
    proof {
        acc = acc + spec_clock_row("SOCCLK"@, 6, m.avg_socclk, m.cur_socclk);
        assert(buf@ =~= old(buf)@ + acc);
    }
    push_clock_row(buf, "UMCCLK", 6, m.avg_uclk, m.cur_uclk);
    proof {
        acc = acc + spec_clock_row("UMCCLK"@, 6, m.avg_uclk, m.cur_uclk);
        assert(buf@ =~= old(buf)@ + acc);
    }
    push_clock_row(buf, "VCLK", 6, m.avg_vclk, m.cur_vclk);
    proof {
        acc = acc + spec_clock_row("VCLK"@, 6, m.avg_vclk, m.cur_vclk);
        assert(buf@ =~= old(buf)@ + acc);
    }
    push_clock_row(buf, "DCLK", 6, m.avg_dclk, m.cur_dclk);
    proof {
        acc = acc + spec_clock_row("DCLK"@, 6, m.avg_dclk, m.cur_dclk);
        assert(buf@ =~= old(buf)@ + acc);
    }
    push_clock_row(buf, "VCLK1", 6, m.avg_vclk1, m.cur_vclk1);
    proof {
        acc = acc + spec_clock_row("VCLK1"@, 6, m.avg_vclk1, m.cur_vclk1);
        assert(buf@ =~= old(buf)@ + acc);
    }
    push_clock_row(buf, "DCLK1", 6, m.avg_dclk1, m.cur_dclk1);
    proof {
        acc = acc + spec_clock_row("DCLK1"@, 6, m.avg_dclk1, m.cur_dclk1);
        assert(buf@ =~= old(buf)@ + acc);
        assert(acc == spec_v1_clocks(*m));
    }
}

/// The voltage-rail section of the single-frame renderer; sentinel
/// readings are suppressed.
#[verifier::rlimit(100)]
#[verifier::spinoff_prover]
fn v1_volts(buf: &mut String, m: &MetricsV1)
    ensures
        final(buf)@ == old(buf)@ + spec_v1_volts(*m),
{
    let ghost mut acc: Seq<char> = Seq::<char>::empty();
    push_suppressed_field(buf, "SoC", m.volt_soc, 4, " mV, ");
    proof {
        acc = spec_suppressed_field("SoC"@, m.volt_soc, 4, " mV, "@);
        assert(buf@ =~= old(buf)@ + acc);
    }
    push_suppressed_field(buf, "GFX", m.volt_gfx, 4, " mV, ");
    proof {
        acc = acc + spec_suppressed_field("GFX"@, m.volt_gfx, 4, " mV, "@);
        assert(buf@ =~= old(buf)@ + acc);
    }
    push_suppressed_field(buf, "Mem", m.volt_mem, 4, " mV, ");
    proof {
        acc = acc + spec_suppressed_field("Mem"@, m.volt_mem, 4, " mV, "@);
        assert(buf@ =~= old(buf)@ + acc);
    }
    buf.append("\n");
    proof {
        acc = acc + "\n"@;
        assert(buf@ =~= old(buf)@ + acc);
        assert(acc == spec_v1_volts(*m));
    }
}

/// The single-frame renderer. The hardware reports `u16::MAX` for
/// readings it does not support; every such reading is suppressed.
#[verifier::rlimit(100)]
#[verifier::spinoff_prover]
fn for_v1(buf: &mut String, m: &MetricsV1)
    ensures
        final(buf)@ == old(buf)@ + spec_v1_text(*m),
{
    v1_temps(buf, m);
    v1_clocks(buf, m);
    v1_volts(buf, m);
    push_hbm_block(buf, &m.hbm_temp);
    assert(final(buf)@ =~= old(buf)@ + spec_v1_text(*m));
}


/// The per-core-array renderer: centi-degree readings are divided by
/// 100, and sentinel elements are shown as 0.
#[verifier::rlimit(100)]
#[verifier::spinoff_prover]
fn for_v2(buf: &mut String, m: &MetricsV2)
    ensures
        final(buf)@ == old(buf)@ + spec_v2_text(*m),
{
    let ghost mut acc: Seq<char> = Seq::<char>::empty();
    buf.append(" GFX: ");
    proof {
        acc = " GFX: "@;
        assert(buf@ =~= old(buf)@ + acc);
    }
    push_v2_cell(buf, m.temp_gfx, 100, "C");
    proof {
        acc = acc + spec_v2_cell(m.temp_gfx, 100, "C"@);
        assert(buf@ =~= old(buf)@ + acc);
    }
    push_v2_cell(buf, m.avg_gfx_power, 1, "mW");
    proof {
        acc = acc + spec_v2_cell(m.avg_gfx_power, 1, "mW"@);
        assert(buf@ =~= old(buf)@ + acc);
    }
    push_v2_cell(buf, m.cur_gfxclk, 1, "MHz");
    proof {
        acc = acc + spec_v2_cell(m.cur_gfxclk, 1, "MHz"@);
        assert(buf@ =~= old(buf)@ + acc);
    }
    buf.append("\n");
    proof {
        acc = acc + "\n"@;
        assert(buf@ =~= old(buf)@ + acc);
    }
    buf.append(" SoC: ");
    proof {
        acc = acc + " SoC: "@;
        assert(buf@ =~= old(buf)@ + acc);
    }
    push_v2_cell(buf, m.temp_soc, 100, "C");
    proof {
        acc = acc + spec_v2_cell(m.temp_soc, 100, "C"@);
        assert(buf@ =~= old(buf)@ + acc);
    }
    push_v2_cell(buf, m.avg_soc_power, 1, "mW");
    proof {
        acc = acc + spec_v2_cell(m.avg_soc_power, 1, "mW"@);
        assert(buf@ =~= old(buf)@ + acc);
    }
    push_v2_cell(buf, m.cur_socclk, 1, "MHz");
    proof {
        acc = acc + spec_v2_cell(m.cur_socclk, 1, "MHz"@);
        assert(buf@ =~= old(buf)@ + acc);
    }
    buf.append("\n");
    proof {
        acc = acc + "\n"@;
        assert(buf@ =~= old(buf)@ + acc);
    }
    push_suppressed_field(buf, "Socket Power", m.socket_power, 3, " W\n");
    proof {
        acc = acc + spec_suppressed_field("Socket Power"@, m.socket_power, 3, " W\n"@);
        assert(buf@ =~= old(buf)@ + acc);
    }
    push_clock_row(buf, "UMCCLK", 0, m.avg_uclk, m.cur_uclk);
    proof {
        acc = acc + spec_clock_row("UMCCLK"@, 0, m.avg_uclk, m.cur_uclk);
        assert(buf@ =~= old(buf)@ + acc);
    }
    push_clock_row(buf, "FCLK", 0, m.avg_fclk, m.cur_fclk);
    proof {
        acc = acc + spec_clock_row("FCLK"@, 0, m.avg_fclk, m.cur_fclk);
        assert(buf@ =~= old(buf)@ + acc);
    }
    push_clock_row(buf, "VCLK", 0, m.avg_vclk, m.cur_vclk);
    proof {
        acc = acc + spec_clock_row("VCLK"@, 0, m.avg_vclk, m.cur_vclk);
        assert(buf@ =~= old(buf)@ + acc);
    }
    push_clock_row(buf, "DCLK", 0, m.avg_dclk, m.cur_dclk);
    proof {
        acc = acc + spec_clock_row("DCLK"@, 0, m.avg_dclk, m.cur_dclk);
        assert(buf@ =~= old(buf)@ + acc);
    }
    push_array_block(buf, "Core Temp (C)", 16, &m.core_temp, 100);
    proof {
        acc = acc + spec_array_block("Core Temp (C)"@, 16, spec_opt_view(m.core_temp), 100);
        assert(buf@ =~= old(buf)@ + acc);
    }
    push_array_block(buf, "Core Power (mW)", 16, &m.core_power, 1);
    proof {
        acc = acc + spec_array_block("Core Power (mW)"@, 16, spec_opt_view(m.core_power), 1);
        assert(buf@ =~= old(buf)@ + acc);
    }
    push_array_block(buf, "Core Clock (MHz)", 16, &m.core_clk, 1);
    proof {
        acc = acc + spec_array_block("Core Clock (MHz)"@, 16, spec_opt_view(m.core_clk), 1);
        assert(buf@ =~= old(buf)@ + acc);
    }
    push_array_block(buf, "L3 Cache Temp (C)", 20, &m.l3_temp, 100);
    proof {
        acc = acc + spec_array_block("L3 Cache Temp (C)"@, 20, spec_opt_view(m.l3_temp), 100);
        assert(buf@ =~= old(buf)@ + acc);
    }
    push_array_block(buf, "L3 Cache Clock (MHz)", 20, &m.l3_clk, 1);
    proof {
        acc = acc + spec_array_block("L3 Cache Clock (MHz)"@, 20, spec_opt_view(m.l3_clk), 1);
        assert(buf@ =~= old(buf)@ + acc);
        assert(acc == spec_v2_text(*m));
    }
}

/// A reading as the renderer treats a suppressed field: the reserved
/// maximum sentinel counts as absent.
pub open spec fn spec_scrub_reading(v: Option<u16>) -> Option<u16> {
    match v {
        Some(x) => if x == u16::MAX {
            None
        } else {
            Some(x)
        },
        None => None,
    }
}

/// A reading as the zero-substituting rows treat it: the reserved
/// maximum sentinel counts as a zero reading.
pub open spec fn spec_scrub_to_zero(v: Option<u16>) -> Option<u16> {
    match v {
        Some(x) => if x == u16::MAX {
            Some(0u16)
        } else {
            Some(x)
        },
        None => None,
    }
}

/// The single-frame snapshot with every sentinel scalar reading replaced
/// by its suppressed form: absent where the line vanishes, zero where the
/// row substitutes zero. The array field is left as it is.
pub open spec fn spec_v1_suppressed(m: MetricsV1) -> MetricsV1 {
    MetricsV1 {
        socket_power: spec_scrub_reading(m.socket_power),
        temp_edge: spec_scrub_reading(m.temp_edge),
        temp_hotspot: spec_scrub_reading(m.temp_hotspot),
        temp_mem: spec_scrub_reading(m.temp_mem),
        temp_vrgfx: spec_scrub_reading(m.temp_vrgfx),
        temp_vrsoc: spec_scrub_reading(m.temp_vrsoc),
        temp_vrmem: spec_scrub_reading(m.temp_vrmem),
        avg_gfxclk: spec_scrub_to_zero(m.avg_gfxclk),
        cur_gfxclk: spec_scrub_to_zero(m.cur_gfxclk),
        avg_socclk: spec_scrub_to_zero(m.avg_socclk),
        cur_socclk: spec_scrub_to_zero(m.cur_socclk),
        avg_uclk: spec_scrub_to_zero(m.avg_uclk),
        cur_uclk: spec_scrub_to_zero(m.cur_uclk),
        avg_vclk: spec_scrub_to_zero(m.avg_vclk),
        cur_vclk: spec_scrub_to_zero(m.cur_vclk),
        avg_dclk: spec_scrub_to_zero(m.avg_dclk),
        cur_dclk: spec_scrub_to_zero(m.cur_dclk),
        avg_vclk1: spec_scrub_to_zero(m.avg_vclk1),
        cur_vclk1: spec_scrub_to_zero(m.cur_vclk1),
        avg_dclk1: spec_scrub_to_zero(m.avg_dclk1),
        cur_dclk1: spec_scrub_to_zero(m.cur_dclk1),
        volt_soc: spec_scrub_reading(m.volt_soc),
        volt_gfx: spec_scrub_reading(m.volt_gfx),
        volt_mem: spec_scrub_reading(m.volt_mem),
        ..m
    }
}

/// No scalar reading of the single-frame snapshot carries the sentinel.
pub open spec fn spec_v1_scalars_sentinel_free(m: MetricsV1) -> bool {
    &&& m.socket_power != Some(u16::MAX)
    &&& m.temp_edge != Some(u16::MAX)
    &&& m.temp_hotspot != Some(u16::MAX)
    &&& m.temp_mem != Some(u16::MAX)
    &&& m.temp_vrgfx != Some(u16::MAX)
    &&& m.temp_vrsoc != Some(u16::MAX)
    &&& m.temp_vrmem != Some(u16::MAX)
    &&& m.avg_gfxclk != Some(u16::MAX)
    &&& m.cur_gfxclk != Some(u16::MAX)
    &&& m.avg_socclk != Some(u16::MAX)
    &&& m.cur_socclk != Some(u16::MAX)
    &&& m.avg_uclk != Some(u16::MAX)
    &&& m.cur_uclk != Some(u16::MAX)
    &&& m.avg_vclk != Some(u16::MAX)
    &&& m.cur_vclk != Some(u16::MAX)
    &&& m.avg_dclk != Some(u16::MAX)
    &&& m.cur_dclk != Some(u16::MAX)
    &&& m.avg_vclk1 != Some(u16::MAX)
    &&& m.cur_vclk1 != Some(u16::MAX)
    &&& m.avg_dclk1 != Some(u16::MAX)
    &&& m.cur_dclk1 != Some(u16::MAX)
    &&& m.volt_soc != Some(u16::MAX)
    &&& m.volt_gfx != Some(u16::MAX)
    &&& m.volt_mem != Some(u16::MAX)
}

/// Sentinel suppression, single-frame family: the rendered text of any
/// snapshot equals the rendered text of the same snapshot with every
/// sentinel scalar reading removed or zeroed, and that snapshot carries
/// no sentinel scalar at all. A labelled line whose reading is the
/// sentinel vanishes entirely; a zero-substituting row shows 0.
proof fn lemma_field_scrub(label: Seq<char>, val: Option<u16>, width: nat, suffix: Seq<char>)
    ensures
        spec_suppressed_field(label, spec_scrub_reading(val), width, suffix)
            == spec_suppressed_field(label, val, width, suffix),
{
}

proof fn lemma_clock_scrub(label: Seq<char>, w: nat, avg: Option<u16>, cur: Option<u16>)
    ensures
        spec_clock_row(label, w, spec_scrub_to_zero(avg), spec_scrub_to_zero(cur))
            == spec_clock_row(label, w, avg, cur),
{
}

proof fn lemma_v1_temps_scrub(m: MetricsV1)
    ensures
        spec_v1_temps(spec_v1_suppressed(m)) == spec_v1_temps(m),
{
    lemma_field_scrub("Socket Power"@, m.socket_power, 3, " W\n"@);
    lemma_field_scrub("Edge"@, m.temp_edge, 3, " C,"@);
    lemma_field_scrub("Hotspot"@, m.temp_hotspot, 3, " C,"@);
    lemma_field_scrub("Memory"@, m.temp_mem, 3, " C,"@);
    lemma_field_scrub("VRGFX"@, m.temp_vrgfx, 3, " C,"@);
    lemma_field_scrub("VRSOC"@, m.temp_vrsoc, 3, " C,"@);
    lemma_field_scrub("VRMEM"@, m.temp_vrmem, 3, " C,"@);
}

proof fn lemma_v1_clocks_scrub(m: MetricsV1)
    ensures
        spec_v1_clocks(spec_v1_suppressed(m)) == spec_v1_clocks(m),
{
    lemma_clock_scrub("GFXCLK"@, 6, m.avg_gfxclk, m.cur_gfxclk);
    lemma_clock_scrub("SOCCLK"@, 6, m.avg_socclk, m.cur_socclk);
    lemma_clock_scrub("UMCCLK"@, 6, m.avg_uclk, m.cur_uclk);
    lemma_clock_scrub("VCLK"@, 6, m.avg_vclk, m.cur_vclk);
    lemma_clock_scrub("DCLK"@, 6, m.avg_dclk, m.cur_dclk);
    lemma_clock_scrub("VCLK1"@, 6, m.avg_vclk1, m.cur_vclk1);
    lemma_clock_scrub("DCLK1"@, 6, m.avg_dclk1, m.cur_dclk1);
}

proof fn lemma_v1_volts_scrub(m: MetricsV1)
    ensures
        spec_v1_volts(spec_v1_suppressed(m)) == spec_v1_volts(m),
{
    lemma_field_scrub("SoC"@, m.volt_soc, 4, " mV, "@);
    lemma_field_scrub("GFX"@, m.volt_gfx, 4, " mV, "@);
    lemma_field_scrub("Mem"@, m.volt_mem, 4, " mV, "@);
}

/// Sentinel suppression, single-frame family: the rendered text of any
/// snapshot equals the rendered text of the same snapshot with every
/// sentinel scalar reading removed or zeroed, and that snapshot carries
/// no sentinel scalar at all. A labelled line whose reading is the
/// sentinel vanishes entirely; a zero-substituting row shows 0.
pub proof fn lemma_v1_sentinel_suppression(m: MetricsV1)
    ensures
        spec_v1_text(m) == spec_v1_text(spec_v1_suppressed(m)),
        spec_v1_scalars_sentinel_free(spec_v1_suppressed(m)),
{
    lemma_v1_temps_scrub(m);
    lemma_v1_clocks_scrub(m);
    lemma_v1_volts_scrub(m);
}

/// The high-bandwidth-memory block of a snapshot whose stacks report the
/// sentinel is not rendered at all.
pub proof fn lemma_hbm_sentinel_suppressed(arr: Seq<u16>)
    requires
        spec_has_max(arr),
    ensures
        spec_hbm_block(Some(arr)) == Seq::<char>::empty(),
{
}

/// The per-core-array snapshot with every sentinel scalar reading
/// replaced by a zero reading or, for the one vanishing line, removed.
/// The array fields are left as they are.
pub open spec fn spec_v2_suppressed(m: MetricsV2) -> MetricsV2 {
    MetricsV2 {
        temp_gfx: spec_scrub_to_zero(m.temp_gfx),
        avg_gfx_power: spec_scrub_to_zero(m.avg_gfx_power),
        cur_gfxclk: spec_scrub_to_zero(m.cur_gfxclk),
        temp_soc: spec_scrub_to_zero(m.temp_soc),
        avg_soc_power: spec_scrub_to_zero(m.avg_soc_power),
        cur_socclk: spec_scrub_to_zero(m.cur_socclk),
        socket_power: spec_scrub_reading(m.socket_power),
        avg_uclk: spec_scrub_to_zero(m.avg_uclk),
        cur_uclk: spec_scrub_to_zero(m.cur_uclk),
        avg_fclk: spec_scrub_to_zero(m.avg_fclk),
        cur_fclk: spec_scrub_to_zero(m.cur_fclk),
        avg_vclk: spec_scrub_to_zero(m.avg_vclk),
        cur_vclk: spec_scrub_to_zero(m.cur_vclk),
        avg_dclk: spec_scrub_to_zero(m.avg_dclk),
        cur_dclk: spec_scrub_to_zero(m.cur_dclk),
        ..m
    }
}

/// No scalar reading of the per-core-array snapshot carries the sentinel.
pub open spec fn spec_v2_scalars_sentinel_free(m: MetricsV2) -> bool {
    &&& m.temp_gfx != Some(u16::MAX)
    &&& m.avg_gfx_power != Some(u16::MAX)
    &&& m.cur_gfxclk != Some(u16::MAX)
    &&& m.temp_soc != Some(u16::MAX)
    &&& m.avg_soc_power != Some(u16::MAX)
    &&& m.cur_socclk != Some(u16::MAX)
    &&& m.socket_power != Some(u16::MAX)
    &&& m.avg_uclk != Some(u16::MAX)
    &&& m.cur_uclk != Some(u16::MAX)
    &&& m.avg_fclk != Some(u16::MAX)
    &&& m.cur_fclk != Some(u16::MAX)
    &&& m.avg_vclk != Some(u16::MAX)
    &&& m.cur_vclk != Some(u16::MAX)
    &&& m.avg_dclk != Some(u16::MAX)
    &&& m.cur_dclk != Some(u16::MAX)
}

/// Sentinel suppression, per-core-array family, scalar readings: the
/// rendered text of any snapshot equals the rendered text of the same
/// snapshot with every sentinel scalar reading zeroed or removed, and
/// that snapshot carries no sentinel scalar at all.
#[verifier::rlimit(100)]
#[verifier::spinoff_prover]
pub proof fn lemma_v2_sentinel_suppression(m: MetricsV2)
    ensures
        spec_v2_text(m) == spec_v2_text(spec_v2_suppressed(m)),
        spec_v2_scalars_sentinel_free(spec_v2_suppressed(m)),
{
}

/// Sentinel suppression, array elements: an element that carries the
/// sentinel renders exactly as a zero element does, so replacing it by 0
/// leaves the rendered items unchanged.
pub proof fn lemma_array_sentinel_renders_as_zero(s: Seq<u16>, div: u16, i: int, k: int)
    requires
        div > 0,
        0 <= i < s.len(),
        k <= s.len(),
        s[i] == u16::MAX,
    ensures
        spec_scaled_items(s, div, true, k) == spec_scaled_items(s.update(i, 0u16), div, true, k),
    decreases k,
{
    let s2 = s.update(i, 0u16);
    if k > 0 {
        lemma_array_sentinel_renders_as_zero(s, div, i, k - 1);
        if k - 1 == i {
            assert(s2[k - 1] == 0u16);
            assert(0u16 / div == 0) by (nonlinear_arith)
                requires
                    div > 0,
            ;
        } else {
            assert(s2[k - 1] == s[k - 1]);
        }
    }
}

} // verus!
