use amdgpu_top::fdinfo::{FdInfoSortType, FdInfoUsage, FdInfoView, ProcInfo, ProcUsage};
use amdgpu_top::sort::sort_proc_usage;

const HEADER: &str =
    "                            |   VRAM   | GFX | Compute | DMA | DEC | ENC |\n";

fn proc_info(pid: i32, name: &str, texts: &[&str]) -> ProcInfo {
    ProcInfo {
        pid,
        name: String::from(name),
        fdinfo_texts: texts.iter().map(|t| String::from(*t)).collect(),
    }
}

fn sample(pid: i32, vram: u64, gfx: i64, dec: i64, enc: i64, uvd_enc: i64) -> ProcUsage {
    ProcUsage {
        pid,
        name: String::from("p"),
        usage: FdInfoUsage {
            vram_usage: vram,
            gfx,
            dec,
            enc,
            uvd_enc,
            ..FdInfoUsage::default()
        },
    }
}

#[test]
fn id_parse_reads_the_context_id() {
    assert_eq!(FdInfoUsage::id_parse("drm-client-id:\t42"), 42);
    assert_eq!(FdInfoUsage::id_parse("drm-client-id:\t5"), 5);
}

#[test]
fn id_parse_malformed_defaults_to_zero() {
    assert_eq!(FdInfoUsage::id_parse("drm-client-id:\tabc"), 0);
    assert_eq!(FdInfoUsage::id_parse("drm-client-id:\t"), 0);
    assert_eq!(FdInfoUsage::id_parse("drm-client-id"), 0);
    // A value that cannot fit in 64 bits is malformed, not wrapped.
    assert_eq!(FdInfoUsage::id_parse("drm-client-id:\t99999999999999999999999"), 0);
}

#[test]
fn mem_usage_parse_accumulates_each_category() {
    let mut u = FdInfoUsage::default();
    u.mem_usage_parse("drm-memory-vram:\t2048 KiB");
    u.mem_usage_parse("drm-memory-gtt: \t512 KiB");
    u.mem_usage_parse("drm-memory-cpu: \t256 KiB");
    u.mem_usage_parse("drm-memory-vram:\t1000 KiB");
    assert_eq!(u.vram_usage, 3048);
    assert_eq!(u.gtt_usage, 512);
    assert_eq!(u.cpu_accessible_usage, 256);
}

#[test]
fn mem_usage_parse_malformed_magnitude_is_zero() {
    let mut u = FdInfoUsage::default();
    u.mem_usage_parse("drm-memory-vram:\txyz KiB");
    assert_eq!(u.vram_usage, 0);
    u.mem_usage_parse("drm-memory-vram:\t");
    assert_eq!(u.vram_usage, 0);
}

#[test]
fn engine_parse_accumulates_each_engine() {
    let mut u = FdInfoUsage::default();
    u.engine_parse("drm-engine-gfx:\t1000000000 ns");
    u.engine_parse("drm-engine-compute:\t7 ns");
    u.engine_parse("drm-engine-dma:\t8 ns");
    u.engine_parse("drm-engine-dec:\t9 ns");
    u.engine_parse("drm-engine-enc:\t10 ns");
    u.engine_parse("drm-engine-enc_1:\t11 ns");
    u.engine_parse("drm-engine-jpeg:\t12 ns");
    u.engine_parse("drm-engine-gfx:\t1 ns");
    assert_eq!(u.gfx, 1000000001);
    assert_eq!(u.compute, 7);
    assert_eq!(u.dma, 8);
    assert_eq!(u.dec, 9);
    assert_eq!(u.enc, 10);
    assert_eq!(u.uvd_enc, 11);
    assert_eq!(u.vcn_jpeg, 12);
}

#[test]
fn engine_parse_ignores_unknown_or_malformed_lines() {
    let mut u = FdInfoUsage::default();
    u.engine_parse("drm-engine-capacity-gfx:\t1 ns");
    u.engine_parse("drm-engine-gfx no tab here");
    u.engine_parse("drm-engine-gfx:\tbad ns");
    assert_eq!(u, FdInfoUsage::default());
}

#[test]
fn calc_usage_computes_percent_rates() {
    let mut pre = FdInfoUsage::default();
    pre.gfx = 1_000_000_000;
    let mut cur = FdInfoUsage::default();
    cur.gfx = 1_500_000_000;
    cur.vram_usage = 2048;
    let r = cur.calc_usage(&pre, 1_000_000_000);
    assert_eq!(r.gfx, 50);
    assert_eq!(r.vram_usage, 2048);
}

#[test]
fn calc_usage_decreasing_counter_yields_zero() {
    let mut pre = FdInfoUsage::default();
    pre.gfx = 10;
    let mut cur = FdInfoUsage::default();
    cur.gfx = 5;
    let r = cur.calc_usage(&pre, 1_000_000_000);
    assert_eq!(r.gfx, 0);
}

#[test]
fn calc_usage_zero_interval_yields_zero() {
    let mut pre = FdInfoUsage::default();
    pre.gfx = 10;
    let mut cur = FdInfoUsage::default();
    cur.gfx = 1_000_000_000_000;
    let r = cur.calc_usage(&pre, 0);
    assert_eq!(r.gfx, 0);
    let r = cur.calc_usage(&pre, 99);
    assert_eq!(r.gfx, 0);
}

#[test]
fn calc_usage_without_baseline_counter_yields_zero() {
    let pre = FdInfoUsage::default();
    let mut cur = FdInfoUsage::default();
    cur.gfx = 123_456_789;
    let r = cur.calc_usage(&pre, 1_000_000_000);
    assert_eq!(r.gfx, 0);
}

#[test]
fn idempotent_reparse_yields_zero_rates() {
    let text = "drm-client-id:\t5\ndrm-memory-vram:\t2048 KiB\ndrm-engine-gfx:\t1000000000 ns\n";
    let mut view = FdInfoView::new(1_000_000_000);
    let p = proc_info(7, "steady", &[text]);
    view.print(&[p.clone()], &FdInfoSortType::PID, false);
    view.print(&[p], &FdInfoSortType::PID, false);
    let pu = &view.proc_usage[0];
    assert_eq!(pu.usage.vram_usage, 2048);
    assert_eq!(pu.usage.gfx, 0);
}

#[test]
fn first_sight_yields_zero_rates() {
    let text = "drm-client-id:\t5\ndrm-engine-gfx:\t900000000 ns\ndrm-engine-dec:\t900000000 ns\n";
    let mut view = FdInfoView::new(1_000_000_000);
    view.print(&[proc_info(1, "new", &[text])], &FdInfoSortType::PID, false);
    let pu = &view.proc_usage[0];
    assert_eq!(pu.usage.gfx, 0);
    assert_eq!(pu.usage.dec, 0);
}

#[test]
fn context_dedup_counts_shared_context_once() {
    let text = "drm-client-id:\t5\ndrm-memory-vram:\t1024 KiB\ndrm-engine-gfx:\t10 ns\n";
    let mut view = FdInfoView::new(0);
    view.print(&[proc_info(1, "dup", &[text, text])], &FdInfoSortType::PID, false);
    let pu = &view.proc_usage[0];
    assert_eq!(pu.usage.vram_usage, 1024);
}

#[test]
fn repeated_context_skips_all_remaining_descriptors() {
    let a = "drm-client-id:\t5\n";
    let b = "drm-client-id:\t5\n";
    let c = "drm-memory-vram:\t8 KiB\n";
    let mut view = FdInfoView::new(0);
    view.print(&[proc_info(1, "x", &[a, b, c])], &FdInfoSortType::PID, false);
    // The second descriptor repeats the context id, so it and every
    // descriptor after it contribute nothing.
    assert_eq!(view.proc_usage[0].usage.vram_usage, 0);
}

#[test]
fn distinct_contexts_are_both_counted() {
    let a = "drm-client-id:\t5\ndrm-memory-vram:\t1024 KiB\n";
    let b = "drm-client-id:\t6\ndrm-memory-vram:\t1024 KiB\n";
    let mut view = FdInfoView::new(0);
    view.print(&[proc_info(1, "two", &[a, b])], &FdInfoSortType::PID, false);
    assert_eq!(view.proc_usage[0].usage.vram_usage, 2048);
}

#[test]
fn name_is_truncated_to_fifteen_characters() {
    let mut view = FdInfoView::new(0);
    view.print(
        &[proc_info(1, "a-very-long-process-name", &[])],
        &FdInfoSortType::PID,
        false,
    );
    assert_eq!(view.proc_usage[0].name, "a-very-long-pro");
}

#[test]
fn poll_scenario_two_rounds() {
    // First poll: first sight, rate 0, memory carried through.
    let mut view = FdInfoView::new(0);
    let t1 = "drm-client-id:\t5\ndrm-memory-vram:\t2048 KiB\ndrm-engine-gfx:\t1000000000 ns\n";
    view.print(&[proc_info(100, "proc", &[t1])], &FdInfoSortType::PID, false);
    assert_eq!(view.proc_usage[0].usage.vram_usage, 2048);
    assert_eq!(view.proc_usage[0].usage.gfx, 0);

    // Second poll one second later: 0.5 s of busy time over 1 s is 50%.
    view.interval = 1_000_000_000;
    let t2 = "drm-client-id:\t5\ndrm-memory-vram:\t2048 KiB\ndrm-engine-gfx:\t1500000000 ns\n";
    view.print(&[proc_info(100, "proc", &[t2])], &FdInfoSortType::PID, false);
    assert_eq!(view.proc_usage[0].usage.gfx, 50);
    assert_eq!(view.proc_usage[0].usage.vram_usage, 2048);

    let expected_row =
        " proc            (     100) |     2 MiB|  50%|       0%|   0%|   0%|   0%|\n";
    assert_eq!(view.text.buf, format!("{HEADER}{expected_row}"));
}

#[test]
fn sort_by_vram_descending_then_ascending_reverses() {
    let a = sample(1, 10, 0, 0, 0, 0);
    let b = sample(2, 30, 0, 0, 0, 0);
    let c = sample(3, 20, 0, 0, 0, 0);
    let mut desc = vec![a.clone(), b.clone(), c.clone()];
    sort_proc_usage(&mut desc, &FdInfoSortType::VRAM, false);
    let mut asc = vec![a, b, c];
    sort_proc_usage(&mut asc, &FdInfoSortType::VRAM, true);
    let desc_pids: Vec<i32> = desc.iter().map(|p| p.pid).collect();
    let mut asc_pids: Vec<i32> = asc.iter().map(|p| p.pid).collect();
    asc_pids.reverse();
    assert_eq!(desc_pids, vec![2, 3, 1]);
    assert_eq!(desc_pids, asc_pids);
}

#[test]
fn sort_is_stable_on_equal_keys() {
    let a = sample(1, 10, 0, 0, 0, 0);
    let b = sample(2, 10, 0, 0, 0, 0);
    let c = sample(3, 10, 0, 0, 0, 0);
    let mut v = vec![a, b, c];
    sort_proc_usage(&mut v, &FdInfoSortType::VRAM, false);
    let pids: Vec<i32> = v.iter().map(|p| p.pid).collect();
    assert_eq!(pids, vec![1, 2, 3]);
}

#[test]
fn sort_by_media_engine_combines_three_counters() {
    let a = sample(1, 0, 0, 5, 0, 0);
    let b = sample(2, 0, 0, 1, 2, 3);
    let c = sample(3, 0, 0, 0, 0, 0);
    let mut v = vec![a, b, c];
    sort_proc_usage(&mut v, &FdInfoSortType::MediaEngine, false);
    let pids: Vec<i32> = v.iter().map(|p| p.pid).collect();
    assert_eq!(pids, vec![2, 1, 3]);
}

#[test]
fn json_summary_reports_the_top_of_the_current_sort() {
    let a = "drm-client-id:\t5\ndrm-memory-vram:\t4096 KiB\ndrm-memory-gtt: \t2048 KiB\n";
    let b = "drm-client-id:\t9\ndrm-memory-vram:\t1024 KiB\n";
    let mut view = FdInfoView::new(0);
    view.print(
        &[proc_info(1, "big", &[a]), proc_info(2, "small", &[b])],
        &FdInfoSortType::VRAM,
        false,
    );
    let entries = view.json_summary().unwrap();
    assert_eq!(entries.len(), 7);
    assert_eq!(entries[0].label, "VRAM Usage");
    assert_eq!(entries[0].value, 4);
    assert_eq!(entries[0].unit, "MiB");
    assert_eq!(entries[1].label, "GTT Usage");
    assert_eq!(entries[1].value, 2);
    assert_eq!(entries[1].unit, "MiB");
    assert_eq!(entries[2].label, "GFX");
    assert_eq!(entries[2].unit, "%");
    assert_eq!(entries[6].label, "ENC");
}

#[test]
fn json_summary_is_empty_without_samples() {
    let view = FdInfoView::new(0);
    assert!(view.json_summary().is_none());
}

#[test]
fn unrecognized_lines_are_ignored() {
    let text = "pos:\t0\nflags:\t02100002\ndrm-driver:\tamdgpu\ndrm-memory-vram:\t8 KiB\n";
    let mut view = FdInfoView::new(0);
    view.print(&[proc_info(1, "x", &[text])], &FdInfoSortType::PID, false);
    assert_eq!(view.proc_usage[0].usage.vram_usage, 8);
}
