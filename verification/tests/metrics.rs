use amdgpu_top::gpu_metrics::{
    none_or_max_to_zero, GpuMetrics, GpuMetricsView, MetricsV1, MetricsV2,
};

fn empty_v1() -> MetricsV1 {
    MetricsV1 {
        format_revision: 1,
        content_revision: 3,
        socket_power: None,
        temp_edge: None,
        temp_hotspot: None,
        temp_mem: None,
        temp_vrgfx: None,
        temp_vrsoc: None,
        temp_vrmem: None,
        avg_gfxclk: None,
        cur_gfxclk: None,
        avg_socclk: None,
        cur_socclk: None,
        avg_uclk: None,
        cur_uclk: None,
        avg_vclk: None,
        cur_vclk: None,
        avg_dclk: None,
        cur_dclk: None,
        avg_vclk1: None,
        cur_vclk1: None,
        avg_dclk1: None,
        cur_dclk1: None,
        volt_soc: None,
        volt_gfx: None,
        volt_mem: None,
        hbm_temp: None,
    }
}

fn empty_v2() -> MetricsV2 {
    MetricsV2 {
        format_revision: 2,
        content_revision: 2,
        temp_gfx: None,
        avg_gfx_power: None,
        cur_gfxclk: None,
        temp_soc: None,
        avg_soc_power: None,
        cur_socclk: None,
        socket_power: None,
        avg_uclk: None,
        cur_uclk: None,
        avg_fclk: None,
        cur_fclk: None,
        avg_vclk: None,
        cur_vclk: None,
        avg_dclk: None,
        cur_dclk: None,
        core_temp: None,
        core_power: None,
        core_clk: None,
        l3_temp: None,
        l3_clk: None,
    }
}

#[test]
fn sentinel_and_missing_values_become_zero() {
    assert_eq!(none_or_max_to_zero(Some(u16::MAX)), 0);
    assert_eq!(none_or_max_to_zero(None), 0);
    assert_eq!(none_or_max_to_zero(Some(0)), 0);
    assert_eq!(none_or_max_to_zero(Some(1234)), 1234);
}

#[test]
fn unknown_state_renders_empty_and_has_no_version() {
    let mut view = GpuMetricsView::new();
    assert_eq!(view.version(), None);
    view.print();
    assert_eq!(view.text.buf, "");
}

#[test]
fn update_replaces_snapshot_and_reports_version() {
    let mut view = GpuMetricsView::new();
    assert!(view.update_metrics(Some(GpuMetrics::V1(empty_v1()))).is_ok());
    assert_eq!(view.version(), Some((1, 3)));
}

#[test]
fn failed_update_keeps_previous_snapshot() {
    let mut view = GpuMetricsView::new();
    view.update_metrics(Some(GpuMetrics::V2(empty_v2()))).unwrap();
    assert!(view.update_metrics(None).is_err());
    assert_eq!(view.version(), Some((2, 2)));
}

#[test]
fn v1_sentinel_fields_are_suppressed_entirely() {
    let mut m = empty_v1();
    m.socket_power = Some(u16::MAX);
    m.temp_edge = Some(u16::MAX);
    m.volt_soc = Some(u16::MAX);
    let mut view = GpuMetricsView::new();
    view.update_metrics(Some(GpuMetrics::V1(m))).unwrap();
    view.print();
    assert!(!view.text.buf.contains("Socket Power"));
    assert!(!view.text.buf.contains("Edge"));
    assert!(!view.text.buf.contains("SoC:"));
    assert!(!view.text.buf.contains("65535"));
}

#[test]
fn v1_present_fields_are_rendered() {
    let mut m = empty_v1();
    m.socket_power = Some(120);
    m.temp_edge = Some(45);
    m.avg_gfxclk = Some(800);
    m.cur_gfxclk = Some(1500);
    m.volt_gfx = Some(1050);
    let mut view = GpuMetricsView::new();
    view.update_metrics(Some(GpuMetrics::V1(m))).unwrap();
    view.print();
    let text = &view.text.buf;
    assert!(text.contains(" Socket Power: 120 W\n"));
    assert!(text.contains(" Edge:  45 C,"));
    assert!(text.contains(" GFXCLK Avg.  800 MHz, Cur. 1500 MHz\n"));
    assert!(text.contains(" GFX: 1050 mV, "));
}

#[test]
fn v1_sentinel_clock_renders_as_zero() {
    let mut m = empty_v1();
    m.avg_gfxclk = Some(u16::MAX);
    m.cur_gfxclk = Some(1000);
    let mut view = GpuMetricsView::new();
    view.update_metrics(Some(GpuMetrics::V1(m))).unwrap();
    view.print();
    assert!(view.text.buf.contains(" GFXCLK Avg.    0 MHz, Cur. 1000 MHz\n"));
}

#[test]
fn v1_hbm_block_rendered_only_without_sentinel() {
    let mut m = empty_v1();
    m.hbm_temp = Some(vec![4500, 4600]);
    let mut view = GpuMetricsView::new();
    view.update_metrics(Some(GpuMetrics::V1(m))).unwrap();
    view.print();
    assert!(view.text.buf.contains("HBM Temp (C) [   45,   46,]\n"));

    let mut m = empty_v1();
    m.hbm_temp = Some(vec![4500, u16::MAX]);
    view.update_metrics(Some(GpuMetrics::V1(m))).unwrap();
    view.print();
    assert!(!view.text.buf.contains("HBM Temp"));
}

#[test]
fn v2_domain_rows_scale_temperatures_by_one_hundred() {
    let mut m = empty_v2();
    m.temp_gfx = Some(6512);
    m.avg_gfx_power = Some(15000);
    m.cur_gfxclk = Some(1800);
    let mut view = GpuMetricsView::new();
    view.update_metrics(Some(GpuMetrics::V2(m))).unwrap();
    view.print();
    assert!(view.text.buf.contains(" GFX:    65 C, 15000 mW,  1800 MHz, \n"));
}

#[test]
fn v2_array_sentinel_elements_become_zero() {
    let mut m = empty_v2();
    m.core_temp = Some(vec![4900, u16::MAX, 5100]);
    m.l3_clk = Some(vec![u16::MAX]);
    let mut view = GpuMetricsView::new();
    view.update_metrics(Some(GpuMetrics::V2(m))).unwrap();
    view.print();
    let text = &view.text.buf;
    assert!(text.contains(" Core Temp (C)   : [   49,    0,   51,]\n"));
    assert!(text.contains(" L3 Cache Clock (MHz): [    0,]\n"));
    assert!(!text.contains("65535"));
    assert!(!text.contains("655"));
}

#[test]
fn v2_clock_rows_are_unpadded() {
    let mut m = empty_v2();
    m.avg_fclk = Some(900);
    m.cur_fclk = Some(u16::MAX);
    let mut view = GpuMetricsView::new();
    view.update_metrics(Some(GpuMetrics::V2(m))).unwrap();
    view.print();
    assert!(view.text.buf.contains(" FCLK Avg.  900 MHz, Cur.    0 MHz\n"));
}
