use rainmeter_remote_simple_metric_server::format::{
    div_round_even, format_speed, mem_percent, push_f32_fixed1, swap_tenths,
};
use rainmeter_remote_simple_metric_server::metrics::{format_data, Rates, Sample};
use rainmeter_remote_simple_metric_server::text::{push_decimal, push_fixed1};

fn cpu_text(x: f32) -> String {
    let mut s = String::new();
    push_f32_fixed1(&mut s, x.to_bits());
    s
}

#[test]
fn speed_at_one_megabyte_per_second_is_megabytes() {
    assert_eq!(format_speed(1_000_000, 1_000_000_000), "1.0MB/s");
}

#[test]
fn speed_just_below_one_megabyte_per_second_is_kilobytes() {
    // 999_999.9 bytes per second
    assert_eq!(format_speed(9_999_999, 10_000_000_000), "1000.0KB/s");
}

#[test]
fn speed_below_a_kilobyte_still_in_kilobytes() {
    assert_eq!(format_speed(300, 1_000_000_000), "0.3KB/s");
    assert_eq!(format_speed(0, 1_000_000_000), "0.0KB/s");
}

#[test]
fn speed_large_values() {
    assert_eq!(format_speed(12_345_678_901, 1_000_000_000), "12345.7MB/s");
    assert_eq!(format_speed(u64::MAX, 1), "18446744073709551615000.0MB/s");
    assert_eq!(format_speed(2_500_000, 2_000_000_000), "1.2MB/s");
}

#[test]
fn speed_with_no_elapsed_time_is_zero() {
    assert_eq!(format_speed(5_000, 0), "0.0KB/s");
}

#[test]
fn rounding_ties_go_to_even() {
    assert_eq!(div_round_even(5, 2), 2);
    assert_eq!(div_round_even(7, 2), 4);
    assert_eq!(div_round_even(7, 3), 2);
    assert_eq!(div_round_even(8, 3), 3);
    assert_eq!(div_round_even(0, 9), 0);
}

#[test]
fn swap_with_no_capacity_is_zero() {
    assert_eq!(swap_tenths(0, 0), 0);
    assert_eq!(swap_tenths(123_456, 0), 0);
    assert_eq!(swap_tenths(u64::MAX, 0), 0);
}

#[test]
fn swap_and_memory_percentages() {
    assert_eq!(swap_tenths(1, 4), 250);
    assert_eq!(swap_tenths(1, 3), 333);
    assert_eq!(mem_percent(1, 2), 50);
    assert_eq!(mem_percent(1, 200), 0);
    assert_eq!(mem_percent(3, 200), 2);
    assert_eq!(mem_percent(0, 0), 0);
    assert_eq!(mem_percent(u64::MAX, u64::MAX), 100);
}

#[test]
fn decimal_and_fixed_point_text() {
    let mut s = String::new();
    push_decimal(&mut s, 0);
    s.push(' ');
    push_decimal(&mut s, 1_234_567);
    s.push(' ');
    push_fixed1(&mut s, 7);
    s.push(' ');
    push_fixed1(&mut s, 1_000);
    assert_eq!(s, "0 1234567 0.7 100.0");
}

#[test]
fn cpu_text_matches_one_decimal_formatting() {
    let values: [f32; 18] = [
        0.0, 12.34, 99.95, 0.05, 0.25, 0.35, 100.0, 2.5, 7.75, 33.333, 1e-40, 1e-3, 3.4e38,
        1.0e7, -1.25, -0.0, -0.01, 16_777_217.0,
    ];
    for x in values {
        assert_eq!(cpu_text(x), format!("{:.1}", x), "value {:e}", x);
    }
}

#[test]
fn cpu_text_special_values() {
    assert_eq!(cpu_text(f32::NAN), "NaN");
    assert_eq!(cpu_text(f32::INFINITY), "inf");
    assert_eq!(cpu_text(f32::NEG_INFINITY), "-inf");
    assert_eq!(cpu_text(f32::MAX), format!("{:.1}", f32::MAX));
}

fn sample() -> Sample {
    Sample {
        cpu_bits: 12.34f32.to_bits(),
        mem_used: 1,
        mem_total: 4,
        swap_used: 0,
        swap_total: 0,
        net_rx: 0,
        net_tx: 0,
        disk_read: 0,
        disk_write: 0,
    }
}

#[test]
fn payload_has_seven_lines_in_fixed_order() {
    let r = Rates {
        elapsed_nanos: 1_000_000_000,
        io_read: 1_000_000,
        io_write: 999,
        net_rx: 2_000,
        net_tx: 0,
    };
    let t = format_data(&sample(), &r);
    assert_eq!(
        t,
        "cpu=[12.3]\nmem=[25]\nswap=[0.0]\nio_read=[1.0MB/s]\nio_write=[1.0KB/s]\nnet_rx=[2.0KB/s]\nnet_tx=[0.0KB/s]"
    );
    let keys: Vec<&str> = t.lines().map(|l| l.split('=').next().unwrap()).collect();
    assert_eq!(keys, vec!["cpu", "mem", "swap", "io_read", "io_write", "net_rx", "net_tx"]);
    assert!(t.lines().all(|l| l.contains("=[") && l.ends_with(']')));
}

#[test]
fn payload_with_zero_rates() {
    let t = format_data(&sample(), &Rates::zero());
    assert_eq!(
        t,
        "cpu=[12.3]\nmem=[25]\nswap=[0.0]\nio_read=[0.0KB/s]\nio_write=[0.0KB/s]\nnet_rx=[0.0KB/s]\nnet_tx=[0.0KB/s]"
    );
}
