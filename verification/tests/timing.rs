use esp8266_wifi::timing::{
    delay_cycles, delay_elapsed, esp_log_early_timestamp, esp_timer_get_time, system_get_time,
    xTaskGetTickCount,
};

#[test]
fn cycles_to_microseconds() {
    assert_eq!(system_get_time(800), 10);
    assert_eq!(system_get_time(79), 0);
    assert_eq!(system_get_time(u32::MAX), 53_687_091);
    assert_eq!(esp_log_early_timestamp(160), 2);
}

#[test]
fn timer_is_microseconds_as_i64() {
    assert_eq!(esp_timer_get_time(8_000_000), 100_000i64);
    assert_eq!(esp_timer_get_time(u32::MAX), 53_687_091i64);
}

#[test]
fn cycles_to_ticks() {
    assert_eq!(xTaskGetTickCount(5000), 5);
    assert_eq!(xTaskGetTickCount(999), 0);
}

#[test]
fn delay_cycles_at_80_mhz() {
    assert_eq!(delay_cycles(10), 800);
    assert_eq!(delay_cycles(0), 0);
}

#[test]
fn delay_elapsed_plain() {
    assert!(!delay_elapsed(100, 150, 80));
    assert!(delay_elapsed(100, 180, 80));
    assert!(delay_elapsed(100, 100, 0));
}

#[test]
fn delay_elapsed_across_wrap() {
    let start = u32::MAX - 10;
    assert!(!delay_elapsed(start, 20, 80));
    assert!(delay_elapsed(start, 69, 80));
    assert!(!delay_elapsed(start, 68, 80));
}

#[test]
fn clock_never_goes_backwards() {
    assert!(system_get_time(100) <= system_get_time(200));
    assert!(xTaskGetTickCount(1999) <= xTaskGetTickCount(2000));
}
