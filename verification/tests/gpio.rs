use esp8266_wifi::gpio::{
    gpio_output_set, RegisterWrite, GPIO_ENABLE_W1TC, GPIO_ENABLE_W1TS, GPIO_OUT_W1TC,
    GPIO_OUT_W1TS,
};

#[test]
fn all_masks_written_in_order() {
    let w = gpio_output_set(1, 2, 4, 8);
    assert_eq!(
        w,
        vec![
            RegisterWrite { addr: 0x6000_0304, value: 1 },
            RegisterWrite { addr: 0x6000_0308, value: 2 },
            RegisterWrite { addr: 0x6000_0310, value: 4 },
            RegisterWrite { addr: 0x6000_0314, value: 8 },
        ]
    );
}

#[test]
fn zero_masks_are_skipped() {
    assert_eq!(gpio_output_set(0, 0, 0, 0), vec![]);
    assert_eq!(
        gpio_output_set(0, 0x10, 0, 0x20),
        vec![
            RegisterWrite { addr: GPIO_OUT_W1TC, value: 0x10 },
            RegisterWrite { addr: GPIO_ENABLE_W1TC, value: 0x20 },
        ]
    );
    assert_eq!(
        gpio_output_set(0x4, 0, 0x4, 0),
        vec![
            RegisterWrite { addr: GPIO_OUT_W1TS, value: 0x4 },
            RegisterWrite { addr: GPIO_ENABLE_W1TS, value: 0x4 },
        ]
    );
}
