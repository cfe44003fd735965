use esp8266_wifi::wifi::{check_status, EspWifi, WifiInitParams, WIFI_INIT_MAGIC};

#[test]
fn status_zero_is_ok() {
    assert_eq!(check_status(0), Ok(()));
    assert_eq!(check_status(0x3001), Err(0x3001));
    assert_eq!(check_status(-1), Err(-1));
}

#[test]
fn init_status_gives_handle() {
    assert!(EspWifi::from_init_status(0).is_ok());
    assert_eq!(EspWifi::from_init_status(5).err(), Some(5));
}

#[test]
fn init_params_values() {
    assert_eq!(
        EspWifi::init_params(),
        WifiInitParams {
            static_rx_buf_num: 4,
            dynamic_rx_buf_num: 8,
            tx_buf_num: 4,
            ampdu_rx_enable: 0,
            rx_ampdu_buf_len: 0,
            rx_ampdu_buf_num: 0,
            magic: 0x5F54494E,
        }
    );
    assert_eq!(WIFI_INIT_MAGIC, 0x5F54494E);
}
