//! The WiFi driver handle: the parameters it starts the closed-source stack
//! with, how the stack's status codes become results, and the configuration
//! records the stack reads.

use vstd::prelude::*;

verus! {

/// The value the stack checks in the `magic` field of its init record.
pub const WIFI_INIT_MAGIC: u32 = 0x5F54494E;

/// Station mode.
pub const WIFI_MODE_STA: u32 = 1;
/// Access point mode.
pub const WIFI_MODE_AP: u32 = 2;
/// Station and access point at once.
pub const WIFI_MODE_APSTA: u32 = 3;

/// The numeric part of the stack's init record: buffer counts, aggregation
/// settings and the magic value. The event handler and the table pointers
/// of the record are left empty by the driver.
#[derive(Clone, Copy, Debug, PartialEq, Eq, Structural)]
pub struct WifiInitParams {
    pub static_rx_buf_num: u32,
    pub dynamic_rx_buf_num: u32,
    pub tx_buf_num: u32,
    pub ampdu_rx_enable: u32,
    pub rx_ampdu_buf_len: u32,
    pub rx_ampdu_buf_num: u32,
    pub magic: u32,
}

/// Access point settings as the stack reads them.
#[derive(Clone, Copy)]
pub struct WifiConfigAp {
    pub ssid: [u8; 32],
    pub password: [u8; 64],
    pub ssid_len: u8,
    pub channel: u8,
    pub authmode: u32,
    pub ssid_hidden: u8,
    pub max_connection: u8,
    pub beacon_interval: u16,
}

/// Station settings as the stack reads them.
#[derive(Clone, Copy)]
pub struct WifiConfigSta {
    pub ssid: [u8; 32],
    pub password: [u8; 64],
    pub scan_method: u32,
    pub bssid_set: u8,
    pub bssid: [u8; 6],
    pub channel: u8,
    pub listen_interval: u16,
}

/// The settings of one interface: those of an access point or a station.
pub union WifiConfigUnion {
    pub ap: WifiConfigAp,
    pub sta: WifiConfigSta,
}

impl Clone for WifiConfigUnion {
    fn clone(&self) -> (r: Self)
        ensures
            r == *self,
    {
        *self
    }
}

impl Copy for WifiConfigUnion {}

/// A mode with the settings of the matching interface.
#[derive(Clone, Copy)]
pub struct WifiConfig {
    pub mode: u32,
    pub config: WifiConfigUnion,
}

/// A handle to the started WiFi driver.
pub struct EspWifi {
    _private: (),
}

/// The result a stack status code stands for: 0 is success, anything else
/// is that error code.
pub open spec fn status_result(err: i32) -> Result<(), i32> {
    if err == 0 {
        Ok(())
    } else {
        Err(err)
    }
}

/// Turns a status code of the stack into a result: `Ok` for 0, otherwise
/// the code as the error.
pub fn check_status(err: i32) -> (r: Result<(), i32>)
    ensures
        r == status_result(err),
        err == 0 ==> r == Ok::<(), i32>(()),
        err != 0 ==> r == Err::<(), i32>(err),
{
    if err != 0 {
        Err(err)
    } else {
        Ok(())
    }
}

impl EspWifi {
    /// The init record the driver starts the stack with: 4 static and 8
    /// dynamic receive buffers, 4 transmit buffers, no receive aggregation.
    pub fn init_params() -> (p: WifiInitParams)
        ensures
            p == (WifiInitParams {
                static_rx_buf_num: 4,
                dynamic_rx_buf_num: 8,
                tx_buf_num: 4,
                ampdu_rx_enable: 0,
                rx_ampdu_buf_len: 0,
                rx_ampdu_buf_num: 0,
                magic: WIFI_INIT_MAGIC,
            }),
    {
        WifiInitParams {
            static_rx_buf_num: 4,
            dynamic_rx_buf_num: 8,
            tx_buf_num: 4,
            ampdu_rx_enable: 0,
            rx_ampdu_buf_len: 0,
            rx_ampdu_buf_num: 0,
            magic: WIFI_INIT_MAGIC,
        }
    }

    /// The driver handle once the stack answered `err` to its init call: a
    /// handle for 0, the code as the error otherwise.
    pub fn from_init_status(err: i32) -> (r: Result<EspWifi, i32>)
        ensures
            r is Ok <==> err == 0,
            err != 0 ==> r == Err::<EspWifi, i32>(err),
    {
        match check_status(err) {
            Ok(()) => Ok(EspWifi { _private: () }),
            Err(e) => Err(e),
        }
    }
}

/// A status code of the stack means success exactly when it is 0; every
/// other code, positive or negative, is an error carrying that code.
pub proof fn lemma_status_zero_only_success(err: i32)
    ensures
        status_result(err) is Ok <==> err == 0,
        err != 0 ==> status_result(err) == Err::<(), i32>(err),
{
}

} // verus!
