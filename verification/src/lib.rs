//! Verified logic of the ESP8266 WiFi support layer: the compatibility heap's
//! block bookkeeping, the C string helpers, clock arithmetic, GPIO register
//! planning, random-buffer filling, the receive queue between the radio
//! interrupt and the network stack, and the driver's status handling.

pub mod cstr;
pub mod gpio;
pub mod heap;
pub mod phy;
pub mod rng;
pub mod timing;
pub mod wifi;
