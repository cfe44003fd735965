# esp8266_wifi

Support layer that lets Espressif's closed-source ESP8266 WiFi libraries run
on bare-metal Rust, split in two:

* `src/` — the library, verified with Verus:
  * `heap` — block bookkeeping of the compatibility heap (`malloc`, `free`,
    `calloc`, `zalloc`, `realloc`, queue storage) over
    `linked_list_allocator::Heap`;
  * `cstr` — `strncmp` and `strncpy`;
  * `timing` — cycle-counter arithmetic and busy-wait decisions;
  * `gpio` — which GPIO registers `gpio_output_set` writes;
  * `rng` — filling a buffer from hardware random readings;
  * `phy` — the receive ring between the radio interrupt and the network
    stack, and the device's transmit buffers;
  * `wifi` — the driver handle, its init record and status codes.
* `app/` — the C ABI exported to the libraries, the calls into them, the
  statics guarded by `critical-section`, and the `smoltcp` device.
