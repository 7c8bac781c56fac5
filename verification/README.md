# usbd-serial

A USB CDC-ACM serial port with built-in buffering that implements stream-like behavior, verified
with Verus.

* `src/` is the port itself: the buffers, what goes into each packet, when a packet is taken from
  the host, and the split into a reader and a writer handle. It moves no packets. The functions
  that need a transfer take it as a function argument and say in their contracts what they hand
  to it and what follows from what it returns.
* `src/laws.rs` states what holds over any number of operations: that bytes are neither lost,
  repeated nor reordered, that a short packet is forced after a run of full ones, that a
  transaction is closed before the port is idle, and that the two handles of a split port do not
  interfere.
* `app/` puts the port on a bus of `usb-device` and implements the traits of `usb-device` and
  `embedded-hal`. The CDC-ACM class driver is supplied by its user.
* `tests/` runs the port against simulated transfers.
