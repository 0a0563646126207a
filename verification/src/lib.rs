//! Userspace block devices served over the kernel's ublk command ring.
//!
//! The library holds what such a device decides: how it is shaped at
//! creation ([`descriptor`]), what each tag's task submits and when
//! ([`task`], [`reactor`]), what a target answers to a request ([`target`],
//! [`null`], [`loopdev`], [`zoned`]) and in which order the steps of a
//! device's life are taken ([`lifecycle`]). It performs no I/O: whoever runs
//! the device puts the commands on the ring, hands the completions back and
//! does the work on the backing store that a target asks for.

pub mod args;
pub mod descriptor;
pub mod lifecycle;
pub mod loopdev;
pub mod null;
pub mod protocol;
pub mod reactor;
pub mod target;
pub mod task;
pub mod zoned;
