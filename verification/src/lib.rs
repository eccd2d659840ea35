//! Verified core of a small UEFI kernel: calendar and RTC decoding, timer
//! arithmetic, the kernel log ring, the warning/error result type, memory
//! ranges, APIC command encoding, framebuffer geometry and build metadata.

pub mod apic;
pub mod boot;
pub mod calendar;
pub mod clock;
pub mod cpu_flags;
pub mod gop;
pub mod logger;
pub mod range;
pub mod result;
pub mod text;
pub mod rtc;
pub mod timer;
pub mod tsc;
pub mod version;
