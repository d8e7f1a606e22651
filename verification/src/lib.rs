//! Firmware-table discovery and hardware-topology enumeration.
//!
//! The crate models the ACPI-style system description tables that firmware
//! leaves in memory: the common fixed-size table header with its checksum,
//! the root table whose body is an array of physical table pointers, and the
//! Multiple APIC Description Table (MADT) whose body is a stream of
//! variable-length interrupt-controller records.  All tables are read-only
//! views over a caller-provided byte region; nothing here copies or mutates
//! the underlying memory.  Beside the tables stand the small typed building
//! blocks of the surrounding kernel: system-call status and request codes,
//! inter-process messages, and the boot-time memory-map classifier.

pub mod ic;
pub mod madt;
pub mod mem;
pub mod msg;
pub mod syscall;
pub mod tables;
