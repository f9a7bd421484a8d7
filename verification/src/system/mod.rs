//! Disks and volumes of the machine.
pub mod storage;
