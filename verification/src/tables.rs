//! The reference table: the single, coprocessor-visible directory of the
//! cross-core addresses of every per-subsystem shared table. It is written
//! exactly once, at initialization, before the coprocessor is released;
//! thereafter it is read-only. The transport models a cross-core address as
//! a plain 32-bit value; placing the directory at its build-time-fixed
//! address, the memory barrier and the doorbell arming belong to the
//! platform layer around the library.

use vstd::prelude::*;

verus! {

/// The directory of per-subsystem table addresses, in the fixed layout the
/// coprocessor firmware polls at boot.
#[derive(Clone, Copy)]
pub struct RefTable {
    pub device_info_table: u32,
    pub ble_table: u32,
    pub thread_table: u32,
    pub sys_table: u32,
    pub mem_manager_table: u32,
    pub traces_table: u32,
    pub mac_802_15_4_table: u32,
}

impl RefTable {
    /// Assembles the directory from the addresses of the subsystem tables.
    pub fn new(
        device_info_table: u32,
        ble_table: u32,
        thread_table: u32,
        sys_table: u32,
        mem_manager_table: u32,
        traces_table: u32,
        mac_802_15_4_table: u32,
    ) -> (r: RefTable)
        ensures
            r.device_info_table == device_info_table,
            r.ble_table == ble_table,
            r.thread_table == thread_table,
            r.sys_table == sys_table,
            r.mem_manager_table == mem_manager_table,
            r.traces_table == traces_table,
            r.mac_802_15_4_table == mac_802_15_4_table,
    {
        RefTable {
            device_info_table,
            ble_table,
            thread_table,
            sys_table,
            mem_manager_table,
            traces_table,
            mac_802_15_4_table,
        }
    }
}

} // verus!
