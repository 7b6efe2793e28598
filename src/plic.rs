//! Register addresses of the platform-level interrupt controller, per hart,
//! and the reading of its claim register.
#![allow(non_snake_case)]

use vstd::prelude::*;

verus! {

/// Base of the controller's registers.
pub const PLIC_BASE: usize = 0x0c00_0000;
/// Interrupt priorities, one word per source.
pub const PLIC_PRIORITY: usize = PLIC_BASE;
/// Pending bits.
pub const PLIC_PENDING: usize = PLIC_BASE + 0x1000;
/// Harts whose registers fit the address space below.
pub const MAX_HARTS: usize = 0x1000;

/// Machine-mode enable bits of `hart_id`.
pub fn PLIC_MENABLE(hart_id: usize) -> (r: usize)
    requires
        hart_id < MAX_HARTS,
    ensures
        r == PLIC_BASE + 0x2000 + hart_id * 0x100,
{
    PLIC_BASE + 0x2000 + hart_id * 0x100
}

/// Supervisor-mode enable bits of `hart_id`.
pub fn PLIC_SENABLE(hart_id: usize) -> (r: usize)
    requires
        hart_id < MAX_HARTS,
    ensures
        r == PLIC_BASE + 0x2080 + hart_id * 0x100,
{
    PLIC_BASE + 0x2080 + hart_id * 0x100
}

/// Machine-mode priority threshold of `hart_id`.
pub fn PLIC_MPRIORITY(hart_id: usize) -> (r: usize)
    requires
        hart_id < MAX_HARTS,
    ensures
        r == PLIC_BASE + 0x20_0000 + hart_id * 0x2000,
{
    PLIC_BASE + 0x20_0000 + hart_id * 0x2000
}

/// Supervisor-mode priority threshold of `hart_id`.
pub fn PLIC_SPRIORITY(hart_id: usize) -> (r: usize)
    requires
        hart_id < MAX_HARTS,
    ensures
        r == PLIC_BASE + 0x20_1000 + hart_id * 0x2000,
{
    PLIC_BASE + 0x20_1000 + hart_id * 0x2000
}

/// Machine-mode claim and complete register of `hart_id`.
pub fn PLIC_MCLAIM(hart_id: usize) -> (r: usize)
    requires
        hart_id < MAX_HARTS,
    ensures
        r == PLIC_BASE + 0x20_0004 + hart_id * 0x2000,
{
    PLIC_BASE + 0x20_0004 + hart_id * 0x2000
}

/// Supervisor-mode claim and complete register of `hart_id`.
pub fn PLIC_SCLAIM(hart_id: usize) -> (r: usize)
    requires
        hart_id < MAX_HARTS,
    ensures
        r == PLIC_BASE + 0x20_1004 + hart_id * 0x2000,
{
    PLIC_BASE + 0x20_1004 + hart_id * 0x2000
}

/// Address of the priority word of interrupt source `irq`.
pub fn priority_addr(irq: u32) -> (r: usize)
    requires
        irq < 1024,
    ensures
        r == PLIC_PRIORITY + irq * 4,
{
    PLIC_PRIORITY + (irq as usize) * 4
}

/// The interrupt a read of the claim register reports: 0 means none.
pub fn claimed(raw: u32) -> (r: Option<u32>)
    ensures
        raw == 0 ==> r is None,
        raw != 0 ==> r == Some(raw),
{
    if raw == 0 {
        None
    } else {
        Some(raw)
    }
}

} // verus!
