//! PCI configuration-space helpers: the command register, 16-bit reads out
//! of 32-bit configuration dwords, and base address registers.
use vstd::prelude::*;

verus! {

/// Command register bit: respond to I/O space accesses.
pub const IO_ENABLE: u16 = 1;

/// Command register bit: respond to memory space accesses.
pub const MEMORY_ENABLE: u16 = 2;

/// Command register bit: allow the function to master the bus (DMA).
pub const BUS_MASTER_ENABLE: u16 = 4;

/// The command register after I/O, memory and bus-master access are enabled.
pub open spec fn enabled_command(cmd: u16) -> u16 {
    cmd | 7u16
}

/// Sets the I/O, memory and bus-master enable bits of a command register
/// value and keeps every other bit.
pub fn enable_command(cmd: u16) -> (r: u16)
    ensures
        r == enabled_command(cmd),
        r & IO_ENABLE == IO_ENABLE,
        r & MEMORY_ENABLE == MEMORY_ENABLE,
        r & BUS_MASTER_ENABLE == BUS_MASTER_ENABLE,
        r & !7u16 == cmd & !7u16,
{
    let r = cmd | IO_ENABLE | MEMORY_ENABLE | BUS_MASTER_ENABLE;
    assert(r == cmd | 7u16 && (cmd | 7u16) & 1u16 == 1u16 && (cmd | 7u16) & 2u16 == 2u16
        && (cmd | 7u16) & 4u16 == 4u16 && (cmd | 7u16) & !7u16 == cmd & !7u16) by (bit_vector)
        requires
            r == cmd | 1u16 | 2u16 | 4u16,
    ;
    r
}

/// Byte offset of the configuration dword that holds the byte at `offset`.
pub fn config_dword_offset(offset: u16) -> (r: u16)
    ensures
        r == offset - offset % 4,
        r % 4 == 0,
        r <= offset,
{
    offset - offset % 4
}

/// The 16-bit configuration word at byte `offset`, taken from the
/// little-endian dword that holds it: the low half for offsets 0 and 1
/// within the dword, the high half for offsets 2 and 3.
pub open spec fn config_word_spec(dword: u32, offset: u16) -> u16 {
    if offset % 4 < 2 {
        (dword % 0x10000) as u16
    } else {
        (dword / 0x10000) as u16
    }
}

/// Extracts the 16-bit word at byte `offset` from the dword read at
/// `config_dword_offset(offset)`.
pub fn config_word(dword: u32, offset: u16) -> (r: u16)
    ensures
        r == config_word_spec(dword, offset),
{
    if offset % 4 < 2 {
        (dword % 0x10000) as u16
    } else {
        (dword / 0x10000) as u16
    }
}

/// A base address register as the configuration space describes it.
#[derive(Clone, Copy, Debug, PartialEq, Eq, Structural)]
#[allow(inconsistent_fields)]
pub enum Bar {
    Memory32 { address: u32, size: u32, prefetchable: bool },
    Memory64 { address: u64, size: u64, prefetchable: bool },
    Io { port: u32 },
}

/// Physical base address of a memory-mapped BAR.
pub open spec fn bar_address_spec(bar: Bar) -> u64 {
    match bar {
        Bar::Memory32 { address, .. } => address as u64,
        Bar::Memory64 { address, .. } => address,
        Bar::Io { .. } => 0,
    }
}

/// Resolves the physical base address of a memory-mapped BAR. An I/O-space
/// BAR cannot be mapped: callers must fail before asking for it.
pub fn bar_address(bar: &Bar) -> (r: u64)
    requires
        !(*bar is Io),
    ensures
        r == bar_address_spec(*bar),
{
    match bar {
        Bar::Memory32 { address, .. } => *address as u64,
        Bar::Memory64 { address, .. } => *address,
        Bar::Io { .. } => 0,
    }
}

} // verus!
