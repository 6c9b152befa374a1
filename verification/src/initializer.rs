//! Checks the machine setup makes on what it loads: the boot ROM's length,
//! its place at the top of the ROM region, and how a remote disk is
//! attached.

use crate::memx::PAGE_SIZE;
use vstd::prelude::*;

verus! {

/// Why the boot ROM cannot be loaded.
#[derive(Debug, PartialEq, Eq, Structural, Clone, Copy)]
pub enum RomError {
    /// The ROM's length (given) is not a whole number of pages.
    NotAligned(u64),
    /// The ROM does not fit in the ROM region.
    TooLong,
    /// Fewer bytes were read than the ROM holds.
    ShortRead,
}

/// The boot ROM is accepted only if it is a whole number of pages long; its
/// length is then its size in memory.
pub fn check_bootrom_len(len: u64) -> (r: Result<usize, RomError>)
    requires
        len <= usize::MAX,
    ensures
        len % PAGE_SIZE == 0 ==> r == Ok::<usize, RomError>(len as usize),
        len % PAGE_SIZE != 0 ==> r == Err::<usize, RomError>(RomError::NotAligned(len)),
{
    if len % PAGE_SIZE != 0 {
        Err(RomError::NotAligned(len))
    } else {
        Ok(len as usize)
    }
}

/// Where in a ROM region of `mapping_len` bytes a ROM of `rom_len` bytes is
/// placed: at its end.
pub fn rom_offset(mapping_len: usize, rom_len: usize) -> (r: Result<usize, RomError>)
    ensures
        mapping_len < rom_len ==> r == Err::<usize, RomError>(RomError::TooLong),
        mapping_len >= rom_len ==> r == Ok::<usize, RomError>((mapping_len - rom_len) as usize),
{
    if mapping_len < rom_len {
        return Err(RomError::TooLong);
    }
    Ok(mapping_len - rom_len)
}

/// A read of the ROM succeeds only if it read the whole ROM.
pub fn check_rom_read(nread: usize, rom_len: usize) -> (r: Result<(), RomError>)
    ensures
        nread == rom_len ==> r == Ok::<(), RomError>(()),
        nread != rom_len ==> r == Err::<(), RomError>(RomError::ShortRead),
{
    if nread != rom_len {
        return Err(RomError::ShortRead);
    }
    Ok(())
}

/// How a remote disk is presented to the guest.
#[derive(Debug, PartialEq, Eq, Structural, Clone, Copy)]
pub enum DiskAttach {
    Virtio,
    Nvme,
}

/// The presentation a disk request names.
pub open spec fn spec_disk_attach(device: Seq<char>) -> Option<DiskAttach> {
    if device == "virtio"@ {
        Some(DiskAttach::Virtio)
    } else if device == "nvme"@ {
        Some(DiskAttach::Nvme)
    } else {
        None
    }
}

/// The presentation of a disk request's device name: `virtio` or `nvme`;
/// any other name is refused.
pub fn disk_attach(device: &str) -> (r: Option<DiskAttach>)
    ensures
        r == spec_disk_attach(device@),
{
    let d = device.to_owned();
    if d == "virtio".to_owned() {
        Some(DiskAttach::Virtio)
    } else if d == "nvme".to_owned() {
        Some(DiskAttach::Nvme)
    } else {
        None
    }
}

} // verus!
