use vstd::prelude::*;
use crate::flash_map::PAGE_SIZE;

verus! {

/// Address at which the flash is mapped; placement addresses are given
/// relative to the address space, the device wants them relative to itself.
pub const FLASH_OFFSET: u32 = 0x0800_0000;

/// Number of pages that the storage region must span.
pub const PAGE_COUNT: u32 = 8;

/// The device-relative address range reserved for storage.
#[derive(Debug, Clone, Copy, PartialEq, Eq, Structural)]
pub struct FlashRegion {
    start: u32,
    end: u32,
}

/// Why placement addresses do not describe a usable region.
#[derive(Debug, Clone, Copy, PartialEq, Eq, Structural)]
pub enum RegionError {
    /// The start address lies below the flash base.
    BelowFlashBase,
    /// The end does not lie after the start.
    Empty,
    /// The region is smaller than one page.
    SmallerThanPage,
    /// The size is not a whole number of pages.
    SizeNotPageMultiple,
    /// The start is not on a page boundary.
    StartNotAligned,
    /// The end is not on a page boundary.
    EndNotAligned,
    /// The region spans another number of pages than [`PAGE_COUNT`].
    PageCountMismatch,
}

/// A usable region: page-aligned, non-empty, exactly [`PAGE_COUNT`] pages.
pub open spec fn region_ok(start: u32, end: u32) -> bool {
    &&& start < end
    &&& start % PAGE_SIZE == 0
    &&& end % PAGE_SIZE == 0
    &&& end - start == PAGE_COUNT * PAGE_SIZE
}

/// Which error a misplaced region is reported with: the first check that
/// the placement addresses fail, in the order the checks are made.
pub open spec fn resolve(linker_start: u32, linker_end: u32) -> Result<(u32, u32), RegionError> {
    let start: u32 = if linker_start >= FLASH_OFFSET {
        (linker_start - FLASH_OFFSET) as u32
    } else {
        0
    };
    let end: u32 = if linker_end >= FLASH_OFFSET {
        (linker_end - FLASH_OFFSET) as u32
    } else {
        0
    };
    let size: u32 = if end >= start {
        (end - start) as u32
    } else {
        0
    };
    if linker_start < FLASH_OFFSET {
        Err(RegionError::BelowFlashBase)
    } else if end <= start {
        Err(RegionError::Empty)
    } else if size < PAGE_SIZE {
        Err(RegionError::SmallerThanPage)
    } else if size % PAGE_SIZE != 0 {
        Err(RegionError::SizeNotPageMultiple)
    } else if start % PAGE_SIZE != 0 {
        Err(RegionError::StartNotAligned)
    } else if end % PAGE_SIZE != 0 {
        Err(RegionError::EndNotAligned)
    } else if size / PAGE_SIZE != PAGE_COUNT {
        Err(RegionError::PageCountMismatch)
    } else {
        Ok((start, end))
    }
}

impl FlashRegion {
    /// The region is usable.
    pub closed spec fn wf(&self) -> bool {
        region_ok(self.start, self.end)
    }

    pub closed spec fn spec_start(&self) -> u32 {
        self.start
    }

    pub closed spec fn spec_end(&self) -> u32 {
        self.end
    }

    /// First byte of the region.
    pub fn start(&self) -> (r: u32)
        ensures
            r == self.spec_start(),
    {
        self.start
    }

    /// One past the last byte of the region.
    pub fn end(&self) -> (r: u32)
        ensures
            r == self.spec_end(),
    {
        self.end
    }

    /// What a usable region guarantees about its bounds.
    pub proof fn lemma_bounds(&self)
        requires
            self.wf(),
        ensures
            region_ok(self.spec_start(), self.spec_end()),
    {
    }
}

/// Turns the placement addresses of the reserved storage area into a
/// device-relative region, checking that it is page-aligned and spans exactly
/// [`PAGE_COUNT`] pages.
pub fn flash_range_from_linker(linker_start: u32, linker_end: u32) -> (r: Result<
    FlashRegion,
    RegionError,
>)
    ensures
        r is Ok <==> linker_start >= FLASH_OFFSET && linker_end >= FLASH_OFFSET && region_ok(
            (linker_start - FLASH_OFFSET) as u32,
            (linker_end - FLASH_OFFSET) as u32,
        ),
        r matches Ok(g) ==> g.wf() && g.spec_start() == linker_start - FLASH_OFFSET && g.spec_end()
            == linker_end - FLASH_OFFSET,
        match resolve(linker_start, linker_end) {
            Ok((s, e)) => r matches Ok(g) && g.wf() && g.spec_start() == s && g.spec_end() == e,
            Err(err) => (r is Err && r->Err_0 == err),
        },
{
    let start = linker_start.saturating_sub(FLASH_OFFSET);
    let end = linker_end.saturating_sub(FLASH_OFFSET);
    let size = end.saturating_sub(start);
    if linker_start < FLASH_OFFSET {
        return Err(RegionError::BelowFlashBase);
    }
    if end <= start {
        return Err(RegionError::Empty);
    }
    if size < PAGE_SIZE {
        return Err(RegionError::SmallerThanPage);
    }
    if size % PAGE_SIZE != 0 {
        return Err(RegionError::SizeNotPageMultiple);
    }
    if start % PAGE_SIZE != 0 {
        return Err(RegionError::StartNotAligned);
    }
    if end % PAGE_SIZE != 0 {
        return Err(RegionError::EndNotAligned);
    }
    if size / PAGE_SIZE != PAGE_COUNT {
        return Err(RegionError::PageCountMismatch);
    }
    Ok(FlashRegion { start, end })
}

} // verus!
