//! The page-table types and operations, gathered under one path.

pub use crate::allocator::{OutOfMemory, PageTablesAllocator, TablePool};
pub use crate::entry::{PageTableEntry, ADDR_MASK};
pub use crate::flags::{PageTableFlags, FLAGS_MASK};
pub use crate::mapper::{
    align_down, align_down_u64, get_physical_address, link_new_table, map_address,
    map_address_impl, map_address_with_offset, remap_address, MapError, MapOutcome, MappingMode,
};
pub use crate::table::{PageTable, ENTRY_COUNT, PAGE_SIZE};
