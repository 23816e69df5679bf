//! Four-level page tables: address decomposition, the entry codec, the table
//! container, and the engine that installs and resolves 4 KiB mappings.

pub mod addr;
pub mod allocator;
pub mod entry;
pub mod flags;
pub mod interrupts;
pub mod laws;
pub mod machine;
pub mod mapper;
pub mod page_table;
pub mod table;
pub mod tree;
