use vstd::prelude::*;

verus! {

/// Number of task slots in the registry.
pub const MAX_APP_NUM: usize = 16;

/// Number of syscall ids that are counted per task.
pub const MAX_SYSCALL_NUM: usize = 5;

/// Address at which the window of task 0 begins.
pub const APP_BASE_ADDRESS: usize = 0x80400000;

/// Size of the memory window of each task.
pub const APP_SIZE_LIMIT: usize = 0x20000;

} // verus!
