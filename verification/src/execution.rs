//! Running one contract call: classes, call descriptors and results, the shared
//! execution context, and the dispatcher with its syscall bridge.

pub mod call_info;
pub mod contract_class;
pub mod entry_point;
pub mod entry_point_execution;
pub mod syscalls;
