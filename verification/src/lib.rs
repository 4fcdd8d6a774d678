//! The bookkeeping of a sampling profiler for one macOS task.
//!
//! A [`task_profiler::TaskProfiler`] follows one process: the threads that are
//! alive in it, the libraries that are loaded into it, and what the recorded
//! profile is told about both. Talking to the kernel is the caller's business;
//! the values that were read come in as arguments, and what has to be read next
//! goes out as an action.
#![allow(unused_imports)]

pub mod debug_frame;
pub mod error;
pub mod file_laws;
pub mod laws;
pub mod library;
pub mod library_laws;
pub mod live_threads;
pub mod loaded_libs;
pub mod mapped_file;
pub mod object_file;
pub mod paths;
pub mod profile;
pub mod recycling;
pub mod round_laws;
pub mod sampling;
pub mod section_bytes;
pub mod task_profiler;
pub mod thread_laws;
pub mod thread_list;
pub mod unwinder;
