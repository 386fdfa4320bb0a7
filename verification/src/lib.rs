use vstd::prelude::*;

pub mod borrow;
pub mod byte_stream;
pub mod codecs;
pub mod fib;
pub mod framing;
pub mod graph;
pub mod intrusive;
pub mod lifetimes;
pub mod list_hash;
pub mod procs;
pub mod proto;
pub mod queue;
pub mod refderef;
pub mod timer;
pub mod typemap;
