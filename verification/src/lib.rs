//! The verified core of a native Metal 4 runtime.
//!
//! A driver owns the Metal objects and performs the device calls. This library decides: which
//! object is created next and what its failure means ([`context`]), what is encoded for a launch
//! and when a batch is committed ([`stream`]), which bytes a resource covers ([`storage`]), which
//! writes are admitted and which streams a read waits for ([`server`]), and what a device
//! advertises ([`runtime`]). Beside it stand the quantization schemes of the kernels ([`scheme`],
//! [`block`], [`codebook`]) and the configuration of autotuning ([`autotune`]).

pub mod arith;
pub mod autotune;
pub mod block;
pub mod buffer;
pub mod bytes;
pub mod codebook;
pub mod context;
pub mod device;
pub mod error;
pub mod fmt;
pub mod lane;
pub mod runtime;
pub mod scheme;
pub mod server;
pub mod storage;
pub mod stream;
pub mod text;
pub mod timing;

pub use buffer::Buffer;
pub use context::{Batch, Metal4};
pub use device::{DeviceId, Metal4Device, METAL4_MAX_BINDINGS};
pub use runtime::Metal4Runtime;
pub use server::Metal4Server;
pub use storage::{Metal4Resource, Metal4Storage};
pub use stream::{BindingsResource, Metal4Stream, ScheduleTask};
