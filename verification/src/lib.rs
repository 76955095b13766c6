pub mod span;
pub mod text;
pub mod diagnostics;
pub mod parser;
pub mod typeck;
pub mod pretty;
pub mod monomorphize;
pub mod sync;
pub mod server;
pub mod toolchain;
pub mod reflection;
pub mod rust_ffi;
pub mod stages;
pub mod prelude;
