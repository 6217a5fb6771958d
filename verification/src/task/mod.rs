mod handle;

pub use handle::settle_result;
