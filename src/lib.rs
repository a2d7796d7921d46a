//! Buffer bookkeeping for a streaming video device whose buffers are
//! exported as shareable handles.
//!
//! The device is driven through control requests. This library decides
//! which request comes next and what each reply means; the caller performs
//! the requests and feeds the replies back.
pub mod control;
pub mod arena;
pub mod stream;
