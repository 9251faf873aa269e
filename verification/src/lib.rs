//! Utilities for pull-based text processing: a streaming UTF-8 decoder with a
//! line reader layered on top, fixed-width binary integer readers, helpers for
//! collecting element sequences, a value-piping helper, and a dense
//! two-dimensional array container.

pub mod byte_readers;
pub mod collect_vec;
pub mod pipe;
pub mod string_stream;
pub mod vec2d;
