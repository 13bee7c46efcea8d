//! Verified core of a protobuf toolkit.

#![allow(unused_imports)]

use vstd::prelude::*;

pub mod code_writer;
pub mod descriptor;
pub mod enums;
pub mod extensions;
pub mod ident;
pub mod index;
pub mod model;
pub mod name;
pub mod protobuf_path;
pub mod protoc;
pub mod rt;
pub mod str_map;
pub mod type_resolver;

verus! {

} // verus!
