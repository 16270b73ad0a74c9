//! Raw byte codecs for C-layout ("FFI") structs, including structs whose last
//! field is a flexible array member, whose true size is only known once the
//! header has been read.

pub mod ffi;
pub mod kvm;
pub mod laws;

pub use ffi::{deserialize_ffi, deserialize_ffi_fam, serialize_ffi, serialize_ffi_fam, SizeofFamStruct};
pub use serde_bytes::ByteBuf;
pub use kvm::{KvmMemoryAlias, KvmMsrs};
