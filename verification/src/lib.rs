//! Lowering of Rust types and functions to JVM classes.

pub mod abi;
pub mod abi_laws;
pub mod bridges;
pub mod carrier;
pub mod carrier_run;
pub mod chunks;
pub mod class_file_laws;
pub mod class_files;
pub mod class_methods;
pub mod class_names;
pub mod classes;
pub mod code;
pub mod codec;
pub mod codec_decoding;
pub mod codec_encoding;
pub mod codec_laws;
pub mod codec_trip;
pub mod comparing_laws;
pub mod comparison_laws;
pub mod comparisons;
pub mod components;
pub mod constant_pool;
pub mod coroutine_codec;
pub mod coroutine_laws;
pub mod coroutine_trip;
pub mod cost_laws;
pub mod definition_laws;
pub mod definitions;
pub mod descriptor;
pub mod drop_glue;
pub mod drop_laws;
pub mod drop_order;
pub mod enum_class;
pub mod enum_class_laws;
pub mod enum_codec;
pub mod enum_codec_laws;
pub mod enum_laws;
pub mod enum_trip;
pub mod equality_meaning;
pub mod error;
pub mod execution;
pub mod flow;
pub mod flow_laws;
pub mod graph;
pub mod helper_calls;
pub mod interface_files;
pub mod jvm_ops;
pub mod layout;
pub mod layout_laws;
pub mod liveness;
pub mod load;
pub mod lowering;
pub mod lowering_laws;
pub mod method_laws;
pub mod name_map;
pub mod names;
pub mod naming_laws;
pub mod numbering;
pub mod object_laws;
pub mod oomir;
pub mod outline;
pub mod outline_laws;
pub mod outline_run;
pub mod platform;
pub mod pointer_codec;
pub mod pointer_trip;
pub mod round_trip;
pub mod rust_type;
pub mod scalar;
pub mod scalar_trip;
pub mod storage_laws;
pub mod store;
pub mod text;
pub mod text_meaning;
pub mod transmute;
pub mod transmute_laws;
pub mod type_laws;
pub mod type_name_laws;
pub mod type_names;
pub mod union_class;
pub mod union_laws;
pub mod union_storage;
pub mod union_trip;
pub mod value_bytes;
pub mod value_trip;
pub mod view_classes;
pub mod view_flow;
pub mod view_laws;
pub mod view_meaning;
pub mod wide_tag_trip;
pub mod wide_trip;
pub mod zero_sized_laws;
