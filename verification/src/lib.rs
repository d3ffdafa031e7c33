//! Solidity tight-packing encoder (`abi.encodePacked` semantics) with its
//! supporting codecs — EIP-55 checksum addresses, two's-complement bounded
//! integers, hex data handling — together with the data types and message
//! marshalling of the surrounding Ethereum wrapper module.

pub mod abi_codec;
pub mod address;
pub mod amount;
pub mod errors;
pub mod hashing;
pub mod hex_data;
pub mod msgpack;
pub mod numeric;
pub mod pack;
pub mod pad;
pub mod serialization;
pub mod type_parser;
pub mod wrap_types;
pub mod wrapped;
