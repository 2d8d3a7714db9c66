//! A typed calling convention between a WebAssembly host and guest.
//!
//! WebAssembly exports natively accept only machine integers and floats.
//! This library defines a wire protocol that lets a host call guest
//! functions with ordinary typed values (integers, booleans, characters,
//! strings, byte and integer vectors, tuples and fallible results), and
//! proves the protocol's encoding and decoding halves against each other.
//!
//! Values travel through the guest's linear memory: the host stages each
//! argument as little-endian bytes behind a pointer table, the generated
//! guest shim decodes them, runs the wrapped function, and encodes the
//! results as a table of tagged triples behind a nine-byte header that
//! either the shim's return value or the `return_result` / `return_error`
//! host imports hand back to the caller.

pub mod tag;
pub mod bits;
pub mod param;
pub mod decode;
pub mod layout;
pub mod memory;
pub mod runtime;
pub mod shim;
pub mod signature;
