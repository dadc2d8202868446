# cubecl-metal4

The verified core of a native Metal 4 runtime, written in Verus, with a thin driver around it.

- `src/` is the library. It decides what a device context, its batches, streams, storage and server
  do, and holds the quantization schemes of the kernels. Every function states what it returns or
  changes, and laws that span several functions stand beside them as proof functions.
- `app/` is ordinary Rust: the Metal objects, the serialized forms of the configuration types, and
  the traits of the compute framework. The device side builds on Apple platforms only.
- `tests/` runs the library on concrete values, with a host in place of the device.

The library makes a few calls whose results it does not prove: `bytemuck::cast_slice` and
`u64::from_ne_bytes` in `src/bytes.rs`, and `write_str` and `debug_struct` of the standard library's
formatters in `src/fmt.rs`.
