# jvm_lowering

A verified part of a Rust compiler for the JVM: it turns described Rust types into JVM classes,
makes the code that keeps values in the bytes of unions and pointer memory, cuts methods that are
too large for a class file into smaller ones, and builds class files.

- `text`, `name_map`, `oomir`, `code`, `error`: text, maps with a stable order, the intermediate
  representation and code under construction, each with its mathematical model.
- `graph`, `flow`, `liveness`, `components`, `chunks`, `carrier`, `outline`: large methods are cut
  into chunks of whole components, which hand their live variables on in parameters or in a carrier.
- `rust_type`, `layout`, `definitions`, `classes`, `enum_class`, `union_class`, `drop_glue`,
  `lowering`, `abi`: the JVM representation of types and the classes that it needs.
- `union_storage`, `scalar`, `codec`, `store`, `load`, `enum_codec`, `pointer_codec`,
  `coroutine_codec`, `transmute`: values as bytes.
- `names`, `type_names`, `class_names`, `descriptor`: names and descriptors.
- `jvm_ops`, `class_methods`, `bridges`, `comparisons`, `view_classes`, `class_files`,
  `interface_files`, `constant_pool`, `numbering`: class files.
- `platform`: the errors and timeouts of the platform layer.

What the generated code does is stated and proved beside it:

- `outline_run`, `carrier_run`, `outline_laws`: the methods of an outlined function do what the
  function does, whatever its instructions mean. The law asks that the names of the new labels,
  variables and methods are new, that blocks end where they branch, that a handler is served by the
  values at the entry of its block, and that a chunk that takes its variables from a carrier is not
  entered again from inside.
- `execution`, `round_trip`, `scalar_trip`, `value_bytes`, `value_trip`, `enum_trip`,
  `wide_tag_trip`, `union_trip`: what is stored in bytes is loaded again: numbers up to 64 bits,
  floating-point numbers as their bits, aggregates, variants of enums, fields of unions. Of enums
  with a tag of sixteen bytes it is said up to the two methods of the runtime that read and compare
  128-bit numbers.
- `helper_calls`, `codec_encoding`, `codec_decoding`, `codec_trip`: a codec of pointer memory
  decodes what it encodes, through its helper methods.
- `coroutine_trip`: a codec of a coroutine decodes its captures, its state and what the state holds.
- `drop_order`, `comparison_laws`, `equality_meaning`, `enum_laws`, `object_laws`, `view_laws`,
  `view_meaning`, `text_meaning`: drops are done in order, objects are equal if they agree in every
  field, numbers make the variants that they stand for, constructors, copies and bridges hand on
  each field, and views and texts are compared by their elements.

`app/` is the compiler side: it reads types, layouts and identities from the compiler and hands
them to the library as plain values.
