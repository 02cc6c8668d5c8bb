//! How values that the runtime takes apart are written into storage and read from it.
use crate::code::{
    CodeModel, DefinitionsModel, args3, args4, args5, args7, byte_array, emit, fresh, i32_value,
    makes_array, object_array, params5, params7, reads_field, typed2,
};
use crate::codec::{UNION_BYTES_FIELD, UNION_OBJECTS_FIELD};
use crate::enum_codec::enum_codec;
use crate::load::{loaded, loaded_adt, loaded_thin};
use crate::lowering::type_defined;
use crate::oomir::{ConstantModel, InstructionModel, Operand, OperandModel, Text, Type};
use crate::pointer_codec::{fat_codec, view_codec};
use crate::rust_type::{Adt, RustType, is_scalar, lowered, objects_size, size_of};
use crate::store::{stored, stored_adt, stored_thin};
use crate::union_storage::{
    UnionStorageModel, byte_position, copied_storage, makes_objects, small_number, storage_at_start,
};
use vstd::prelude::*;
use vstd::string::*;

verus! {

/// Whether a storage starts at a fixed place, and a value some bytes behind it still lies within
/// the numbers of the JVM.
pub open spec fn starts_at(storage: UnionStorageModel, base: i32, offset: usize) -> bool {
    &&& storage.base_offset == Operand::Constant(ConstantModel::I32(base))
    &&& base >= 0
    &&& base + offset <= i32::MAX
}

/// A variable that holds bytes.
pub open spec fn bytes_in(name: Text) -> OperandModel {
    Operand::Variable { name, ty: Type::Array(Box::new(Type::I8)) }
}

/// A variable that holds the objects beside bytes.
pub open spec fn objects_in(name: Text) -> OperandModel {
    Operand::Variable {
        name,
        ty: Type::Array(Box::new(Type::Class("java/lang/Object"@))),
    }
}

/// A number as an operand.
pub open spec fn number(n: int) -> OperandModel {
    Operand::Constant(ConstantModel::I32(n as i32))
}

/// The text of a codec as an operand; the absent text where there is none.
pub open spec fn codec_text(codec: Option<Text>) -> OperandModel {
    match codec {
        Some(text) => Operand::Constant(ConstantModel::String(text)),
        None => Operand::Constant(ConstantModel::Null(Type::Class("java/lang/String"@))),
    }
}

/// Whether an instruction calls a static method of the runtime without a result.
pub open spec fn calls_runtime(
    instruction: InstructionModel,
    name: Text,
    args: Seq<OperandModel>,
) -> bool {
    &&& instruction matches InstructionModel::InvokeStatic {
        dest,
        class_name,
        method_name,
        method_ty,
        args: given,
    }
    &&& dest is None
    &&& class_name == "org/rustlang/runtime/Pointer"@
    &&& method_name == name
    &&& method_ty.is_static
    &&& method_ty.ret is Void
    &&& method_ty.params.len() == args.len()
    &&& given == args
}

/// An array is written by the runtime, at its place, with the size and the codec of its elements.
pub proof fn arrays_are_written_by_their_codec(
    ty: RustType,
    source: OperandModel,
    storage: UnionStorageModel,
    base: i32,
    offset: usize,
    code: CodeModel,
    defs: DefinitionsModel,
)
    requires
        ty.kind is Array,
        size_of(ty) is Ok,
        size_of(ty)->Ok_0 > 0,
        size_of(*ty.kind->Array_element) is Ok,
        starts_at(storage, base, offset),
    ensures
        ({
            let element = *ty.kind->Array_element;
            let (after, _, outcome) = stored(ty, source, storage, offset, code, defs);
            let codec = view_codec(element, defs).1;
            &&& outcome == Ok::<(), Text>(())
            &&& after.instructions.len() == code.instructions.len() + 1
            &&& after.instructions.drop_last() == code.instructions
            &&& calls_runtime(
                after.instructions.last(),
                "encodeArrayMemory"@,
                seq![
                    source,
                    bytes_in(storage.bytes_var),
                    number(base + offset),
                    number(size_of(element)->Ok_0 as int),
                    codec_text(codec),
                ],
            )
        }),
{
    reveal_with_fuel(stored, 2);
    reveal_with_fuel(stored_thin, 2);
    reveal_with_fuel(fat_codec, 2);
    reveal(byte_position);
    reveal(params5);
    reveal(args5);
    let element = *ty.kind->Array_element;
    let (after, _, outcome) = stored(ty, source, storage, offset, code, defs);
    assert(after.instructions.drop_last() =~= code.instructions);
    let given = after.instructions.last()->InvokeStatic_args;
    assert(given =~= seq![
        source,
        bytes_in(storage.bytes_var),
        number(base + offset),
        number(size_of(element)->Ok_0 as int),
        codec_text(view_codec(element, defs).1),
    ]);
}

/// An array is read by the runtime into a new one of its length, from its place, with the size and
/// the codec of its elements.
pub proof fn arrays_are_read_by_their_codec(
    ty: RustType,
    storage: UnionStorageModel,
    base: i32,
    offset: usize,
    code: CodeModel,
    defs: DefinitionsModel,
)
    requires
        ty.kind is Array,
        size_of(ty) is Ok,
        size_of(ty)->Ok_0 > 0,
        size_of(*ty.kind->Array_element) is Ok,
        ty.kind->Array_length is Some,
        ty.kind->Array_length->0 <= i32::MAX,
        starts_at(storage, base, offset),
    ensures
        ({
            let element = *ty.kind->Array_element;
            let (after, _, outcome) = loaded(ty, storage, offset, code, defs);
            let codec = view_codec(element, type_defined(element, defs)).1;
            let n = code.instructions.len() as int;
            &&& outcome matches Ok(Operand::Variable { name, ty: array_ty })
            &&& array_ty == Type::Array(Box::new(lowered(element)))
            &&& after.instructions.len() == n + 2
            &&& after.instructions.take(n) == code.instructions
            &&& after.instructions[n] == (InstructionModel::NewArray {
                dest: name,
                element_type: lowered(element),
                size: number(ty.kind->Array_length->0 as int),
            })
            &&& calls_runtime(
                after.instructions[n + 1],
                "decodeArrayMemory"@,
                seq![
                    bytes_in(storage.bytes_var),
                    number(base + offset),
                    Operand::Variable { name, ty: array_ty },
                    number(size_of(element)->Ok_0 as int),
                    codec_text(codec),
                ],
            )
        }),
{
    reveal_with_fuel(loaded, 2);
    reveal_with_fuel(loaded_thin, 2);
    reveal_with_fuel(fat_codec, 2);
    reveal(byte_position);
    reveal(params5);
    reveal(args5);
    let element = *ty.kind->Array_element;
    let (after, _, outcome) = loaded(ty, storage, offset, code, defs);
    let n = code.instructions.len() as int;
    assert(after.instructions.take(n) =~= code.instructions);
    let given = after.instructions[n + 1]->InvokeStatic_args;
    assert(given =~= seq![
        bytes_in(storage.bytes_var),
        number(base + offset),
        outcome->Ok_0,
        number(size_of(element)->Ok_0 as int),
        codec_text(view_codec(element, type_defined(element, defs)).1),
    ]);
}

/// A fat pointer is written by the runtime, at its place, with its size and its codec.
pub proof fn fat_pointers_are_written_by_their_codec(
    ty: RustType,
    source: OperandModel,
    storage: UnionStorageModel,
    base: i32,
    offset: usize,
    code: CodeModel,
    defs: DefinitionsModel,
)
    requires
        size_of(ty) is Ok,
        0 < size_of(ty)->Ok_0 <= i32::MAX,
        !is_scalar(ty),
        fat_codec(ty, defs).1 is Some,
        starts_at(storage, base, offset),
    ensures
        ({
            let (after, _, outcome) = stored(ty, source, storage, offset, code, defs);
            &&& outcome == Ok::<(), Text>(())
            &&& after.instructions.len() == code.instructions.len() + 1
            &&& after.instructions.drop_last() == code.instructions
            &&& calls_runtime(
                after.instructions.last(),
                "encodeFatPointerMemory"@,
                seq![
                    source,
                    bytes_in(storage.bytes_var),
                    number(base + offset),
                    number(size_of(ty)->Ok_0 as int),
                    codec_text(fat_codec(ty, defs).1),
                ],
            )
        }),
{
    reveal_with_fuel(stored, 2);
    reveal(byte_position);
    reveal(params5);
    reveal(args5);
    let (after, _, outcome) = stored(ty, source, storage, offset, code, defs);
    assert(after.instructions.drop_last() =~= code.instructions);
    let given = after.instructions.last()->InvokeStatic_args;
    assert(given =~= seq![
        source,
        bytes_in(storage.bytes_var),
        number(base + offset),
        number(size_of(ty)->Ok_0 as int),
        codec_text(fat_codec(ty, defs).1),
    ]);
}

/// A fat pointer is read by the runtime from its place, with its size and its codec, and given the
/// type of the pointer.
pub proof fn fat_pointers_are_read_by_their_codec(
    ty: RustType,
    storage: UnionStorageModel,
    base: i32,
    offset: usize,
    code: CodeModel,
    defs: DefinitionsModel,
)
    requires
        size_of(ty) is Ok,
        0 < size_of(ty)->Ok_0 <= i32::MAX,
        !is_scalar(ty),
        fat_codec(ty, defs).1 is Some,
        starts_at(storage, base, offset),
    ensures
        ({
            let (after, _, outcome) = loaded(ty, storage, offset, code, defs);
            let n = code.instructions.len() as int;
            &&& outcome matches Ok(Operand::Variable { name, ty: result_ty })
            &&& result_ty == lowered(ty)
            &&& after.instructions.len() == n + 2
            &&& after.instructions.take(n) == code.instructions
            &&& after.instructions[n] matches InstructionModel::InvokeStatic {
                dest,
                class_name,
                method_name,
                method_ty,
                args,
            }
            &&& dest matches Some(object)
            &&& class_name == "org/rustlang/runtime/Pointer"@
            &&& method_name == "decodeFatPointerMemory"@
            &&& method_ty.is_static
            &&& args == seq![
                bytes_in(storage.bytes_var),
                number(base + offset),
                number(size_of(ty)->Ok_0 as int),
                codec_text(fat_codec(ty, defs).1),
            ]
            &&& after.instructions[n + 1] == (InstructionModel::Cast {
                op: Operand::Variable { name: object, ty: method_ty.ret },
                ty: lowered(ty),
                dest: name,
            })
        }),
{
    reveal_with_fuel(loaded, 2);
    reveal(byte_position);
    reveal(args4);
    let (after, _, outcome) = loaded(ty, storage, offset, code, defs);
    let n = code.instructions.len() as int;
    assert(after.instructions.take(n) =~= code.instructions);
    let given = after.instructions[n]->InvokeStatic_args;
    assert(given =~= seq![
        bytes_in(storage.bytes_var),
        number(base + offset),
        number(size_of(ty)->Ok_0 as int),
        codec_text(fat_codec(ty, defs).1),
    ]);
}

/// Copying between storages names the source, its place, the target, its place and the number of
/// bytes, in this order.
pub proof fn copies_go_from_source_to_target(
    source: UnionStorageModel,
    source_base: i32,
    source_offset: usize,
    target: UnionStorageModel,
    target_base: i32,
    target_offset: usize,
    size: usize,
    code: CodeModel,
)
    requires
        starts_at(source, source_base, source_offset),
        starts_at(target, target_base, target_offset),
        size <= i32::MAX,
    ensures
        ({
            let after = copied_storage(source, source_offset, target, target_offset, size, code);
            &&& after.temps == code.temps
            &&& after.instructions.len() == code.instructions.len() + 1
            &&& after.instructions.drop_last() == code.instructions
            &&& calls_runtime(
                after.instructions.last(),
                "copyUnionStorage"@,
                seq![
                    bytes_in(source.bytes_var),
                    objects_in(source.objects_var),
                    number(source_base + source_offset),
                    bytes_in(target.bytes_var),
                    objects_in(target.objects_var),
                    number(target_base + target_offset),
                    number(size as int),
                ],
            )
        }),
{
    reveal(copied_storage);
    reveal(byte_position);
    reveal(params7);
    reveal(args7);
    let after = copied_storage(source, source_offset, target, target_offset, size, code);
    assert(after.instructions.drop_last() =~= code.instructions);
    let given = after.instructions.last()->InvokeStatic_args;
    assert(given =~= seq![
        bytes_in(source.bytes_var),
        objects_in(source.objects_var),
        number(source_base + source_offset),
        bytes_in(target.bytes_var),
        objects_in(target.objects_var),
        number(target_base + target_offset),
        number(size as int),
    ]);
}

/// A union inside a value is written by copying all of its bytes and objects, from its start to its
/// place.
pub proof fn unions_are_written_whole(
    ty: RustType,
    adt: Adt,
    name: Text,
    size: usize,
    source: OperandModel,
    storage: UnionStorageModel,
    base: i32,
    offset: usize,
    code: CodeModel,
    defs: DefinitionsModel,
)
    requires
        adt.shape is Union,
        lowered(ty) == Type::Class(name),
        size <= i32::MAX,
        starts_at(storage, base, offset),
    ensures
        ({
            let (after, after_defs, outcome) = stored_adt(
                ty,
                adt,
                size,
                source,
                storage,
                offset,
                code,
                defs,
            );
            let n = code.instructions.len() as int;
            &&& outcome == Ok::<(), Text>(())
            &&& after_defs == defs
            &&& after.instructions.len() == n + 3
            &&& after.instructions.take(n) == code.instructions
            &&& after.instructions[n] matches InstructionModel::GetField {
                dest: bytes,
                object: first_object,
                field_name: first_field,
                owner_class: first_owner,
                ..
            }
            &&& after.instructions[n + 1] matches InstructionModel::GetField {
                dest: objects,
                object: second_object,
                field_name: second_field,
                owner_class: second_owner,
                ..
            }
            &&& first_object == source && second_object == source
            &&& first_owner == name && second_owner == name
            &&& first_field == "_bytes"@ && second_field == "_objects"@
            &&& calls_runtime(
                after.instructions[n + 2],
                "copyUnionStorage"@,
                seq![
                    bytes_in(bytes),
                    objects_in(objects),
                    number(0),
                    bytes_in(storage.bytes_var),
                    objects_in(storage.objects_var),
                    number(base + offset),
                    number(size as int),
                ],
            )
        }),
{
    reveal_with_fuel(stored_adt, 2);
    let (after, _, outcome) = stored_adt(ty, adt, size, source, storage, offset, code, defs);
    let n = code.instructions.len() as int;
    let (code1, bytes) = fresh(code, "nested_union_bytes"@);
    let (code2, objects) = fresh(code1, "nested_union_objects"@);
    let code3 = emit(
        code2,
        reads_field(bytes, source, UNION_BYTES_FIELD@, byte_array(), name),
    );
    let code4 = emit(
        code3,
        reads_field(objects, source, UNION_OBJECTS_FIELD@, object_array(), name),
    );
    let start = storage_at_start(bytes, objects);
    copies_go_from_source_to_target(start, 0, 0, storage, base, offset, size, code4);
    assert(after == copied_storage(start, 0, storage, offset, size, code4));
    assert(after.instructions.drop_last()[n] == after.instructions[n]);
    assert(after.instructions.drop_last()[n + 1] == after.instructions[n + 1]);
    assert(after.instructions.take(n) =~= code.instructions) by {
        assert forall|i: int| 0 <= i < n implies after.instructions[i] == code.instructions[i] by {
            assert(after.instructions.drop_last()[i] == after.instructions[i]);
        }
    }
}

/// A union inside a value is read by copying all of its bytes and objects, from its place to the
/// start of new arrays, and making the union of these.
pub proof fn unions_are_read_whole(
    ty: RustType,
    adt: Adt,
    name: Text,
    size: usize,
    storage: UnionStorageModel,
    base: i32,
    offset: usize,
    code: CodeModel,
    defs: DefinitionsModel,
)
    requires
        adt.shape is Union,
        lowered(ty) == Type::Class(name),
        size <= i32::MAX,
        starts_at(storage, base, offset),
    ensures
        ({
            let (after, after_defs, outcome) = loaded_adt(
                ty,
                adt,
                size,
                storage,
                offset,
                code,
                defs,
            );
            let n = code.instructions.len() as int;
            &&& outcome matches Ok(Operand::Variable { name: result, ty: result_ty })
            &&& result_ty == lowered(ty)
            &&& after_defs == defs
            &&& after.instructions.len() == n + 4
            &&& after.instructions[n] matches InstructionModel::NewArray {
                dest: bytes,
                element_type,
                size: length,
            }
            &&& element_type is I8
            &&& length == number(size as int)
            &&& after.instructions[n + 3] matches InstructionModel::ConstructObject {
                dest,
                class_name,
                args,
            }
            &&& dest == result
            &&& class_name == name
            &&& args.len() == 2
            &&& args[0].0 == bytes_in(bytes)
            &&& args[1].0 matches Operand::Variable { name: objects, .. }
            &&& args[1].0 == objects_in(objects)
            &&& calls_runtime(
                after.instructions[n + 2],
                "copyUnionStorage"@,
                seq![
                    bytes_in(storage.bytes_var),
                    objects_in(storage.objects_var),
                    number(base + offset),
                    bytes_in(bytes),
                    objects_in(objects),
                    number(0),
                    number(size as int),
                ],
            )
            &&& after.instructions[n + 1] == makes_objects(objects, objects_size(ty, size))
        }),
{
    reveal_with_fuel(loaded_adt, 2);
    reveal(typed2);
    let (after, _, outcome) = loaded_adt(ty, adt, size, storage, offset, code, defs);
    let n = code.instructions.len() as int;
    let (code1, bytes) = fresh(code, "nested_union_bytes"@);
    let (code2, objects) = fresh(code1, "nested_union_objects"@);
    let code3 = emit(code2, makes_array(bytes, Type::I8, i32_value(small_number(size))));
    let code4 = emit(code3, makes_objects(objects, objects_size(ty, size)));
    let start = storage_at_start(bytes, objects);
    copies_go_from_source_to_target(storage, base, offset, start, 0, 0, size, code4);
    let copied = copied_storage(storage, offset, start, 0, size, code4);
    assert(copied.instructions.drop_last()[n] == copied.instructions[n]);
    assert(copied.instructions.drop_last()[n + 1] == copied.instructions[n + 1]);
    assert(after.instructions.drop_last() =~= copied.instructions);
    assert(after.instructions[n] == copied.instructions[n]);
    assert(after.instructions[n + 1] == copied.instructions[n + 1]);
    assert(after.instructions[n + 2] == copied.instructions[n + 2]);
}

/// An enum inside a value is written by its own method and read by the static method of its class,
/// both at the same place of the same storage.
pub proof fn enums_are_written_and_read_by_their_class(
    ty: RustType,
    adt: Adt,
    name: Text,
    size: usize,
    source: OperandModel,
    storage: UnionStorageModel,
    base: i32,
    offset: usize,
    code: CodeModel,
    defs: DefinitionsModel,
)
    requires
        adt.shape is Enum,
        lowered(ty) == Type::Class(name),
        starts_at(storage, base, offset),
        enum_codec(ty, adt, name, defs).1 is Ok,
    ensures
        ({
            let (written, _, outcome) = stored_adt(
                ty,
                adt,
                size,
                source,
                storage,
                offset,
                code,
                defs,
            );
            let (read, _, found) = loaded_adt(ty, adt, size, storage, offset, code, defs);
            let given = seq![
                bytes_in(storage.bytes_var),
                objects_in(storage.objects_var),
                number(base + offset),
            ];
            &&& outcome == Ok::<(), Text>(())
            &&& written.instructions.len() == code.instructions.len() + 1
            &&& written.instructions.last() matches InstructionModel::InvokeVirtual {
                dest: None,
                class_name: writer_class,
                method_name: writer,
                args: writer_args,
                operand,
                ..
            }
            &&& writer_class == name
            &&& writer == "_writeUnionStorage"@
            &&& writer_args == given
            &&& operand == source
            &&& read.instructions.len() == code.instructions.len() + 1
            &&& read.instructions.last() matches InstructionModel::InvokeStatic {
                dest: Some(result),
                class_name: reader_class,
                method_name: reader,
                args: reader_args,
                ..
            }
            &&& reader_class == name
            &&& reader == "_readUnionStorage"@
            &&& reader_args == given
            &&& found == Ok::<OperandModel, Text>(
                Operand::Variable { name: result, ty: lowered(ty) },
            )
        }),
{
    reveal_with_fuel(stored_adt, 2);
    reveal_with_fuel(loaded_adt, 2);
    reveal(byte_position);
    reveal(args3);
    let (written, _, outcome) = stored_adt(ty, adt, size, source, storage, offset, code, defs);
    let (read, _, found) = loaded_adt(ty, adt, size, storage, offset, code, defs);
    let given = seq![
        bytes_in(storage.bytes_var),
        objects_in(storage.objects_var),
        number(base + offset),
    ];
    assert(written.instructions.last()->InvokeVirtual_args =~= given);
    assert(read.instructions.last()->InvokeStatic_args =~= given);
}

} // verus!
