//! A codec of pointer memory decodes what it encoded.
use crate::code::{
    CodeModel, DefinitionsModel, byte_array, class, emit, empty_code, i32_value, makes_array,
    no_methods, params1, params2, plain_function, pointer_to, returns_nothing, returns_value,
    single_block, static_method, typed0, variable,
};
use crate::codec::is_laid_out_struct;
use crate::codec_decoding::{loading_adds_helpers_only, split_aggregate_is_loaded};
use crate::codec_encoding::{calls_needed, split_parts_are_stored};
use crate::execution::{Machine, Value, full_value};
use crate::helper_calls::{Methods, are_there, is_under, method_list, run};
use crate::layout::{SlotModel, SlotNames, slots_of_fields};
use crate::oomir::{DataTypeMethodModel, InstructionModel, OperandModel, Text, Type};
use crate::pointer_codec::{
    codec_methods, split_aggregate_loaded, split_loaded, split_stored, view_bindings,
    whole_loaded, whole_stored,
};
use crate::rust_type::{Field, RustType, TypeKind, lowered, objects_size};
use crate::union_storage::{makes_objects, small_number, storage_at_start};
use crate::union_trip::runs_from_to;
use crate::value_bytes::{
    bytes_of, fits, image, image_of_parts_is_local, image_shows_the_parts, is_plain,
};
use crate::value_trip::{plain_type_is_known, temps_needed};
use vstd::prelude::*;
use vstd::string::*;

verus! {

/// Whether a type is an aggregate with these parts, which stand in the fields of its class.
pub open spec fn is_made_of(
    ty: RustType,
    class_name: Text,
    fields: Seq<Field>,
    slots: Seq<Option<SlotModel>>,
    defs: DefinitionsModel,
) -> bool {
    match ty.kind {
        TypeKind::Tuple { class_name: name, elements } => {
            &&& class_name == name@
            &&& fields == elements@
            &&& slots == slots_of_fields(SlotNames::Elements, class_name, fields, defs)
        },
        TypeKind::Closure { class_name: name, captures, .. } => {
            &&& class_name == name@
            &&& fields == captures@
            &&& slots == slots_of_fields(SlotNames::Captures, class_name, fields, defs)
        },
        TypeKind::Adt(adt) => {
            &&& is_laid_out_struct(adt)
            &&& class_name == adt.class_name@
            &&& fields == adt.variants@[0].fields@
            &&& slots == slots_of_fields(SlotNames::Declared, class_name, fields, defs)
        },
        _ => false,
    }
}

/// The methods of a codec keep the helpers that were made first.
proof fn helpers_stay(
    ty: RustType,
    class_name: Text,
    fields: Seq<Field>,
    slots: Seq<Option<SlotModel>>,
    code: CodeModel,
    defs: DefinitionsModel,
    first: Methods,
    encode: DataTypeMethodModel,
    decode: DataTypeMethodModel,
    bind: DataTypeMethodModel,
)
    requires
        slots.len() == fields.len() <= usize::MAX,
    ensures
        ({
            let storage = storage_at_start("_1"@, "_objects"@);
            let second = first.insert("encode"@, encode);
            let third = split_loaded(
                fields,
                slots,
                storage,
                0,
                ""@,
                ty.codec_class@,
                0,
                code,
                defs,
                second,
                typed0(),
            ).2;
            let all = third.insert("decode"@, decode).insert("bind"@, bind);
            &&& are_there(all, first, "_encode"@, ""@, 0)
            &&& are_there(all, third, "_decode"@, ""@, 0)
            &&& all.contains_key("encode"@)
            &&& all["encode"@] == encode
            &&& all.contains_key("decode"@)
            &&& all["decode"@] == decode
        }),
{
    reveal_strlit("encode");
    reveal_strlit("decode");
    reveal_strlit("bind");
    assert("encode"@[0] == 'e' && "decode"@[0] == 'd' && "bind"@[0] == 'b');
    let storage = storage_at_start("_1"@, "_objects"@);
    let second = first.insert("encode"@, encode);
    let third = split_loaded(
        fields,
        slots,
        storage,
        0,
        ""@,
        ty.codec_class@,
        0,
        code,
        defs,
        second,
        typed0(),
    ).2;
    let all = third.insert("decode"@, decode).insert("bind"@, bind);
    assert forall|number: nat| number >= 0 implies !#[trigger] is_under(
        "encode"@,
        "_decode"@,
        ""@,
        number,
    ) by {
        if is_under("encode"@, "_decode"@, ""@, number) {
            helpers_begin_with_their_verb("encode"@, "_decode"@, ""@, number);
            reveal_strlit("_decode");
        }
    }
    loading_adds_helpers_only(
        fields,
        slots,
        storage,
        0,
        ""@,
        ty.codec_class@,
        0,
        code,
        defs,
        second,
        typed0(),
        "encode"@,
    );
    assert forall|name: Text, number: nat|
        number >= 0 && #[trigger] is_under(name, "_encode"@, ""@, number) && first.contains_key(
            name,
        ) implies all.contains_key(name) && all[name] == first[name] by {
        reveal_strlit("_encode");
        reveal_strlit("_decode");
        helpers_begin_with_their_verb(name, "_encode"@, ""@, number);
        assert forall|other: nat| other >= 0 implies !#[trigger] is_under(
            name,
            "_decode"@,
            ""@,
            other,
        ) by {
            if is_under(name, "_decode"@, ""@, other) {
                helpers_begin_with_their_verb(name, "_decode"@, ""@, other);
                assert(name[1] == 'e');
                assert(name[1] == 'd');
            }
        }
        loading_adds_helpers_only(
            fields,
            slots,
            storage,
            0,
            ""@,
            ty.codec_class@,
            0,
            code,
            defs,
            second,
            typed0(),
            name,
        );
        assert(name[0] == '_');
    }
    assert forall|name: Text, number: nat|
        number >= 0 && #[trigger] is_under(name, "_decode"@, ""@, number) && third.contains_key(
            name,
        ) implies all.contains_key(name) && all[name] == third[name] by {
        reveal_strlit("_decode");
        helpers_begin_with_their_verb(name, "_decode"@, ""@, number);
        assert(name[0] == '_');
    }
}

/// The name of a helper begins with what the helper does.
proof fn helpers_begin_with_their_verb(name: Text, verb: Text, path: Text, number: nat)
    requires
        is_under(name, verb, path, number),
    ensures
        verb.len() <= name.len(),
        forall|i: int| 0 <= i < verb.len() ==> #[trigger] name[i] == verb[i],
{
    reveal(is_under);
}

/// What the encoder of an aggregate does before it returns, and the helpers that it has then.
pub open spec fn encoding(
    ty: RustType,
    class_name: Text,
    fields: Seq<Field>,
    slots: Seq<Option<SlotModel>>,
    size: usize,
    defs: DefinitionsModel,
) -> (CodeModel, DefinitionsModel, Methods, Result<(), Text>) {
    split_stored(
        fields,
        slots,
        class_name,
        variable("_1"@, class(class_name)),
        storage_at_start("_bytes"@, "_objects"@),
        0,
        ""@,
        ty.codec_class@,
        0,
        encoder_start(size, objects_size(ty, size)),
        defs,
        no_methods(),
    )
}

/// The first instructions of an encoder: they make its arrays.
pub open spec fn encoder_start(size: usize, objects: usize) -> CodeModel {
    emit(
        emit(empty_code(0), makes_array("_bytes"@, Type::I8, i32_value(small_number(size)))),
        makes_objects("_objects"@, objects),
    )
}

/// The encoder of an aggregate.
pub open spec fn encoder(class_name: Text, code: CodeModel) -> DataTypeMethodModel {
    DataTypeMethodModel::Function(
        plain_function(
            "encode"@,
            static_method(params1("value"@, class(class_name)), byte_array()),
            single_block(
                emit(code, returns_value(variable("_bytes"@, byte_array()))).instructions,
            ),
        ),
    )
}

/// The decoder of an aggregate.
pub open spec fn decoder(
    class_name: Text,
    code: CodeModel,
    result: OperandModel,
) -> DataTypeMethodModel {
    DataTypeMethodModel::Function(
        plain_function(
            "decode"@,
            static_method(params1("bytes"@, byte_array()), class(class_name)),
            single_block(emit(code, returns_value(result)).instructions),
        ),
    )
}

/// What the decoder of an aggregate does before it returns, and the helpers that there are then.
pub open spec fn decoding(
    ty: RustType,
    class_name: Text,
    fields: Seq<Field>,
    slots: Seq<Option<SlotModel>>,
    size: usize,
    defs: DefinitionsModel,
    methods: Methods,
) -> (CodeModel, DefinitionsModel, Methods, Result<OperandModel, Text>) {
    split_aggregate_loaded(
        fields,
        slots,
        class_name,
        storage_at_start("_1"@, "_objects"@),
        0,
        ""@,
        ty.codec_class@,
        emit(empty_code(0), makes_objects("_objects"@, objects_size(ty, size))),
        defs,
        methods,
    )
}

/// The methods of a codec are its encoder, its decoder, the method that binds views, and helpers.
proof fn codec_is_made(
    ty: RustType,
    class_name: Text,
    fields: Seq<Field>,
    slots: Seq<Option<SlotModel>>,
    size: usize,
    defs: DefinitionsModel,
) -> (bind: DataTypeMethodModel)
    requires
        is_made_of(ty, class_name, fields, slots, defs),
        lowered(ty) == class(class_name),
        codec_methods(ty, size, defs, no_methods()).2 is Ok,
        encoding(ty, class_name, fields, slots, size, defs).1 == defs,
    ensures
        ({
            let writing = encoding(ty, class_name, fields, slots, size, defs);
            let second = writing.2.insert("encode"@, encoder(class_name, writing.0));
            let reading = decoding(ty, class_name, fields, slots, size, defs, second);
            let third = reading.2.insert(
                "decode"@,
                decoder(class_name, reading.0, reading.3->Ok_0),
            );
            codec_methods(ty, size, defs, no_methods()).1 == third.insert("bind"@, bind)
        }),
{
    let writing = encoding(ty, class_name, fields, slots, size, defs);
    let source = variable("_1"@, lowered(ty));
    assert(whole_stored(
        ty,
        source,
        storage_at_start("_bytes"@, "_objects"@),
        ty.codec_class@,
        encoder_start(size, objects_size(ty, size)),
        defs,
        no_methods(),
    ) == writing);
    let second = writing.2.insert("encode"@, encoder(class_name, writing.0));
    let reading = decoding(ty, class_name, fields, slots, size, defs, second);
    assert(whole_loaded(
        ty,
        storage_at_start("_1"@, "_objects"@),
        ty.codec_class@,
        emit(empty_code(0), makes_objects("_objects"@, objects_size(ty, size))),
        defs,
        second,
    ) == reading);
    let pointer_ty = pointer_to(lowered(ty));
    let binding = view_bindings(
        ty,
        variable("_1"@, pointer_ty),
        variable("_2"@, lowered(ty)),
        empty_code(0),
        reading.1,
    );
    DataTypeMethodModel::Function(
        plain_function(
            "bind"@,
            static_method(params2("pointer"@, pointer_ty, "value"@, lowered(ty)), Type::Void),
            single_block(emit(binding.0, returns_nothing()).instructions),
        ),
    )
}

/// The `encode` method of a codec makes an array of the size of the value and puts the bytes of the
/// value into it; the `decode` method makes the same value of these bytes again. It holds of all
/// aggregates of plain parts whose codec can be made.
pub proof fn codec_decodes_what_it_encodes(
    ty: RustType,
    class_name: Text,
    fields: Seq<Field>,
    slots: Seq<Option<SlotModel>>,
    size: usize,
    value: Value,
    defs: DefinitionsModel,
    m: Machine,
    r: Machine,
    depth: nat,
) -> (n: Machine)
    requires
        is_plain(ty, defs, m.classes),
        is_made_of(ty, class_name, fields, slots, defs),
        fits(ty, value),
        size == bytes_of(ty),
        size <= i32::MAX,
        codec_methods(ty, size, defs, no_methods()).2 is Ok,
        m.objects.contains_key("_1"@),
        m.objects["_1"@] == value,
        m.arrays.contains_key("_bytes"@),
        m.arrays["_bytes"@] == Seq::new(size as nat, |i: int| 0u8),
        r.classes == m.classes,
        temps_needed(ty) + 1 <= usize::MAX,
        calls_needed(ty) <= depth,
    ensures
        ({
            let codec = ty.codec_class@;
            let methods = codec_methods(ty, size, defs, no_methods()).1;
            let encode = method_list(methods, "encode"@);
            let decode = method_list(methods, "decode"@);
            let q = Machine { arrays: r.arrays.insert("_1"@, n.arrays["_bytes"@]), ..r };
            &&& methods.contains_key("encode"@)
            &&& runs_from_to(
                encode,
                makes_array("_bytes"@, Type::I8, i32_value(size as i32)),
                makes_objects("_objects"@, objects_size(ty, size)),
                returns_value(variable("_bytes"@, byte_array())),
            )
            &&& run(methods, codec, m, encode.drop_last(), 2, depth) == Some(n)
            &&& n.arrays["_bytes"@] == image(ty, value, m.arrays["_bytes"@], 0)
            &&& methods.contains_key("decode"@)
            &&& decode.len() > 1
            &&& decode[0] == makes_objects("_objects"@, objects_size(ty, size))
            &&& decode.last() matches InstructionModel::Return { operand: Some(result) }
            &&& run(methods, codec, q, decode.drop_last(), 1, depth) matches Some(k)
            &&& full_value(k, result) == Some(value)
        }),
{
    reveal_with_fuel(lowered, 2);
    plain_type_is_known(ty, value, defs, m.classes);
    assert(slots.take(0) =~= Seq::<Option<SlotModel>>::empty());
    let codec = ty.codec_class@;
    let objects = objects_size(ty, size);
    let bytes = m.arrays["_bytes"@];
    let code0 = encoder_start(size, objects);
    let all = codec_methods(ty, size, defs, no_methods()).1;
    let n = split_parts_are_stored(
        slots,
        class_name,
        fields,
        size,
        value,
        0,
        "_1"@,
        "_bytes"@,
        "_objects"@,
        0,
        ""@,
        codec,
        code0,
        defs,
        no_methods(),
        all,
        2,
        m,
        m,
        depth,
    );
    let writing = encoding(ty, class_name, fields, slots, size, defs);
    let encode = encoder(class_name, writing.0);
    let second = writing.2.insert("encode"@, encode);
    let code1 = emit(empty_code(0), makes_objects("_objects"@, objects));
    let reading = decoding(ty, class_name, fields, slots, size, defs, second);
    image_of_parts_is_local(
        slots,
        class_name,
        fields,
        size,
        value->parts,
        0,
        bytes,
        0,
        defs,
        m.classes,
    );
    image_shows_the_parts(slots, class_name, fields, size, value, 0, bytes, 0, defs, m.classes);
    let there = n.arrays["_bytes"@];
    let q = Machine { arrays: r.arrays.insert("_1"@, there), ..r };
    let k = split_aggregate_is_loaded(
        slots,
        class_name,
        fields,
        size,
        value,
        "_1"@,
        "_objects"@,
        0,
        ""@,
        codec,
        code1,
        defs,
        second,
        all,
        1,
        q,
        q,
        depth,
    );
    let decode = decoder(class_name, reading.0, reading.3->Ok_0);
    let bind = codec_is_made(ty, class_name, fields, slots, size, defs);
    helpers_stay(ty, class_name, fields, slots, code1, defs, writing.2, encode, decode, bind);
    lists_are_kept(all, writing, reading, class_name);
    n
}

/// The lists of an encoder and a decoder are what they do, and the instruction that returns.
proof fn lists_are_kept(
    all: Methods,
    writing: (CodeModel, DefinitionsModel, Methods, Result<(), Text>),
    reading: (CodeModel, DefinitionsModel, Methods, Result<OperandModel, Text>),
    class_name: Text,
)
    requires
        all["encode"@] == encoder(class_name, writing.0),
        all["decode"@] == decoder(class_name, reading.0, reading.3->Ok_0),
    ensures
        method_list(all, "encode"@).drop_last() == writing.0.instructions,
        method_list(all, "encode"@).last() == returns_value(variable("_bytes"@, byte_array())),
        method_list(all, "encode"@).len() == writing.0.instructions.len() + 1,
        method_list(all, "decode"@).drop_last() == reading.0.instructions,
        method_list(all, "decode"@).last() == returns_value(reading.3->Ok_0),
        method_list(all, "decode"@).len() == reading.0.instructions.len() + 1,
{
    assert(method_list(all, "encode"@).drop_last() =~= writing.0.instructions);
    assert(method_list(all, "decode"@).drop_last() =~= reading.0.instructions);
}

} // verus!
