//! What conversions between pointers and between views do.
use crate::code::{
    CodeModel, DefinitionsModel, args1, args2, args3, empty_code, params0, params1, single_block,
    typed1,
};
use crate::codec::codec_value;
use crate::definitions::{class_has_method, methods_of};
use crate::descriptor::{
    SLICE_VIEW_CLASS, UTF8_VIEW_CLASS, descriptor, method_descriptor, parameter_descriptors,
};
use crate::execution::{Machine, executed, value_of};
use crate::jvm_ops::ClassFileModel;
use crate::lowering::{defined_for_name, type_defined};
use crate::oomir::{
    ConstantModel, DataTypeMethodModel, DataTypeModel, InstructionModel, Operand, OperandModel,
    Text, Type, TypeModel, has_value,
};
use crate::pointer_codec::view_codec;
use crate::round_trip::{bits_are_loaded, has_room, number_at};
use crate::rust_type::{Role, RustType, TypeKind, UintKind, lowered, size_of, tail_of};
use crate::transmute::{
    byte_conversion, carried_pointer, conversion, conversion_end, conversion_installed,
    conversion_signature, direct_conversion, exact_transmute, forced_in_type, number_pointer,
    pointer_returned, retyped_pointer, source_pointer, target_value, unprovenanced_pointer,
    view_conversion,
};
use crate::union_storage::{UnionStorageModel, loaded_bits};
use crate::view_classes::{
    text_as_slice, text_constructor, text_equals, text_from_java, text_from_slice, text_len,
    text_long_constructor, text_starts_with, text_starts_with_char, text_to_java, text_view_methods,
    utf8_view_class,
};
use vstd::prelude::*;
use vstd::string::*;

verus! {

/// Whether a type is a reference or a raw pointer to text.
pub open spec fn shows_text(ty: RustType) -> bool {
    match ty.kind {
        TypeKind::Ref { pointee, .. } => pointee.kind is Str,
        TypeKind::RawPtr { pointee, .. } => pointee.kind is Str,
        _ => false,
    }
}

/// Whether a type is a slice of bytes.
pub open spec fn is_byte_slice(ty: RustType) -> bool {
    ty.kind matches TypeKind::Slice(element) && element.kind == TypeKind::Uint(UintKind::U8)
}

/// Whether a type is a reference or a raw pointer to a slice of bytes.
pub open spec fn shows_bytes(ty: RustType) -> bool {
    match ty.kind {
        TypeKind::Ref { pointee, .. } => is_byte_slice(*pointee),
        TypeKind::RawPtr { pointee, .. } => is_byte_slice(*pointee),
        _ => false,
    }
}

/// The class of the view of a pointer to text or to bytes, as it stands in descriptors.
pub open spec fn view_descriptor(ty: RustType) -> Text {
    if shows_text(ty) {
        "Lorg/rustlang/runtime/Utf8View;"@
    } else {
        "Lorg/rustlang/runtime/SliceView;"@
    }
}

/// Whether a class file has a public static method of a name that takes and gives what a descriptor
/// says.
pub open spec fn offers(class: ClassFileModel, name: Text, types: Text) -> bool {
    exists|i: int|
        0 <= i < class.methods.len() && (#[trigger] class.methods[i]).name == name
            && class.methods[i].descriptor == types && class.methods[i].access == 0x0009
}

/// Whether code hands its argument to a method of the class of text that takes the view of the
/// source and gives the view of the target, and returns what the method gives.
pub open spec fn calls_its_view_method(
    list: Seq<InstructionModel>,
    source: RustType,
    target: RustType,
) -> bool {
    &&& list.len() == 2
    &&& list[0] matches InstructionModel::InvokeStatic {
        dest,
        class_name,
        method_name,
        method_ty,
        args,
    }
    &&& dest matches Some(result)
    &&& class_name == utf8_view_class().this_class
    &&& args == seq![Operand::Variable { name: "_1"@, ty: lowered(source) }]
    &&& method_ty.is_static
    &&& method_descriptor(method_ty) == "("@ + view_descriptor(source) + ")"@ + view_descriptor(
        target,
    )
    &&& offers(utf8_view_class(), method_name, method_descriptor(method_ty))
    &&& list[1] == (InstructionModel::Return {
        operand: Some(Operand::Variable { name: result, ty: lowered(target) }),
    })
}

proof fn texts_of_views()
    ensures
        "L"@ + UTF8_VIEW_CLASS@ + ";"@ == "Lorg/rustlang/runtime/Utf8View;"@,
        "L"@ + SLICE_VIEW_CLASS@ + ";"@ == "Lorg/rustlang/runtime/SliceView;"@,
        "("@ + "Lorg/rustlang/runtime/Utf8View;"@ + ")"@ + "Lorg/rustlang/runtime/SliceView;"@
            == "(Lorg/rustlang/runtime/Utf8View;)Lorg/rustlang/runtime/SliceView;"@,
        "("@ + "Lorg/rustlang/runtime/SliceView;"@ + ")"@ + "Lorg/rustlang/runtime/Utf8View;"@
            == "(Lorg/rustlang/runtime/SliceView;)Lorg/rustlang/runtime/Utf8View;"@,
{
    reveal_strlit("L");
    reveal_strlit(";");
    reveal_strlit("(");
    reveal_strlit(")");
    reveal_strlit("org/rustlang/runtime/Utf8View");
    reveal_strlit("org/rustlang/runtime/SliceView");
    reveal_strlit("Lorg/rustlang/runtime/Utf8View;");
    reveal_strlit("Lorg/rustlang/runtime/SliceView;");
    reveal_strlit("(Lorg/rustlang/runtime/Utf8View;)Lorg/rustlang/runtime/SliceView;");
    reveal_strlit("(Lorg/rustlang/runtime/SliceView;)Lorg/rustlang/runtime/Utf8View;");
    assert("L"@ + UTF8_VIEW_CLASS@ + ";"@ =~= "Lorg/rustlang/runtime/Utf8View;"@);
    assert("L"@ + SLICE_VIEW_CLASS@ + ";"@ =~= "Lorg/rustlang/runtime/SliceView;"@);
    assert("("@ + "Lorg/rustlang/runtime/Utf8View;"@ + ")"@ + "Lorg/rustlang/runtime/SliceView;"@
        =~= "(Lorg/rustlang/runtime/Utf8View;)Lorg/rustlang/runtime/SliceView;"@);
    assert("("@ + "Lorg/rustlang/runtime/SliceView;"@ + ")"@ + "Lorg/rustlang/runtime/Utf8View;"@
        =~= "(Lorg/rustlang/runtime/SliceView;)Lorg/rustlang/runtime/Utf8View;"@);
}

/// The two methods of the class of text that go between text and bytes.
proof fn view_methods_are_there()
    ensures
        offers(
            utf8_view_class(),
            "asSlice"@,
            "(Lorg/rustlang/runtime/Utf8View;)Lorg/rustlang/runtime/SliceView;"@,
        ),
        offers(
            utf8_view_class(),
            "fromSlice"@,
            "(Lorg/rustlang/runtime/SliceView;)Lorg/rustlang/runtime/Utf8View;"@,
        ),
{
    reveal(text_view_methods);
    reveal(text_constructor);
    reveal(text_long_constructor);
    reveal(text_from_java);
    reveal(text_to_java);
    reveal(text_as_slice);
    reveal(text_from_slice);
    reveal(text_len);
    reveal(text_starts_with);
    reveal(text_equals);
    reveal(text_starts_with_char);
    let methods = utf8_view_class().methods;
    assert(methods.len() == 10);
    assert(methods[4].name == "asSlice"@);
    assert(methods[5].name == "fromSlice"@);
}

/// A conversion between a pointer to text and a pointer to bytes calls a static method of the class
/// file of text. The parameter of this method has the descriptor of the source, and its result has
/// the descriptor of the target.
pub proof fn views_are_converted_by_a_method_of_their_types(
    source: RustType,
    target: RustType,
    size: usize,
    defs: DefinitionsModel,
)
    requires
        (shows_text(source) && shows_bytes(target)) || (shows_bytes(source) && shows_text(target)),
    ensures
        conversion(source, target, size, conversion_signature(source, target), defs) matches (
            after,
            Ok(list),
        ) && after == defs && calls_its_view_method(list, source, target),
{
    reveal(conversion);
    reveal(direct_conversion);
    reveal(source_pointer);
    reveal(retyped_pointer);
    reveal(view_conversion);
    reveal(params1);
    reveal(args1);
    texts_of_views();
    view_methods_are_there();
    reveal_with_fuel(lowered, 4);
    let (after, outcome) = conversion(
        source,
        target,
        size,
        conversion_signature(source, target),
        defs,
    );
    assert(direct_conversion(source, target, defs) == (
        defs,
        Ok::<Option<Seq<InstructionModel>>, Text>(None),
    ));
    let signature = conversion_signature(source, target);
    assert(signature.params =~= seq![("value"@, lowered(source))]);
    assert(signature.params.drop_last() =~= Seq::<(Text, TypeModel)>::empty());
    reveal_with_fuel(parameter_descriptors, 2);
    assert(parameter_descriptors(signature.params) =~= descriptor(lowered(source)));
    assert(descriptor(lowered(source)) == view_descriptor(source));
    assert(descriptor(lowered(target)) == view_descriptor(target));
    let list = outcome->Ok_0;
    assert(list.len() == 2);
    assert(list[0]->InvokeStatic_args =~= seq![Operand::Variable {
        name: "_1"@,
        ty: lowered(source),
    }]);
}

/// The class of a non-null pointer to an unsized type: an object around the pointer.
pub open spec fn pointer_object(ty: RustType) -> Option<Text> {
    match ty.kind {
        TypeKind::Adt(adt) => match adt.role {
            Role::NonNull { pointee: Some(pointee) } => if pointee.is_sized {
                None
            } else {
                Some(adt.class_name@)
            },
            _ => None,
        },
        _ => None,
    }
}

/// What a pointer points to.
pub open spec fn target_of(ty: RustType) -> Option<RustType> {
    match ty.kind {
        TypeKind::Ref { pointee, .. } => Some(*pointee),
        TypeKind::RawPtr { pointee, .. } => Some(*pointee),
        TypeKind::Adt(adt) => match adt.role {
            Role::NonNull { pointee: Some(pointee) } => Some(*pointee),
            _ => None,
        },
        _ => None,
    }
}

/// Whether code starts by taking the pointer out of its argument: the argument itself, or the field
/// `pointer` of the object around it.
pub open spec fn takes_pointer(
    list: Seq<InstructionModel>,
    source: RustType,
    pointer: OperandModel,
) -> bool {
    let argument = Operand::Variable { name: "_1"@, ty: lowered(source) };
    match pointer_object(source) {
        None => pointer == argument,
        Some(class) => {
            &&& list.len() > 0
            &&& list[0] matches InstructionModel::GetField {
                dest,
                object,
                field_name,
                field_ty,
                owner_class,
            }
            &&& object == argument
            &&& field_name == "pointer"@
            &&& owner_class == class
            &&& pointer == (Operand::Variable { name: dest, ty: field_ty })
        },
    }
}

/// Whether code ends by returning a pointer: the pointer itself, or a new object around it.
pub open spec fn gives_pointer(
    list: Seq<InstructionModel>,
    target: RustType,
    pointer: OperandModel,
) -> bool {
    let n = list.len() as int;
    match pointer_object(target) {
        None => n >= 1 && list[n - 1] == (InstructionModel::Return { operand: Some(pointer) }),
        Some(class) => {
            &&& n >= 2
            &&& list[n - 2] matches InstructionModel::ConstructObject { dest, class_name, args }
            &&& class_name == class
            &&& args.len() == 1
            &&& args[0].0 == pointer
            &&& list[n - 1] == (InstructionModel::Return {
                operand: Some(Operand::Variable { name: dest, ty: lowered(target) }),
            })
        },
    }
}

/// Whether an instruction makes one pointer of another that it is called with: the same address
/// seen with the size of what the target points to, or with the class and the view of its unsized
/// end.
pub open spec fn makes_of_pointer(
    instruction: InstructionModel,
    target: RustType,
    pointer: OperandModel,
    made: OperandModel,
) -> bool {
    match instruction {
        InstructionModel::InvokeVirtual {
            dest: Some(dest),
            class_name,
            method_name,
            method_ty,
            args,
            operand,
        } => {
            &&& class_name == "org/rustlang/runtime/Pointer"@
            &&& method_name == "retype"@
            &&& operand == pointer
            &&& args.len() == 2
            &&& target_of(target) matches Some(pointee)
            &&& size_of(pointee) matches Ok(size)
            &&& args[0] == Operand::Constant(ConstantModel::U64(size as u64))
            &&& !method_ty.is_static
            &&& made == (Operand::Variable { name: dest, ty: method_ty.ret })
        },
        InstructionModel::InvokeStatic {
            dest: Some(dest),
            class_name,
            method_name,
            method_ty,
            args,
        } => {
            &&& class_name == "org/rustlang/runtime/Pointer"@
            &&& method_name == "retargetStructTail"@
            &&& args.len() == 3
            &&& args[0] == pointer
            &&& lowered(target) matches Type::Pointer(seen)
            &&& *seen matches Type::Class(name)
            &&& args[1] == Operand::Constant(ConstantModel::String(name))
            &&& target_of(target) matches Some(pointee)
            &&& (tail_of(pointee).kind is Str ==> args[2] == Operand::Constant(
                ConstantModel::String("org/rustlang/runtime/Utf8View"@),
            ))
            &&& (tail_of(pointee).kind is Slice ==> args[2] == Operand::Constant(
                ConstantModel::String("org/rustlang/runtime/SliceView"@),
            ))
            &&& method_ty.is_static
            &&& made == (Operand::Variable { name: dest, ty: method_ty.ret })
        },
        _ => false,
    }
}

/// How many instructions go between a value and the pointer that it carries.
pub open spec fn wrapping(ty: RustType) -> nat {
    if pointer_object(ty) is Some {
        1
    } else {
        0
    }
}

/// Whether code returns the pointer that its argument carries, as it is or made into one of the
/// type of the target, and does nothing else.
pub open spec fn keeps_pointer(
    list: Seq<InstructionModel>,
    source: RustType,
    target: RustType,
    pointer: OperandModel,
    result: OperandModel,
) -> bool {
    let around = wrapping(source) + wrapping(target) + 1;
    &&& takes_pointer(list, source, pointer)
    &&& gives_pointer(list, target, result)
    &&& {
        ||| result == pointer && list.len() == around
        ||| list.len() == around + 1 && makes_of_pointer(
            list[wrapping(source) as int],
            target,
            pointer,
            result,
        )
    }
}

/// A conversion between pointers takes the pointer out of its argument, changes at most how it is
/// seen, and returns it.
pub proof fn pointer_conversions_keep_the_pointer(
    source: RustType,
    target: RustType,
    defs: DefinitionsModel,
) -> (found: (OperandModel, OperandModel))
    requires
        direct_conversion(source, target, defs).1 matches Ok(Some(_)),
    ensures
        direct_conversion(source, target, defs).1 matches Ok(Some(list)) && keeps_pointer(
            list,
            source,
            target,
            found.0,
            found.1,
        ),
{
    reveal(direct_conversion);
    reveal(source_pointer);
    reveal(retyped_pointer);
    reveal(pointer_returned);
    reveal(args1);
    reveal(args2);
    reveal(args3);
    reveal(typed1);
    let source_ty = carried_pointer(source, defs)->Some_0;
    let target_ty = carried_pointer(target, defs)->Some_0;
    let (code, pointer) = source_pointer(source, source_ty, empty_code(0));
    let (code, after, outcome) = retyped_pointer(
        source,
        target,
        pointer,
        source_ty,
        target_ty,
        code,
        defs,
    );
    (pointer, outcome->Ok_0->Some_0)
}

/// A pointer to a type that reads the same and has the same representation is returned as it is.
pub proof fn pointers_to_the_same_type_are_returned(
    source: RustType,
    target: RustType,
    size: usize,
    defs: DefinitionsModel,
)
    requires
        pointer_object(source) is None,
        pointer_object(target) is None,
        target_of(source) is Some,
        target_of(target) is Some,
        target_of(source)->Some_0.text@ == target_of(target)->Some_0.text@,
        lowered(target_of(source)->Some_0) == lowered(target_of(target)->Some_0),
        has_value(lowered(source)),
        has_value(lowered(target)),
    ensures
        conversion(source, target, size, conversion_signature(source, target), defs) == (
            defs,
            Ok::<Seq<InstructionModel>, Text>(
                seq![
                    InstructionModel::Return {
                        operand: Some(Operand::Variable { name: "_1"@, ty: lowered(source) }),
                    },
                ],
            ),
        ),
{
    reveal(conversion);
    reveal(direct_conversion);
    reveal(source_pointer);
    reveal(retyped_pointer);
    reveal(pointer_returned);
    let list = direct_conversion(source, target, defs).1->Ok_0->Some_0;
    assert(list =~= seq![
        InstructionModel::Return {
            operand: Some(Operand::Variable { name: "_1"@, ty: lowered(source) }),
        },
    ]);
}

/// The definitions in which the classes of two types are there.
pub open spec fn both_defined(
    source: RustType,
    target: RustType,
    defs: DefinitionsModel,
) -> DefinitionsModel {
    let defs = forced_in_type(target, forced_in_type(source, defs));
    let defs = type_defined(target, type_defined(source, defs));
    defined_for_name(target, defined_for_name(source, defs))
}

/// Whether a class has a function of one block under a name.
pub open spec fn has_function(
    defs: DefinitionsModel,
    class: Text,
    name: Text,
    list: Seq<InstructionModel>,
) -> bool {
    &&& defs.dom().contains(class)
    &&& defs[class] matches DataTypeModel::Class { methods, .. }
    &&& methods.dom().contains(name)
    &&& methods[name] matches DataTypeMethodModel::Function(function)
    &&& function.name == name
    &&& function.body.basic_blocks.dom() == set![function.body.entry]
    &&& function.body.basic_blocks[function.body.entry].instructions == list
}

/// The helper that is asked for is there: a static method of the given class, which takes the
/// source where that has a value and gives the target. Where the class did not have it before, its
/// body is the conversion, and all other definitions are those that the conversion needs.
pub proof fn helpers_hold_their_conversion(
    source: RustType,
    target: RustType,
    class: Text,
    defs: DefinitionsModel,
)
    requires
        exact_transmute(source, target, class, defs).1 is Ok,
    ensures
        exact_transmute(source, target, class, defs) matches (after, Ok(helper)) && {
            let ready = both_defined(source, target, defs);
            let made = conversion(
                source,
                target,
                size_of(source)->Ok_0,
                conversion_signature(source, target),
                ready,
            );
            &&& size_of(source) == size_of(target)
            &&& helper.class_name == class
            &&& helper.method_name == "transmute"@
            &&& helper.signature.is_static
            &&& helper.signature.ret == lowered(target)
            &&& helper.signature.params.len() == (if has_value(lowered(source)) {
                1int
            } else {
                0
            })
            &&& has_value(lowered(source)) ==> helper.signature.params[0].1 == lowered(source)
            &&& class_has_method(after, class, "transmute"@)
            &&& class_has_method(ready, class, "transmute"@) ==> after == ready
            &&& !class_has_method(ready, class, "transmute"@) ==> {
                &&& made.1 matches Ok(list)
                &&& has_function(after, class, "transmute"@, list)
                &&& forall|name: Text|
                    #![trigger after[name]]
                    #![trigger after.dom().contains(name)]
                    name != class ==> (after.dom().contains(name) <==> made.0.dom().contains(name))
                        && after[name] == made.0[name]
            }
        },
{
    reveal(exact_transmute);
    reveal(conversion_installed);
    reveal(params0);
    reveal(params1);
    let ready = both_defined(source, target, defs);
    if !class_has_method(ready, class, "transmute"@) {
        let made = conversion(
            source,
            target,
            size_of(source)->Ok_0,
            conversion_signature(source, target),
            ready,
        );
        let list = made.1->Ok_0;
        let after = exact_transmute(source, target, class, defs).0;
        let function = methods_of(after, class)["transmute"@]->Function_0;
        assert(function.body == single_block(list));
        assert(function.body.basic_blocks.dom() =~= set![function.body.entry]);
    }
}

/// Whether a type is that of integers, of which zero may be left out.
pub open spec fn is_integer(ty: RustType) -> bool {
    match ty.kind {
        TypeKind::Int(_) => true,
        TypeKind::Uint(_) => true,
        TypeKind::Adt(adt) => adt.role is NonZero,
        _ => false,
    }
}

/// An integer that is converted into a pointer is the address of the pointer: it is read from the
/// bytes that hold it, and handed to the runtime together with the size and the codec of what is
/// pointed to.
pub proof fn integers_become_addresses(
    source: RustType,
    target: RustType,
    storage: UnionStorageModel,
    code: CodeModel,
    defs: DefinitionsModel,
    from: nat,
    first: Machine,
    m: Machine,
    start: u64,
) -> (n: Machine)
    requires
        is_integer(source),
        target_of(target) is Some,
        pointer_object(target) is None,
        lowered(target) is Pointer,
        size_of(target) == Ok::<usize, Text>(8),
        size_of(target_of(target)->Some_0) is Ok,
        from <= code.instructions.len(),
        executed(first, code.instructions, from) == Some(m),
        has_room(m, storage, code.temps, start, 8),
        code.temps + 50 <= usize::MAX,
    ensures
        ({
            let (after, _, outcome) = target_value(source, target, storage, code, defs);
            let pointee = target_of(target)->Some_0;
            let list = after.instructions;
            &&& outcome matches Ok(Operand::Variable { name, ty })
            &&& ty == lowered(target)
            &&& executed(first, list.drop_last(), from) == Some(n)
            &&& list.last() matches InstructionModel::InvokeStatic {
                dest,
                class_name,
                method_name,
                method_ty,
                args,
            }
            &&& dest == Some(name)
            &&& class_name == "org/rustlang/runtime/Pointer"@
            &&& method_name == "fromUnprovenancedAddress"@
            &&& method_ty.ret == lowered(target)
            &&& args.len() == 3
            &&& value_of(n, args[0]) == Some(number_at(m.arrays[storage.bytes_var], start as int, 8))
            &&& args[1] == Operand::Constant(ConstantModel::U64(size_of(pointee)->Ok_0 as u64))
            &&& args[2] == codec_value(view_codec(pointee, defs).1)
        }),
{
    reveal(target_value);
    reveal(number_pointer);
    reveal(unprovenanced_pointer);
    reveal(args3);
    let n = bits_are_loaded(Type::U64, 8, storage, 0, code, from, first, m, start);
    let (after, _, _) = target_value(source, target, storage, code, defs);
    let (loaded, _) = loaded_bits(Type::U64, 8, storage, 0, code);
    assert(after.instructions.drop_last() =~= loaded.instructions);
    n
}

/// A conversion by bytes ends by returning a value of the target, if that has values, and without
/// one if it has none.
pub proof fn conversions_return_what_the_target_has(
    source: RustType,
    target: RustType,
    size: usize,
    defs: DefinitionsModel,
)
    requires
        byte_conversion(source, target, size, defs).1 is Ok,
    ensures
        byte_conversion(source, target, size, defs).1 matches Ok(list) && {
            &&& list.len() > 0
            &&& list.last() matches InstructionModel::Return { operand }
            &&& operand is Some <==> has_value(lowered(target))
        },
{
    reveal(byte_conversion);
    reveal(conversion_end);
}

} // verus!
