//! Which methods the classes of an enum get to be written and read.
use crate::code::{DefinitionsModel, no_blocks, params3, params4};
use crate::codec::{enum_writer, function_added};
use crate::definitions::{class_has_method, methods_of};
use crate::enum_codec::{
    enum_codec, enum_codec_methods, enum_dispatch, enum_reader_method, enum_there, no_writers,
    reader_function, variant_blocks, variant_writer, variant_writers, writers_installed,
};
use crate::oomir::{BasicBlockModel, DataTypeMethodModel, FunctionModel, Text, Type, TypeModel};
use crate::rust_type::{Adt, RustType, Variant, VariantLayout};
use vstd::prelude::*;
use vstd::string::*;

verus! {

/// Whether a writer is that of a variant: it belongs to the class of the variant.
pub open spec fn writes_variant(
    writer: (Text, FunctionModel),
    enum_class: Text,
    variant: Variant,
) -> bool {
    &&& writer.0 == enum_class + "$"@ + variant.name@
    &&& writer.1.name == "_writeUnionStorage"@
    &&& !writer.1.signature.is_static
    &&& writer.1.signature.params.map_values(|param: (Text, TypeModel)| param.1) == seq![
        Type::Class(writer.0),
        Type::Array(Box::new(Type::I8)),
        Type::Array(Box::new(Type::Class("java/lang/Object"@))),
        Type::I32,
    ]
    &&& writer.1.signature.ret == Type::<Text>::Void
}

/// Each variant has a writer for its class, in the order of the variants.
pub proof fn every_variant_has_a_writer(
    variants: Seq<Variant>,
    layout: VariantLayout,
    enum_class: Text,
    from: nat,
    defs: DefinitionsModel,
    writers: Seq<(Text, FunctionModel)>,
)
    requires
        from <= variants.len(),
        writers.len() == from,
        forall|i: int|
            0 <= i < from ==> writes_variant(#[trigger] writers[i], enum_class, variants[i]),
        variant_writers(variants, layout, enum_class, from, defs, writers).2 is Ok,
    ensures
        ({
            let made = variant_writers(variants, layout, enum_class, from, defs, writers).1;
            &&& made.len() == variants.len()
            &&& forall|i: int|
                0 <= i < variants.len() ==> writes_variant(
                    #[trigger] made[i],
                    enum_class,
                    variants[i],
                )
        }),
    decreases variants.len() - from,
{
    if from < variants.len() {
        let item = variants[from as int];
        let (next, outcome) = variant_writer(item, from as usize, layout, enum_class, defs);
        let more = writers.push((enum_class + "$"@ + item.name@, outcome->Ok_0));
        writer_is_named(item, from as usize, layout, enum_class, defs);
        assert forall|i: int| 0 <= i < from + 1 implies writes_variant(
            #[trigger] more[i],
            enum_class,
            variants[i],
        ) by {
            if i < from {
                assert(more[i] == writers[i]);
            }
        }
        every_variant_has_a_writer(variants, layout, enum_class, from + 1, next, more);
    }
}

proof fn writer_is_named(
    variant: Variant,
    index: usize,
    layout: VariantLayout,
    enum_class: Text,
    defs: DefinitionsModel,
)
    ensures
        variant_writer(variant, index, layout, enum_class, defs).1 matches Ok(function)
            ==> writes_variant(
            (enum_class + "$"@ + variant.name@, function),
            enum_class,
            variant,
        ),
{
    reveal(params4);
    let outcome = variant_writer(variant, index, layout, enum_class, defs).1;
    if outcome is Ok {
        let class_name = enum_class + "$"@ + variant.name@;
        let function = outcome->Ok_0;
        assert(function.signature == enum_writer(class_name));
        assert(function.signature.params.map_values(|param: (Text, TypeModel)| param.1) =~= seq![
            Type::Class(class_name),
            Type::Array(Box::new(Type::I8)),
            Type::Array(Box::new(Type::Class("java/lang/Object"@))),
            Type::I32,
        ]);
    }
}

/// Whether a function reads an enum: it takes bytes, objects and an offset, and gives a value of
/// the enum.
pub open spec fn reads_enum(function: FunctionModel, enum_class: Text) -> bool {
    &&& function.name == "_readUnionStorage"@
    &&& function.signature.is_static
    &&& function.signature.params.map_values(|param: (Text, TypeModel)| param.1) == seq![
        Type::Array(Box::new(Type::I8)),
        Type::Array(Box::new(Type::Class("java/lang/Object"@))),
        Type::I32,
    ]
    &&& function.signature.ret == Type::Class(enum_class)
}

proof fn readers_are_named(
    enum_class: Text,
    entry: Text,
    blocks: Map<Text, BasicBlockModel>,
)
    ensures
        reads_enum(reader_function(enum_class, entry, blocks), enum_class),
{
    reveal(params3);
    let function = reader_function(enum_class, entry, blocks);
    assert(function.signature.params.map_values(|param: (Text, TypeModel)| param.1) =~= seq![
        Type::Array(Box::new(Type::I8)),
        Type::Array(Box::new(Type::Class("java/lang/Object"@))),
        Type::I32,
    ]);
}

proof fn reader_reads_the_enum(
    adt: Adt,
    layout: VariantLayout,
    enum_class: Text,
    defs: DefinitionsModel,
)
    ensures
        enum_reader_method(adt, layout, enum_class, defs).1 matches Ok(function) ==> reads_enum(
            function,
            enum_class,
        ),
{
    let (ready, blocks, outcome) = variant_blocks(adt.variants@, enum_class, 0, defs, no_blocks());
    if outcome is Ok {
        let (all, entry) = enum_dispatch(adt.variants@, layout, enum_class, blocks);
        readers_are_named(enum_class, entry, all);
    }
}

/// The codec of an enum is a writer for each variant, in their order, and one reader.
pub proof fn codecs_write_each_variant_and_read_the_enum(
    adt: Adt,
    enum_class: Text,
    defs: DefinitionsModel,
)
    requires
        enum_codec_methods(adt, enum_class, defs, no_writers()).2 is Ok,
    ensures
        ({
            let (_, writers, outcome) = enum_codec_methods(adt, enum_class, defs, no_writers());
            &&& reads_enum(outcome->Ok_0, enum_class)
            &&& writers.len() == adt.variants@.len()
            &&& forall|i: int|
                0 <= i < writers.len() ==> writes_variant(
                    #[trigger] writers[i],
                    enum_class,
                    adt.variants@[i],
                )
        }),
{
    let layout = adt.layout->Ok_0;
    let made = variant_writers(adt.variants@, layout, enum_class, 0, defs, no_writers());
    if made.2 is Ok {
        every_variant_has_a_writer(
            adt.variants@,
            layout,
            enum_class,
            0,
            defs,
            no_writers(),
        );
        reader_reads_the_enum(adt, layout, enum_class, made.0);
    }
}

/// Whether a class has a function as its writer.
pub open spec fn is_written_by(defs: DefinitionsModel, class: Text, function: FunctionModel) -> bool {
    &&& class_has_method(defs, class, "_writeUnionStorage"@)
    &&& methods_of(defs, class)["_writeUnionStorage"@] == DataTypeMethodModel::Function(function)
}

/// Installing writers gives each class its own writer, and changes no other class, if the classes
/// differ.
pub proof fn writers_reach_their_classes(
    writers: Seq<(Text, FunctionModel)>,
    from: nat,
    defs: DefinitionsModel,
)
    requires
        from <= writers.len(),
        forall|i: int, j: int|
            0 <= i < j < writers.len() ==> (#[trigger] writers[i]).0 != (#[trigger] writers[j]).0,
        writers_installed(writers, from, defs).1 is Ok,
    ensures
        ({
            let after = writers_installed(writers, from, defs).0;
            &&& after.dom() == defs.dom()
            &&& forall|i: int|
                from <= i < writers.len() ==> is_written_by(
                    after,
                    (#[trigger] writers[i]).0,
                    writers[i].1,
                )
            &&& forall|name: Text|
                #![trigger after[name]]
                (forall|i: int| from <= i < writers.len() ==> (#[trigger] writers[i]).0 != name)
                    ==> after[name] == defs[name]
        }),
    decreases writers.len() - from,
{
    if from < writers.len() {
        let (class, writer) = writers[from as int];
        let next = function_added(class, "_writeUnionStorage"@, writer, defs);
        writers_reach_their_classes(writers, from + 1, next);
        let after = writers_installed(writers, from, defs).0;
        assert(after == writers_installed(writers, from + 1, next).0);
        assert(next.dom() =~= defs.dom());
        assert(forall|i: int|
            from + 1 <= i < writers.len() ==> (#[trigger] writers[i]).0 != writers[from as int].0);
        assert(after[class] == next[class]);
        assert(is_written_by(after, class, writer));
        assert forall|name: Text|
            #![trigger after[name]]
            (forall|i: int| from <= i < writers.len() ==> (#[trigger] writers[i]).0
                != name) implies after[name] == defs[name] by {
            assert(writers[from as int].0 != name);
        }
    }
}

/// An enum that can be written and read has a method that reads it, unless it had one that writes
/// it before.
pub proof fn enums_can_be_read(ty: RustType, adt: Adt, enum_class: Text, defs: DefinitionsModel)
    requires
        enum_codec(ty, adt, enum_class, defs).1 is Ok,
        !class_has_method(
            enum_there(ty, adt, enum_class, defs),
            enum_class,
            "_writeUnionStorage"@,
        ),
    ensures
        class_has_method(
            enum_codec(ty, adt, enum_class, defs).0,
            enum_class,
            "_readUnionStorage"@,
        ),
{
}

} // verus!
