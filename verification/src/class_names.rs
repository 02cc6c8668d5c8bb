//! The names of generated classes: readable where they are short and free, hashed where not.
use crate::classes::fields_of;
use crate::code::{Definitions, DefinitionsModel, decimal_usize};
use crate::definitions::is_class;
use crate::layout::types_valid;
use crate::lowering::{define_types, defined_types};
use crate::name_map::NameMap;
use crate::names::{name_token, sanitize_name_token};
use crate::oomir::{Constant, ConstantModel, DataType, Text, Type, TypeModel, same_type};
use crate::rust_type::{Bound, GenericArg, IntKind, RustType, TypeKind, UintKind, lowered};
use crate::text::{cat2, cat3, cat5, decimal, decimal_text, digit, starts_with_text, strip_prefix};
use crate::type_names::{
    MAX_TUPLE_NAME_LEN, NameStyle, TUPLE_PREFIX, argument_name, byte_length, char_bytes,
    class_package, fits_bytes, last_path_segment, last_segment, name_of_type, names_joined, package_of,
    path_token, readable_rust_generic_arg_name, readable_rust_type_name,
    readable_tuple_abi_type_name,
};
use crate::union_storage::{I128_CLASS, U128_CLASS};
use vstd::prelude::*;
use vstd::string::*;

verus! {

/// The tokens of the first generic arguments that have a name, joined, and whether there is any.
pub open spec fn argument_tokens(arguments: Seq<GenericArg>, n: nat) -> (Text, bool)
    decreases n,
{
    if n == 0 || n > arguments.len() {
        (""@, false)
    } else {
        let rest = argument_tokens(arguments, (n - 1) as nat);
        match argument_name(arguments[n - 1], NameStyle::Plain) {
            Some(name) => (names_joined(rest.0, name_token(name), !rest.1, NameStyle::Plain), true),
            None => rest,
        }
    }
}

/// A name in the package of a class.
pub open spec fn placed_beside(class_name: Text, name: Text) -> Text {
    match package_of(class_name) {
        Some(package) => if package.len() > 0 {
            package + "/"@ + name
        } else {
            name
        },
        None => name,
    }
}

fn place_beside(class_name: &str, name: &str) -> (r: String)
    ensures
        r@ == placed_beside(class_name@, name@),
{
    match class_package(class_name) {
        Some(package) => {
            if fits_bytes(package.as_str(), 0) {
                proof {
                    text_without_bytes_is_empty(package@);
                }
                name.to_string()
            } else {
                cat3(package.as_str(), "/", name)
            }
        },
        None => name.to_string(),
    }
}

/// Only the empty text takes no bytes.
pub proof fn text_without_bytes_is_empty(text: Text)
    ensures
        byte_length(text) == 0 <==> text.len() == 0,
{
}

/// The class of a type with generic arguments, as it reads.
pub open spec fn readable_class(definition_class: Text, arguments: Seq<GenericArg>) -> Text {
    let tokens = argument_tokens(arguments, arguments.len());
    placed_beside(
        definition_class,
        if tokens.1 {
            last_segment(definition_class) + "_"@ + tokens.0
        } else {
            last_segment(definition_class)
        },
    )
}

/// The class of a type with generic arguments: as it reads, or with a hash in place of the
/// arguments where that is too long.
pub open spec fn adt_class(definition_class: Text, arguments: Seq<GenericArg>, hash: Text) -> Text {
    let readable = readable_class(definition_class, arguments);
    if byte_length(readable) <= MAX_TUPLE_NAME_LEN {
        readable
    } else {
        placed_beside(definition_class, last_segment(definition_class) + "_"@ + hash)
    }
}

/// The class of a type with generic arguments; the hash is that of [`adt_name_identity`].
pub fn generate_adt_jvm_class_name(
    definition_class: &str,
    arguments: &Vec<GenericArg>,
    hash: &str,
) -> (r: String)
    ensures
        r@ == adt_class(definition_class@, arguments@, hash@),
{
    let mut tokens = "".to_string();
    let mut found: bool = false;
    for i in 0..arguments.len()
        invariant
            (tokens@, found) == argument_tokens(arguments@, i as nat),
    {
        match readable_rust_generic_arg_name(&arguments[i]) {
            Some(name) => {
                let token = sanitize_name_token(name.as_str());
                if found {
                    tokens = cat3(tokens.as_str(), "_", token.as_str());
                } else {
                    tokens = token;
                }
                found = true;
            },
            None => {},
        }
    }
    let last = last_path_segment(definition_class);
    let readable = if found {
        place_beside(definition_class, cat3(last.as_str(), "_", tokens.as_str()).as_str())
    } else {
        place_beside(definition_class, last.as_str())
    };
    if fits_bytes(readable.as_str(), MAX_TUPLE_NAME_LEN) {
        readable
    } else {
        place_beside(definition_class, cat3(last.as_str(), "_", hash).as_str())
    }
}

/// The names of the first generic arguments, each with an underscore behind it.
pub open spec fn argument_identities(arguments: Seq<GenericArg>, n: nat) -> Text
    decreases n,
{
    if n == 0 || n > arguments.len() {
        ""@
    } else {
        let rest = argument_identities(arguments, (n - 1) as nat);
        match argument_name(arguments[n - 1], NameStyle::Plain) {
            Some(name) => rest + name + "_"@,
            None => rest,
        }
    }
}

/// What the hash of a type with generic arguments is made of.
pub fn adt_name_identity(definition_class: &str, arguments: &Vec<GenericArg>) -> (r: String)
    ensures
        r@ == definition_class@ + "_"@ + argument_identities(arguments@, arguments@.len()),
{
    let start = cat2(definition_class, "_");
    let mut rest = "".to_string();
    for i in 0..arguments.len()
        invariant
            rest@ == argument_identities(arguments@, i as nat),
    {
        match readable_rust_generic_arg_name(&arguments[i]) {
            Some(name) => {
                rest = cat3(rest.as_str(), name.as_str(), "_");
            },
            None => {},
        }
    }
    cat2(start.as_str(), rest.as_str())
}

/// The element types of the tuples that have a readable class name.
pub type TupleNames = NameMap<Vec<Type>>;

/// The representations of types.
pub open spec fn lowered_types(types: Seq<RustType>) -> Seq<TypeModel> {
    Seq::new(types.len(), |i: int| lowered(types[i]))
}

fn lower_types(types: &Vec<RustType>) -> (r: Vec<Type>)
    ensures
        r.deep_view() == lowered_types(types@),
{
    let mut r: Vec<Type> = Vec::new();
    for i in 0..types.len()
        invariant
            r@.len() == i,
            forall|k: int| #![trigger r@[k]] 0 <= k < i ==> r@[k].deep_view() == lowered(types@[k]),
    {
        r.push(types[i].jvm_type());
    }
    assert(r.deep_view() =~= lowered_types(types@));
    r
}

/// The tokens of the first types, joined.
pub open spec fn type_tokens(types: Seq<TypeModel>, n: nat) -> Text
    decreases n,
{
    if n == 0 || n > types.len() {
        ""@
    } else {
        names_joined(
            type_tokens(types, (n - 1) as nat),
            name_token(path_token(types[n - 1])),
            n == 1,
            NameStyle::Plain,
        )
    }
}

/// The class of a tuple, as it reads.
pub open spec fn readable_tuple(types: Seq<TypeModel>) -> Text {
    TUPLE_PREFIX@ + type_tokens(types, types.len())
}

fn make_readable_tuple(types: &Vec<Type>) -> (r: String)
    ensures
        r@ == readable_tuple(types.deep_view()),
{
    let ghost model = types.deep_view();
    let mut tokens = "".to_string();
    for i in 0..types.len()
        invariant
            model == types.deep_view(),
            tokens@ == type_tokens(model, i as nat),
    {
        assert(model[i as int] == types@[i as int].deep_view());
        let token = sanitize_name_token(readable_tuple_abi_type_name(&types[i]).as_str());
        if i == 0 {
            tokens = token;
        } else {
            tokens = cat3(tokens.as_str(), "_", token.as_str());
        }
    }
    cat2(TUPLE_PREFIX, tokens.as_str())
}

/// The types of fields.
pub open spec fn field_types(fields: Seq<(Text, TypeModel)>) -> Seq<TypeModel> {
    Seq::new(fields.len(), |i: int| fields[i].1)
}

/// Whether a name is defined as something else than a class with fields of the given types.
pub open spec fn is_taken(defs: DefinitionsModel, name: Text, types: Seq<TypeModel>) -> bool {
    defs.dom().contains(name) && (!is_class(defs, name) || field_types(fields_of(defs, name))
        != types)
}

fn is_name_taken(defs: &Definitions, name: &str, types: &Vec<Type>) -> (r: bool)
    ensures
        r == is_taken(defs.deep_view(), name@, types.deep_view()),
{
    match defs.get(name) {
        Some(DataType::Class { fields, .. }) => {
            let ghost have = field_types(fields.deep_view());
            let ghost want = types.deep_view();
            if fields.len() != types.len() {
                assert(have.len() != want.len());
                return true;
            }
            for i in 0..fields.len()
                invariant
                    have == field_types(fields.deep_view()),
                    want == types.deep_view(),
                    have == field_types(fields_of(defs.deep_view(), name@)),
                    is_class(defs.deep_view(), name@),
                    fields@.len() == types@.len(),
                    forall|k: int| 0 <= k < i ==> have[k] == want[k],
            {
                assert(have[i as int] == fields@[i as int].1.deep_view());
                assert(want[i as int] == types@[i as int].deep_view());
                if !same_type(&fields[i].1, &types[i]) {
                    return true;
                }
            }
            assert(have =~= want);
            false
        },
        Some(_) => true,
        None => false,
    }
}

/// Whether a readable name is that of other element types.
pub open spec fn is_registered_otherwise(
    names: Map<Text, Seq<TypeModel>>,
    name: Text,
    types: Seq<TypeModel>,
) -> bool {
    names.dom().contains(name) && names[name] != types
}

/// Whether two lists hold the same types.
pub fn same_types_in(a: &Vec<Type>, b: &Vec<Type>) -> (r: bool)
    ensures
        r == (a.deep_view() == b.deep_view()),
{
    let ghost x = a.deep_view();
    let ghost y = b.deep_view();
    if a.len() != b.len() {
        assert(x.len() != y.len());
        return false;
    }
    for i in 0..a.len()
        invariant
            x == a.deep_view(),
            y == b.deep_view(),
            a@.len() == b@.len(),
            forall|k: int| 0 <= k < i ==> x[k] == y[k],
    {
        assert(x[i as int] == a@[i as int].deep_view());
        assert(y[i as int] == b@[i as int].deep_view());
        if !same_type(&a[i], &b[i]) {
            return false;
        }
    }
    assert(x =~= y);
    true
}

/// The readable names after a tuple was named: the first tuple to ask for a name keeps it.
pub open spec fn names_after(
    names: Map<Text, Seq<TypeModel>>,
    types: Seq<TypeModel>,
) -> Map<Text, Seq<TypeModel>> {
    let readable = readable_tuple(types);
    if byte_length(readable) <= MAX_TUPLE_NAME_LEN && !names.dom().contains(readable) {
        names.insert(readable, types)
    } else {
        names
    }
}

/// A name with a hash, or only the hash where that is too long.
pub open spec fn hashed_tuple(types: Seq<TypeModel>, hash: Text) -> Text {
    let disambiguated = readable_tuple(types) + "_"@ + hash;
    if byte_length(disambiguated) <= MAX_TUPLE_NAME_LEN {
        disambiguated
    } else {
        TUPLE_PREFIX@ + hash
    }
}

/// The class of a tuple: as it reads, if that is short enough and not the class of other element
/// types, and with a hash otherwise.
pub open spec fn tuple_class(
    types: Seq<TypeModel>,
    hash: Text,
    defs: DefinitionsModel,
    names: Map<Text, Seq<TypeModel>>,
) -> Text {
    let readable = readable_tuple(types);
    if byte_length(readable) <= MAX_TUPLE_NAME_LEN && !is_taken(defs, readable, types)
        && !is_registered_otherwise(names, readable, types) {
        readable
    } else {
        hashed_tuple(types, hash)
    }
}

/// Names the class of a tuple and defines what its element types need; the hash is that of
/// [`tuple_identity`].
pub fn generate_tuple_jvm_class_name(
    types: &Vec<RustType>,
    hash: &str,
    defs: &mut Definitions,
    names: &mut TupleNames,
) -> (r: String)
    requires
        types_valid(types@),
    ensures
        final(defs).deep_view() == defined_types(types@, 0, old(defs).deep_view()),
        final(names).deep_view() == names_after(
            old(names).deep_view(),
            lowered_types(types@),
        ),
        r@ == tuple_class(
            lowered_types(types@),
            hash@,
            final(defs).deep_view(),
            old(names).deep_view(),
        ),
{
    define_types(types, defs);
    let elements = lower_types(types);
    let readable = make_readable_tuple(&elements);
    let taken = is_name_taken(defs, readable.as_str(), &elements);
    let ghost before = names.deep_view();
    if fits_bytes(readable.as_str(), MAX_TUPLE_NAME_LEN) {
        let registered_otherwise: bool = match names.get(readable.as_str()) {
            Some(existing) => !same_types_in(existing, &elements),
            None => false,
        };
        if !names.contains_key(readable.as_str()) {
            names.insert(readable.clone(), elements);
            assert(names.deep_view() =~= names_after(before, lowered_types(types@)));
        }
        if !taken && !registered_otherwise {
            return readable;
        }
    }
    let disambiguated = cat3(readable.as_str(), "_", hash);
    if fits_bytes(disambiguated.as_str(), MAX_TUPLE_NAME_LEN) {
        disambiguated
    } else {
        cat2(TUPLE_PREFIX, hash)
    }
}

/// A text of characters of one byte has as many bytes as characters.
proof fn ascii_bytes(text: Text)
    requires
        forall|i: int| 0 <= i < text.len() ==> char_bytes(#[trigger] text[i]) == 1,
    ensures
        byte_length(text) == text.len(),
    decreases text.len(),
{
    if text.len() > 0 {
        ascii_bytes(text.drop_last());
    }
}

/// A character takes at most four bytes.
proof fn bytes_are_few(a: Text, b: Text)
    ensures
        byte_length(a + b) <= byte_length(a) + 4 * b.len(),
    decreases b.len(),
{
    if b.len() == 0 {
        assert(a + b =~= a);
    } else {
        assert((a + b).drop_last() =~= a + b.drop_last());
        bytes_are_few(a, b.drop_last());
    }
}

/// The class name of a tuple takes at most 180 bytes: a name that reads too long gives way to its
/// hash. It holds of every hash of at most thirty-nine characters; that of a tuple has ten.
pub proof fn tuple_names_are_short(
    types: Seq<TypeModel>,
    hash: Text,
    defs: DefinitionsModel,
    names: Map<Text, Seq<TypeModel>>,
)
    requires
        hash.len() <= 39,
    ensures
        byte_length(tuple_class(types, hash, defs, names)) <= 180,
{
    reveal_strlit("org/rustlang/core/Tuple_");
    let prefix = TUPLE_PREFIX@;
    assert forall|i: int| 0 <= i < prefix.len() implies char_bytes(#[trigger] prefix[i]) == 1 by {}
    ascii_bytes(prefix);
    bytes_are_few(prefix, hash);
}

/// A tuple that gets a readable class name is registered under it with its element types.
pub proof fn readable_tuple_name_is_registered(
    types: Seq<TypeModel>,
    hash: Text,
    defs: DefinitionsModel,
    names: Map<Text, Seq<TypeModel>>,
)
    requires
        byte_length(readable_tuple(types)) <= MAX_TUPLE_NAME_LEN,
        !is_taken(defs, readable_tuple(types), types),
        !is_registered_otherwise(names, readable_tuple(types), types),
    ensures
        tuple_class(types, hash, defs, names) == readable_tuple(types),
        names_after(names, types).dom().contains(readable_tuple(types)),
        names_after(names, types)[readable_tuple(types)] == types,
{
}

/// Naming tuples never changes which element types a registered name stands for.
pub proof fn registered_tuple_names_stay(
    names: Map<Text, Seq<TypeModel>>,
    types: Seq<TypeModel>,
    name: Text,
)
    requires
        names.dom().contains(name),
    ensures
        names_after(names, types).dom().contains(name),
        names_after(names, types)[name] == names[name],
{
}

/// Two tuples with different element types do not get the same readable class name, whichever is
/// named first.
pub proof fn different_tuples_do_not_share_a_readable_name(
    first: Seq<TypeModel>,
    second: Seq<TypeModel>,
    hash: Text,
    defs: DefinitionsModel,
    names: Map<Text, Seq<TypeModel>>,
)
    requires
        first != second,
        readable_tuple(first) == readable_tuple(second),
        byte_length(readable_tuple(first)) <= MAX_TUPLE_NAME_LEN,
        names.dom().contains(readable_tuple(first)),
        names[readable_tuple(first)] == first,
    ensures
        tuple_class(second, hash, defs, names) == hashed_tuple(second, hash),
{
}

/// The readable names of the first types, joined.
pub open spec fn type_identities(types: Seq<RustType>, n: nat) -> Text
    decreases n,
{
    if n == 0 || n > types.len() {
        ""@
    } else {
        names_joined(
            type_identities(types, (n - 1) as nat),
            name_of_type(types[n - 1], NameStyle::Plain),
            n == 1,
            NameStyle::Plain,
        )
    }
}

/// What the hash of a tuple is made of.
pub fn tuple_identity(types: &Vec<RustType>) -> (r: String)
    ensures
        r@ == type_identities(types@, types@.len()),
{
    let mut r = "".to_string();
    for i in 0..types.len()
        invariant
            r@ == type_identities(types@, i as nat),
    {
        let name = readable_rust_type_name(&types[i]);
        if i == 0 {
            r = name;
        } else {
            r = cat3(r.as_str(), "_", name.as_str());
        }
    }
    r
}

/// Whether generic arguments hold a type or a constant.
pub open spec fn has_named_argument(arguments: Seq<GenericArg>) -> bool {
    exists|i: int| 0 <= i < arguments.len() && !((#[trigger] arguments[i]) is Region)
}

fn holds_named_argument(arguments: &Vec<GenericArg>) -> (r: bool)
    ensures
        r == has_named_argument(arguments@),
{
    for i in 0..arguments.len()
        invariant
            forall|k: int| 0 <= k < i ==> (#[trigger] arguments@[k]) is Region,
    {
        match &arguments[i] {
            GenericArg::Region => {},
            _ => {
                assert(!(arguments@[i as int] is Region));
                return true;
            },
        }
    }
    false
}

/// Whether a bound makes a trait object need an interface of its own.
pub open spec fn is_special(bound: Bound) -> bool {
    match bound {
        Bound::Projection { .. } => true,
        Bound::Trait { arguments, .. } => has_named_argument(arguments@),
        Bound::AutoTrait { .. } => false,
    }
}

/// Whether a trait object needs an interface of its own.
pub open spec fn needs_own_interface(bounds: Seq<Bound>) -> bool {
    exists|i: int| 0 <= i < bounds.len() && is_special(#[trigger] bounds[i])
}

/// Whether a trait object needs an interface of its own.
pub fn needs_specialized_interface(bounds: &Vec<Bound>) -> (r: bool)
    ensures
        r == needs_own_interface(bounds@),
{
    for i in 0..bounds.len()
        invariant
            forall|k: int| 0 <= k < i ==> !is_special(#[trigger] bounds@[k]),
    {
        let special: bool = match &bounds[i] {
            Bound::Projection { .. } => true,
            Bound::Trait { arguments, .. } => holds_named_argument(arguments),
            Bound::AutoTrait { .. } => false,
        };
        if special {
            assert(is_special(bounds@[i as int]));
            return true;
        }
    }
    false
}

/// The identity of the interface of a trait object, a readable form of it, and whether that form
/// has a part.
pub struct InterfaceIdentityModel {
    pub key: Text,
    pub readable: Text,
    pub is_named: bool,
}

/// An identity with more of its key.
pub open spec fn key_extended(
    identity: InterfaceIdentityModel,
    text: Text,
) -> InterfaceIdentityModel {
    InterfaceIdentityModel { key: identity.key + text, ..identity }
}

/// An identity with one more part of its readable form.
pub open spec fn part_added(
    identity: InterfaceIdentityModel,
    part: Text,
) -> InterfaceIdentityModel {
    InterfaceIdentityModel {
        key: identity.key,
        readable: names_joined(identity.readable, part, !identity.is_named, NameStyle::Plain),
        is_named: true,
    }
}

/// What a generic argument is called in a key.
pub open spec fn argument_word_in_key(argument: GenericArg) -> Text {
    match argument {
        GenericArg::Type(_) => "type="@,
        _ => "const="@,
    }
}

/// An identity with the first generic arguments.
pub open spec fn arguments_added(
    identity: InterfaceIdentityModel,
    arguments: Seq<GenericArg>,
    n: nat,
) -> InterfaceIdentityModel
    decreases n,
{
    if n == 0 || n > arguments.len() {
        identity
    } else {
        let rest = arguments_added(identity, arguments, (n - 1) as nat);
        match argument_name(arguments[n - 1], NameStyle::Plain) {
            Some(name) => part_added(
                key_extended(rest, argument_word_in_key(arguments[n - 1]) + name + ";"@),
                name_token(name),
            ),
            None => rest,
        }
    }
}

/// An identity with one more bound.
pub open spec fn bound_added(
    identity: InterfaceIdentityModel,
    bound: Bound,
) -> InterfaceIdentityModel {
    match bound {
        Bound::Trait { path, arguments, .. } => key_extended(
            arguments_added(
                key_extended(identity, "trait="@ + path@ + "["@),
                arguments@,
                arguments@.len(),
            ),
            "];"@,
        ),
        Bound::Projection { path, item_name, arguments, term } => {
            let listed = key_extended(
                arguments_added(
                    key_extended(identity, "projection="@ + path@ + "["@),
                    arguments@,
                    arguments@.len(),
                ),
                "]="@,
            );
            let named = match argument_name(*term, NameStyle::Plain) {
                Some(name) => part_added(
                    key_extended(listed, name),
                    name_token(item_name@) + "_"@ + name_token(name),
                ),
                None => listed,
            };
            key_extended(named, ";"@)
        },
        Bound::AutoTrait { .. } => identity,
    }
}

/// The identity that the first bounds make.
pub open spec fn bounds_identity(bounds: Seq<Bound>, n: nat) -> InterfaceIdentityModel
    decreases n,
{
    if n == 0 || n > bounds.len() {
        InterfaceIdentityModel { key: ""@, readable: ""@, is_named: false }
    } else {
        bound_added(bounds_identity(bounds, (n - 1) as nat), bounds[n - 1])
    }
}

/// The identity of the interface of a trait object, and a readable form of it.
#[derive(Debug)]
pub struct InterfaceIdentity {
    pub key: String,
    pub readable: String,
    pub is_named: bool,
}

impl DeepView for InterfaceIdentity {
    type V = InterfaceIdentityModel;

    open spec fn deep_view(&self) -> InterfaceIdentityModel {
        InterfaceIdentityModel {
            key: self.key@,
            readable: self.readable@,
            is_named: self.is_named,
        }
    }
}

impl InterfaceIdentity {
    fn extend_key(&mut self, text: &str)
        ensures
            final(self).deep_view() == key_extended(old(self).deep_view(), text@),
    {
        self.key = cat2(self.key.as_str(), text);
    }

    fn add_part(&mut self, part: &str)
        ensures
            final(self).deep_view() == part_added(old(self).deep_view(), part@),
    {
        if self.is_named {
            self.readable = cat3(self.readable.as_str(), "_", part);
        } else {
            self.readable = part.to_string();
        }
        self.is_named = true;
    }

    /// Adds a generic argument to the key; the result is its name.
    pub fn append_dynamic_generic_arg_key(&mut self, argument: &GenericArg) -> (r: Option<String>)
        ensures
            r.deep_view() == argument_name(*argument, NameStyle::Plain),
            final(self).deep_view() == (match argument_name(*argument, NameStyle::Plain) {
                Some(name) => key_extended(
                    old(self).deep_view(),
                    argument_word_in_key(*argument) + name + ";"@,
                ),
                None => old(self).deep_view(),
            }),
    {
        let name = readable_rust_generic_arg_name(argument);
        match &name {
            Some(text) => {
                let word = match argument {
                    GenericArg::Type(_) => "type=",
                    _ => "const=",
                };
                self.extend_key(cat3(word, text.as_str(), ";").as_str());
            },
            None => {},
        }
        name
    }

    fn add_arguments(&mut self, arguments: &Vec<GenericArg>)
        ensures
            final(self).deep_view() == arguments_added(
                old(self).deep_view(),
                arguments@,
                arguments@.len(),
            ),
    {
        let ghost start = self.deep_view();
        for i in 0..arguments.len()
            invariant
                self.deep_view() == arguments_added(start, arguments@, i as nat),
        {
            match self.append_dynamic_generic_arg_key(&arguments[i]) {
                Some(name) => self.add_part(sanitize_name_token(name.as_str()).as_str()),
                None => {},
            }
        }
    }

    fn add_bound(&mut self, bound: &Bound)
        ensures
            final(self).deep_view() == bound_added(old(self).deep_view(), *bound),
    {
        match bound {
            Bound::Trait { path, arguments, .. } => {
                self.extend_key(cat3("trait=", path.as_str(), "[").as_str());
                self.add_arguments(arguments);
                self.extend_key("];");
            },
            Bound::Projection { path, item_name, arguments, term } => {
                self.extend_key(cat3("projection=", path.as_str(), "[").as_str());
                self.add_arguments(arguments);
                self.extend_key("]=");
                match readable_rust_generic_arg_name(term) {
                    Some(name) => {
                        self.extend_key(name.as_str());
                        self.add_part(
                            cat3(
                                sanitize_name_token(item_name.as_str()).as_str(),
                                "_",
                                sanitize_name_token(name.as_str()).as_str(),
                            ).as_str(),
                        );
                    },
                    None => {},
                }
                self.extend_key(";");
            },
            Bound::AutoTrait { .. } => {},
        }
    }
}

/// The identity of the interface of a trait object, if it needs one of its own.
pub fn dynamic_interface_identity(bounds: &Vec<Bound>) -> (r: Option<InterfaceIdentity>)
    ensures
        r.deep_view() == (if needs_own_interface(bounds@) {
            Some(bounds_identity(bounds@, bounds@.len()))
        } else {
            None
        }),
{
    if !needs_specialized_interface(bounds) {
        return None;
    }
    let mut r = InterfaceIdentity {
        key: "".to_string(),
        readable: "".to_string(),
        is_named: false,
    };
    for i in 0..bounds.len()
        invariant
            r.deep_view() == bounds_identity(bounds@, i as nat),
    {
        r.add_bound(&bounds[i]);
    }
    Some(r)
}

/// The package of the codec of a type.
pub open spec fn codec_root(ty: RustType, value_ty: TypeModel, crate_root: Text) -> Text {
    match ty.kind {
        TypeKind::Tuple { .. } => "org/rustlang/core"@,
        TypeKind::Array { .. } => "org/rustlang/core"@,
        _ => match value_ty {
            Type::Class(class_name) => match package_of(class_name) {
                Some(package) => package,
                None => crate_root,
            },
            _ => crate_root,
        },
    }
}

/// The class of the codec of a type: tuples and arrays have one for all crates, and the other types
/// have one beside their own class or in the root of the crate.
pub fn pointer_codec_class_name(
    ty: &RustType,
    segment: &str,
    value_ty: &Type,
    crate_root: &str,
) -> (r: String)
    ensures
        r@ == codec_root(*ty, value_ty.deep_view(), crate_root@) + "/"@ + segment@,
{
    let root = match &ty.kind {
        TypeKind::Tuple { .. } | TypeKind::Array { .. } => "org/rustlang/core".to_string(),
        _ => match value_ty {
            Type::Class(class_name) => match class_package(class_name.as_str()) {
                Some(package) => package,
                None => crate_root.to_string(),
            },
            _ => crate_root.to_string(),
        },
    };
    cat3(root.as_str(), "/", segment)
}

/// A path without the crate that it starts in.
pub open spec fn path_in_crate(crate_name: Text, path: Text) -> Text {
    let prefix = crate_name + "::"@;
    if starts_with_text(path, prefix) {
        path.skip(prefix.len() as int)
    } else {
        path
    }
}

/// The path of a definition without the crate that it is in, whatever the crate is called.
pub fn stable_def_path(crate_name: &str, path: &str) -> (r: String)
    ensures
        r@ == path_in_crate(crate_name@, path@),
{
    match strip_prefix(path, cat2(crate_name, "::").as_str()) {
        Some(rest) => rest,
        None => path.to_string(),
    }
}

/// The path of an instance, with its generic arguments, without the crate that it is in.
pub fn stable_instance_key(crate_name: &str, path: &str) -> (r: String)
    ensures
        r@ == path_in_crate(crate_name@, path@),
{
    stable_def_path(crate_name, path)
}

/// A hexadecimal digit.
pub open spec fn hex_digit(n: nat) -> char {
    if n < 10 {
        digit(n)
    } else {
        (n + 87) as char
    }
}

/// The low digits of a number in hexadecimal, most significant first.
pub open spec fn hex_text(n: nat, digits: nat) -> Text
    decreases digits,
{
    if digits == 0 {
        Seq::empty()
    } else {
        hex_text(n / 16, (digits - 1) as nat).push(hex_digit(n % 16))
    }
}

fn hex_char(n: u64) -> (r: char)
    requires
        n < 16,
    ensures
        r == hex_digit(n as nat),
{
    if n < 10 {
        ((n as u8) + 48) as char
    } else {
        ((n as u8) + 87) as char
    }
}

fn hex_digits(n: u64, digits: u32) -> (r: String)
    ensures
        r@ == hex_text(n as nat, digits as nat),
    decreases digits,
{
    if digits == 0 {
        String::new()
    } else {
        let mut r = hex_digits(n / 16, digits - 1);
        r.push(hex_char(n % 16));
        r
    }
}

/// The identity of an instance: sixteen hexadecimal digits of its hash.
pub fn stable_instance_identity(hash: u64) -> (r: String)
    ensures
        r@ == hex_text(hash as nat, 16),
{
    hex_digits(hash, 16)
}

/// A number with its sign.
pub open spec fn signed_decimal(n: int) -> Text {
    if n < 0 {
        "-"@ + decimal_text((-n) as nat)
    } else {
        decimal_text(n as nat)
    }
}

/// The decimal digits of the signed number that bits stand for.
pub fn signed_decimal_of_bits(value: u128) -> (r: String)
    ensures
        r@ == signed_decimal((value as i128) as int),
{
    if value < 0x8000_0000_0000_0000_0000_0000_0000_0000 {
        assert((value as i128) == value) by (bit_vector)
            requires
                value < 0x8000_0000_0000_0000_0000_0000_0000_0000u128,
        ;
        decimal(value)
    } else {
        let magnitude: u128 = u128::MAX - value + 1;
        assert((value as i128) + 0x1_0000_0000_0000_0000_0000_0000_0000_0000 == value)
            by (bit_vector)
            requires
                value >= 0x8000_0000_0000_0000_0000_0000_0000_0000u128,
        ;
        cat2("-", decimal(magnitude).as_str())
    }
}

/// The constant that the bits of a number of a type stand for.
pub open spec fn number_constant(value: u128, ty: RustType) -> ConstantModel {
    match ty.kind {
        TypeKind::Int(kind) => match kind {
            IntKind::I8 => Constant::I8(value as i8),
            IntKind::I16 => Constant::I16(value as i16),
            IntKind::I32 => Constant::I32(value as i32),
            IntKind::I64 => Constant::I64(value as i64),
            IntKind::Isize => Constant::I64(value as i64),
            IntKind::I128 => Constant::Instance {
                class_name: I128_CLASS@,
                param: signed_decimal((value as i128) as int),
            },
        },
        TypeKind::Uint(kind) => match kind {
            UintKind::U8 => Constant::U8(value as u8),
            UintKind::U16 => Constant::U16(value as u16),
            UintKind::U32 => Constant::U32(value as u32),
            UintKind::U64 => Constant::U64(value as u64),
            UintKind::Usize => Constant::U64(value as u64),
            UintKind::U128 => Constant::Instance {
                class_name: U128_CLASS@,
                param: decimal_text(value as nat),
            },
        },
        TypeKind::Bool => Constant::Boolean(value != 0),
        TypeKind::Char => Constant::I32(value as i32),
        _ => Constant::I32(0),
    }
}

/// The constant that the bits of a number of a type stand for; the bits beyond the type are cut
/// off,
/// and other types have the number zero.
pub fn mir_int_to_oomir_const(value: u128, ty: &RustType) -> (r: Constant)
    ensures
        r.deep_view() == number_constant(value, *ty),
{
    match &ty.kind {
        TypeKind::Int(kind) => match kind {
            IntKind::I8 => Constant::I8(value as i8),
            IntKind::I16 => Constant::I16(value as i16),
            IntKind::I32 => Constant::I32(value as i32),
            IntKind::I64 => Constant::I64(value as i64),
            IntKind::Isize => Constant::I64(value as i64),
            IntKind::I128 => Constant::Instance {
                class_name: I128_CLASS.to_string(),
                param: signed_decimal_of_bits(value),
            },
        },
        TypeKind::Uint(kind) => match kind {
            UintKind::U8 => Constant::U8(value as u8),
            UintKind::U16 => Constant::U16(value as u16),
            UintKind::U32 => Constant::U32(value as u32),
            UintKind::U64 => Constant::U64(value as u64),
            UintKind::Usize => Constant::U64(value as u64),
            UintKind::U128 => Constant::Instance {
                class_name: U128_CLASS.to_string(),
                param: decimal(value),
            },
        },
        TypeKind::Bool => Constant::Boolean(value != 0),
        TypeKind::Char => Constant::I32(value as i32),
        _ => Constant::I32(0),
    }
}

/// The constant of a number that is given by its bits in two's complement is the number itself.
pub proof fn numbers_keep_their_value(x: i128, n: u128, ty: RustType)
    ensures
        ty.kind == TypeKind::Int(IntKind::I8) && i8::MIN <= x <= i8::MAX ==> number_constant(
            x as u128,
            ty,
        ) == Constant::<Text>::I8(x as i8) && x as i8 == x,
        ty.kind == TypeKind::Int(IntKind::I16) && i16::MIN <= x <= i16::MAX ==> number_constant(
            x as u128,
            ty,
        ) == Constant::<Text>::I16(x as i16) && x as i16 == x,
        ty.kind == TypeKind::Int(IntKind::I32) && i32::MIN <= x <= i32::MAX ==> number_constant(
            x as u128,
            ty,
        ) == Constant::<Text>::I32(x as i32) && x as i32 == x,
        (ty.kind == TypeKind::Int(IntKind::I64) || ty.kind == TypeKind::Int(IntKind::Isize))
            && i64::MIN <= x <= i64::MAX ==> number_constant(x as u128, ty) == Constant::<
            Text,
        >::I64(x as i64) && x as i64 == x,
        ty.kind == TypeKind::Int(IntKind::I128) ==> number_constant(x as u128, ty)
            == (Constant::Instance { class_name: I128_CLASS@, param: signed_decimal(x as int) }),
        ty.kind == TypeKind::Uint(UintKind::U8) && n <= u8::MAX ==> number_constant(n, ty)
            == Constant::<Text>::U8(n as u8) && n as u8 == n,
        ty.kind == TypeKind::Uint(UintKind::U16) && n <= u16::MAX ==> number_constant(n, ty)
            == Constant::<Text>::U16(n as u16) && n as u16 == n,
        ty.kind == TypeKind::Uint(UintKind::U32) && n <= u32::MAX ==> number_constant(n, ty)
            == Constant::<Text>::U32(n as u32) && n as u32 == n,
        (ty.kind == TypeKind::Uint(UintKind::U64) || ty.kind == TypeKind::Uint(UintKind::Usize))
            && n <= u64::MAX ==> number_constant(n, ty) == Constant::<Text>::U64(n as u64)
            && n as u64 == n,
        ty.kind == TypeKind::Uint(UintKind::U128) ==> number_constant(n, ty)
            == (Constant::Instance { class_name: U128_CLASS@, param: decimal_text(n as nat) }),
{
    assert((x as u128) as i8 == x as i8 && (x as u128) as i16 == x as i16 && (x as u128) as i32
        == x as i32 && (x as u128) as i64 == x as i64 && (x as u128) as i128 == x) by (bit_vector);
}

/// The name of a field of a class by its position, or why there is none.
pub open spec fn field_name_at(owner: Text, index: usize, defs: DefinitionsModel) -> Result<
    Text,
    Text,
> {
    if !defs.dom().contains(owner) {
        Err("DataType not found for class '"@ + owner + "'"@)
    } else if !is_class(defs, owner) {
        Err("Expected class, found interface "@ + owner)
    } else if index < fields_of(defs, owner).len() {
        Ok(fields_of(defs, owner)[index as int].0)
    } else {
        Err(
            "Field index "@ + decimal_text(index as nat) + " out of bounds for class '"@ + owner
                + "' (has "@ + decimal_text(fields_of(defs, owner).len()) + " fields)"@,
        )
    }
}

/// The name of a field of a class by its position, or why there is none.
pub fn get_field_name_from_index(owner: &str, index: usize, defs: &Definitions) -> (r: Result<
    String,
    String,
>)
    ensures
        (match r {
            Ok(name) => Ok(name@),
            Err(reason) => Err(reason@),
        }) == field_name_at(owner@, index, defs.deep_view()),
{
    match defs.get(owner) {
        None => Err(cat3("DataType not found for class '", owner, "'")),
        Some(DataType::Interface { .. }) => Err(cat2("Expected class, found interface ", owner)),
        Some(DataType::Class { fields, .. }) => {
            if index < fields.len() {
                assert(fields.deep_view()[index as int] == fields@[index as int].deep_view());
                Ok(fields[index].0.clone())
            } else {
                let start = cat5(
                    "Field index ",
                    decimal_usize(index).as_str(),
                    " out of bounds for class '",
                    owner,
                    "' (has ",
                );
                Err(cat3(start.as_str(), decimal_usize(fields.len()).as_str(), " fields)"))
            }
        },
    }
}

} // verus!
