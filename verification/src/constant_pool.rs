//! The constant pool of a class file: every constant once, found by its number.
use crate::error::{Error, ErrorModel};
use crate::jvm_ops::{MemberRef, Op, OpModel};
use crate::oomir::Text;
use crate::rust_type::Field;
use crate::text::same;
use crate::oomir::Duplicate;
use vstd::prelude::*;
use vstd::string::*;

verus! {

/// The most constants that a class file can number.
pub const MAX_CONSTANTS: usize = 65534;

/// The three kinds of references to members.
#[derive(Debug, Clone, Copy, PartialEq, Eq, Structural)]
pub enum MemberKind {
    Field,
    Method,
    InterfaceMethod,
}

/// A constant; other constants are meant by their numbers.
#[derive(Debug)]
pub enum PoolEntry<S = String> {
    Utf8(S),
    Class { name: u16 },
    Text { text: u16 },
    NameAndType { name: u16, descriptor: u16 },
    Member { kind: MemberKind, owner: u16, name_and_type: u16 },
}

/// The model of a [`PoolEntry`].
pub type PoolEntryModel = PoolEntry<Text>;

impl DeepView for PoolEntry {
    type V = PoolEntryModel;

    open spec fn deep_view(&self) -> PoolEntryModel {
        match *self {
            PoolEntry::Utf8(text) => PoolEntry::Utf8(text@),
            PoolEntry::Class { name } => PoolEntry::Class { name },
            PoolEntry::Text { text } => PoolEntry::Text { text },
            PoolEntry::NameAndType { name, descriptor } => PoolEntry::NameAndType {
                name,
                descriptor,
            },
            PoolEntry::Member { kind, owner, name_and_type } => PoolEntry::Member {
                kind,
                owner,
                name_and_type,
            },
        }
    }
}

/// Whether two constants are the same.
pub fn same_entry(a: &PoolEntry, b: &PoolEntry) -> (r: bool)
    ensures
        r == (a.deep_view() == b.deep_view()),
{
    match (a, b) {
        (PoolEntry::Utf8(x), PoolEntry::Utf8(y)) => same(x.as_str(), y.as_str()),
        (PoolEntry::Class { name: x }, PoolEntry::Class { name: y }) => *x == *y,
        (PoolEntry::Text { text: x }, PoolEntry::Text { text: y }) => *x == *y,
        (
            PoolEntry::NameAndType { name: x, descriptor: p },
            PoolEntry::NameAndType { name: y, descriptor: q },
        ) => *x == *y && *p == *q,
        (
            PoolEntry::Member { kind: k, owner: x, name_and_type: p },
            PoolEntry::Member { kind: l, owner: y, name_and_type: q },
        ) => *k == *l && *x == *y && *p == *q,
        _ => false,
    }
}

/// The constants of a class file in the order of their numbers, which start at one.
pub struct ConstantPool {
    entries: Vec<PoolEntry>,
}

impl ConstantPool {
    /// Every constant stands once, and all can be numbered.
    #[verifier::type_invariant]
    spec fn well_formed(self) -> bool {
        self.entries.deep_view().no_duplicates() && self.entries@.len() <= MAX_CONSTANTS
    }

    /// The constants.
    pub closed spec fn constants(self) -> Seq<PoolEntryModel> {
        self.entries.deep_view()
    }

    /// A pool without constants.
    pub fn new() -> (r: Self)
        ensures
            r.constants() == Seq::<PoolEntryModel>::empty(),
    {
        let entries: Vec<PoolEntry> = Vec::new();
        assert(entries.deep_view() =~= Seq::<PoolEntryModel>::empty());
        ConstantPool { entries }
    }

    /// No constant stands twice in a pool, and all constants can be numbered.
    pub fn verify_no_duplicate_constants(&self)
        ensures
            self.constants().no_duplicates(),
            self.constants().len() <= MAX_CONSTANTS,
    {
        proof {
            use_type_invariant(self);
        }
        assert(self.entries.deep_view().len() == self.entries@.len());
    }

    /// The number of constants.
    pub fn len(&self) -> (r: usize)
        ensures
            r == self.constants().len(),
    {
        assert(self.entries.deep_view().len() == self.entries@.len());
        self.entries.len()
    }

    /// The constant with a number.
    pub fn get(&self, number: u16) -> (r: Option<&PoolEntry>)
        ensures
            (match r {
                Some(entry) => Some(entry.deep_view()),
                None => None,
            }) == entry_at(self.constants(), number),
    {
        assert(self.entries.deep_view().len() == self.entries@.len());
        if number == 0 || number as usize > self.entries.len() {
            None
        } else {
            assert(self.entries.deep_view()[number - 1] == self.entries@[number - 1].deep_view());
            Some(&self.entries[number as usize - 1])
        }
    }

    /// Adds a constant unless it is there; the result is its number.
    pub fn add_entry(&mut self, entry: PoolEntry) -> (r: Result<u16, Error>)
        ensures
            (final(self).constants(), outcome_of(r)) == interned(
                entry.deep_view(),
                old(self).constants(),
            ),
    {
        proof {
            use_type_invariant(&*self);
        }
        let ghost before = self.entries.deep_view();
        let ghost model = entry.deep_view();
        assert(before.len() == self.entries@.len());
        let count: usize = self.entries.len();
        for i in 0..count
            invariant
                count == self.entries@.len(),
                count <= MAX_CONSTANTS,
                before == self.entries.deep_view(),
                before == old(self).constants(),
                before == self.constants(),
                before.no_duplicates(),
                model == entry.deep_view(),
                forall|k: int| 0 <= k < i ==> before[k] != model,
        {
            assert(before[i as int] == self.entries@[i as int].deep_view());
            if same_entry(&self.entries[i], &entry) {
                proof {
                    number_is_unique(before, model, i as int);
                }
                return Ok((i + 1) as u16);
            }
        }
        assert(!before.contains(model));
        if count == MAX_CONSTANTS {
            return Err(Error::ConstantPoolFull);
        }
        let mut entries: Vec<PoolEntry> = Vec::new();
        std::mem::swap(&mut entries, &mut self.entries);
        entries.push(entry);
        assert(entries.deep_view() =~= before.push(model));
        assert(before.push(model).no_duplicates());
        self.entries = entries;
        Ok((count + 1) as u16)
    }
}

/// The outcome of numbering a constant.
pub open spec fn outcome_of(r: Result<u16, Error>) -> Result<u16, ErrorModel> {
    match r {
        Ok(number) => Ok(number),
        Err(error) => Err(error.deep_view()),
    }
}

/// The constant with a number.
pub open spec fn entry_at(pool: Seq<PoolEntryModel>, number: u16) -> Option<PoolEntryModel> {
    if 1 <= number <= pool.len() {
        Some(pool[number - 1])
    } else {
        None
    }
}

/// The number of a constant that is in a pool.
pub open spec fn number_of(pool: Seq<PoolEntryModel>, entry: PoolEntryModel) -> u16 {
    (pool.index_of(entry) + 1) as u16
}

/// In a pool without duplicates a constant has one number.
pub proof fn number_is_unique(pool: Seq<PoolEntryModel>, entry: PoolEntryModel, i: int)
    requires
        pool.no_duplicates(),
        0 <= i < pool.len(),
        pool[i] == entry,
    ensures
        pool.contains(entry),
        pool.index_of(entry) == i,
{
    assert(pool.contains(entry));
}

/// A pool with a constant, and its number, or the error that the pool is full.
pub open spec fn interned(entry: PoolEntryModel, pool: Seq<PoolEntryModel>) -> (
    Seq<PoolEntryModel>,
    Result<u16, ErrorModel>,
) {
    if pool.contains(entry) {
        (pool, Ok(number_of(pool, entry)))
    } else if pool.len() >= MAX_CONSTANTS {
        (pool, Err(Error::ConstantPoolFull))
    } else {
        (pool.push(entry), Ok((pool.len() + 1) as u16))
    }
}

/// Whether a pool holds all constants of another under the same numbers.
pub open spec fn extends(pool: Seq<PoolEntryModel>, before: Seq<PoolEntryModel>) -> bool {
    &&& before.len() <= pool.len() <= MAX_CONSTANTS
    &&& pool.no_duplicates()
    &&& forall|i: int| 0 <= i < before.len() ==> #[trigger] pool[i] == before[i]
}

/// Interning keeps what is in the pool, keeps its constants apart, and gives the number of the
/// constant.
pub proof fn interning_extends(entry: PoolEntryModel, pool: Seq<PoolEntryModel>)
    requires
        pool.no_duplicates(),
        pool.len() <= MAX_CONSTANTS,
    ensures
        ({
            let (after, outcome) = interned(entry, pool);
            &&& extends(after, pool)
            &&& outcome matches Ok(number) ==> entry_at(after, number) == Some(entry)
        }),
{
    if pool.contains(entry) {
        let i = pool.index_of(entry);
        assert(0 <= i < pool.len() && pool[i] == entry);
    } else if pool.len() < MAX_CONSTANTS {
        assert(pool.push(entry).no_duplicates());
    }
}

/// A pool with a text, and the number of the text.
pub open spec fn text_added(text: Text, pool: Seq<PoolEntryModel>) -> (
    Seq<PoolEntryModel>,
    Result<u16, ErrorModel>,
) {
    interned(PoolEntry::Utf8(text), pool)
}

/// A pool with a class, and the number of the class.
pub open spec fn class_added(name: Text, pool: Seq<PoolEntryModel>) -> (
    Seq<PoolEntryModel>,
    Result<u16, ErrorModel>,
) {
    let (pool, outcome) = text_added(name, pool);
    match outcome {
        Ok(number) => interned(PoolEntry::Class { name: number }, pool),
        Err(error) => (pool, Err(error)),
    }
}

/// A pool with a string, and the number of the string.
pub open spec fn string_added(text: Text, pool: Seq<PoolEntryModel>) -> (
    Seq<PoolEntryModel>,
    Result<u16, ErrorModel>,
) {
    let (pool, outcome) = text_added(text, pool);
    match outcome {
        Ok(number) => interned(PoolEntry::Text { text: number }, pool),
        Err(error) => (pool, Err(error)),
    }
}

/// A pool with a name and a descriptor, and the number of both.
pub open spec fn name_and_type_added(name: Text, descriptor: Text, pool: Seq<PoolEntryModel>) -> (
    Seq<PoolEntryModel>,
    Result<u16, ErrorModel>,
) {
    let (pool, outcome) = text_added(name, pool);
    match outcome {
        Ok(first) => {
            let (pool, outcome) = text_added(descriptor, pool);
            match outcome {
                Ok(second) => interned(
                    PoolEntry::NameAndType { name: first, descriptor: second },
                    pool,
                ),
                Err(error) => (pool, Err(error)),
            }
        },
        Err(error) => (pool, Err(error)),
    }
}

/// A pool with a member of a class, and the number of the member.
pub open spec fn member_added(
    kind: MemberKind,
    member: MemberRef<Text>,
    pool: Seq<PoolEntryModel>,
) -> (Seq<PoolEntryModel>, Result<u16, ErrorModel>) {
    let (pool, outcome) = class_added(member.owner, pool);
    match outcome {
        Ok(owner) => {
            let (pool, outcome) = name_and_type_added(member.name, member.descriptor, pool);
            match outcome {
                Ok(name_and_type) => interned(
                    PoolEntry::Member { kind, owner, name_and_type },
                    pool,
                ),
                Err(error) => (pool, Err(error)),
            }
        },
        Err(error) => (pool, Err(error)),
    }
}

/// What an instruction or another part of a class file refers to.
#[derive(Debug)]
pub enum Reference<S = String> {
    Utf8(S),
    Class(S),
    Text(S),
    Member { kind: MemberKind, member: MemberRef<S> },
}

/// The model of a [`Reference`].
pub type ReferenceModel = Reference<Text>;

impl DeepView for Reference {
    type V = ReferenceModel;

    open spec fn deep_view(&self) -> ReferenceModel {
        match *self {
            Reference::Utf8(text) => Reference::Utf8(text@),
            Reference::Class(name) => Reference::Class(name@),
            Reference::Text(text) => Reference::Text(text@),
            Reference::Member { kind, member } => Reference::Member {
                kind,
                member: member.deep_view(),
            },
        }
    }
}

/// A pool with what a part of a class file refers to, and its number.
pub open spec fn reference_added(reference: ReferenceModel, pool: Seq<PoolEntryModel>) -> (
    Seq<PoolEntryModel>,
    Result<u16, ErrorModel>,
) {
    match reference {
        Reference::Utf8(text) => text_added(text, pool),
        Reference::Class(name) => class_added(name, pool),
        Reference::Text(text) => string_added(text, pool),
        Reference::Member { kind, member } => member_added(kind, member, pool),
    }
}

/// The text with a number.
pub open spec fn utf8_at(pool: Seq<PoolEntryModel>, number: u16) -> Option<Text> {
    match entry_at(pool, number) {
        Some(PoolEntry::Utf8(text)) => Some(text),
        _ => None,
    }
}

/// The class with a number.
pub open spec fn class_at(pool: Seq<PoolEntryModel>, number: u16) -> Option<Text> {
    match entry_at(pool, number) {
        Some(PoolEntry::Class { name }) => utf8_at(pool, name),
        _ => None,
    }
}

/// The name and the descriptor with a number.
pub open spec fn name_and_type_at(pool: Seq<PoolEntryModel>, number: u16) -> Option<(Text, Text)> {
    match entry_at(pool, number) {
        Some(PoolEntry::NameAndType { name, descriptor }) => match (
            utf8_at(pool, name),
            utf8_at(pool, descriptor),
        ) {
            (Some(name), Some(descriptor)) => Some((name, descriptor)),
            _ => None,
        },
        _ => None,
    }
}

/// What a number refers to.
pub open spec fn reference_at(pool: Seq<PoolEntryModel>, number: u16) -> Option<ReferenceModel> {
    match entry_at(pool, number) {
        Some(PoolEntry::Utf8(text)) => Some(Reference::Utf8(text)),
        Some(PoolEntry::Class { name }) => match utf8_at(pool, name) {
            Some(name) => Some(Reference::Class(name)),
            None => None,
        },
        Some(PoolEntry::Text { text }) => match utf8_at(pool, text) {
            Some(text) => Some(Reference::Text(text)),
            None => None,
        },
        Some(PoolEntry::Member { kind, owner, name_and_type }) => match (
            class_at(pool, owner),
            name_and_type_at(pool, name_and_type),
        ) {
            (Some(owner), Some((name, descriptor))) => Some(
                Reference::Member { kind, member: MemberRef { owner, name, descriptor } },
            ),
            _ => None,
        },
        _ => None,
    }
}

/// What a number refers to stays the same in a pool that holds more.
pub proof fn references_stay(
    pool: Seq<PoolEntryModel>,
    before: Seq<PoolEntryModel>,
    number: u16,
)
    requires
        extends(pool, before),
        reference_at(before, number) is Some,
    ensures
        reference_at(pool, number) == reference_at(before, number),
{
}

impl ConstantPool {
    /// Adds a text; the result is its number.
    pub fn add_utf8(&mut self, text: &str) -> (r: Result<u16, Error>)
        ensures
            (final(self).constants(), outcome_of(r)) == text_added(
                text@,
                old(self).constants(),
            ),
            extends(final(self).constants(), old(self).constants()),
            r matches Ok(number) ==> reference_at(final(self).constants(), number) == Some(
                Reference::Utf8(text@),
            ),
            final(self).constants().len() <= old(self).constants().len() + 1,
            r matches Err(error) ==> error.deep_view() == Error::<Text>::ConstantPoolFull
                && final(self).constants().len() == MAX_CONSTANTS
                && old(self).constants().len() + 1 > MAX_CONSTANTS,
    {
        self.verify_no_duplicate_constants();
        proof {
            interning_extends(PoolEntry::Utf8(text@), self.constants());
        }
        self.add_entry(PoolEntry::Utf8(text.to_string()))
    }

    /// Adds a class; the result is its number.
    pub fn add_class(&mut self, name: &str) -> (r: Result<u16, Error>)
        ensures
            (final(self).constants(), outcome_of(r)) == class_added(
                name@,
                old(self).constants(),
            ),
            extends(final(self).constants(), old(self).constants()),
            r matches Ok(number) ==> reference_at(final(self).constants(), number) == Some(
                Reference::Class(name@),
            ),
            final(self).constants().len() <= old(self).constants().len() + 2,
            r matches Err(error) ==> error.deep_view() == Error::<Text>::ConstantPoolFull
                && final(self).constants().len() == MAX_CONSTANTS
                && old(self).constants().len() + 2 > MAX_CONSTANTS,
    {
        let name = match self.add_utf8(name) {
            Ok(number) => number,
            Err(error) => return Err(error),
        };
        let ghost middle = self.constants();
        self.verify_no_duplicate_constants();
        proof {
            interning_extends(PoolEntry::Class { name }, self.constants());
        }
        let r = self.add_entry(PoolEntry::Class { name });
        proof {
            references_stay(self.constants(), middle, name);
        }
        r
    }

    /// Adds a string; the result is its number.
    pub fn add_string(&mut self, text: &str) -> (r: Result<u16, Error>)
        ensures
            (final(self).constants(), outcome_of(r)) == string_added(
                text@,
                old(self).constants(),
            ),
            extends(final(self).constants(), old(self).constants()),
            r matches Ok(number) ==> reference_at(final(self).constants(), number) == Some(
                Reference::Text(text@),
            ),
            final(self).constants().len() <= old(self).constants().len() + 2,
            r matches Err(error) ==> error.deep_view() == Error::<Text>::ConstantPoolFull
                && final(self).constants().len() == MAX_CONSTANTS
                && old(self).constants().len() + 2 > MAX_CONSTANTS,
    {
        let text = match self.add_utf8(text) {
            Ok(number) => number,
            Err(error) => return Err(error),
        };
        let ghost middle = self.constants();
        self.verify_no_duplicate_constants();
        proof {
            interning_extends(PoolEntry::Text { text }, self.constants());
        }
        let r = self.add_entry(PoolEntry::Text { text });
        proof {
            references_stay(self.constants(), middle, text);
        }
        r
    }

    fn add_name_and_type(&mut self, name: &str, descriptor: &str) -> (r: Result<u16, Error>)
        ensures
            (final(self).constants(), outcome_of(r)) == name_and_type_added(
                name@,
                descriptor@,
                old(self).constants(),
            ),
            extends(final(self).constants(), old(self).constants()),
            r matches Ok(number) ==> name_and_type_at(final(self).constants(), number) == Some(
                (name@, descriptor@),
            ),
            final(self).constants().len() <= old(self).constants().len() + 3,
            r matches Err(error) ==> error.deep_view() == Error::<Text>::ConstantPoolFull
                && final(self).constants().len() == MAX_CONSTANTS
                && old(self).constants().len() + 3 > MAX_CONSTANTS,
    {
        let name = match self.add_utf8(name) {
            Ok(number) => number,
            Err(error) => return Err(error),
        };
        let ghost first = self.constants();
        let descriptor = match self.add_utf8(descriptor) {
            Ok(number) => number,
            Err(error) => return Err(error),
        };
        let ghost second = self.constants();
        self.verify_no_duplicate_constants();
        proof {
            references_stay(second, first, name);
            interning_extends(PoolEntry::NameAndType { name, descriptor }, self.constants());
        }
        let r = self.add_entry(PoolEntry::NameAndType { name, descriptor });
        proof {
            references_stay(self.constants(), second, name);
            references_stay(self.constants(), second, descriptor);
        }
        r
    }

    /// Adds a reference to a member of a class; the result is its number.
    #[verifier::rlimit(40)]
    pub fn add_member_ref(
        &mut self,
        kind: MemberKind,
        member: &MemberRef,
    ) -> (r: Result<u16, Error>)
        ensures
            (final(self).constants(), outcome_of(r)) == member_added(
                kind,
                member.deep_view(),
                old(self).constants(),
            ),
            extends(final(self).constants(), old(self).constants()),
            r matches Ok(number) ==> reference_at(final(self).constants(), number) == Some(
                Reference::Member { kind, member: member.deep_view() },
            ),
            final(self).constants().len() <= old(self).constants().len() + 6,
            r matches Err(error) ==> error.deep_view() == Error::<Text>::ConstantPoolFull
                && final(self).constants().len() == MAX_CONSTANTS
                && old(self).constants().len() + 6 > MAX_CONSTANTS,
    {
        let owner = match self.add_class(member.owner.as_str()) {
            Ok(number) => number,
            Err(error) => return Err(error),
        };
        let ghost first = self.constants();
        let name_and_type = match self.add_name_and_type(
            member.name.as_str(),
            member.descriptor.as_str(),
        ) {
            Ok(number) => number,
            Err(error) => return Err(error),
        };
        let ghost second = self.constants();
        self.verify_no_duplicate_constants();
        proof {
            references_stay(second, first, owner);
            interning_extends(PoolEntry::Member { kind, owner, name_and_type }, self.constants());
        }
        let r = self.add_entry(PoolEntry::Member { kind, owner, name_and_type });
        proof {
            references_stay(self.constants(), second, owner);
        }
        r
    }

    /// Adds what a part of a class file refers to; the result is its number.
    pub fn add_reference(&mut self, reference: &Reference) -> (r: Result<u16, Error>)
        ensures
            (final(self).constants(), outcome_of(r)) == reference_added(
                reference.deep_view(),
                old(self).constants(),
            ),
            extends(final(self).constants(), old(self).constants()),
            r matches Ok(number) ==> reference_at(final(self).constants(), number) == Some(
                reference.deep_view(),
            ),
            final(self).constants().len() <= old(self).constants().len() + 6,
            r matches Err(error) ==> error.deep_view() == Error::<Text>::ConstantPoolFull
                && final(self).constants().len() == MAX_CONSTANTS
                && old(self).constants().len() + 6 > MAX_CONSTANTS,
    {
        match reference {
            Reference::Utf8(text) => self.add_utf8(text.as_str()),
            Reference::Class(name) => self.add_class(name.as_str()),
            Reference::Text(text) => self.add_string(text.as_str()),
            Reference::Member { kind, member } => self.add_member_ref(*kind, member),
        }
    }
}

/// What an instruction refers to, if it refers to a constant that the pool numbers.
pub open spec fn reference_of(op: OpModel) -> Option<ReferenceModel> {
    match op {
        Op::PushText { text } => Some(Reference::Text(text)),
        Op::GetField { member } => Some(Reference::Member { kind: MemberKind::Field, member }),
        Op::PutField { member } => Some(Reference::Member { kind: MemberKind::Field, member }),
        Op::GetStatic { member } => Some(Reference::Member { kind: MemberKind::Field, member }),
        Op::InvokeVirtual { member } => Some(
            Reference::Member { kind: MemberKind::Method, member },
        ),
        Op::InvokeSpecial { member } => Some(
            Reference::Member { kind: MemberKind::Method, member },
        ),
        Op::InvokeStatic { member } => Some(
            Reference::Member { kind: MemberKind::Method, member },
        ),
        Op::InvokeInterface { member, .. } => Some(
            Reference::Member { kind: MemberKind::InterfaceMethod, member },
        ),
        Op::New { class_name } => Some(Reference::Class(class_name)),
        Op::CheckCast { class_name } => Some(Reference::Class(class_name)),
        _ => None,
    }
}

fn get_reference(op: &Op) -> (r: Option<Reference>)
    ensures
        r.deep_view() == reference_of(op.deep_view()),
{
    match op {
        Op::PushText { text } => Some(Reference::Text(text.clone())),
        Op::GetField { member } => Some(
            Reference::Member { kind: MemberKind::Field, member: member.dup() },
        ),
        Op::PutField { member } => Some(
            Reference::Member { kind: MemberKind::Field, member: member.dup() },
        ),
        Op::GetStatic { member } => Some(
            Reference::Member { kind: MemberKind::Field, member: member.dup() },
        ),
        Op::InvokeVirtual { member } => Some(
            Reference::Member { kind: MemberKind::Method, member: member.dup() },
        ),
        Op::InvokeSpecial { member } => Some(
            Reference::Member { kind: MemberKind::Method, member: member.dup() },
        ),
        Op::InvokeStatic { member } => Some(
            Reference::Member { kind: MemberKind::Method, member: member.dup() },
        ),
        Op::InvokeInterface { member, .. } => Some(
            Reference::Member { kind: MemberKind::InterfaceMethod, member: member.dup() },
        ),
        Op::New { class_name } => Some(Reference::Class(class_name.clone())),
        Op::CheckCast { class_name } => Some(Reference::Class(class_name.clone())),
        _ => None,
    }
}

/// Whether numbers stand for what the instructions refer to: each instruction that refers to a
/// constant has the number of that constant, and each other instruction has none.
pub open spec fn numbers_match(
    pool: Seq<PoolEntryModel>,
    ops: Seq<OpModel>,
    numbers: Seq<Option<u16>>,
) -> bool {
    &&& numbers.len() == ops.len()
    &&& forall|i: int|
        0 <= i < ops.len() ==> match #[trigger] numbers[i] {
            Some(number) => reference_of(ops[i]) is Some && reference_at(pool, number)
                == reference_of(ops[i]),
            None => reference_of(ops[i]) is None,
        }
}

/// Numbers that match instructions still match them in a pool that holds more.
pub proof fn matching_numbers_stay(
    pool: Seq<PoolEntryModel>,
    before: Seq<PoolEntryModel>,
    ops: Seq<OpModel>,
    numbers: Seq<Option<u16>>,
)
    requires
        extends(pool, before),
        numbers_match(before, ops, numbers),
    ensures
        numbers_match(pool, ops, numbers),
{
    assert forall|i: int| 0 <= i < ops.len() implies match #[trigger] numbers[i] {
        Some(number) => reference_of(ops[i]) is Some && reference_at(pool, number) == reference_of(
            ops[i],
        ),
        None => reference_of(ops[i]) is None,
    } by {
        match numbers[i] {
            Some(number) => {
                references_stay(pool, before, number);
            },
            None => {},
        }
    }
}

/// A pool with what the first instructions refer to, and whether there was room for all of it.
pub open spec fn ops_added(ops: Seq<OpModel>, n: nat, pool: Seq<PoolEntryModel>) -> (
    Seq<PoolEntryModel>,
    bool,
)
    decreases n,
{
    if n == 0 || n > ops.len() {
        (pool, true)
    } else {
        let (pool, has_room) = ops_added(ops, (n - 1) as nat, pool);
        match reference_of(ops[n - 1]) {
            Some(reference) => if has_room {
                let (pool, outcome) = reference_added(reference, pool);
                (pool, outcome is Ok)
            } else {
                (pool, false)
            },
            None => (pool, has_room),
        }
    }
}

/// Where there was no room for the first instructions there is none for more.
pub proof fn a_full_pool_stays_full(
    ops: Seq<OpModel>,
    n: nat,
    m: nat,
    pool: Seq<PoolEntryModel>,
)
    requires
        n <= m <= ops.len(),
        !ops_added(ops, n, pool).1,
    ensures
        ops_added(ops, m, pool) == ops_added(ops, n, pool),
    decreases m,
{
    if n < m {
        a_full_pool_stays_full(ops, n, (m - 1) as nat, pool);
    }
}

/// Numbers the constants that instructions refer to.
pub fn number_ops(ops: &Vec<Op>, pool: &mut ConstantPool) -> (r: Result<Vec<Option<u16>>, Error>)
    ensures
        (final(pool).constants(), r is Ok) == ops_added(
            ops.deep_view(),
            ops@.len(),
            old(pool).constants(),
        ),
        extends(final(pool).constants(), old(pool).constants()),
        r matches Ok(numbers) ==> numbers_match(
            final(pool).constants(),
            ops.deep_view(),
            numbers@,
        ),
        final(pool).constants().len() <= old(pool).constants().len() + 6 * ops@.len(),
        r matches Err(error) ==> error.deep_view() == Error::<Text>::ConstantPoolFull
            && final(pool).constants().len() == MAX_CONSTANTS && old(pool).constants().len() + 6
            * ops@.len() > MAX_CONSTANTS,
{
    pool.verify_no_duplicate_constants();
    let ghost start = pool.constants();
    let ghost model = ops.deep_view();
    let mut numbers: Vec<Option<u16>> = Vec::new();
    for i in 0..ops.len()
        invariant
            start == old(pool).constants(),
            model == ops.deep_view(),
            extends(pool.constants(), start),
            pool.constants().len() <= start.len() + 6 * i,
            (pool.constants(), true) == ops_added(model, i as nat, start),
            numbers_match(pool.constants(), model.take(i as int), numbers@),
    {
        assert(model[i as int] == ops@[i as int].deep_view());
        let ghost before = pool.constants();
        let ghost had = numbers@;
        match get_reference(&ops[i]) {
            Some(reference) => {
                let number = match pool.add_reference(&reference) {
                    Ok(number) => number,
                    Err(error) => {
                        proof {
                            assert(model.len() == ops@.len());
                            a_full_pool_stays_full(model, (i + 1) as nat, model.len(), start);
                        }
                        return Err(error);
                    },
                };
                proof {
                    matching_numbers_stay(
                        pool.constants(),
                        before,
                        model.take(i as int),
                        numbers@,
                    );
                }
                numbers.push(Some(number));
            },
            None => {
                numbers.push(None);
            },
        }
        proof {
            let whole = model.take(i + 1);
            assert forall|k: int| 0 <= k < whole.len() implies match #[trigger] numbers@[k] {
                Some(number) => reference_of(whole[k]) is Some && reference_at(
                    pool.constants(),
                    number,
                ) == reference_of(whole[k]),
                None => reference_of(whole[k]) is None,
            } by {
                if k < i {
                    assert(numbers@[k] == had[k]);
                    assert(whole[k] == model.take(i as int)[k]);
                }
            }
        }
    }
    assert(model.take(ops@.len() as int) =~= model);
    Ok(numbers)
}

} // verus!
