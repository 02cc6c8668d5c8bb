//! Names of generated classes and members.
use crate::text::{cat2, chars_of, string_of};
use vstd::prelude::*;

verus! {

/// The name of the constructor that stores a union member; `member` is the member's JVM name.
pub fn union_from_method_name(member: &str) -> (r: String)
    ensures
        r@ == "from_"@ + member@,
{
    cat2("from_", member)
}

/// The name of the reader of a union member; `member` is the member's JVM name.
pub fn union_getter_method_name(member: &str) -> (r: String)
    ensures
        r@ == "get_"@ + member@,
{
    cat2("get_", member)
}

/// The name of the writer of a union member; `member` is the member's JVM name.
pub fn union_setter_method_name(member: &str) -> (r: String)
    ensures
        r@ == "set_"@ + member@,
{
    cat2("set_", member)
}

/// The first `length` characters of a digest, or all of it where it is shorter.
pub open spec fn shortened(digest: Seq<char>, length: nat) -> Seq<char> {
    if length < digest.len() {
        digest.take(length as int)
    } else {
        digest
    }
}

/// The first `length` characters of a digest, or all of it where it is shorter.
pub fn short_hash(digest: &str, length: usize) -> (r: String)
    ensures
        r@ == shortened(digest@, length as nat),
{
    let all = chars_of(digest);
    let mut r: Vec<char> = Vec::new();
    let mut i: usize = 0;
    while i < length && i < all.len()
        invariant
            i <= length,
            i <= all@.len(),
            all@ == digest@,
            r@ == digest@.take(i as int),
        decreases all@.len() - i,
    {
        assert(digest@.take(i + 1) =~= digest@.take(i as int).push(digest@[i as int]));
        r.push(all[i]);
        i = i + 1;
    }
    assert(digest@.take(digest@.len() as int) =~= digest@);
    string_of(&r)
}

/// Whether a character may stand in a generated name: an ASCII letter, an ASCII digit or `_`.
pub open spec fn is_name_char(c: char) -> bool {
    ('a' <= c && c <= 'z') || ('A' <= c && c <= 'Z') || ('0' <= c && c <= '9') || c == '_'
}

/// `s` with each run of other characters between name characters as one `_`, and none in front.
pub open spec fn separated(s: Seq<char>) -> Seq<char>
    decreases s.len(),
{
    if s.len() == 0 {
        Seq::empty()
    } else {
        let front = separated(s.drop_last());
        if is_name_char(s.last()) {
            front.push(s.last())
        } else if front.len() > 0 && is_name_char(s[s.len() - 2]) {
            front.push('_')
        } else {
            front
        }
    }
}

/// `s` without the `_` at its end.
pub open spec fn trimmed(s: Seq<char>) -> Seq<char>
    decreases s.len(),
{
    if s.len() > 0 && s.last() == '_' {
        trimmed(s.drop_last())
    } else {
        s
    }
}

/// The name token of a text: its name characters with one `_` for each run of others between them,
/// without `_` at the end, or `Type` where nothing is left.
pub open spec fn name_token(s: Seq<char>) -> Seq<char> {
    let token = trimmed(separated(s));
    if token.len() == 0 {
        "Type"@
    } else {
        token
    }
}

/// Makes a token of ASCII letters, digits and underscores.
pub fn sanitize_name_token(s: &str) -> (r: String)
    ensures
        r@ == name_token(s@),
{
    let all = chars_of(s);
    let mut token: Vec<char> = Vec::new();
    let mut previous_was_separator: bool = false;
    assert(s@.take(0) =~= Seq::<char>::empty());
    for i in 0..all.len()
        invariant
            all@ == s@,
            token@ == separated(s@.take(i as int)),
            token@.len() > 0 ==> i > 0 && previous_was_separator == !is_name_char(s@[i - 1]),
    {
        let c: char = all[i];
        let ghost now = s@.take(i + 1);
        assert(now.drop_last() =~= s@.take(i as int));
        assert(now.last() == c);
        if ('a' <= c && c <= 'z') || ('A' <= c && c <= 'Z') || ('0' <= c && c <= '9') || c == '_' {
            token.push(c);
            previous_was_separator = false;
        } else if !previous_was_separator && token.len() > 0 {
            token.push('_');
            previous_was_separator = true;
        }
    }
    assert(s@.take(s@.len() as int) =~= s@);
    while token.len() > 0 && token[token.len() - 1] == '_'
        invariant
            trimmed(token@) == trimmed(separated(s@)),
        decreases token@.len(),
    {
        let ghost before = token@;
        token.pop();
        assert(token@ =~= before.drop_last());
    }
    if token.len() == 0 {
        "Type".to_string()
    } else {
        string_of(&token)
    }
}

proof fn lemma_separated(s: Seq<char>)
    ensures
        forall|i: int| 0 <= i < separated(s).len() ==> is_name_char(#[trigger] separated(s)[i]),
    decreases s.len(),
{
    if s.len() > 0 {
        let front = separated(s.drop_last());
        lemma_separated(s.drop_last());
        assert forall|i: int| 0 <= i < separated(s).len() implies is_name_char(
            #[trigger] separated(s)[i],
        ) by {
            if i < front.len() {
                assert(separated(s)[i] == front[i]);
            }
        }
    }
}

proof fn lemma_separated_name(s: Seq<char>)
    requires
        forall|i: int| 0 <= i < s.len() ==> is_name_char(#[trigger] s[i]),
    ensures
        separated(s) == s,
    decreases s.len(),
{
    if s.len() > 0 {
        assert forall|i: int| 0 <= i < s.drop_last().len() implies is_name_char(
            #[trigger] s.drop_last()[i],
        ) by {
            assert(s.drop_last()[i] == s[i]);
        }
        lemma_separated_name(s.drop_last());
        assert(is_name_char(s[s.len() - 1]));
        assert(s.drop_last().push(s.last()) =~= s);
    } else {
        assert(s =~= Seq::<char>::empty());
    }
}

proof fn lemma_trimmed(s: Seq<char>)
    ensures
        trimmed(s).len() <= s.len(),
        trimmed(s) == s.take(trimmed(s).len() as int),
        trimmed(s).len() > 0 ==> trimmed(s).last() != '_',
    decreases s.len(),
{
    if s.len() > 0 && s.last() == '_' {
        lemma_trimmed(s.drop_last());
        assert(s.drop_last().take(trimmed(s).len() as int) =~= s.take(trimmed(s).len() as int));
    } else {
        assert(s.take(s.len() as int) =~= s);
    }
}

/// A name token is never empty, holds only name characters and does not end with `_`.
pub proof fn name_token_is_a_name(s: Seq<char>)
    ensures
        name_token(s).len() > 0,
        forall|i: int| 0 <= i < name_token(s).len() ==> is_name_char(#[trigger] name_token(s)[i]),
        name_token(s).last() != '_',
{
    reveal_strlit("Type");
    lemma_separated(s);
    lemma_trimmed(separated(s));
    assert forall|i: int| 0 <= i < trimmed(separated(s)).len() implies is_name_char(
        #[trigger] trimmed(separated(s))[i],
    ) by {
        assert(trimmed(separated(s))[i] == separated(s)[i]);
    }
}

/// A text of name characters that does not end with `_` is its own token; so the underscores
/// inside a Rust name are kept, and a token stays as it is when it is made a token again.
pub proof fn name_token_keeps_names(s: Seq<char>)
    requires
        s.len() > 0,
        forall|i: int| 0 <= i < s.len() ==> is_name_char(#[trigger] s[i]),
        s.last() != '_',
    ensures
        name_token(s) == s,
{
    lemma_separated_name(s);
}

/// Making a token of a token changes nothing.
pub proof fn name_token_is_idempotent(s: Seq<char>)
    ensures
        name_token(name_token(s)) == name_token(s),
{
    name_token_is_a_name(s);
    name_token_keeps_names(name_token(s));
}

} // verus!
