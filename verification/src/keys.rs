//! Sort keys of strings and types.
//!
//! Types are ordered by their kind, then by their parts from left to right; lists and strings are
//! ordered lexicographically. A key writes all of this down as one list of numbers: a list holds a
//! one before each item and ends with a zero, and a string holds each character's code point plus
//! one and ends with a zero. So no key is a proper prefix of another, and the lexicographic order
//! of keys is the order of what they stand for.

use crate::order::Ordered;
use crate::text;
use crate::types;
use crate::types::{Field, GenericArgument, Primitive, Type, Variant};
use vstd::prelude::*;

verus! {

/// The number that stands for a character.
pub open spec fn char_key(c: char) -> u32 {
    (c as u32 + 1) as u32
}

/// The key of a string.
pub open spec fn string_key(string: Seq<char>) -> Seq<u32> {
    string.map_values(|c: char| char_key(c)).push(0)
}

/// The key of a list of strings.
pub open spec fn strings_key(strings: Seq<Seq<char>>) -> Seq<u32>
    decreases strings.len(),
{
    if strings.len() == 0 {
        seq![0u32]
    } else {
        seq![1u32] + string_key(strings.first()) + strings_key(strings.skip(1))
    }
}

/// The rank of a primitive type among the primitive types.
pub open spec fn primitive_rank(primitive: Primitive) -> u32 {
    match primitive {
        Primitive::Bool => 0,
        Primitive::F32 => 1,
        Primitive::F64 => 2,
        Primitive::I8 => 3,
        Primitive::I16 => 4,
        Primitive::I32 => 5,
        Primitive::I64 => 6,
        Primitive::I128 => 7,
        Primitive::U8 => 8,
        Primitive::U16 => 9,
        Primitive::U32 => 10,
        Primitive::U64 => 11,
        Primitive::U128 => 12,
    }
}

/// The key of a type.
pub open spec fn type_key(ty: types::TypeModel) -> Seq<u32>
    decreases ty,
{
    match ty {
        types::TypeModel::Alias(name, ty) => seq![0u32] + string_key(name) + type_key(*ty),
        types::TypeModel::Container(name, ty) => seq![1u32] + string_key(name) + type_key(*ty),
        types::TypeModel::Custom(custom) => seq![2u32] + string_key(custom.name) + string_key(
            custom.rs_ty,
        ),
        types::TypeModel::Enum(name, generic_args, variants, attrs) => seq![3u32] + string_key(name)
            + generics_key(generic_args) + variants_key(variants) + strings_key(attrs),
        types::TypeModel::GenericArgument(arg) => seq![4u32] + generic_key(*arg),
        types::TypeModel::List(name, ty) => seq![5u32] + string_key(name) + type_key(*ty),
        types::TypeModel::Mapping(name, key, value) => seq![6u32] + string_key(name) + type_key(*key)
            + type_key(*value),
        types::TypeModel::Primitive(primitive) => seq![7u32] + seq![primitive_rank(primitive)],
        types::TypeModel::String => seq![8u32],
        types::TypeModel::Struct(name, generic_args, fields) => seq![9u32] + string_key(name)
            + generics_key(generic_args) + fields_key(fields),
        types::TypeModel::Tuple(items) => seq![10u32] + types_key(items),
        types::TypeModel::Unit => seq![11u32],
    }
}

/// The key of a generic parameter.
pub open spec fn generic_key(arg: types::GenericModel) -> Seq<u32>
    decreases arg,
{
    match arg.ty {
        Some(ty) => string_key(arg.name) + seq![1u32] + type_key(ty),
        None => string_key(arg.name) + seq![0u32],
    }
}

/// The key of a list of types.
pub open spec fn types_key(list: Seq<types::TypeModel>) -> Seq<u32>
    decreases list,
{
    if list.len() == 0 {
        seq![0u32]
    } else {
        seq![1u32] + type_key(list.first()) + types_key(list.subrange(1, list.len() as int))
    }
}

/// The key of a list of generic parameters.
pub open spec fn generics_key(list: Seq<types::GenericModel>) -> Seq<u32>
    decreases list,
{
    if list.len() == 0 {
        seq![0u32]
    } else {
        seq![1u32] + generic_key(list.first()) + generics_key(list.subrange(1, list.len() as int))
    }
}

/// The key of a list of fields.
pub open spec fn fields_key(list: Seq<types::FieldModel>) -> Seq<u32>
    decreases list,
{
    if list.len() == 0 {
        seq![0u32]
    } else {
        seq![1u32] + string_key(list.first().name) + type_key(list.first().ty) + fields_key(
            list.subrange(1, list.len() as int),
        )
    }
}

/// The key of a list of variants.
pub open spec fn variants_key(list: Seq<types::VariantModel>) -> Seq<u32>
    decreases list,
{
    if list.len() == 0 {
        seq![0u32]
    } else {
        seq![1u32] + string_key(list.first().name) + type_key(list.first().ty) + variants_key(
            list.subrange(1, list.len() as int),
        )
    }
}

proof fn lemma_numbers(v: u32, a: Seq<u32>, w: u32, b: Seq<u32>)
    requires
        seq![v] + a == seq![w] + b,
    ensures
        v == w,
        a == b,
{
    assert((seq![v] + a)[0] == v && (seq![w] + b)[0] == w);
    assert(a =~= (seq![v] + a).skip(1));
    assert(b =~= (seq![w] + b).skip(1));
}

/// The numbers of characters are ordered as the characters are, and none of them is zero.
pub proof fn lemma_chars(a: char, b: char)
    ensures
        char_key(a) == a as u32 + 1,
        char_key(a) < char_key(b) <==> a < b,
        char_key(a) == char_key(b) ==> a == b,
{
    assert(a as u32 <= 0x10FFFF);
    assert(b as u32 <= 0x10FFFF);
}

/// A string can be read back from the front of what starts with its key.
pub proof fn lemma_string_key(a: Seq<char>, b: Seq<char>, x: Seq<u32>, y: Seq<u32>)
    requires
        string_key(a) + x == string_key(b) + y,
    ensures
        a == b,
        x == y,
    decreases a.len(),
{
    let s = string_key(a) + x;
    let t = string_key(b) + y;
    if a.len() == 0 {
        assert(s[0] == 0);
        if b.len() > 0 {
            assert(t[0] == char_key(b[0]));
            lemma_chars(b[0], b[0]);
        }
        assert(a =~= b);
        assert(x =~= s.skip(1));
        assert(y =~= t.skip(1));
    } else if b.len() == 0 {
        assert(t[0] == 0);
        assert(s[0] == char_key(a[0]));
        lemma_chars(a[0], a[0]);
    } else {
        assert(s[0] == char_key(a[0]));
        assert(t[0] == char_key(b[0]));
        lemma_chars(a[0], b[0]);
        let c = a.skip(1);
        let d = b.skip(1);
        assert(string_key(c) + x =~= s.skip(1));
        assert(string_key(d) + y =~= t.skip(1));
        lemma_string_key(c, d, x, y);
        assert(a =~= seq![a[0]] + c);
        assert(b =~= seq![b[0]] + d);
    }
}

pub proof fn lemma_strings_key(a: Seq<Seq<char>>, b: Seq<Seq<char>>, x: Seq<u32>, y: Seq<u32>)
    requires
        strings_key(a) + x == strings_key(b) + y,
    ensures
        a == b,
        x == y,
    decreases a.len(),
{
    if a.len() > 0 && b.len() > 0 {
        let c = a.skip(1);
        let d = b.skip(1);
        let u = string_key(a.first()) + (strings_key(c) + x);
        let v = string_key(b.first()) + (strings_key(d) + y);
        assert(strings_key(a) + x =~= seq![1u32] + u);
        assert(strings_key(b) + y =~= seq![1u32] + v);
        lemma_numbers(1, u, 1, v);
        lemma_string_key(a.first(), b.first(), strings_key(c) + x, strings_key(d) + y);
        lemma_strings_key(c, d, x, y);
        assert(a =~= seq![a.first()] + c);
        assert(b =~= seq![b.first()] + d);
    } else {
        assert((strings_key(a) + x)[0] == if a.len() == 0 { 0u32 } else { 1u32 });
        assert((strings_key(b) + y)[0] == if b.len() == 0 { 0u32 } else { 1u32 });
        lemma_numbers(0, x, 0, y);
        assert(a =~= b);
    }
}

/// The rank of a type's kind among the kinds, which is the number that its key starts with.
pub open spec fn kind(ty: types::TypeModel) -> u32 {
    match ty {
        types::TypeModel::Alias(_, _) => 0,
        types::TypeModel::Container(_, _) => 1,
        types::TypeModel::Custom(_) => 2,
        types::TypeModel::Enum(_, _, _, _) => 3,
        types::TypeModel::GenericArgument(_) => 4,
        types::TypeModel::List(_, _) => 5,
        types::TypeModel::Mapping(_, _, _) => 6,
        types::TypeModel::Primitive(_) => 7,
        types::TypeModel::String => 8,
        types::TypeModel::Struct(_, _, _) => 9,
        types::TypeModel::Tuple(_) => 10,
        types::TypeModel::Unit => 11,
    }
}

/// What follows that number, in a list that starts with the type's key and goes on with `x`.
spec fn remainder(ty: types::TypeModel, x: Seq<u32>) -> Seq<u32> {
    match ty {
        types::TypeModel::Alias(name, ty) => string_key(name) + (type_key(*ty) + x),
        types::TypeModel::Container(name, ty) => string_key(name) + (type_key(*ty) + x),
        types::TypeModel::Custom(custom) => string_key(custom.name) + (string_key(custom.rs_ty) + x),
        types::TypeModel::Enum(name, generic_args, variants, attrs) => string_key(name) + (
        generics_key(generic_args) + (variants_key(variants) + (strings_key(attrs) + x))),
        types::TypeModel::GenericArgument(arg) => generic_key(*arg) + x,
        types::TypeModel::List(name, ty) => string_key(name) + (type_key(*ty) + x),
        types::TypeModel::Mapping(name, key, value) => string_key(name) + (type_key(*key) + (
        type_key(*value) + x)),
        types::TypeModel::Primitive(primitive) => seq![primitive_rank(primitive)] + x,
        types::TypeModel::String => x,
        types::TypeModel::Struct(name, generic_args, fields) => string_key(name) + (generics_key(
            generic_args,
        ) + (fields_key(fields) + x)),
        types::TypeModel::Tuple(items) => types_key(items) + x,
        types::TypeModel::Unit => x,
    }
}

proof fn lemma_kind_and_remainder(ty: types::TypeModel, x: Seq<u32>)
    ensures
        type_key(ty) + x == seq![kind(ty)] + remainder(ty, x),
{
    assert(type_key(ty) + x =~= seq![kind(ty)] + remainder(ty, x));
}

/// A type can be read back from the front of what starts with its key.
pub proof fn lemma_type_key(a: types::TypeModel, b: types::TypeModel, x: Seq<u32>, y: Seq<u32>)
    requires
        type_key(a) + x == type_key(b) + y,
    ensures
        a == b,
        x == y,
    decreases a,
{
    lemma_kind_and_remainder(a, x);
    lemma_kind_and_remainder(b, y);
    lemma_numbers(kind(a), remainder(a, x), kind(b), remainder(b, y));
    match (a, b) {
        (types::TypeModel::Alias(m, s), types::TypeModel::Alias(n, t)) => {
            lemma_string_key(m, n, type_key(*s) + x, type_key(*t) + y);
            lemma_type_key(*s, *t, x, y);
        },
        (types::TypeModel::Container(m, s), types::TypeModel::Container(n, t)) => {
            lemma_string_key(m, n, type_key(*s) + x, type_key(*t) + y);
            lemma_type_key(*s, *t, x, y);
        },
        (types::TypeModel::Custom(c), types::TypeModel::Custom(d)) => {
            lemma_string_key(c.name, d.name, string_key(c.rs_ty) + x, string_key(d.rs_ty) + y);
            lemma_string_key(c.rs_ty, d.rs_ty, x, y);
        },
        (types::TypeModel::Enum(m, g, e, o), types::TypeModel::Enum(n, h, f, r)) => {
            let u2 = variants_key(e) + (strings_key(o) + x);
            let v2 = variants_key(f) + (strings_key(r) + y);
            lemma_string_key(m, n, generics_key(g) + u2, generics_key(h) + v2);
            lemma_generics_key(g, h, u2, v2);
            lemma_variants_key(e, f, strings_key(o) + x, strings_key(r) + y);
            lemma_strings_key(o, r, x, y);
        },
        (types::TypeModel::GenericArgument(g), types::TypeModel::GenericArgument(h)) => {
            lemma_generic_key(*g, *h, x, y);
        },
        (types::TypeModel::List(m, s), types::TypeModel::List(n, t)) => {
            lemma_string_key(m, n, type_key(*s) + x, type_key(*t) + y);
            lemma_type_key(*s, *t, x, y);
        },
        (types::TypeModel::Mapping(m, s, e), types::TypeModel::Mapping(n, t, f)) => {
            let u2 = type_key(*e) + x;
            let v2 = type_key(*f) + y;
            lemma_string_key(m, n, type_key(*s) + u2, type_key(*t) + v2);
            lemma_type_key(*s, *t, u2, v2);
            lemma_type_key(*e, *f, x, y);
        },
        (types::TypeModel::Primitive(s), types::TypeModel::Primitive(t)) => {
            lemma_numbers(primitive_rank(s), x, primitive_rank(t), y);
        },
        (types::TypeModel::Struct(m, g, e), types::TypeModel::Struct(n, h, f)) => {
            let u2 = fields_key(e) + x;
            let v2 = fields_key(f) + y;
            lemma_string_key(m, n, generics_key(g) + u2, generics_key(h) + v2);
            lemma_generics_key(g, h, u2, v2);
            lemma_fields_key(e, f, x, y);
        },
        (types::TypeModel::Tuple(s), types::TypeModel::Tuple(t)) => {
            lemma_types_key(s, t, x, y);
        },
        _ => {},
    }
}

pub proof fn lemma_generic_key(a: types::GenericModel, b: types::GenericModel, x: Seq<u32>, y: Seq<u32>)
    requires
        generic_key(a) + x == generic_key(b) + y,
    ensures
        a == b,
        x == y,
    decreases a,
{
    let (v, u) = match a.ty {
        Some(ty) => (1u32, type_key(ty) + x),
        None => (0u32, x),
    };
    let (w, z) = match b.ty {
        Some(ty) => (1u32, type_key(ty) + y),
        None => (0u32, y),
    };
    assert(generic_key(a) + x =~= string_key(a.name) + (seq![v] + u));
    assert(generic_key(b) + y =~= string_key(b.name) + (seq![w] + z));
    lemma_string_key(a.name, b.name, seq![v] + u, seq![w] + z);
    lemma_numbers(v, u, w, z);
    match (a.ty, b.ty) {
        (Some(s), Some(t)) => {
            lemma_type_key(s, t, x, y);
        },
        _ => {},
    }
}

pub proof fn lemma_types_key(
    a: Seq<types::TypeModel>,
    b: Seq<types::TypeModel>,
    x: Seq<u32>,
    y: Seq<u32>,
)
    requires
        types_key(a) + x == types_key(b) + y,
    ensures
        a == b,
        x == y,
    decreases a,
{
    if a.len() > 0 && b.len() > 0 {
        let c = a.subrange(1, a.len() as int);
        let d = b.subrange(1, b.len() as int);
        let u = type_key(a.first()) + (types_key(c) + x);
        let v = type_key(b.first()) + (types_key(d) + y);
        assert(types_key(a) + x =~= seq![1u32] + u);
        assert(types_key(b) + y =~= seq![1u32] + v);
        lemma_numbers(1, u, 1, v);
        lemma_type_key(a.first(), b.first(), types_key(c) + x, types_key(d) + y);
        lemma_types_key(c, d, x, y);
        assert(a =~= seq![a.first()] + c);
        assert(b =~= seq![b.first()] + d);
    } else {
        assert((types_key(a) + x)[0] == if a.len() == 0 { 0u32 } else { 1u32 });
        assert((types_key(b) + y)[0] == if b.len() == 0 { 0u32 } else { 1u32 });
        lemma_numbers(0, x, 0, y);
        assert(a =~= b);
    }
}

pub proof fn lemma_generics_key(
    a: Seq<types::GenericModel>,
    b: Seq<types::GenericModel>,
    x: Seq<u32>,
    y: Seq<u32>,
)
    requires
        generics_key(a) + x == generics_key(b) + y,
    ensures
        a == b,
        x == y,
    decreases a,
{
    if a.len() > 0 && b.len() > 0 {
        let c = a.subrange(1, a.len() as int);
        let d = b.subrange(1, b.len() as int);
        let u = generic_key(a.first()) + (generics_key(c) + x);
        let v = generic_key(b.first()) + (generics_key(d) + y);
        assert(generics_key(a) + x =~= seq![1u32] + u);
        assert(generics_key(b) + y =~= seq![1u32] + v);
        lemma_numbers(1, u, 1, v);
        lemma_generic_key(a.first(), b.first(), generics_key(c) + x, generics_key(d) + y);
        lemma_generics_key(c, d, x, y);
        assert(a =~= seq![a.first()] + c);
        assert(b =~= seq![b.first()] + d);
    } else {
        assert((generics_key(a) + x)[0] == if a.len() == 0 { 0u32 } else { 1u32 });
        assert((generics_key(b) + y)[0] == if b.len() == 0 { 0u32 } else { 1u32 });
        lemma_numbers(0, x, 0, y);
        assert(a =~= b);
    }
}

pub proof fn lemma_fields_key(
    a: Seq<types::FieldModel>,
    b: Seq<types::FieldModel>,
    x: Seq<u32>,
    y: Seq<u32>,
)
    requires
        fields_key(a) + x == fields_key(b) + y,
    ensures
        a == b,
        x == y,
    decreases a,
{
    if a.len() > 0 && b.len() > 0 {
        let c = a.subrange(1, a.len() as int);
        let d = b.subrange(1, b.len() as int);
        let u = string_key(a.first().name) + (type_key(a.first().ty) + (fields_key(c) + x));
        let v = string_key(b.first().name) + (type_key(b.first().ty) + (fields_key(d) + y));
        assert(fields_key(a) + x =~= seq![1u32] + u);
        assert(fields_key(b) + y =~= seq![1u32] + v);
        lemma_numbers(1, u, 1, v);
        let w = type_key(a.first().ty) + (fields_key(c) + x);
        let z = type_key(b.first().ty) + (fields_key(d) + y);
        lemma_string_key(a.first().name, b.first().name, w, z);
        assert(decreases_to!(a => a.first()));
        lemma_type_key(a.first().ty, b.first().ty, fields_key(c) + x, fields_key(d) + y);
        lemma_fields_key(c, d, x, y);
        assert(a =~= seq![a.first()] + c);
        assert(b =~= seq![b.first()] + d);
    } else {
        assert((fields_key(a) + x)[0] == if a.len() == 0 { 0u32 } else { 1u32 });
        assert((fields_key(b) + y)[0] == if b.len() == 0 { 0u32 } else { 1u32 });
        lemma_numbers(0, x, 0, y);
        assert(a =~= b);
    }
}

pub proof fn lemma_variants_key(
    a: Seq<types::VariantModel>,
    b: Seq<types::VariantModel>,
    x: Seq<u32>,
    y: Seq<u32>,
)
    requires
        variants_key(a) + x == variants_key(b) + y,
    ensures
        a == b,
        x == y,
    decreases a,
{
    if a.len() > 0 && b.len() > 0 {
        let c = a.subrange(1, a.len() as int);
        let d = b.subrange(1, b.len() as int);
        let u = string_key(a.first().name) + (type_key(a.first().ty) + (variants_key(c) + x));
        let v = string_key(b.first().name) + (type_key(b.first().ty) + (variants_key(d) + y));
        assert(variants_key(a) + x =~= seq![1u32] + u);
        assert(variants_key(b) + y =~= seq![1u32] + v);
        lemma_numbers(1, u, 1, v);
        let w = type_key(a.first().ty) + (variants_key(c) + x);
        let z = type_key(b.first().ty) + (variants_key(d) + y);
        lemma_string_key(a.first().name, b.first().name, w, z);
        assert(decreases_to!(a => a.first()));
        lemma_type_key(a.first().ty, b.first().ty, variants_key(c) + x, variants_key(d) + y);
        lemma_variants_key(c, d, x, y);
        assert(a =~= seq![a.first()] + c);
        assert(b =~= seq![b.first()] + d);
    } else {
        assert((variants_key(a) + x)[0] == if a.len() == 0 { 0u32 } else { 1u32 });
        assert((variants_key(b) + y)[0] == if b.len() == 0 { 0u32 } else { 1u32 });
        lemma_numbers(0, x, 0, y);
        assert(a =~= b);
    }
}

/// Appends the key of a string.
fn push_string_key(string: &str, out: &mut Vec<u32>)
    ensures
        final(out)@ == old(out)@ + string_key(string@),
{
    let ghost start = out@;
    let ghost numbers = string@.map_values(|c: char| char_key(c));
    for c in chars: string.chars()
        invariant
            chars.seq() == string@,
            numbers == string@.map_values(|c: char| char_key(c)),
            out@ =~= start + numbers.take(chars.index() as int),
    {
        proof {
            lemma_chars(c, c);
        }
        out.push(c as u32 + 1);
        assert(numbers.take(chars.index() + 1) =~= numbers.take(chars.index() as int).push(
            char_key(c),
        ));
    }
    out.push(0);
    assert(numbers.take(numbers.len() as int) =~= numbers);
    assert(out@ =~= start + string_key(string@));
}

/// Appends the key of a list of strings.
fn push_strings_key(strings: &Vec<String>, out: &mut Vec<u32>)
    ensures
        final(out)@ == old(out)@ + strings_key(text::texts(strings@)),
{
    let ghost start = out@;
    let ghost list = text::texts(strings@);
    assert(list.skip(0) =~= list);
    for i in 0..strings.len()
        invariant
            list == text::texts(strings@),
            out@ + strings_key(list.skip(i as int)) == start + strings_key(list),
    {
        let ghost before = out@;
        let ghost rest = strings_key(list.skip(i + 1));
        assert(list.skip(i as int).skip(1) =~= list.skip(i + 1));
        out.push(1);
        push_string_key(strings[i].as_str(), out);
        assert(out@ + rest =~= before + strings_key(list.skip(i as int)));
    }
    out.push(0);
    assert(strings_key(list.skip(strings.len() as int)) == seq![0u32]);
    assert(out@ =~= start + strings_key(list));
}

/// The rank of a primitive type among the primitive types.
fn rank_of(primitive: Primitive) -> (rank: u32)
    ensures
        rank == primitive_rank(primitive),
{
    match primitive {
        Primitive::Bool => 0,
        Primitive::F32 => 1,
        Primitive::F64 => 2,
        Primitive::I8 => 3,
        Primitive::I16 => 4,
        Primitive::I32 => 5,
        Primitive::I64 => 6,
        Primitive::I128 => 7,
        Primitive::U8 => 8,
        Primitive::U16 => 9,
        Primitive::U32 => 10,
        Primitive::U64 => 11,
        Primitive::U128 => 12,
    }
}

/// Appends the key of a type.
fn push_type_key(ty: &Type, out: &mut Vec<u32>)
    ensures
        final(out)@ == old(out)@ + type_key(ty@),
    decreases ty,
{
    let ghost start = out@;
    match ty {
        Type::Alias(name, ty) => {
            out.push(0);
            push_string_key(name.as_str(), out);
            push_type_key(ty, out);
        },
        Type::Container(name, ty) => {
            out.push(1);
            push_string_key(name.as_str(), out);
            push_type_key(ty, out);
        },
        Type::Custom(custom) => {
            out.push(2);
            push_string_key(custom.name.as_str(), out);
            push_string_key(custom.rs_ty.as_str(), out);
        },
        Type::Enum(name, generic_args, variants, opts) => {
            out.push(3);
            push_string_key(name.as_str(), out);
            push_generics_key(generic_args, out);
            push_variants_key(variants, out);
            push_strings_key(&opts.serde_attrs, out);
        },
        Type::GenericArgument(arg) => {
            out.push(4);
            push_generic_key(arg, out);
        },
        Type::List(name, ty) => {
            out.push(5);
            push_string_key(name.as_str(), out);
            push_type_key(ty, out);
        },
        Type::Mapping(name, key, value) => {
            out.push(6);
            push_string_key(name.as_str(), out);
            push_type_key(key, out);
            push_type_key(value, out);
        },
        Type::Primitive(primitive) => {
            out.push(7);
            out.push(rank_of(*primitive));
        },
        Type::String => {
            out.push(8);
        },
        Type::Struct(name, generic_args, fields) => {
            out.push(9);
            push_string_key(name.as_str(), out);
            push_generics_key(generic_args, out);
            push_fields_key(fields, out);
        },
        Type::Tuple(items) => {
            out.push(10);
            push_types_key(items, out);
        },
        Type::Unit => {
            out.push(11);
        },
    }
    assert(out@ =~= start + type_key(ty@));
}

/// Appends the key of a generic parameter.
fn push_generic_key(arg: &GenericArgument, out: &mut Vec<u32>)
    ensures
        final(out)@ == old(out)@ + generic_key(arg@),
    decreases arg,
{
    let ghost start = out@;
    push_string_key(arg.name.as_str(), out);
    match &arg.ty {
        Some(ty) => {
            out.push(1);
            push_type_key(ty, out);
        },
        None => {
            out.push(0);
        },
    }
    assert(out@ =~= start + generic_key(arg@));
}

/// Appends the key of a list of types.
fn push_types_key(items: &Vec<Type>, out: &mut Vec<u32>)
    ensures
        final(out)@ == old(out)@ + types_key(types::type_models(items@)),
    decreases items,
{
    let ghost start = out@;
    let ghost list = types::type_models(items@);
    proof {
        types::lemma_type_models(items@);
    }
    assert(list.subrange(0, list.len() as int) =~= list);
    for i in 0..items.len()
        invariant
            list == types::type_models(items@),
            list.len() == items.len(),
            forall|j: int| 0 <= j < list.len() ==> list[j] == #[trigger] items[j]@,
            out@ + types_key(list.subrange(i as int, list.len() as int)) == start + types_key(list),
    {
        let ghost before = out@;
        let ghost left = list.subrange(i as int, list.len() as int);
        let ghost rest = list.subrange(i + 1, list.len() as int);
        assert(left.subrange(1, left.len() as int) =~= rest);
        let item = &items[i];
        assert(decreases_to!(items => item));
        assert(left.first() == item@);
        out.push(1);
        push_type_key(item, out);
        assert(out@ + types_key(rest) =~= before + types_key(left));
    }
    out.push(0);
    assert(list.subrange(list.len() as int, list.len() as int).len() == 0);
    assert(out@ =~= start + types_key(list));
}

/// Appends the key of a list of generic parameters.
fn push_generics_key(args: &Vec<GenericArgument>, out: &mut Vec<u32>)
    ensures
        final(out)@ == old(out)@ + generics_key(types::generic_models(args@)),
    decreases args,
{
    let ghost start = out@;
    let ghost list = types::generic_models(args@);
    proof {
        types::lemma_generic_models(args@);
    }
    assert(list.subrange(0, list.len() as int) =~= list);
    for i in 0..args.len()
        invariant
            list == types::generic_models(args@),
            list.len() == args.len(),
            forall|j: int| 0 <= j < list.len() ==> list[j] == #[trigger] args[j]@,
            out@ + generics_key(list.subrange(i as int, list.len() as int)) == start + generics_key(list),
    {
        let ghost before = out@;
        let ghost left = list.subrange(i as int, list.len() as int);
        let ghost rest = list.subrange(i + 1, list.len() as int);
        assert(left.subrange(1, left.len() as int) =~= rest);
        let item = &args[i];
        assert(decreases_to!(args => item));
        assert(left.first() == item@);
        out.push(1);
        push_generic_key(item, out);
        assert(out@ + generics_key(rest) =~= before + generics_key(left));
    }
    out.push(0);
    assert(list.subrange(list.len() as int, list.len() as int).len() == 0);
    assert(out@ =~= start + generics_key(list));
}

/// Appends the key of a list of fields.
fn push_fields_key(fields: &Vec<Field>, out: &mut Vec<u32>)
    ensures
        final(out)@ == old(out)@ + fields_key(types::field_models(fields@)),
    decreases fields,
{
    let ghost start = out@;
    let ghost list = types::field_models(fields@);
    proof {
        types::lemma_field_models(fields@);
    }
    assert(list.subrange(0, list.len() as int) =~= list);
    for i in 0..fields.len()
        invariant
            list == types::field_models(fields@),
            list.len() == fields.len(),
            forall|j: int| 0 <= j < list.len() ==> list[j] == #[trigger] fields[j]@,
            out@ + fields_key(list.subrange(i as int, list.len() as int)) == start + fields_key(list),
    {
        let ghost before = out@;
        let ghost left = list.subrange(i as int, list.len() as int);
        let ghost rest = list.subrange(i + 1, list.len() as int);
        assert(left.subrange(1, left.len() as int) =~= rest);
        let item = &fields[i];
        assert(decreases_to!(fields => item));
        assert(left.first() == item@);
        out.push(1);
        push_string_key(item.name.as_str(), out);
        push_type_key(&item.ty, out);
        assert(out@ + fields_key(rest) =~= before + fields_key(left));
    }
    out.push(0);
    assert(list.subrange(list.len() as int, list.len() as int).len() == 0);
    assert(out@ =~= start + fields_key(list));
}

/// Appends the key of a list of variants.
fn push_variants_key(variants: &Vec<Variant>, out: &mut Vec<u32>)
    ensures
        final(out)@ == old(out)@ + variants_key(types::variant_models(variants@)),
    decreases variants,
{
    let ghost start = out@;
    let ghost list = types::variant_models(variants@);
    proof {
        types::lemma_variant_models(variants@);
    }
    assert(list.subrange(0, list.len() as int) =~= list);
    for i in 0..variants.len()
        invariant
            list == types::variant_models(variants@),
            list.len() == variants.len(),
            forall|j: int| 0 <= j < list.len() ==> list[j] == #[trigger] variants[j]@,
            out@ + variants_key(list.subrange(i as int, list.len() as int)) == start + variants_key(list),
    {
        let ghost before = out@;
        let ghost left = list.subrange(i as int, list.len() as int);
        let ghost rest = list.subrange(i + 1, list.len() as int);
        assert(left.subrange(1, left.len() as int) =~= rest);
        let item = &variants[i];
        assert(decreases_to!(variants => item));
        assert(left.first() == item@);
        out.push(1);
        push_string_key(item.name.as_str(), out);
        push_type_key(&item.ty, out);
        assert(out@ + variants_key(rest) =~= before + variants_key(left));
    }
    out.push(0);
    assert(list.subrange(list.len() as int, list.len() as int).len() == 0);
    assert(out@ =~= start + variants_key(list));
}

impl Ordered for String {
    open spec fn key(model: Seq<char>) -> Seq<u32> {
        string_key(model)
    }

    proof fn keys_differ(a: Seq<char>, b: Seq<char>) {
        lemma_string_key(a, b, Seq::empty(), Seq::empty());
    }

    fn sort_key(&self) -> (key: Vec<u32>) {
        let mut key: Vec<u32> = Vec::new();
        push_string_key(self.as_str(), &mut key);
        assert(key@ =~= string_key(self@));
        key
    }
}

impl Ordered for Type {
    open spec fn key(model: types::TypeModel) -> Seq<u32> {
        type_key(model)
    }

    proof fn keys_differ(a: types::TypeModel, b: types::TypeModel) {
        lemma_type_key(a, b, Seq::empty(), Seq::empty());
    }

    fn sort_key(&self) -> (key: Vec<u32>) {
        let mut key: Vec<u32> = Vec::new();
        push_type_key(self, &mut key);
        assert(key@ =~= type_key(self@));
        key
    }
}

} // verus!
