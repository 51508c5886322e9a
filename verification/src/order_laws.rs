//! What decides the order in which types are listed.

use crate::keys;
use crate::laws;
use crate::order;
use crate::types;
use crate::types::Primitive;
use vstd::prelude::*;

verus! {

/// Whether one type is listed before another.
pub open spec fn is_before(a: types::TypeModel, b: types::TypeModel) -> bool {
    order::precedes(keys::type_key(a), keys::type_key(b))
}

/// Whether one list of strings comes before another.
pub open spec fn strings_before(a: Seq<Seq<char>>, b: Seq<Seq<char>>) -> bool {
    order::precedes(keys::strings_key(a), keys::strings_key(b))
}

/// Whether one generic parameter comes before another.
pub open spec fn generic_before(a: types::GenericModel, b: types::GenericModel) -> bool {
    order::precedes(keys::generic_key(a), keys::generic_key(b))
}

/// Whether one list of types comes before another.
pub open spec fn types_before(a: Seq<types::TypeModel>, b: Seq<types::TypeModel>) -> bool {
    order::precedes(keys::types_key(a), keys::types_key(b))
}

/// Whether one list of generic parameters comes before another.
pub open spec fn generics_before(a: Seq<types::GenericModel>, b: Seq<types::GenericModel>) -> bool {
    order::precedes(keys::generics_key(a), keys::generics_key(b))
}

/// Whether one list of fields comes before another.
pub open spec fn fields_before(a: Seq<types::FieldModel>, b: Seq<types::FieldModel>) -> bool {
    order::precedes(keys::fields_key(a), keys::fields_key(b))
}

/// Whether one list of variants comes before another.
pub open spec fn variants_before(a: Seq<types::VariantModel>, b: Seq<types::VariantModel>) -> bool {
    order::precedes(keys::variants_key(a), keys::variants_key(b))
}

/// Whether two keys hold different numbers at some position, the first of them the smaller one at
/// the first such position.
spec fn part_decides(p: Seq<u32>, q: Seq<u32>) -> bool {
    exists|at: int| at < p.len() && #[trigger] order::precedes_at(p, q, at)
}

proof fn lemma_part(c: Seq<u32>, p: Seq<u32>, q: Seq<u32>, x: Seq<u32>, y: Seq<u32>)
    requires
        part_decides(p, q),
    ensures
        order::precedes(c + (p + x), c + (q + y)),
{
    let at = choose|at: int| at < p.len() && #[trigger] order::precedes_at(p, q, at);
    let s = c + (p + x);
    let t = c + (q + y);
    let end = c.len() + at;
    assert forall|i: int| 0 <= i < end implies s[i] == t[i] by {
        if i >= c.len() {
            assert(p.take(at)[i - c.len()] == q.take(at)[i - c.len()]);
        }
    }
    assert(s.take(end) =~= t.take(end));
    assert(s[end] == p[at] && t[end] == q[at]);
    assert(order::precedes_at(s, t, end));
}

/// Where one key precedes another without a different number, the second starts with the first.
proof fn lemma_prefix(p: Seq<u32>, q: Seq<u32>) -> (rest: Seq<u32>)
    requires
        order::precedes(p, q),
    ensures
        p != q,
        part_decides(p, q) || p + rest == q + Seq::<u32>::empty(),
{
    let at = choose|at: int| order::precedes_at(p, q, at);
    order::precedes_is_irreflexive(p);
    if at == p.len() {
        assert(p.take(at) =~= p);
        assert(p + q.skip(at) =~= q + Seq::<u32>::empty());
        q.skip(at)
    } else {
        assert(part_decides(p, q));
        Seq::empty()
    }
}

proof fn lemma_string_decide(a: Seq<char>, b: Seq<char>)
    requires
        order::precedes(keys::string_key(a), keys::string_key(b)),
    ensures
        part_decides(keys::string_key(a), keys::string_key(b)),
{
    let rest = lemma_prefix(keys::string_key(a), keys::string_key(b));
    if !part_decides(keys::string_key(a), keys::string_key(b)) {
        keys::lemma_string_key(a, b, rest, Seq::empty());
    }
}

proof fn lemma_type_decide(a: types::TypeModel, b: types::TypeModel)
    requires
        order::precedes(keys::type_key(a), keys::type_key(b)),
    ensures
        part_decides(keys::type_key(a), keys::type_key(b)),
{
    let rest = lemma_prefix(keys::type_key(a), keys::type_key(b));
    if !part_decides(keys::type_key(a), keys::type_key(b)) {
        keys::lemma_type_key(a, b, rest, Seq::empty());
    }
}

proof fn lemma_generic_decide(a: types::GenericModel, b: types::GenericModel)
    requires
        order::precedes(keys::generic_key(a), keys::generic_key(b)),
    ensures
        part_decides(keys::generic_key(a), keys::generic_key(b)),
{
    let rest = lemma_prefix(keys::generic_key(a), keys::generic_key(b));
    if !part_decides(keys::generic_key(a), keys::generic_key(b)) {
        keys::lemma_generic_key(a, b, rest, Seq::empty());
    }
}

proof fn lemma_strings_decide(a: Seq<Seq<char>>, b: Seq<Seq<char>>)
    requires
        order::precedes(keys::strings_key(a), keys::strings_key(b)),
    ensures
        part_decides(keys::strings_key(a), keys::strings_key(b)),
{
    let rest = lemma_prefix(keys::strings_key(a), keys::strings_key(b));
    if !part_decides(keys::strings_key(a), keys::strings_key(b)) {
        keys::lemma_strings_key(a, b, rest, Seq::empty());
    }
}

proof fn lemma_types_decide(a: Seq<types::TypeModel>, b: Seq<types::TypeModel>)
    requires
        order::precedes(keys::types_key(a), keys::types_key(b)),
    ensures
        part_decides(keys::types_key(a), keys::types_key(b)),
{
    let rest = lemma_prefix(keys::types_key(a), keys::types_key(b));
    if !part_decides(keys::types_key(a), keys::types_key(b)) {
        keys::lemma_types_key(a, b, rest, Seq::empty());
    }
}

proof fn lemma_generics_decide(a: Seq<types::GenericModel>, b: Seq<types::GenericModel>)
    requires
        order::precedes(keys::generics_key(a), keys::generics_key(b)),
    ensures
        part_decides(keys::generics_key(a), keys::generics_key(b)),
{
    let rest = lemma_prefix(keys::generics_key(a), keys::generics_key(b));
    if !part_decides(keys::generics_key(a), keys::generics_key(b)) {
        keys::lemma_generics_key(a, b, rest, Seq::empty());
    }
}

proof fn lemma_fields_decide(a: Seq<types::FieldModel>, b: Seq<types::FieldModel>)
    requires
        order::precedes(keys::fields_key(a), keys::fields_key(b)),
    ensures
        part_decides(keys::fields_key(a), keys::fields_key(b)),
{
    let rest = lemma_prefix(keys::fields_key(a), keys::fields_key(b));
    if !part_decides(keys::fields_key(a), keys::fields_key(b)) {
        keys::lemma_fields_key(a, b, rest, Seq::empty());
    }
}

proof fn lemma_variants_decide(a: Seq<types::VariantModel>, b: Seq<types::VariantModel>)
    requires
        order::precedes(keys::variants_key(a), keys::variants_key(b)),
    ensures
        part_decides(keys::variants_key(a), keys::variants_key(b)),
{
    let rest = lemma_prefix(keys::variants_key(a), keys::variants_key(b));
    if !part_decides(keys::variants_key(a), keys::variants_key(b)) {
        keys::lemma_variants_key(a, b, rest, Seq::empty());
    }
}

/// Aliases, containers and lists are ordered by their names, then by what they stand for or hold.
pub proof fn named_parts_are_ordered_by_name_and_part(a: types::TypeModel, b: types::TypeModel)
    ensures
        match (a, b) {
            (types::TypeModel::Alias(m, s), types::TypeModel::Alias(n, t)) => {
                &&& laws::comes_before(m, n) ==> is_before(a, b)
                &&& m == n && is_before(*s, *t) ==> is_before(a, b)
            },
            (types::TypeModel::Container(m, s), types::TypeModel::Container(n, t)) => {
                &&& laws::comes_before(m, n) ==> is_before(a, b)
                &&& m == n && is_before(*s, *t) ==> is_before(a, b)
            },
            (types::TypeModel::List(m, s), types::TypeModel::List(n, t)) => {
                &&& laws::comes_before(m, n) ==> is_before(a, b)
                &&& m == n && is_before(*s, *t) ==> is_before(a, b)
            },
            _ => true,
        },
{
    match (a, b) {
        (types::TypeModel::Alias(m, s), types::TypeModel::Alias(n, t)) => {
            if laws::comes_before(m, n) {
                laws::strings_are_ordered_by_code_points(m, n);
                let c = seq![0u32];
                let x = keys::type_key(*s);
                let y = keys::type_key(*t);
                lemma_string_decide(m, n);
                lemma_part(c, keys::string_key(m), keys::string_key(n), x, y);
                assert(keys::type_key(a) =~= c + (keys::string_key(m) + x));
                assert(keys::type_key(b) =~= c + (keys::string_key(n) + y));
            }
            if m == n && is_before(*s, *t) {
                let c = seq![0u32] + keys::string_key(m);
                let x = Seq::<u32>::empty();
                let y = Seq::<u32>::empty();
                lemma_type_decide(*s, *t);
                lemma_part(c, keys::type_key(*s), keys::type_key(*t), x, y);
                assert(keys::type_key(a) =~= c + (keys::type_key(*s) + x));
                assert(keys::type_key(b) =~= c + (keys::type_key(*t) + y));
            }
        },
        (types::TypeModel::Container(m, s), types::TypeModel::Container(n, t)) => {
            if laws::comes_before(m, n) {
                laws::strings_are_ordered_by_code_points(m, n);
                let c = seq![1u32];
                let x = keys::type_key(*s);
                let y = keys::type_key(*t);
                lemma_string_decide(m, n);
                lemma_part(c, keys::string_key(m), keys::string_key(n), x, y);
                assert(keys::type_key(a) =~= c + (keys::string_key(m) + x));
                assert(keys::type_key(b) =~= c + (keys::string_key(n) + y));
            }
            if m == n && is_before(*s, *t) {
                let c = seq![1u32] + keys::string_key(m);
                let x = Seq::<u32>::empty();
                let y = Seq::<u32>::empty();
                lemma_type_decide(*s, *t);
                lemma_part(c, keys::type_key(*s), keys::type_key(*t), x, y);
                assert(keys::type_key(a) =~= c + (keys::type_key(*s) + x));
                assert(keys::type_key(b) =~= c + (keys::type_key(*t) + y));
            }
        },
        (types::TypeModel::List(m, s), types::TypeModel::List(n, t)) => {
            if laws::comes_before(m, n) {
                laws::strings_are_ordered_by_code_points(m, n);
                let c = seq![5u32];
                let x = keys::type_key(*s);
                let y = keys::type_key(*t);
                lemma_string_decide(m, n);
                lemma_part(c, keys::string_key(m), keys::string_key(n), x, y);
                assert(keys::type_key(a) =~= c + (keys::string_key(m) + x));
                assert(keys::type_key(b) =~= c + (keys::string_key(n) + y));
            }
            if m == n && is_before(*s, *t) {
                let c = seq![5u32] + keys::string_key(m);
                let x = Seq::<u32>::empty();
                let y = Seq::<u32>::empty();
                lemma_type_decide(*s, *t);
                lemma_part(c, keys::type_key(*s), keys::type_key(*t), x, y);
                assert(keys::type_key(a) =~= c + (keys::type_key(*s) + x));
                assert(keys::type_key(b) =~= c + (keys::type_key(*t) + y));
            }
        },
        _ => {},
    }
}

/// Mappings are ordered by their names, then their keys, then their values. Custom types are
/// ordered by their names, then by how they are written.
pub proof fn mappings_and_custom_types_are_ordered_part_by_part(a: types::TypeModel, b: types::TypeModel)
    ensures
        match (a, b) {
            (types::TypeModel::Mapping(m, k, v), types::TypeModel::Mapping(n, l, w)) => {
                &&& laws::comes_before(m, n) ==> is_before(a, b)
                &&& m == n && is_before(*k, *l) ==> is_before(a, b)
                &&& m == n && *k == *l && is_before(*v, *w) ==> is_before(a, b)
            },
            (types::TypeModel::Custom(v), types::TypeModel::Custom(w)) => {
                &&& laws::comes_before(v.name, w.name) ==> is_before(a, b)
                &&& v.name == w.name && laws::comes_before(v.rs_ty, w.rs_ty) ==> is_before(a, b)
            },
            _ => true,
        },
{
    match (a, b) {
        (types::TypeModel::Mapping(m, k, v), types::TypeModel::Mapping(n, l, w)) => {
            if laws::comes_before(m, n) {
                laws::strings_are_ordered_by_code_points(m, n);
                let c = seq![6u32];
                let x = keys::type_key(*k) + keys::type_key(*v);
                let y = keys::type_key(*l) + keys::type_key(*w);
                lemma_string_decide(m, n);
                lemma_part(c, keys::string_key(m), keys::string_key(n), x, y);
                assert(keys::type_key(a) =~= c + (keys::string_key(m) + x));
                assert(keys::type_key(b) =~= c + (keys::string_key(n) + y));
            }
            if m == n && is_before(*k, *l) {
                let c = seq![6u32] + keys::string_key(m);
                let x = keys::type_key(*v);
                let y = keys::type_key(*w);
                lemma_type_decide(*k, *l);
                lemma_part(c, keys::type_key(*k), keys::type_key(*l), x, y);
                assert(keys::type_key(a) =~= c + (keys::type_key(*k) + x));
                assert(keys::type_key(b) =~= c + (keys::type_key(*l) + y));
            }
            if m == n && *k == *l && is_before(*v, *w) {
                let c = seq![6u32] + keys::string_key(m) + keys::type_key(*k);
                let x = Seq::<u32>::empty();
                let y = Seq::<u32>::empty();
                lemma_type_decide(*v, *w);
                lemma_part(c, keys::type_key(*v), keys::type_key(*w), x, y);
                assert(keys::type_key(a) =~= c + (keys::type_key(*v) + x));
                assert(keys::type_key(b) =~= c + (keys::type_key(*w) + y));
            }
        },
        (types::TypeModel::Custom(v), types::TypeModel::Custom(w)) => {
            if laws::comes_before(v.name, w.name) {
                laws::strings_are_ordered_by_code_points(v.name, w.name);
                let c = seq![2u32];
                let x = keys::string_key(v.rs_ty);
                let y = keys::string_key(w.rs_ty);
                lemma_string_decide(v.name, w.name);
                lemma_part(c, keys::string_key(v.name), keys::string_key(w.name), x, y);
                assert(keys::type_key(a) =~= c + (keys::string_key(v.name) + x));
                assert(keys::type_key(b) =~= c + (keys::string_key(w.name) + y));
            }
            if v.name == w.name && laws::comes_before(v.rs_ty, w.rs_ty) {
                laws::strings_are_ordered_by_code_points(v.rs_ty, w.rs_ty);
                let c = seq![2u32] + keys::string_key(v.name);
                let x = Seq::<u32>::empty();
                let y = Seq::<u32>::empty();
                lemma_string_decide(v.rs_ty, w.rs_ty);
                lemma_part(c, keys::string_key(v.rs_ty), keys::string_key(w.rs_ty), x, y);
                assert(keys::type_key(a) =~= c + (keys::string_key(v.rs_ty) + x));
                assert(keys::type_key(b) =~= c + (keys::string_key(w.rs_ty) + y));
            }
        },
        _ => {},
    }
}

/// Enums are ordered by their names, then their generic parameters, then their variants, then their
/// attributes.
pub proof fn enums_are_ordered_part_by_part(a: types::TypeModel, b: types::TypeModel)
    ensures
        match (a, b) {
            (types::TypeModel::Enum(m, g, v, o), types::TypeModel::Enum(n, h, w, p)) => {
                &&& laws::comes_before(m, n) ==> is_before(a, b)
                &&& m == n && generics_before(g, h) ==> is_before(a, b)
                &&& m == n && g == h && variants_before(v, w) ==> is_before(a, b)
                &&& m == n && g == h && v == w && strings_before(o, p) ==> is_before(a, b)
            },
            _ => true,
        },
{
    match (a, b) {
        (types::TypeModel::Enum(m, g, v, o), types::TypeModel::Enum(n, h, w, p)) => {
            if laws::comes_before(m, n) {
                laws::strings_are_ordered_by_code_points(m, n);
                let c = seq![3u32];
                let x = keys::generics_key(g) + keys::variants_key(v) + keys::strings_key(o);
                let y = keys::generics_key(h) + keys::variants_key(w) + keys::strings_key(p);
                lemma_string_decide(m, n);
                lemma_part(c, keys::string_key(m), keys::string_key(n), x, y);
                assert(keys::type_key(a) =~= c + (keys::string_key(m) + x));
                assert(keys::type_key(b) =~= c + (keys::string_key(n) + y));
            }
            if m == n && generics_before(g, h) {
                let c = seq![3u32] + keys::string_key(m);
                let x = keys::variants_key(v) + keys::strings_key(o);
                let y = keys::variants_key(w) + keys::strings_key(p);
                lemma_generics_decide(g, h);
                lemma_part(c, keys::generics_key(g), keys::generics_key(h), x, y);
                assert(keys::type_key(a) =~= c + (keys::generics_key(g) + x));
                assert(keys::type_key(b) =~= c + (keys::generics_key(h) + y));
            }
            if m == n && g == h && variants_before(v, w) {
                let c = seq![3u32] + keys::string_key(m) + keys::generics_key(g);
                let x = keys::strings_key(o);
                let y = keys::strings_key(p);
                lemma_variants_decide(v, w);
                lemma_part(c, keys::variants_key(v), keys::variants_key(w), x, y);
                assert(keys::type_key(a) =~= c + (keys::variants_key(v) + x));
                assert(keys::type_key(b) =~= c + (keys::variants_key(w) + y));
            }
            if m == n && g == h && v == w && strings_before(o, p) {
                let c = seq![3u32] + keys::string_key(m) + keys::generics_key(g) + keys::variants_key(v);
                let x = Seq::<u32>::empty();
                let y = Seq::<u32>::empty();
                lemma_strings_decide(o, p);
                lemma_part(c, keys::strings_key(o), keys::strings_key(p), x, y);
                assert(keys::type_key(a) =~= c + (keys::strings_key(o) + x));
                assert(keys::type_key(b) =~= c + (keys::strings_key(p) + y));
            }
        },
        _ => {},
    }
}

/// Structs are ordered by their names, then their generic parameters, then their fields.
pub proof fn structs_are_ordered_part_by_part(a: types::TypeModel, b: types::TypeModel)
    ensures
        match (a, b) {
            (types::TypeModel::Struct(m, g, f), types::TypeModel::Struct(n, h, e)) => {
                &&& laws::comes_before(m, n) ==> is_before(a, b)
                &&& m == n && generics_before(g, h) ==> is_before(a, b)
                &&& m == n && g == h && fields_before(f, e) ==> is_before(a, b)
            },
            _ => true,
        },
{
    match (a, b) {
        (types::TypeModel::Struct(m, g, f), types::TypeModel::Struct(n, h, e)) => {
            if laws::comes_before(m, n) {
                laws::strings_are_ordered_by_code_points(m, n);
                let c = seq![9u32];
                let x = keys::generics_key(g) + keys::fields_key(f);
                let y = keys::generics_key(h) + keys::fields_key(e);
                lemma_string_decide(m, n);
                lemma_part(c, keys::string_key(m), keys::string_key(n), x, y);
                assert(keys::type_key(a) =~= c + (keys::string_key(m) + x));
                assert(keys::type_key(b) =~= c + (keys::string_key(n) + y));
            }
            if m == n && generics_before(g, h) {
                let c = seq![9u32] + keys::string_key(m);
                let x = keys::fields_key(f);
                let y = keys::fields_key(e);
                lemma_generics_decide(g, h);
                lemma_part(c, keys::generics_key(g), keys::generics_key(h), x, y);
                assert(keys::type_key(a) =~= c + (keys::generics_key(g) + x));
                assert(keys::type_key(b) =~= c + (keys::generics_key(h) + y));
            }
            if m == n && g == h && fields_before(f, e) {
                let c = seq![9u32] + keys::string_key(m) + keys::generics_key(g);
                let x = Seq::<u32>::empty();
                let y = Seq::<u32>::empty();
                lemma_fields_decide(f, e);
                lemma_part(c, keys::fields_key(f), keys::fields_key(e), x, y);
                assert(keys::type_key(a) =~= c + (keys::fields_key(f) + x));
                assert(keys::type_key(b) =~= c + (keys::fields_key(e) + y));
            }
        },
        _ => {},
    }
}

/// Tuples are ordered by their items, and types that stand for a generic parameter by that.
pub proof fn tuples_and_parameters_are_ordered_by_what_they_hold(a: types::TypeModel, b: types::TypeModel)
    ensures
        match (a, b) {
            (types::TypeModel::Tuple(v), types::TypeModel::Tuple(w)) => {
                &&& types_before(v, w) ==> is_before(a, b)
            },
            (types::TypeModel::GenericArgument(v), types::TypeModel::GenericArgument(w)) => {
                &&& generic_before(*v, *w) ==> is_before(a, b)
            },
            _ => true,
        },
{
    match (a, b) {
        (types::TypeModel::Tuple(v), types::TypeModel::Tuple(w)) => {
            if types_before(v, w) {
                let c = seq![10u32];
                let x = Seq::<u32>::empty();
                let y = Seq::<u32>::empty();
                lemma_types_decide(v, w);
                lemma_part(c, keys::types_key(v), keys::types_key(w), x, y);
                assert(keys::type_key(a) =~= c + (keys::types_key(v) + x));
                assert(keys::type_key(b) =~= c + (keys::types_key(w) + y));
            }
        },
        (types::TypeModel::GenericArgument(v), types::TypeModel::GenericArgument(w)) => {
            if generic_before(*v, *w) {
                let c = seq![4u32];
                let x = Seq::<u32>::empty();
                let y = Seq::<u32>::empty();
                lemma_generic_decide(*v, *w);
                lemma_part(c, keys::generic_key(*v), keys::generic_key(*w), x, y);
                assert(keys::type_key(a) =~= c + (keys::generic_key(*v) + x));
                assert(keys::type_key(b) =~= c + (keys::generic_key(*w) + y));
            }
        },
        _ => {},
    }
}

/// Generic parameters are ordered by their names, then those without a type before those with one,
/// then by their types.
pub proof fn parameters_are_ordered_by_name_and_type(a: types::GenericModel, b: types::GenericModel)
    ensures
        laws::comes_before(a.name, b.name) ==> generic_before(a, b),
        a.name == b.name && a.ty is None && b.ty is Some ==> generic_before(a, b),
        a.name == b.name && a.ty is Some && b.ty is Some && is_before(a.ty->0, b.ty->0)
            ==> generic_before(a, b),
{
    let p = keys::string_key(a.name);
    let q = keys::string_key(b.name);
    let x = match a.ty {
        Some(ty) => seq![1u32] + keys::type_key(ty),
        None => seq![0u32],
    };
    let y = match b.ty {
        Some(ty) => seq![1u32] + keys::type_key(ty),
        None => seq![0u32],
    };
    assert(keys::generic_key(a) =~= p + x);
    assert(keys::generic_key(b) =~= q + y);
    if laws::comes_before(a.name, b.name) {
        laws::strings_are_ordered_by_code_points(a.name, b.name);
        lemma_string_decide(a.name, b.name);
        lemma_part(Seq::empty(), p, q, x, y);
        assert(p + x =~= Seq::<u32>::empty() + (p + x));
        assert(q + y =~= Seq::<u32>::empty() + (q + y));
    }
    if a.name == b.name && a.ty is None && b.ty is Some {
        let v = seq![0u32];
        let w = seq![1u32];
        assert(v.take(0) =~= w.take(0));
        assert(order::precedes_at(v, w, 0));
        lemma_part(p, v, w, Seq::empty(), keys::type_key(b.ty->0));
        assert(p + x =~= p + (v + Seq::<u32>::empty()));
    }
    if a.name == b.name && a.ty is Some && b.ty is Some && is_before(a.ty->0, b.ty->0) {
        let v = keys::type_key(a.ty->0);
        let w = keys::type_key(b.ty->0);
        let c = p + seq![1u32];
        lemma_type_decide(a.ty->0, b.ty->0);
        lemma_part(c, v, w, Seq::empty(), Seq::empty());
        assert(p + x =~= c + (v + Seq::<u32>::empty()));
        assert(q + y =~= c + (w + Seq::<u32>::empty()));
    }
}

/// A list of strings comes before its continuations, and otherwise the first difference decides.
pub proof fn lists_of_strings_are_ordered_from_the_front(a: Seq<Seq<char>>, b: Seq<Seq<char>>)
    ensures
        a.len() == 0 && b.len() > 0 ==> strings_before(a, b),
        a.len() > 0 && b.len() > 0 ==> {
            &&& laws::comes_before(a[0], b[0]) ==> strings_before(a, b)
            &&& a[0] == b[0] && strings_before(a.skip(1), b.skip(1)) ==> strings_before(a, b)
        },
{
    if b.len() > 0 {
        let s = keys::strings_key(a);
        let t = keys::strings_key(b);
        if a.len() == 0 {
            assert(s.take(0) =~= t.take(0));
            assert(order::precedes_at(s, t, 0));
        } else {
            if laws::comes_before(a[0], b[0]) {
                laws::strings_are_ordered_by_code_points(a[0], b[0]);
                let c = seq![1u32];
                let x = keys::strings_key(a.skip(1));
                let y = keys::strings_key(b.skip(1));
                lemma_string_decide(a[0], b[0]);
                lemma_part(c, keys::string_key(a[0]), keys::string_key(b[0]), x, y);
                assert(s =~= c + (keys::string_key(a[0]) + x));
                assert(t =~= c + (keys::string_key(b[0]) + y));
            }
            if a[0] == b[0] && strings_before(a.skip(1), b.skip(1)) {
                let c = seq![1u32] + keys::string_key(a[0]);
                let x = Seq::<u32>::empty();
                let y = Seq::<u32>::empty();
                lemma_strings_decide(a.skip(1), b.skip(1));
                lemma_part(c, keys::strings_key(a.skip(1)), keys::strings_key(b.skip(1)), x, y);
                assert(s =~= c + (keys::strings_key(a.skip(1)) + x));
                assert(t =~= c + (keys::strings_key(b.skip(1)) + y));
            }
        }
    }
}

/// A list of types comes before its continuations, and otherwise the first difference decides.
pub proof fn lists_of_types_are_ordered_from_the_front(a: Seq<types::TypeModel>, b: Seq<types::TypeModel>)
    ensures
        a.len() == 0 && b.len() > 0 ==> types_before(a, b),
        a.len() > 0 && b.len() > 0 ==> {
            &&& is_before(a[0], b[0]) ==> types_before(a, b)
            &&& a[0] == b[0] && types_before(a.subrange(1, a.len() as int), b.subrange(1, b.len() as int)) ==> types_before(a, b)
        },
{
    if b.len() > 0 {
        let s = keys::types_key(a);
        let t = keys::types_key(b);
        if a.len() == 0 {
            assert(s.take(0) =~= t.take(0));
            assert(order::precedes_at(s, t, 0));
        } else {
            if is_before(a[0], b[0]) {
                let c = seq![1u32];
                let x = keys::types_key(a.subrange(1, a.len() as int));
                let y = keys::types_key(b.subrange(1, b.len() as int));
                lemma_type_decide(a[0], b[0]);
                lemma_part(c, keys::type_key(a[0]), keys::type_key(b[0]), x, y);
                assert(s =~= c + (keys::type_key(a[0]) + x));
                assert(t =~= c + (keys::type_key(b[0]) + y));
            }
            if a[0] == b[0] && types_before(a.subrange(1, a.len() as int), b.subrange(1, b.len() as int)) {
                let c = seq![1u32] + keys::type_key(a[0]);
                let x = Seq::<u32>::empty();
                let y = Seq::<u32>::empty();
                lemma_types_decide(a.subrange(1, a.len() as int), b.subrange(1, b.len() as int));
                lemma_part(c, keys::types_key(a.subrange(1, a.len() as int)), keys::types_key(b.subrange(1, b.len() as int)), x, y);
                assert(s =~= c + (keys::types_key(a.subrange(1, a.len() as int)) + x));
                assert(t =~= c + (keys::types_key(b.subrange(1, b.len() as int)) + y));
            }
        }
    }
}

/// A list of generic parameters comes before its continuations, and otherwise the first difference
/// decides.
pub proof fn lists_of_parameters_are_ordered_from_the_front(a: Seq<types::GenericModel>, b: Seq<types::GenericModel>)
    ensures
        a.len() == 0 && b.len() > 0 ==> generics_before(a, b),
        a.len() > 0 && b.len() > 0 ==> {
            &&& generic_before(a[0], b[0]) ==> generics_before(a, b)
            &&& a[0] == b[0] && generics_before(a.subrange(1, a.len() as int), b.subrange(1, b.len() as int)) ==> generics_before(a, b)
        },
{
    if b.len() > 0 {
        let s = keys::generics_key(a);
        let t = keys::generics_key(b);
        if a.len() == 0 {
            assert(s.take(0) =~= t.take(0));
            assert(order::precedes_at(s, t, 0));
        } else {
            if generic_before(a[0], b[0]) {
                let c = seq![1u32];
                let x = keys::generics_key(a.subrange(1, a.len() as int));
                let y = keys::generics_key(b.subrange(1, b.len() as int));
                lemma_generic_decide(a[0], b[0]);
                lemma_part(c, keys::generic_key(a[0]), keys::generic_key(b[0]), x, y);
                assert(s =~= c + (keys::generic_key(a[0]) + x));
                assert(t =~= c + (keys::generic_key(b[0]) + y));
            }
            if a[0] == b[0] && generics_before(a.subrange(1, a.len() as int), b.subrange(1, b.len() as int)) {
                let c = seq![1u32] + keys::generic_key(a[0]);
                let x = Seq::<u32>::empty();
                let y = Seq::<u32>::empty();
                lemma_generics_decide(a.subrange(1, a.len() as int), b.subrange(1, b.len() as int));
                lemma_part(c, keys::generics_key(a.subrange(1, a.len() as int)), keys::generics_key(b.subrange(1, b.len() as int)), x, y);
                assert(s =~= c + (keys::generics_key(a.subrange(1, a.len() as int)) + x));
                assert(t =~= c + (keys::generics_key(b.subrange(1, b.len() as int)) + y));
            }
        }
    }
}

/// A list of fields comes before its continuations, and otherwise the first difference decides, in
/// a name before the type of that name.
pub proof fn lists_of_fields_are_ordered_from_the_front(a: Seq<types::FieldModel>, b: Seq<types::FieldModel>)
    ensures
        a.len() == 0 && b.len() > 0 ==> fields_before(a, b),
        a.len() > 0 && b.len() > 0 ==> {
            &&& laws::comes_before(a[0].name, b[0].name) ==> fields_before(a, b)
            &&& a[0].name == b[0].name && is_before(a[0].ty, b[0].ty) ==> fields_before(a, b)
            &&& a[0].name == b[0].name && a[0].ty == b[0].ty && fields_before(a.subrange(1, a.len() as int), b.subrange(1, b.len() as int)) ==> fields_before(a, b)
        },
{
    if b.len() > 0 {
        let s = keys::fields_key(a);
        let t = keys::fields_key(b);
        if a.len() == 0 {
            assert(s.take(0) =~= t.take(0));
            assert(order::precedes_at(s, t, 0));
        } else {
            if laws::comes_before(a[0].name, b[0].name) {
                laws::strings_are_ordered_by_code_points(a[0].name, b[0].name);
                let c = seq![1u32];
                let x = keys::type_key(a[0].ty) + keys::fields_key(a.subrange(1, a.len() as int));
                let y = keys::type_key(b[0].ty) + keys::fields_key(b.subrange(1, b.len() as int));
                lemma_string_decide(a[0].name, b[0].name);
                lemma_part(c, keys::string_key(a[0].name), keys::string_key(b[0].name), x, y);
                assert(s =~= c + (keys::string_key(a[0].name) + x));
                assert(t =~= c + (keys::string_key(b[0].name) + y));
            }
            if a[0].name == b[0].name && is_before(a[0].ty, b[0].ty) {
                let c = seq![1u32] + keys::string_key(a[0].name);
                let x = keys::fields_key(a.subrange(1, a.len() as int));
                let y = keys::fields_key(b.subrange(1, b.len() as int));
                lemma_type_decide(a[0].ty, b[0].ty);
                lemma_part(c, keys::type_key(a[0].ty), keys::type_key(b[0].ty), x, y);
                assert(s =~= c + (keys::type_key(a[0].ty) + x));
                assert(t =~= c + (keys::type_key(b[0].ty) + y));
            }
            if a[0].name == b[0].name && a[0].ty == b[0].ty && fields_before(a.subrange(1, a.len() as int), b.subrange(1, b.len() as int)) {
                let c = seq![1u32] + keys::string_key(a[0].name) + keys::type_key(a[0].ty);
                let x = Seq::<u32>::empty();
                let y = Seq::<u32>::empty();
                lemma_fields_decide(a.subrange(1, a.len() as int), b.subrange(1, b.len() as int));
                lemma_part(c, keys::fields_key(a.subrange(1, a.len() as int)), keys::fields_key(b.subrange(1, b.len() as int)), x, y);
                assert(s =~= c + (keys::fields_key(a.subrange(1, a.len() as int)) + x));
                assert(t =~= c + (keys::fields_key(b.subrange(1, b.len() as int)) + y));
            }
        }
    }
}

/// A list of variants comes before its continuations, and otherwise the first difference decides,
/// in a name before the type of that name.
pub proof fn lists_of_variants_are_ordered_from_the_front(a: Seq<types::VariantModel>, b: Seq<types::VariantModel>)
    ensures
        a.len() == 0 && b.len() > 0 ==> variants_before(a, b),
        a.len() > 0 && b.len() > 0 ==> {
            &&& laws::comes_before(a[0].name, b[0].name) ==> variants_before(a, b)
            &&& a[0].name == b[0].name && is_before(a[0].ty, b[0].ty) ==> variants_before(a, b)
            &&& a[0].name == b[0].name && a[0].ty == b[0].ty && variants_before(a.subrange(1, a.len() as int), b.subrange(1, b.len() as int)) ==> variants_before(a, b)
        },
{
    if b.len() > 0 {
        let s = keys::variants_key(a);
        let t = keys::variants_key(b);
        if a.len() == 0 {
            assert(s.take(0) =~= t.take(0));
            assert(order::precedes_at(s, t, 0));
        } else {
            if laws::comes_before(a[0].name, b[0].name) {
                laws::strings_are_ordered_by_code_points(a[0].name, b[0].name);
                let c = seq![1u32];
                let x = keys::type_key(a[0].ty) + keys::variants_key(a.subrange(1, a.len() as int));
                let y = keys::type_key(b[0].ty) + keys::variants_key(b.subrange(1, b.len() as int));
                lemma_string_decide(a[0].name, b[0].name);
                lemma_part(c, keys::string_key(a[0].name), keys::string_key(b[0].name), x, y);
                assert(s =~= c + (keys::string_key(a[0].name) + x));
                assert(t =~= c + (keys::string_key(b[0].name) + y));
            }
            if a[0].name == b[0].name && is_before(a[0].ty, b[0].ty) {
                let c = seq![1u32] + keys::string_key(a[0].name);
                let x = keys::variants_key(a.subrange(1, a.len() as int));
                let y = keys::variants_key(b.subrange(1, b.len() as int));
                lemma_type_decide(a[0].ty, b[0].ty);
                lemma_part(c, keys::type_key(a[0].ty), keys::type_key(b[0].ty), x, y);
                assert(s =~= c + (keys::type_key(a[0].ty) + x));
                assert(t =~= c + (keys::type_key(b[0].ty) + y));
            }
            if a[0].name == b[0].name && a[0].ty == b[0].ty && variants_before(a.subrange(1, a.len() as int), b.subrange(1, b.len() as int)) {
                let c = seq![1u32] + keys::string_key(a[0].name) + keys::type_key(a[0].ty);
                let x = Seq::<u32>::empty();
                let y = Seq::<u32>::empty();
                lemma_variants_decide(a.subrange(1, a.len() as int), b.subrange(1, b.len() as int));
                lemma_part(c, keys::variants_key(a.subrange(1, a.len() as int)), keys::variants_key(b.subrange(1, b.len() as int)), x, y);
                assert(s =~= c + (keys::variants_key(a.subrange(1, a.len() as int)) + x));
                assert(t =~= c + (keys::variants_key(b.subrange(1, b.len() as int)) + y));
            }
        }
    }
}

/// Each kind of types is listed before the next one.
pub proof fn kinds_are_ordered(a: types::TypeModel, b: types::TypeModel)
    ensures
        a is Alias && b is Container ==> is_before(a, b),
        a is Container && b is Custom ==> is_before(a, b),
        a is Custom && b is Enum ==> is_before(a, b),
        a is Enum && b is GenericArgument ==> is_before(a, b),
        a is GenericArgument && b is List ==> is_before(a, b),
        a is List && b is Mapping ==> is_before(a, b),
        a is Mapping && b is Primitive ==> is_before(a, b),
        a is Primitive && b is String ==> is_before(a, b),
        a is String && b is Struct ==> is_before(a, b),
        a is Struct && b is Tuple ==> is_before(a, b),
        a is Tuple && b is Unit ==> is_before(a, b),
{
    if keys::kind(a) < keys::kind(b) {
        laws::types_are_ordered_by_kind(a, b);
    }
}

/// Each primitive type is listed before the next one.
pub proof fn primitives_are_ordered(a: Primitive, b: Primitive)
    ensures
        a is Bool && b is F32 ==> is_before(
            types::TypeModel::Primitive(a),
            types::TypeModel::Primitive(b),
        ),
        a is F32 && b is F64 ==> is_before(
            types::TypeModel::Primitive(a),
            types::TypeModel::Primitive(b),
        ),
        a is F64 && b is I8 ==> is_before(
            types::TypeModel::Primitive(a),
            types::TypeModel::Primitive(b),
        ),
        a is I8 && b is I16 ==> is_before(
            types::TypeModel::Primitive(a),
            types::TypeModel::Primitive(b),
        ),
        a is I16 && b is I32 ==> is_before(
            types::TypeModel::Primitive(a),
            types::TypeModel::Primitive(b),
        ),
        a is I32 && b is I64 ==> is_before(
            types::TypeModel::Primitive(a),
            types::TypeModel::Primitive(b),
        ),
        a is I64 && b is I128 ==> is_before(
            types::TypeModel::Primitive(a),
            types::TypeModel::Primitive(b),
        ),
        a is I128 && b is U8 ==> is_before(
            types::TypeModel::Primitive(a),
            types::TypeModel::Primitive(b),
        ),
        a is U8 && b is U16 ==> is_before(
            types::TypeModel::Primitive(a),
            types::TypeModel::Primitive(b),
        ),
        a is U16 && b is U32 ==> is_before(
            types::TypeModel::Primitive(a),
            types::TypeModel::Primitive(b),
        ),
        a is U32 && b is U64 ==> is_before(
            types::TypeModel::Primitive(a),
            types::TypeModel::Primitive(b),
        ),
        a is U64 && b is U128 ==> is_before(
            types::TypeModel::Primitive(a),
            types::TypeModel::Primitive(b),
        ),
{
    let s = keys::type_key(types::TypeModel::Primitive(a));
    let t = keys::type_key(types::TypeModel::Primitive(b));
    if keys::primitive_rank(a) < keys::primitive_rank(b) {
        assert(s.take(1) =~= t.take(1));
        assert(order::precedes_at(s, t, 1));
    }
}

} // verus!
