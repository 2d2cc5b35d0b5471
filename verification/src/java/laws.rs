//! What parsing and printing descriptors promise of each other.

use vstd::prelude::*;

use crate::java::field_type::{TypeModel, field_descriptor_type, type_descriptor};
use crate::java::method_type::{
    MethodModel,
    MethodStep,
    ParamsStep,
    method_descriptor,
    parse_method,
    parse_params,
    types_descriptor,
};
use crate::java::type_parser::{Step, find_char, parse_type, lemma_find_char_bounds};
use crate::text::replace_char;

verus! {

/// A class name that a descriptor can carry unchanged: not empty, without the `;` that ends
/// it and without `.`, which a descriptor writes as `/`.
pub open spec fn descriptor_name(n: Seq<char>) -> bool {
    n.len() > 0 && !n.contains(';') && !n.contains('.')
}

/// Every class name in the type is a `descriptor_name`.
pub open spec fn well_named(t: TypeModel) -> bool
    decreases t,
{
    match t {
        TypeModel::Reference(n) => descriptor_name(n),
        TypeModel::Array(c) => well_named(*c),
        _ => true,
    }
}

/// Every type of the list is `well_named`.
pub open spec fn all_well_named(ts: Seq<TypeModel>) -> bool {
    forall|i: int| 0 <= i < ts.len() ==> well_named(#[trigger] ts[i])
}

/// Every class name in the method type is a `descriptor_name`.
pub open spec fn method_well_named(m: MethodModel) -> bool {
    &&& all_well_named(m.parameters)
    &&& m.return_type matches Some(t) ==> well_named(t)
}

proof fn lemma_replace_absent(n: Seq<char>)
    requires
        !n.contains('.'),
    ensures
        replace_char(n, '.', '/') == n,
{
    assert forall|i: int| 0 <= i < n.len() implies n[i] != '.' by {
        if n[i] == '.' {
            assert(n.contains('.'));
        }
    }
    assert(replace_char(n, '.', '/') =~= n);
}

proof fn lemma_find_char_at(s: Seq<char>, from: int, k: int, c: char)
    requires
        0 <= from <= k < s.len(),
        s[k] == c,
        forall|j: int| from <= j < k ==> s[j] != c,
    ensures
        find_char(s, from, c) == Some(k),
    decreases k - from,
{
    if from < k {
        lemma_find_char_at(s, from + 1, k, c);
    }
}

/// The first character of a type descriptor.
proof fn lemma_descriptor_first(t: TypeModel)
    ensures
        type_descriptor(t).len() > 0,
        type_descriptor(t)[0] != ')',
        type_descriptor(t)[0] != 'V',
        type_descriptor(t)[0] != '.',
{
    reveal_with_fuel(type_descriptor, 2);
}

/// A type descriptor is read back as its type, wherever it stands.
proof fn lemma_parse_descriptor(t: TypeModel, pre: Seq<char>, post: Seq<char>)
    requires
        well_named(t),
    ensures
        parse_type(pre + type_descriptor(t) + post, pre.len() as int) == Step::Parsed(
            t,
            (pre.len() + type_descriptor(t).len()) as int,
        ),
    decreases t,
{
    let d = type_descriptor(t);
    let s = pre + d + post;
    let pos = pre.len() as int;
    assert(s[pos] == d[0]);
    match t {
        TypeModel::Reference(n) => {
            lemma_replace_absent(n);
            assert(d =~= seq!['L'] + n + seq![';']);
            let k = pos + 1 + n.len();
            assert forall|j: int| pos + 1 <= j < k implies s[j] != ';' by {
                assert(s[j] == n[j - pos - 1]);
                if n[j - pos - 1] == ';' {
                    assert(n.contains(';'));
                }
            }
            assert(s[k] == ';');
            lemma_find_char_at(s, pos + 1, k, ';');
            assert(s.subrange(pos + 1, k) =~= n);
        },
        TypeModel::Array(c) => {
            let dc = type_descriptor(*c);
            assert(d =~= seq!['['] + dc);
            assert(s =~= (pre + seq!['[']) + dc + post);
            lemma_parse_descriptor(*c, pre + seq!['['], post);
        },
        _ => {},
    }
}

/// Law: a field type is read back from its descriptor, when its class names are
/// `descriptor_name`s.
pub proof fn law_field_descriptor_roundtrip(t: TypeModel)
    requires
        well_named(t),
    ensures
        field_descriptor_type(type_descriptor(t)) == Some(t),
        !(parse_type(type_descriptor(t), 0) is Aborts),
{
    let d = type_descriptor(t);
    lemma_parse_descriptor(t, Seq::empty(), Seq::empty());
    assert(Seq::<char>::empty() + d + Seq::<char>::empty() =~= d);
}

/// The characters a parsed type was read from are its descriptor, when they hold no `.`.
proof fn lemma_parsed_is_descriptor(s: Seq<char>, pos: int)
    requires
        !s.contains('.'),
    ensures
        parse_type(s, pos) matches Step::Parsed(t, p) ==> type_descriptor(t) == s.subrange(pos, p)
            && well_named(t),
    decreases s.len() - pos,
{
    if 0 <= pos < s.len() {
        let c = s[pos];
        if c == 'L' {
            lemma_find_char_bounds(s, pos + 1, ';');
            match find_char(s, pos + 1, ';') {
                Some(k) => {
                    if k != pos + 1 {
                        let n = s.subrange(pos + 1, k);
                        assert(!n.contains('.')) by {
                            if n.contains('.') {
                                let j = choose|j: int| 0 <= j < n.len() && n[j] == '.';
                                assert(s[pos + 1 + j] == '.');
                                assert(s.contains('.'));
                            }
                        }
                        assert(!n.contains(';')) by {
                            if n.contains(';') {
                                let j = choose|j: int| 0 <= j < n.len() && n[j] == ';';
                                assert(s[pos + 1 + j] == ';');
                            }
                        }
                        lemma_replace_absent(n);
                        assert(type_descriptor(TypeModel::Reference(n)) =~= s.subrange(pos, k + 1));
                    }
                },
                None => {},
            }
        } else if c == '[' {
            lemma_parsed_is_descriptor(s, pos + 1);
            crate::java::type_parser::lemma_parse_type_advances(s, pos + 1);
            match parse_type(s, pos + 1) {
                Step::Parsed(t, p) => {
                    assert(type_descriptor(TypeModel::Array(Box::new(t))) =~= s.subrange(pos, p));
                },
                _ => {},
            }
        } else {
            assert(parse_type(s, pos) matches Step::Parsed(t, p) ==> type_descriptor(t) =~= s.subrange(pos, p));
        }
    }
}

/// Law: a descriptor without `.` that denotes a field type is that type's descriptor.
pub proof fn law_field_descriptor_canonical(s: Seq<char>)
    requires
        !s.contains('.'),
        field_descriptor_type(s) is Some,
    ensures
        type_descriptor(field_descriptor_type(s)->0) == s,
{
    lemma_parsed_is_descriptor(s, 0);
    assert(s.subrange(0, s.len() as int) =~= s);
}

proof fn lemma_types_descriptor_cons(t: TypeModel, ts: Seq<TypeModel>)
    ensures
        types_descriptor(seq![t] + ts) == type_descriptor(t) + types_descriptor(ts),
    decreases ts.len(),
{
    if ts.len() == 0 {
        assert(seq![t] + ts =~= seq![t]);
        assert(seq![t].drop_last() =~= Seq::<TypeModel>::empty());
        reveal_with_fuel(types_descriptor, 2);
        assert(types_descriptor(seq![t]) =~= type_descriptor(t) + types_descriptor(ts));
    } else {
        lemma_types_descriptor_cons(t, ts.drop_last());
        assert((seq![t] + ts).drop_last() =~= seq![t] + ts.drop_last());
        assert((seq![t] + ts).last() == ts.last());
        assert(types_descriptor(seq![t] + ts) =~= type_descriptor(t) + types_descriptor(ts));
    }
}

/// A list of type descriptors followed by `)` is read back as the list.
proof fn lemma_parse_params_descriptor(ts: Seq<TypeModel>, pre: Seq<char>, post: Seq<char>)
    requires
        all_well_named(ts),
    ensures
        parse_params(pre + types_descriptor(ts) + seq![')'] + post, pre.len() as int)
            == ParamsStep::Done(ts, (pre.len() + types_descriptor(ts).len()) as int),
    decreases ts.len(),
{
    let s = pre + types_descriptor(ts) + seq![')'] + post;
    let pos = pre.len() as int;
    if ts.len() == 0 {
        assert(s[pos] == ')');
        assert(ts =~= Seq::<TypeModel>::empty());
    } else {
        let t = ts[0];
        let rest = ts.drop_first();
        assert(ts =~= seq![t] + rest);
        lemma_types_descriptor_cons(t, rest);
        let d = type_descriptor(t);
        lemma_descriptor_first(t);
        assert(s[pos] == d[0]);
        assert(s =~= pre + d + (types_descriptor(rest) + seq![')'] + post));
        assert(well_named(ts[0]));
        lemma_parse_descriptor(t, pre, types_descriptor(rest) + seq![')'] + post);
        assert(s =~= (pre + d) + types_descriptor(rest) + seq![')'] + post);
        assert forall|i: int| 0 <= i < rest.len() implies well_named(#[trigger] rest[i]) by {
            assert(rest[i] == ts[i + 1]);
        }
        lemma_parse_params_descriptor(rest, pre + d, post);
    }
}

/// Law: a method type is read back from its descriptor, when its class names are
/// `descriptor_name`s.
pub proof fn law_method_descriptor_roundtrip(m: MethodModel)
    requires
        method_well_named(m),
    ensures
        parse_method(method_descriptor(m)) == MethodStep::Parsed(m),
{
    let s = method_descriptor(m);
    let pd = types_descriptor(m.parameters);
    let rd = match m.return_type {
        Some(t) => type_descriptor(t),
        None => seq!['V'],
    };
    assert(s =~= seq!['('] + pd + seq![')'] + rd);
    lemma_parse_params_descriptor(m.parameters, seq!['('], rd);
    let q = (1 + pd.len() + 1) as int;
    match m.return_type {
        Some(t) => {
            lemma_descriptor_first(t);
            assert(s[q] == rd[0]);
            assert(s =~= (seq!['('] + pd + seq![')']) + rd + Seq::<char>::empty());
            lemma_parse_descriptor(t, seq!['('] + pd + seq![')'], Seq::empty());
        },
        None => {
            assert(s[q] == 'V');
        },
    }
}

/// The characters a parameter list was read from are its descriptor, when they hold no `.`.
proof fn lemma_params_are_descriptor(s: Seq<char>, pos: int)
    requires
        !s.contains('.'),
    ensures
        parse_params(s, pos) matches ParamsStep::Done(ts, q) ==> types_descriptor(ts)
            == s.subrange(pos, q) && pos <= q < s.len() && s[q] == ')' && all_well_named(ts),
    decreases s.len() - pos,
{
    if 0 <= pos < s.len() {
        if s[pos] == ')' {
            assert(s.subrange(pos, pos) =~= Seq::<char>::empty());
        } else {
            crate::java::type_parser::lemma_parse_type_advances(s, pos);
            lemma_parsed_is_descriptor(s, pos);
            match parse_type(s, pos) {
                Step::Parsed(t, p) => {
                    lemma_params_are_descriptor(s, p);
                    match parse_params(s, p) {
                        ParamsStep::Done(ts, q) => {
                            lemma_types_descriptor_cons(t, ts);
                            assert(s.subrange(pos, q) =~= s.subrange(pos, p) + s.subrange(p, q));
                            let all = seq![t] + ts;
                            assert forall|i: int| 0 <= i < all.len() implies well_named(
                                #[trigger] all[i],
                            ) by {
                                if i > 0 {
                                    assert(all[i] == ts[i - 1]);
                                }
                            }
                        },
                        _ => {},
                    }
                },
                _ => {},
            }
        }
    }
}

/// Law: a descriptor without `.` that denotes a method type is that type's descriptor.
pub proof fn law_method_descriptor_canonical(s: Seq<char>)
    requires
        !s.contains('.'),
        parse_method(s) is Parsed,
    ensures
        method_descriptor(parse_method(s)->Parsed_0) == s,
        method_well_named(parse_method(s)->Parsed_0),
{
    lemma_params_are_descriptor(s, 1);
    match parse_params(s, 1) {
        ParamsStep::Done(ps, p) => {
            let q = p + 1;
            if s[q] == 'V' {
                assert(s =~= seq!['('] + s.subrange(1, p) + seq![')'] + seq!['V']);
            } else {
                lemma_parsed_is_descriptor(s, q);
                assert(s =~= seq!['('] + s.subrange(1, p) + seq![')'] + s.subrange(q, s.len() as int));
            }
        },
        _ => {},
    }
}

} // verus!
