//! Native methods of `java.lang` that compute on values and on the runtime.

use vstd::prelude::*;

use crate::heap::is_object;
use crate::java::{Int, Long, Double, Reference, Value};
use crate::java::field_type::{TypeModel, type_descriptor, type_width};
use crate::runtime::{Need, Runtime, RuntimeModel, lookup, runtime_wf};
use crate::text::push_char;

verus! {

/// `Float.floatToRawIntBits`: the bits of the float argument, as an int.
pub fn float_to_int_bits(args: &Vec<Value>) -> (res: Option<Value>)
    requires
        args@.len() >= 1,
        args@[0] is Float,
    ensures
        res == Some(Value::Int(Int(args@[0]->Float_0.0 as i32))),
{
    let bits = args[0].as_float().0;
    Some(Value::Int(Int(bits as i32)))
}

/// `Double.doubleToRawLongBits`: the bits of the double argument, as a long.
pub fn double_to_long_bits(args: &Vec<Value>) -> (res: Option<Value>)
    requires
        args@.len() >= 1,
        args@[0] is Double,
    ensures
        res == Some(Value::Long(Long(args@[0]->Double_0.0 as i64))),
{
    let bits = args[0].as_double().0;
    Some(Value::Long(Long(bits as i64)))
}

/// `Double.longBitsToDouble`: the double whose bits the long argument holds.
pub fn long_bits_to_double(args: &Vec<Value>) -> (res: Option<Value>)
    requires
        args@.len() >= 1,
        args@[0] is Long,
    ensures
        res == Some(Value::Double(Double(args@[0]->Long_0.0 as u64))),
{
    let bits = args[0].as_long().0;
    Some(Value::Double(Double(bits as u64)))
}

/// `Class.desiredAssertionStatus0`: assertions are off.
pub fn assertion_status() -> (res: Option<Value>)
    ensures
        res == Some(Value::Int(Int(0))),
{
    Some(Value::Int(Int(0)))
}

/// `System.initProperties`: the properties object it is given, unchanged.
pub fn init_properties(args: &Vec<Value>) -> (res: Option<Value>)
    requires
        args@.len() >= 1,
    ensures
        res == Some(args@[0]),
{
    Some(args[0])
}

/// A native method that does nothing and returns nothing.
pub fn no_op() -> (res: Option<Value>)
    ensures
        res is None,
{
    None
}

/// `Thread.currentThread`: the object of the thread running, which it must have.
pub fn current_thread(thread_ref: Option<Reference>) -> (res: Option<Value>)
    requires
        thread_ref is Some,
    ensures
        res == Some(Value::Reference(thread_ref->Some_0)),
{
    match thread_ref {
        Some(r) => Some(Value::Reference(r)),
        None => unreached(),
    }
}

/// The decimal digits of `n`, without leading zeros.
pub open spec fn digits(n: nat) -> Seq<char>
    decreases n,
{
    if n < 10 {
        seq![digit_of(n as int)]
    } else {
        digits(n / 10).push(digit_of((n % 10) as int))
    }
}

/// The character of the decimal digit `d`.
pub open spec fn digit_of(d: int) -> char {
    (('0' as u32) + d) as char
}

/// The decimal text of `i`: a minus sign before the digits of a negative number.
pub open spec fn int_text(i: int) -> Seq<char> {
    if i < 0 {
        seq!['-'] + digits((-i) as nat)
    } else {
        digits(i as nat)
    }
}

/// The decimal digits of `n`.
fn digits_of(n: u64) -> (s: String)
    ensures
        s@ == digits(n as nat),
    decreases n,
{
    if n < 10 {
        let mut s = String::new();
        let c = char_of_digit(n as u8);
        push_char(&mut s, c);
        proof {
            assert(s@ =~= seq![digit_of(n as int)]);
        }
        s
    } else {
        let mut s = digits_of(n / 10);
        push_char(&mut s, char_of_digit((n % 10) as u8));
        s
    }
}

/// The character of the decimal digit `d`.
fn char_of_digit(d: u8) -> (c: char)
    requires
        d < 10,
    ensures
        c == digit_of(d as int),
{
    if d == 0 { '0' }
    else if d == 1 { '1' }
    else if d == 2 { '2' }
    else if d == 3 { '3' }
    else if d == 4 { '4' }
    else if d == 5 { '5' }
    else if d == 6 { '6' }
    else if d == 7 { '7' }
    else if d == 8 { '8' }
    else { '9' }
}

/// The decimal text of `i`.
pub fn int_to_text(i: i32) -> (s: String)
    ensures
        s@ == int_text(i as int),
{
    if i < 0 {
        let magnitude = (0 - (i as i64)) as u64;
        let text = digits_of(magnitude);
        let mut s = String::new();
        push_char(&mut s, '-');
        let chars = crate::text::str_chars(text.as_str());
        crate::text::push_all(&mut s, &chars);
        proof {
            assert(s@ =~= seq!['-'] + digits((-i) as nat));
        }
        s
    } else {
        digits_of(i as u64)
    }
}

/// `Integer.toString`: the interned string of the decimal text of the int argument;
/// `java.lang.String` must have been loaded for that.
pub fn integer_to_string(runtime: &mut Runtime, args: &Vec<Value>) -> (res: Result<Option<Value>, Need>)
    requires
        runtime_wf(old(runtime)@),
        old(runtime)@.heap.len() + 2 <= u32::MAX,
        args@.len() >= 1,
        args@[0] is Int,
    ensures
        runtime_wf(final(runtime)@),
        match lookup(old(runtime)@.strings, int_text(args@[0]->Int_0.0 as int)) {
            Some(i) => res == Ok::<Option<Value>, Need>(Some(Value::Reference(Reference(old(runtime)@.strings[i].1))))
                && final(runtime)@ == old(runtime)@,
            None => match crate::method_area::find_name(old(runtime)@.area.classes, "java.lang.String"@) {
                None => res matches Err(Need::Class(name)) && name@ == "java.lang.String"@
                    && final(runtime)@ == old(runtime)@,
                Some(sc) => res matches Ok(Some(Value::Reference(r))) && crate::runtime::interned(
                    old(runtime)@,
                    final(runtime)@,
                    int_text(args@[0]->Int_0.0 as int),
                    sc,
                    r.0,
                ),
            },
        },
{
    let text = int_to_text(args[0].as_int().0);
    proof {
        lemma_int_text_len(args@[0]->Int_0.0 as int);
    }
    match runtime.intern_string(&text) {
        Ok(r) => Ok(Some(Value::Reference(r))),
        Err(need) => Err(need),
    }
}

/// The text of an int is short.
proof fn lemma_int_text_len(i: int)
    requires
        i32::MIN <= i <= i32::MAX,
    ensures
        int_text(i).len() <= 12,
{
    reveal_with_fuel(pow10, 11);
    assert(pow10(10) == 10_000_000_000);
    lemma_digits_under(if i < 0 { -i } else { i } as nat, 10);
}

/// Ten to the `k`.
pub open spec fn pow10(k: nat) -> nat
    decreases k,
{
    if k == 0 {
        1
    } else {
        10 * pow10((k - 1) as nat)
    }
}

/// A number below ten to the `k` has at most `k` digits.
proof fn lemma_digits_under(n: nat, k: nat)
    requires
        k >= 1,
        n < pow10(k),
    ensures
        digits(n).len() <= k,
    decreases k,
{
    if n >= 10 {
        assert(k >= 2) by {
            if k == 1 {
                assert(pow10(1) == 10) by {
                    reveal_with_fuel(pow10, 2);
                }
            }
        }
        assert(n / 10 < pow10((k - 1) as nat));
        lemma_digits_under(n / 10, (k - 1) as nat);
    }
}

/// `Object.getClass`: the class object of the class of the object the argument refers to;
/// `java.lang.String` and `java.lang.Class` must have been loaded for that.
pub fn object_get_class(runtime: &mut Runtime, args: &Vec<Value>) -> (res: Result<Option<Value>, Need>)
    requires
        runtime_wf(old(runtime)@),
        old(runtime)@.heap.len() + 3 <= u32::MAX,
        args@.len() >= 1,
        args@[0] is Reference,
        is_object(old(runtime)@.heap, args@[0]->Reference_0.0),
        object_class_of(old(runtime)@, args@[0]->Reference_0.0) < old(runtime)@.area.classes.len(),
        old(runtime)@.area.classes[object_class_of(old(runtime)@, args@[0]->Reference_0.0) as int].name.len() <= 0x3FFF_FFFF,
    ensures
        runtime_wf(final(runtime)@),
        ({
            let class = object_class_of(old(runtime)@, args@[0]->Reference_0.0);
            match lookup(old(runtime)@.class_objects, class) {
                Some(i) => res == Ok::<Option<Value>, Need>(Some(Value::Reference(Reference(old(runtime)@.class_objects[i].1))))
                    && final(runtime)@ == old(runtime)@,
                None => match (
                    crate::method_area::find_name(old(runtime)@.area.classes, "java.lang.String"@),
                    crate::method_area::find_name(old(runtime)@.area.classes, "java.lang.Class"@),
                ) {
                    (Some(sc), Some(cc)) => res matches Ok(Some(Value::Reference(r)))
                        && crate::runtime::made_class_object(old(runtime)@, final(runtime)@, class, sc, cc, r.0),
                    _ => res matches Err(Need::Class(_)) && final(runtime)@ == old(runtime)@,
                },
            }
        }),
{
    let reference = args[0].as_reference();
    let class = runtime.heap().get_object(reference).class();
    match runtime.class_object(class) {
        Ok(r) => Ok(Some(Value::Reference(r))),
        Err(need) => Err(need),
    }
}

/// The class of the object `r` refers to.
pub open spec fn object_class_of(rt: RuntimeModel, r: u32) -> usize {
    rt.heap[r]->Object_0.class
}

/// The width in bytes of the elements of the array class named `name`, for the arrays of
/// primitives and of objects; `None` for other names.
pub open spec fn scale_of(name: Seq<char>) -> Option<i32> {
    if name == "[Z"@ || name == "[B"@ {
        Some(1)
    } else if name == "[C"@ || name == "[S"@ {
        Some(2)
    } else if name == "[I"@ || name == "[F"@ || name == "[Ljava.lang.Object;"@ {
        Some(4)
    } else if name == "[J"@ || name == "[D"@ {
        Some(8)
    } else {
        None
    }
}

/// `Unsafe.arrayIndexScale`, given the name of the array class: the width in bytes of its
/// elements.
pub fn index_scale(name: &String) -> (res: Option<i32>)
    ensures
        res == scale_of(name@),
{
    let z = String::from_str("[Z");
    let b = String::from_str("[B");
    let c = String::from_str("[C");
    let s = String::from_str("[S");
    let i = String::from_str("[I");
    let f = String::from_str("[F");
    let o = String::from_str("[Ljava.lang.Object;");
    let j = String::from_str("[J");
    let d = String::from_str("[D");
    proof {
        reveal_strlit("[Z");
        reveal_strlit("[B");
        reveal_strlit("[C");
        reveal_strlit("[S");
        reveal_strlit("[I");
        reveal_strlit("[F");
        reveal_strlit("[Ljava.lang.Object;");
        reveal_strlit("[J");
        reveal_strlit("[D");
    }
    if *name == z || *name == b {
        Some(1)
    } else if *name == c || *name == s {
        Some(2)
    } else if *name == i || *name == f || *name == o {
        Some(4)
    } else if *name == j || *name == d {
        Some(8)
    } else {
        None
    }
}

/// Whether `t` is one of the eight primitive types.
pub open spec fn is_primitive(t: TypeModel) -> bool {
    !(t is Reference) && !(t is Array)
}

/// The index scale of an array of a primitive type is the width of that type, the one its
/// fields take in an object: `Unsafe.arrayIndexScale` on the array class whose descriptor is
/// `[` and the type's descriptor (8 for `long[]` and `double[]`) gives the element width.
pub proof fn law_index_scale_is_element_width(t: TypeModel)
    requires
        is_primitive(t),
    ensures
        scale_of(type_descriptor(TypeModel::Array(Box::new(t)))) == Some(type_width(t) as i32),
{
    let d = type_descriptor(TypeModel::Array(Box::new(t)));
    assert(d == seq!['['] + type_descriptor(t));
    reveal_strlit("[Z");
    reveal_strlit("[B");
    reveal_strlit("[C");
    reveal_strlit("[S");
    reveal_strlit("[I");
    reveal_strlit("[F");
    reveal_strlit("[J");
    reveal_strlit("[D");
    reveal_strlit("[Ljava.lang.Object;");
    assert("[Z"@.len() == 2 && "[Z"@[1] == 'Z');
    assert("[B"@.len() == 2 && "[B"@[1] == 'B');
    assert("[C"@.len() == 2 && "[C"@[1] == 'C');
    assert("[S"@.len() == 2 && "[S"@[1] == 'S');
    assert("[I"@.len() == 2 && "[I"@[1] == 'I');
    assert("[F"@.len() == 2 && "[F"@[1] == 'F');
    assert("[J"@.len() == 2 && "[J"@[1] == 'J');
    assert("[D"@.len() == 2 && "[D"@[1] == 'D');
    assert("[Ljava.lang.Object;"@.len() != 2);
    match t {
        TypeModel::Boolean => {
            assert(d.len() == 2 && d[1] == 'Z');
            assert(d =~= "[Z"@);
        },
        TypeModel::Byte => {
            assert(d.len() == 2 && d[1] == 'B');
            assert(d =~= "[B"@);
        },
        TypeModel::Char => {
            assert(d.len() == 2 && d[1] == 'C');
            assert(d =~= "[C"@);
        },
        TypeModel::Short => {
            assert(d.len() == 2 && d[1] == 'S');
            assert(d =~= "[S"@);
        },
        TypeModel::Int => {
            assert(d.len() == 2 && d[1] == 'I');
            assert(d =~= "[I"@);
        },
        TypeModel::Float => {
            assert(d.len() == 2 && d[1] == 'F');
            assert(d =~= "[F"@);
        },
        TypeModel::Long => {
            assert(d.len() == 2 && d[1] == 'J');
            assert(d =~= "[J"@);
        },
        TypeModel::Double => {
            assert(d.len() == 2 && d[1] == 'D');
            assert(d =~= "[D"@);
        },
        _ => {},
    }
}

/// The number that the decimal digits `s` write.
pub open spec fn decimal_value(s: Seq<char>) -> int
    decreases s.len(),
{
    if s.len() == 0 {
        0
    } else {
        decimal_value(s.drop_last()) * 10 + (s.last() as int - '0' as int)
    }
}

/// Whether `s` is a decimal numeral in its shortest form: one or more digits, with no leading
/// zero unless it is just `0`.
pub open spec fn is_numeral(s: Seq<char>) -> bool {
    &&& s.len() > 0
    &&& forall|k: int| 0 <= k < s.len() ==> '0' <= #[trigger] s[k] <= '9'
    &&& s.len() > 1 ==> s[0] != '0'
}

/// The digits of `n` are its shortest numeral, and they write `n`.
proof fn lemma_digits_read_back(n: nat)
    ensures
        is_numeral(digits(n)),
        decimal_value(digits(n)) == n,
        n > 0 ==> digits(n)[0] != '0',
    decreases n,
{
    if n < 10 {
        let c = digit_of(n as int);
        assert(c as int == '0' as int + n);
        assert(digits(n) == seq![c]);
        assert(digits(n).drop_last() =~= Seq::<char>::empty());
        assert(decimal_value(Seq::<char>::empty()) == 0);
        assert(digits(n).last() == c);
        assert(decimal_value(digits(n)) == decimal_value(digits(n).drop_last()) * 10 + (c as int - '0' as int));
    } else {
        lemma_digits_read_back(n / 10);
        let d = digits(n / 10);
        let c = digit_of((n % 10) as int);
        assert(c as int == '0' as int + n % 10);
        assert(digits(n).drop_last() =~= d);
        assert(digits(n)[0] == d[0]);
        assert(n / 10 > 0);
        assert forall|k: int| 0 <= k < digits(n).len() implies '0' <= #[trigger] digits(n)[k] <= '9' by {
            if k < d.len() {
                assert(digits(n)[k] == d[k]);
            }
        }
        assert(digits(n).last() == c);
        assert(decimal_value(digits(n)) == decimal_value(d) * 10 + (c as int - '0' as int));
        assert((n / 10) * 10 + n % 10 == n);
    }
}

/// What `Integer.toString` writes reads back as the int: the text of a non-negative int is
/// its shortest decimal numeral, and that of a negative int is a minus sign before the
/// shortest numeral of its magnitude.
pub proof fn law_int_text_reads_back(i: int)
    ensures
        i >= 0 ==> is_numeral(int_text(i)) && decimal_value(int_text(i)) == i,
        i < 0 ==> int_text(i)[0] == '-' && is_numeral(int_text(i).drop_first()) && decimal_value(
            int_text(i).drop_first(),
        ) == -i,
{
    if i >= 0 {
        lemma_digits_read_back(i as nat);
    } else {
        lemma_digits_read_back((-i) as nat);
        assert(int_text(i).drop_first() =~= digits((-i) as nat));
    }
}

} // verus!
