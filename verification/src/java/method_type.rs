//! Method types and their descriptors.

use vstd::prelude::*;

use crate::java::field_type::{FieldType, TypeModel, type_class_name, type_descriptor};
use crate::java::type_parser::{ParseError, TypeParser, Step, parse_type, lemma_parse_type_advances};
use crate::text::push_char;

verus! {

/// The mathematical model of a method type.
pub struct MethodModel {
    pub parameters: Seq<TypeModel>,
    /// `None` stands for `void`.
    pub return_type: Option<TypeModel>,
}

/// The outcome of reading the parameter list of a method descriptor, up to its `)`.
pub enum ParamsStep {
    /// The parameters, and the position of the closing `)`.
    Done(Seq<TypeModel>, int),
    Failed,
    Aborts,
}

/// Reading parameter types from `pos` until a `)` is next.
pub open spec fn parse_params(s: Seq<char>, pos: int) -> ParamsStep
    decreases s.len() - pos,
{
    if pos < 0 || pos >= s.len() {
        ParamsStep::Failed
    } else if s[pos] == ')' {
        ParamsStep::Done(Seq::empty(), pos)
    } else {
        match parse_type(s, pos) {
            Step::Parsed(t, p) => {
                proof {
                    lemma_parse_type_advances(s, pos);
                }
                match parse_params(s, p) {
                    ParamsStep::Done(ts, q) => ParamsStep::Done(seq![t] + ts, q),
                    other => other,
                }
            },
            Step::Failed(_) => ParamsStep::Failed,
            Step::Aborts => ParamsStep::Aborts,
        }
    }
}

/// The outcome of reading a whole method descriptor.
pub enum MethodStep {
    Parsed(MethodModel),
    Failed,
    Aborts,
}

/// Reading a method descriptor `(` parameters `)` return-type, where `V` is `void`.
pub open spec fn parse_method(s: Seq<char>) -> MethodStep {
    if s.len() == 0 || s[0] != '(' {
        MethodStep::Failed
    } else {
        match parse_params(s, 1) {
            ParamsStep::Done(ps, p) => {
                let q = p + 1;
                if q >= s.len() {
                    MethodStep::Failed
                } else if s[q] == 'V' {
                    if q + 1 == s.len() {
                        MethodStep::Parsed(MethodModel { parameters: ps, return_type: None })
                    } else {
                        MethodStep::Failed
                    }
                } else {
                    match parse_type(s, q) {
                        Step::Parsed(t, r) => if r == s.len() {
                            MethodStep::Parsed(MethodModel { parameters: ps, return_type: Some(t) })
                        } else {
                            MethodStep::Failed
                        },
                        Step::Failed(_) => MethodStep::Failed,
                        Step::Aborts => MethodStep::Aborts,
                    }
                }
            },
            ParamsStep::Failed => MethodStep::Failed,
            ParamsStep::Aborts => MethodStep::Aborts,
        }
    }
}

/// The concatenated descriptors of a list of types.
pub open spec fn types_descriptor(ts: Seq<TypeModel>) -> Seq<char>
    decreases ts.len(),
{
    if ts.len() == 0 {
        Seq::empty()
    } else {
        types_descriptor(ts.drop_last()) + type_descriptor(ts.last())
    }
}

/// The descriptor of a method type.
pub open spec fn method_descriptor(m: MethodModel) -> Seq<char> {
    seq!['('] + types_descriptor(m.parameters) + seq![')'] + match m.return_type {
        Some(t) => type_descriptor(t),
        None => seq!['V'],
    }
}

/// The class names involved by a list of types, in order.
pub open spec fn types_class_names(ts: Seq<TypeModel>) -> Seq<Seq<char>>
    decreases ts.len(),
{
    if ts.len() == 0 {
        Seq::empty()
    } else {
        types_class_names(ts.drop_last()) + match type_class_name(ts.last()) {
            Some(n) => seq![n],
            None => Seq::empty(),
        }
    }
}

/// The class names involved by a method type: those of its parameters, then that of its
/// return type.
pub open spec fn method_class_names(m: MethodModel) -> Seq<Seq<char>> {
    types_class_names(m.parameters) + match m.return_type {
        Some(t) => match type_class_name(t) {
            Some(n) => seq![n],
            None => Seq::empty(),
        },
        None => Seq::empty(),
    }
}

/// The models of a list of field types.
pub open spec fn models_of(ts: Seq<FieldType>) -> Seq<TypeModel> {
    ts.map_values(|t: FieldType| t@)
}

/// A representation of the type of a method.
///
/// For more information, see
/// [the JVM spec](https://docs.oracle.com/javase/specs/jvms/se8/html/jvms-4.html#jvms-4.3.2).
#[derive(Debug, PartialEq)]
pub struct MethodType {
    /// The `parameters` of the method.
    pub parameters: Vec<FieldType>,
    /// The return type of the method, `void` is represented by `None`.
    pub return_type: Option<FieldType>,
}

impl View for MethodType {
    type V = MethodModel;

    open spec fn view(&self) -> MethodModel {
        MethodModel {
            parameters: models_of(self.parameters@),
            return_type: match self.return_type {
                Some(t) => Some(t@),
                None => None,
            },
        }
    }
}

impl MethodType {
    /// Parse the `MethodType` from the method descriptor.
    ///
    /// For further reference, see [the JVM spec](https://docs.oracle.com/javase/specs/jvms/se8/html/jvms-4.html#jvms-4.3.3).
    pub fn from_descriptor(descriptor: &str) -> (res: Result<Self, ParseError>)
        ensures
            match parse_method(descriptor@) {
                MethodStep::Parsed(m) => res matches Ok(mt) && mt@ == m,
                _ => res matches Err(e) && e@ == descriptor@,
            },
    {
        let ghost s = descriptor@;
        let mut parser = TypeParser::new(descriptor);
        let mut method_type = MethodType { parameters: Vec::new(), return_type: None };
        parser.expect_char('(')?;
        loop
            invariant
                s == descriptor@,
                parser.wf(),
                parser.text() == s,
                !parser.inside_char(),
                s.len() > 0 && s[0] == '(',
                method_type.return_type is None,
                match parse_params(s, parser.pos()) {
                    ParamsStep::Done(ts, q) => parse_params(s, 1) == ParamsStep::Done(
                        models_of(method_type.parameters@) + ts,
                        q,
                    ),
                    ParamsStep::Failed => parse_params(s, 1) is Failed,
                    ParamsStep::Aborts => parse_params(s, 1) is Aborts,
                },
            ensures
                parser.pos() < s.len(),
                s[parser.pos()] == ')',
            decreases s.len() - parser.pos(),
        {
            let c = parser.peek()?;
            if c == ')' {
                break;
            }
            let ghost pos = parser.pos();
            let ghost before = method_type.parameters@;
            proof {
                lemma_parse_type_advances(s, pos);
            }
            let param = parser.next()?;
            method_type.parameters.push(param);
            proof {
                assert(models_of(method_type.parameters@) =~= models_of(before).push(param@));
                match parse_params(s, parser.pos()) {
                    ParamsStep::Done(ts, q) => {
                        assert(models_of(before) + (seq![param@] + ts) =~= models_of(
                            method_type.parameters@,
                        ) + ts);
                    },
                    _ => {},
                }
            }
        }
        proof {
            assert(models_of(method_type.parameters@) + Seq::<TypeModel>::empty() =~= models_of(
                method_type.parameters@,
            ));
        }
        parser.expect_char(')')?;
        if parser.peek()? == 'V' {
            parser.expect_char('V')?;
        } else {
            method_type.return_type = Some(parser.next()?);
        }
        parser.expect_end()?;
        Ok(method_type)
    }

    /// Get all the class names in this method signature for the purpose of class loading.
    pub fn class_names(&self) -> (result: Vec<String>)
        ensures
            result@.map_values(|n: String| n@) == method_class_names(self@),
    {
        let mut result: Vec<String> = Vec::new();
        let mut i: usize = 0;
        while i < self.parameters.len()
            invariant
                i <= self.parameters.len(),
                result@.map_values(|n: String| n@) == types_class_names(
                    models_of(self.parameters@.subrange(0, i as int)),
                ),
            decreases self.parameters.len() - i,
        {
            let ghost before = result@;
            if let Some(name) = self.parameters[i].class_name() {
                result.push(name);
            }
            proof {
                let ms = models_of(self.parameters@.subrange(0, i + 1));
                assert(ms.drop_last() =~= models_of(self.parameters@.subrange(0, i as int)));
                assert(ms.last() == self.parameters@[i as int]@);
                assert(result@.map_values(|n: String| n@) =~= types_class_names(ms));
            }
            i += 1;
        }
        proof {
            assert(self.parameters@.subrange(0, self.parameters@.len() as int) =~= self.parameters@);
        }
        let ghost before = result@;
        match &self.return_type {
            Some(ft) => {
                if let Some(name) = ft.class_name() {
                    result.push(name);
                }
            },
            None => {},
        }
        proof {
            assert(result@.map_values(|n: String| n@) =~= method_class_names(self@));
        }
        result
    }

    /// The descriptor of this method type.
    pub fn descriptor(&self) -> (res: String)
        ensures
            res@ == method_descriptor(self@),
    {
        let mut descriptor = String::new();
        push_char(&mut descriptor, '(');
        let mut i: usize = 0;
        while i < self.parameters.len()
            invariant
                i <= self.parameters.len(),
                descriptor@ == seq!['('] + types_descriptor(
                    models_of(self.parameters@.subrange(0, i as int)),
                ),
            decreases self.parameters.len() - i,
        {
            let d = self.parameters[i].descriptor();
            descriptor.append(d.as_str());
            proof {
                let ms = models_of(self.parameters@.subrange(0, i + 1));
                assert(ms.drop_last() =~= models_of(self.parameters@.subrange(0, i as int)));
                assert(ms.last() == self.parameters@[i as int]@);
                assert(descriptor@ =~= seq!['('] + types_descriptor(ms));
            }
            i += 1;
        }
        proof {
            assert(self.parameters@.subrange(0, self.parameters@.len() as int) =~= self.parameters@);
        }
        push_char(&mut descriptor, ')');
        match &self.return_type {
            Some(value) => {
                let d = value.descriptor();
                descriptor.append(d.as_str());
            },
            None => push_char(&mut descriptor, 'V'),
        }
        proof {
            assert(descriptor@ =~= method_descriptor(self@));
        }
        descriptor
    }

    /// A copy of this method type.
    pub fn duplicate(&self) -> (res: MethodType)
        ensures
            res@ == self@,
    {
        let mut parameters: Vec<FieldType> = Vec::new();
        let mut i: usize = 0;
        while i < self.parameters.len()
            invariant
                i <= self.parameters.len(),
                models_of(parameters@) == models_of(self.parameters@.subrange(0, i as int)),
            decreases self.parameters.len() - i,
        {
            let ghost before = parameters@;
            let d = self.parameters[i].duplicate();
            parameters.push(d);
            proof {
                assert(models_of(parameters@) =~= models_of(before).push(d@));
                assert(self.parameters@.subrange(0, i + 1) =~= self.parameters@.subrange(0, i as int).push(self.parameters@[i as int]));
                assert(models_of(self.parameters@.subrange(0, i + 1)) =~= models_of(self.parameters@.subrange(0, i as int)).push(self.parameters@[i as int]@));
            }
            i += 1;
        }
        proof {
            assert(self.parameters@.subrange(0, self.parameters@.len() as int) =~= self.parameters@);
        }
        let return_type = match &self.return_type {
            Some(t) => Some(t.duplicate()),
            None => None,
        };
        MethodType { parameters, return_type }
    }

    /// Whether two method types are the same type.
    pub fn same_as(&self, other: &MethodType) -> (res: bool)
        ensures
            res == (self@ == other@),
    {
        if self.parameters.len() != other.parameters.len() {
            proof {
                if self@ == other@ {
                    assert(self@.parameters.len() == other@.parameters.len());
                }
            }
            return false;
        }
        let mut i: usize = 0;
        while i < self.parameters.len()
            invariant
                i <= self.parameters.len() == other.parameters.len(),
                forall|j: int| 0 <= j < i ==> self.parameters@[j]@ == other.parameters@[j]@,
            decreases self.parameters.len() - i,
        {
            if !self.parameters[i].same_as(&other.parameters[i]) {
                proof {
                    if self@ == other@ {
                        assert(self@.parameters[i as int] == other@.parameters[i as int]);
                    }
                }
                return false;
            }
            i += 1;
        }
        proof {
            assert(self@.parameters =~= other@.parameters);
        }
        match (&self.return_type, &other.return_type) {
            (Some(a), Some(b)) => a.same_as(b),
            (None, None) => true,
            _ => false,
        }
    }
}

} // verus!
