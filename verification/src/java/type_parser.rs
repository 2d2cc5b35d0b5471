//! A cursor over a type descriptor, reading field types one at a time.

use vstd::prelude::*;

use crate::java::field_type::{FieldType, TypeModel};
use crate::text::{str_chars, string_from_chars};

verus! {

/// Whether a character is encoded as a single byte in UTF-8.
pub open spec fn is_ascii_char(c: char) -> bool {
    (c as u32) < 128
}

/// The index of the first `c` in `s` at or after `from`, if any.
pub open spec fn find_char(s: Seq<char>, from: int, c: char) -> Option<int>
    decreases s.len() - from,
{
    if from < 0 || from >= s.len() {
        None
    } else if s[from] == c {
        Some(from)
    } else {
        find_char(s, from + 1, c)
    }
}

/// The outcome of reading one field type at a position of a descriptor.
pub enum Step {
    /// A type was read, and reading stopped at the given position.
    Parsed(TypeModel, int),
    /// The descriptor holds no type there; the cursor was left at the given position.
    Failed(int),
    /// A non-ASCII character stands where a type should begin; the original stops the
    /// program there.
    Aborts,
}

/// Reading one field type from `s` at `pos`.
pub open spec fn parse_type(s: Seq<char>, pos: int) -> Step
    decreases s.len() - pos,
{
    if pos < 0 || pos >= s.len() {
        Step::Failed(pos)
    } else {
        let c = s[pos];
        if !is_ascii_char(c) {
            Step::Aborts
        } else if c == 'Z' {
            Step::Parsed(TypeModel::Boolean, pos + 1)
        } else if c == 'B' {
            Step::Parsed(TypeModel::Byte, pos + 1)
        } else if c == 'C' {
            Step::Parsed(TypeModel::Char, pos + 1)
        } else if c == 'S' {
            Step::Parsed(TypeModel::Short, pos + 1)
        } else if c == 'I' {
            Step::Parsed(TypeModel::Int, pos + 1)
        } else if c == 'J' {
            Step::Parsed(TypeModel::Long, pos + 1)
        } else if c == 'F' {
            Step::Parsed(TypeModel::Float, pos + 1)
        } else if c == 'D' {
            Step::Parsed(TypeModel::Double, pos + 1)
        } else if c == 'L' {
            match find_char(s, pos + 1, ';') {
                None => Step::Failed(pos + 1),
                Some(k) => if k == pos + 1 {
                    Step::Failed(pos + 1)
                } else {
                    Step::Parsed(TypeModel::Reference(s.subrange(pos + 1, k)), k + 1)
                },
            }
        } else if c == '[' {
            match parse_type(s, pos + 1) {
                Step::Parsed(t, p) => Step::Parsed(TypeModel::Array(Box::new(t)), p),
                other => other,
            }
        } else {
            Step::Failed(pos)
        }
    }
}

/// A field type that was read always moves the position forward, within the descriptor.
pub proof fn lemma_parse_type_advances(s: Seq<char>, pos: int)
    ensures
        parse_type(s, pos) matches Step::Parsed(_, p) ==> pos < p <= s.len(),
        parse_type(s, pos) matches Step::Failed(p) ==> pos <= p,
    decreases s.len() - pos,
{
    if 0 <= pos < s.len() && s[pos] == 'L' {
        lemma_find_char_bounds(s, pos + 1, ';');
    }
    if 0 <= pos < s.len() && s[pos] == '[' {
        lemma_parse_type_advances(s, pos + 1);
    }
}

/// Where `find_char` finds the character.
pub proof fn lemma_find_char_bounds(s: Seq<char>, from: int, c: char)
    ensures
        find_char(s, from, c) matches Some(k) ==> from <= k < s.len() && s[k] == c && 0 <= from
            && (forall|j: int| from <= j < k ==> s[j] != c),
        find_char(s, from, c) is None ==> (forall|j: int| from <= j < s.len() && 0 <= from ==> s[j]
            != c),
    decreases s.len() - from,
{
    if 0 <= from < s.len() && s[from] != c {
        lemma_find_char_bounds(s, from + 1, c);
    }
}

/// A cursor over a descriptor.
pub struct TypeParser<'a> {
    descriptor: &'a str,
    /// The characters of `descriptor`.
    chars: Vec<char>,
    /// The index of the next character to read.
    position: usize,
    /// Set once `expect_char` has consumed a multi-byte character by its first byte only:
    /// the cursor then stands inside a character, where no further read succeeds.
    split: bool,
}

/// An error when parsing a field or method type: it holds the whole descriptor.
#[derive(Debug)]
pub struct ParseError(String);

impl View for ParseError {
    type V = Seq<char>;

    closed spec fn view(&self) -> Seq<char> {
        self.0@
    }
}

impl ParseError {
    /// The descriptor that failed to parse.
    pub fn descriptor(&self) -> (res: &String)
        ensures
            res@ == self@,
    {
        &self.0
    }

    /// A description of the error, `Failed to parse descriptor '<descriptor>'`.
    pub fn message(&self) -> (res: String)
        ensures
            res@ == "Failed to parse descriptor '"@ + self@ + "'"@,
    {
        let mut res = String::from_str("Failed to parse descriptor '");
        res.append(self.0.as_str());
        res.append("'");
        res
    }
}

impl<'a> TypeParser<'a> {
    /// The characters of the descriptor being read.
    pub closed spec fn text(&self) -> Seq<char> {
        self.descriptor@
    }

    /// The position of the cursor, in characters.
    pub closed spec fn pos(&self) -> int {
        self.position as int
    }

    /// Whether the cursor stands inside a multi-byte character.
    pub closed spec fn inside_char(&self) -> bool {
        self.split
    }

    /// The cursor's internal consistency.
    pub closed spec fn wf(&self) -> bool {
        &&& self.chars@ == self.descriptor@
        &&& self.position <= self.chars@.len()
    }

    /// A cursor at the start of `descriptor`.
    pub fn new(descriptor: &'a str) -> (p: Self)
        ensures
            p.wf(),
            p.text() == descriptor@,
            p.pos() == 0,
            !p.inside_char(),
    {
        let chars = str_chars(descriptor);
        TypeParser { descriptor, chars, position: 0, split: false }
    }

    fn error(&self) -> (e: ParseError)
        ensures
            e@ == self.text(),
    {
        ParseError(self.descriptor.to_owned())
    }

    /// Read the next field type; a non-ASCII character where a type begins is an error.
    pub fn next(&mut self) -> (res: Result<FieldType, ParseError>)
        requires
            old(self).wf(),
            !old(self).inside_char(),
        ensures
            final(self).wf(),
            final(self).text() == old(self).text(),
            !final(self).inside_char(),
            match parse_type(old(self).text(), old(self).pos()) {
                Step::Parsed(t, p) => res matches Ok(ft) && ft@ == t && final(self).pos() == p,
                Step::Failed(p) => res matches Err(e) && e@ == old(self).text() && final(self).pos()
                    == p,
                Step::Aborts => res matches Err(e) && e@ == old(self).text(),
            },
        decreases old(self).text().len() - old(self).pos(),
    {
        let ghost s = self.text();
        let ghost pos = self.pos();
        if self.position >= self.chars.len() {
            return Err(self.error());
        }
        let first = self.chars[self.position];
        if first == 'Z' {
            self.position += 1;
            Ok(FieldType::Boolean)
        } else if first == 'B' {
            self.position += 1;
            Ok(FieldType::Byte)
        } else if first == 'C' {
            self.position += 1;
            Ok(FieldType::Char)
        } else if first == 'S' {
            self.position += 1;
            Ok(FieldType::Short)
        } else if first == 'I' {
            self.position += 1;
            Ok(FieldType::Int)
        } else if first == 'J' {
            self.position += 1;
            Ok(FieldType::Long)
        } else if first == 'F' {
            self.position += 1;
            Ok(FieldType::Float)
        } else if first == 'D' {
            self.position += 1;
            Ok(FieldType::Double)
        } else if first == 'L' {
            self.position += 1;
            let start = self.position;
            let mut k = start;
            while k < self.chars.len() && self.chars[k] != ';'
                invariant
                    self.wf(),
                    self.chars@ == s,
                    start <= k <= self.chars@.len(),
                    find_char(s, start as int, ';') == find_char(s, k as int, ';'),
                decreases self.chars@.len() - k,
            {
                k += 1;
            }
            if k >= self.chars.len() {
                return Err(self.error());
            }
            if k == start {
                return Err(self.error());
            }
            let name = string_from_chars(&self.chars, start, k);
            self.position = k + 1;
            Ok(FieldType::Reference(name))
        } else if first == '[' {
            self.position += 1;
            proof {
                lemma_parse_type_advances(s, pos + 1);
            }
            let part = self.next()?;
            Ok(FieldType::Array(Box::new(part)))
        } else {
            Err(self.error())
        }
    }

    /// Consume the character `c`, which must be the next one.
    pub fn expect_char(&mut self, c: char) -> (res: Result<(), ParseError>)
        requires
            old(self).wf(),
            !old(self).inside_char(),
        ensures
            final(self).wf(),
            final(self).text() == old(self).text(),
            ({
                let s = old(self).text();
                let p = old(self).pos();
                if p < s.len() && s[p] == c {
                    &&& res is Ok
                    &&& final(self).pos() == p + 1
                    &&& final(self).inside_char() == !is_ascii_char(c)
                } else {
                    &&& res matches Err(e) && e@ == s
                    &&& final(self).pos() == p
                    &&& !final(self).inside_char()
                }
            }),
    {
        if self.position >= self.chars.len() {
            return Err(self.error());
        }
        if self.chars[self.position] == c {
            self.position += 1;
            if (c as u32) >= 128 {
                self.split = true;
            }
            Ok(())
        } else {
            Err(self.error())
        }
    }

    /// Succeed only when the whole descriptor has been read.
    pub fn expect_end(&self) -> (res: Result<(), ParseError>)
        requires
            self.wf(),
        ensures
            res is Ok <== self.pos() == self.text().len() && !self.inside_char(),
            res is Ok ==> self.pos() == self.text().len() && !self.inside_char(),
            (res matches Err(e) ==> e@ == self.text()),
    {
        if self.split || self.position != self.chars.len() {
            return Err(self.error());
        }
        return Ok(());
    }

    /// The next character, without consuming it.
    pub fn peek(&self) -> (res: Result<char, ParseError>)
        requires
            self.wf(),
            !self.inside_char(),
        ensures
            self.pos() < self.text().len() ==> res == Ok::<char, ParseError>(
                self.text()[self.pos()],
            ),
            self.pos() >= self.text().len() ==> (res matches Err(e) && e@ == self.text()),
    {
        if self.position >= self.chars.len() {
            return Err(self.error());
        }
        Ok(self.chars[self.position])
    }
}

} // verus!
