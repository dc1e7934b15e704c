//! Writes values as XPrm text.

use crate::text::{
    chars_of, decimal, decimal_signed, push_decimal, push_decimal_signed, push_truth, truth,
};
use crate::xprm::value::{entry_trees, field_trees, numbers, trees, Tree, Value};
use vstd::prelude::*;
use vstd::utf8::{
    char_is_scalar, char_u32_cast, encode_scalar, encode_utf8, has_width_1_encoding,
    last_continuation_byte,
};

verus! {

/// Why a value cannot be written.
#[derive(Debug)]
pub enum Error {
    KeyNotString,
    KeyInvalidChar(char),
    UnknownSeqSize,
    NewtypeVariant(String),
    TupleVariant(String),
}

/// Why a value cannot be written.
pub enum Fault {
    KeyNotString,
    KeyInvalidChar(char),
    UnknownSeqSize,
    NewtypeVariant(Seq<char>),
    TupleVariant(Seq<char>),
}

impl View for Error {
    type V = Fault;

    open spec fn view(&self) -> Fault {
        match self {
            Error::KeyNotString => Fault::KeyNotString,
            Error::KeyInvalidChar(c) => Fault::KeyInvalidChar(*c),
            Error::UnknownSeqSize => Fault::UnknownSeqSize,
            Error::NewtypeVariant(name) => Fault::NewtypeVariant(name@),
            Error::TupleVariant(name) => Fault::TupleVariant(name@),
        }
    }
}

/// `format!` of a text with `{:?}`: the text in quotes, with the characters escaped that a
/// literal escapes.
pub uninterp spec fn quoted(s: Seq<char>) -> Seq<char>;

/// `format!("{:?}", s)`. Which characters the standard library escapes, and how, is not stated.
#[verifier::external_body]
fn quote(s: &str) -> (q: String)
    ensures
        q@ == quoted(s@),
{
    format!("{:?}", s)
}

/// The last byte of a text is that of a semicolon just where its last character is one.
proof fn lemma_last_byte(chars: Seq<char>)
    ensures
        encode_utf8(chars).len() > 0 <==> chars.len() > 0,
        chars.len() > 0 ==> (encode_utf8(chars).last() == 0x3b <==> chars.last() == ';'),
    decreases chars.len(),
{
    if chars.len() > 0 {
        let rest = chars.drop_first();
        let first = chars[0];
        let c = first as u32;
        lemma_last_byte(rest);
        char_is_scalar(first);
        char_u32_cast(first, c);
        assert(c < 0x80 ==> (c & 0x7f) as u8 == c) by (bit_vector);
        assert((0x80 | (c & 0x3f) as u8) >= 0x80) by (bit_vector);
        if has_width_1_encoding(c) {
            assert(encode_scalar(c).last() == c);
        } else {
            assert(encode_scalar(c).last() == last_continuation_byte(c));
        }
        assert(encode_scalar(c).last() == 0x3b <==> first == ';');
        if rest.len() > 0 {
            assert(rest.last() == chars.last());
            assert(encode_utf8(chars).last() == encode_utf8(rest).last());
        } else {
            assert(encode_utf8(chars) =~= encode_scalar(c));
        }
    }
}

/// Whether the last character of `s` is a semicolon.
fn ends_with_semicolon(s: &str) -> (r: bool)
    ensures
        r == (s@.len() > 0 && s@.last() == ';'),
{
    let bytes = s.as_bytes();
    proof {
        lemma_last_byte(s@);
    }
    bytes.len() > 0 && bytes[bytes.len() - 1] == 0x3b
}

impl Fault {
    /// What this fault says.
    pub open spec fn says(self) -> Seq<char> {
        match self {
            Fault::KeyNotString => "Key must be string"@,
            Fault::KeyInvalidChar(c) => "Key has invalid char: '"@.push(c).push('\''),
            Fault::UnknownSeqSize => "Unknown seq size"@,
            Fault::NewtypeVariant(name) => "NewtypeVariant for "@ + quoted(name)
                + " not supported"@,
            Fault::TupleVariant(name) => "TupleVariant for "@ + quoted(name) + " not supported"@,
        }
    }
}

impl Error {
    /// What this error says.
    pub fn message(&self) -> (s: String)
        ensures
            s@ == self@.says(),
    {
        match self {
            Error::KeyNotString => "Key must be string".to_owned(),
            Error::KeyInvalidChar(c) => {
                let mut s = "Key has invalid char: '".to_owned();
                s.push(*c);
                s.push('\'');
                s
            },
            Error::UnknownSeqSize => "Unknown seq size".to_owned(),
            Error::NewtypeVariant(name) => {
                let mut s = "NewtypeVariant for ".to_owned();
                s.append(quote(name.as_str()).as_str());
                s.append(" not supported");
                s
            },
            Error::TupleVariant(name) => {
                let mut s = "TupleVariant for ".to_owned();
                s.append(quote(name.as_str()).as_str());
                s.append(" not supported");
                s
            },
        }
    }
}

/// A writer and what it has written.
pub struct Serializer {
    /// Whether the next value is the key of an entry.
    pub key_mode: bool,
    pub output: String,
}

/// A writer, as values.
pub struct State {
    pub key_mode: bool,
    pub output: Seq<char>,
}

impl View for Serializer {
    type V = State;

    open spec fn view(&self) -> State {
        State { key_mode: self.key_mode, output: self.output@ }
    }
}

/// What a value does to a writer, and the fault that stopped it, if one did.
pub struct Step {
    pub state: State,
    pub fault: Option<Fault>,
}

/// Whether a call took the writer from its old state to `after` and reported `r`, as `step` says.
pub open spec fn stepped(step: Step, after: State, r: Result<(), Error>) -> bool {
    &&& after == step.state
    &&& match step.fault {
        Some(fault) => r matches Err(e) && e@ == fault,
        None => r is Ok,
    }
}

pub open spec fn done(state: State) -> Step {
    Step { state, fault: None }
}

pub open spec fn failed(state: State, fault: Fault) -> Step {
    Step { state, fault: Some(fault) }
}

/// The writer behind `text`.
pub open spec fn put(state: State, text: Seq<char>) -> State {
    State { key_mode: state.key_mode, output: state.output + text }
}

/// Writes `text`, which cannot be a key.
pub open spec fn put_value(state: State, text: Seq<char>) -> Step {
    if state.key_mode {
        failed(state, Fault::KeyNotString)
    } else {
        done(put(state, text))
    }
}

/// Whether `c` may stand in a key.
pub open spec fn key_char(c: char) -> bool {
    ('0' <= c && c <= '9') || ('A' <= c && c <= 'Z') || ('a' <= c && c <= 'z') || c == '_'
}

/// The first character of `s` that may not stand in a key.
pub open spec fn first_bad_char(s: Seq<char>) -> Option<char>
    decreases s.len(),
{
    if s.len() == 0 {
        None
    } else if !key_char(s[0]) {
        Some(s[0])
    } else {
        first_bad_char(s.drop_first())
    }
}

/// One character of a quoted text.
pub open spec fn escaped_char(c: char) -> Seq<char> {
    if c == '\\' {
        seq!['\\', '\\']
    } else if c == '\n' {
        seq!['\\', 'n']
    } else if c == '\r' {
        seq!['\\', 'r']
    } else if c == '"' {
        seq!['\\', '"']
    } else {
        seq![c]
    }
}

/// The characters of a quoted text.
pub open spec fn escaped(s: Seq<char>) -> Seq<char>
    decreases s.len(),
{
    if s.len() == 0 {
        Seq::empty()
    } else {
        escaped(s.drop_last()) + escaped_char(s.last())
    }
}

/// A quoted text.
pub open spec fn quote_text(s: Seq<char>) -> Seq<char> {
    seq!['"'] + escaped(s) + seq!['"']
}

/// Writes a text: as a key bare, as a value quoted.
pub open spec fn put_text(state: State, s: Seq<char>) -> Step {
    if state.key_mode {
        match first_bad_char(s) {
            Some(c) => failed(state, Fault::KeyInvalidChar(c)),
            None => done(put(state, s)),
        }
    } else {
        done(put(state, quote_text(s)))
    }
}

/// Opens a sequence: its bracket and its length.
pub open spec fn put_seq(state: State, len: Option<nat>) -> Step {
    if state.key_mode {
        failed(state, Fault::KeyNotString)
    } else {
        let opened = put(state, seq!['{']);
        match len {
            Some(n) => done(put(put(opened, decimal(n)), seq![';'])),
            None => failed(opened, Fault::UnknownSeqSize),
        }
    }
}

/// The comma in front of an element, which the first one behind the length does without.
pub open spec fn put_comma(state: State) -> State {
    if state.output.len() > 0 && state.output.last() == ';' {
        state
    } else {
        put(state, seq![','])
    }
}

/// What writing `t` does to the writer.
pub open spec fn emit(state: State, t: Tree) -> Step
    decreases t,
{
    match t {
        Tree::Bool(b) => put_value(state, truth(b)),
        Tree::Int(n) => put_value(state, decimal_signed(n)),
        Tree::Float(s) => put_value(state, s),
        Tree::Text(s) => put_text(state, s),
        Tree::Null => put_value(state, seq!['0']),
        Tree::UnitStruct(name) => put_value(state, name + seq!['=', '0']),
        Tree::Variant(name) => done(put(state, name)),
        Tree::NewtypeVariant(name) => failed(state, Fault::NewtypeVariant(name)),
        Tree::TupleVariant(name) => failed(state, Fault::TupleVariant(name)),
        Tree::List(len, items) => {
            let opened = put_seq(state, len);
            if opened.fault is Some {
                opened
            } else {
                closed(emit_items(opened.state, items), seq!['}'])
            }
        },
        Tree::Table(entries) => {
            if state.key_mode {
                failed(state, Fault::KeyNotString)
            } else {
                closed(emit_entries(put(state, seq!['{']), entries), seq!['}'])
            }
        },
        Tree::StructVariant(name, fields) => {
            if state.key_mode {
                failed(state, Fault::KeyNotString)
            } else {
                closed(
                    emit_entries(put(state, seq!['{'] + name + seq!['=', '{']), fields),
                    seq!['}', ';', '}'],
                )
            }
        },
    }
}

/// The text `end` behind what went well.
pub open spec fn closed(step: Step, end: Seq<char>) -> Step {
    if step.fault is Some {
        step
    } else {
        done(put(step.state, end))
    }
}

/// What writing the elements `items` does to the writer, with commas between them.
pub open spec fn emit_items(state: State, items: Seq<Tree>) -> Step
    decreases items,
{
    if items.len() == 0 {
        done(state)
    } else {
        let step = emit(put_comma(state), items[0]);
        if step.fault is Some {
            step
        } else {
            emit_items(step.state, items.drop_first())
        }
    }
}

/// What writing the key `t` of an entry does to the writer.
pub open spec fn put_key(state: State, t: Tree) -> Step {
    let step = emit(State { key_mode: true, output: state.output }, t);
    if step.fault is Some {
        step
    } else {
        done(State { key_mode: false, output: step.state.output })
    }
}

/// What writing the value `t` of an entry behind its key does to the writer.
pub open spec fn put_entry(state: State, t: Tree) -> Step {
    closed(emit(put(state, seq!['=']), t), seq![';'])
}

/// What writing the entries `entries` does to the writer.
pub open spec fn emit_entries(state: State, entries: Seq<(Tree, Tree)>) -> Step
    decreases entries,
{
    if entries.len() == 0 {
        done(state)
    } else {
        let key = emit(State { key_mode: true, output: state.output }, entries[0].0);
        if key.fault is Some {
            key
        } else {
            let value = emit(
                put(State { key_mode: false, output: key.state.output }, seq!['=']),
                entries[0].1,
            );
            if value.fault is Some {
                value
            } else {
                emit_entries(put(value.state, seq![';']), entries.drop_first())
            }
        }
    }
}

impl Serializer {
    /// A writer that has written nothing.
    pub fn new() -> (s: Self)
        ensures
            s@ == (State { key_mode: false, output: Seq::empty() }),
    {
        Serializer { key_mode: false, output: String::new() }
    }

    pub fn open_bracket(&mut self)
        ensures
            final(self)@ == put(old(self)@, seq!['{']),
    {
        self.output.push('{');
        assert(self.output@ =~= old(self).output@ + seq!['{']);
    }

    pub fn close_bracket(&mut self)
        ensures
            final(self)@ == put(old(self)@, seq!['}']),
    {
        self.output.push('}');
        assert(self.output@ =~= old(self).output@ + seq!['}']);
    }

    pub fn open_structure(&mut self)
        ensures
            final(self)@ == put(old(self)@, seq!['{']),
    {
        self.open_bracket();
    }

    pub fn close_structure(&mut self)
        ensures
            final(self)@ == put(old(self)@, seq!['}']),
    {
        self.close_bracket();
    }

    pub fn serialize_bool(&mut self, v: bool) -> (r: Result<(), Error>)
        ensures
            stepped(emit(old(self)@, Tree::Bool(v)), final(self)@, r),
    {
        if self.key_mode {
            return Err(Error::KeyNotString);
        }
        push_truth(&mut self.output, v);
        Ok(())
    }

    pub fn serialize_i8(&mut self, v: i8) -> (r: Result<(), Error>)
        ensures
            stepped(emit(old(self)@, Tree::Int(v as int)), final(self)@, r),
    {
        self.serialize_i64(v as i64)
    }

    pub fn serialize_i16(&mut self, v: i16) -> (r: Result<(), Error>)
        ensures
            stepped(emit(old(self)@, Tree::Int(v as int)), final(self)@, r),
    {
        self.serialize_i64(v as i64)
    }

    pub fn serialize_i32(&mut self, v: i32) -> (r: Result<(), Error>)
        ensures
            stepped(emit(old(self)@, Tree::Int(v as int)), final(self)@, r),
    {
        self.serialize_i64(v as i64)
    }

    pub fn serialize_i64(&mut self, v: i64) -> (r: Result<(), Error>)
        ensures
            stepped(emit(old(self)@, Tree::Int(v as int)), final(self)@, r),
    {
        if self.key_mode {
            return Err(Error::KeyNotString);
        }
        push_decimal_signed(&mut self.output, v);
        Ok(())
    }

    pub fn serialize_u8(&mut self, v: u8) -> (r: Result<(), Error>)
        ensures
            stepped(emit(old(self)@, Tree::Int(v as int)), final(self)@, r),
    {
        self.serialize_u64(v as u64)
    }

    pub fn serialize_u16(&mut self, v: u16) -> (r: Result<(), Error>)
        ensures
            stepped(emit(old(self)@, Tree::Int(v as int)), final(self)@, r),
    {
        self.serialize_u64(v as u64)
    }

    pub fn serialize_u32(&mut self, v: u32) -> (r: Result<(), Error>)
        ensures
            stepped(emit(old(self)@, Tree::Int(v as int)), final(self)@, r),
    {
        self.serialize_u64(v as u64)
    }

    pub fn serialize_u64(&mut self, v: u64) -> (r: Result<(), Error>)
        ensures
            stepped(emit(old(self)@, Tree::Int(v as int)), final(self)@, r),
    {
        if self.key_mode {
            return Err(Error::KeyNotString);
        }
        push_decimal(&mut self.output, v);
        Ok(())
    }

    /// Writes a floating-point number, given by its decimal notation.
    pub fn serialize_f64(&mut self, notation: &str) -> (r: Result<(), Error>)
        ensures
            stepped(emit(old(self)@, Tree::Float(notation@)), final(self)@, r),
    {
        if self.key_mode {
            return Err(Error::KeyNotString);
        }
        self.output.append(notation);
        Ok(())
    }

    /// Writes a character as a text of one.
    pub fn serialize_char(&mut self, v: char) -> (r: Result<(), Error>)
        ensures
            stepped(emit(old(self)@, Tree::Text(seq![v])), final(self)@, r),
    {
        let mut s = String::new();
        s.push(v);
        assert(s@ =~= seq![v]);
        self.serialize_str(s.as_str())
    }

    pub fn serialize_str(&mut self, v: &str) -> (r: Result<(), Error>)
        ensures
            stepped(emit(old(self)@, Tree::Text(v@)), final(self)@, r),
    {
        let chars = chars_of(v);
        let ghost before = self.output@;
        if self.key_mode {
            let mut i: usize = 0;
            assert(v@.skip(0) =~= v@);
            while i < chars.len()
                invariant
                    i <= chars.len(),
                    chars@ == v@,
                    *self == *old(self),
                    self.key_mode,
                    first_bad_char(v@) == first_bad_char(v@.skip(i as int)),
                decreases chars.len() - i,
            {
                let c = chars[i];
                assert(v@.skip(i as int).drop_first() =~= v@.skip(i + 1));
                if !(('0' <= c && c <= '9') || ('A' <= c && c <= 'Z') || ('a' <= c && c <= 'z'))
                    && c != '_' {
                    return Err(Error::KeyInvalidChar(c));
                }
                i = i + 1;
            }
            self.output.append(v);
        } else {
            self.output.push('"');
            let mut i: usize = 0;
            assert(v@.take(0) =~= Seq::<char>::empty());
            assert(self.output@ =~= before + (seq!['"'] + escaped(v@.take(0))));
            while i < chars.len()
                invariant
                    i <= chars.len(),
                    chars@ == v@,
                    self.key_mode == old(self).key_mode,
                    self.output@ == before + (seq!['"'] + escaped(v@.take(i as int))),
                decreases chars.len() - i,
            {
                let c = chars[i];
                let ghost so_far = self.output@;
                if c == '\\' {
                    self.output.push('\\');
                    self.output.push('\\');
                } else if c == '\n' {
                    self.output.push('\\');
                    self.output.push('n');
                } else if c == '\r' {
                    self.output.push('\\');
                    self.output.push('r');
                } else if c == '"' {
                    self.output.push('\\');
                    self.output.push('"');
                } else {
                    self.output.push(c);
                }
                assert(v@.take(i + 1).drop_last() =~= v@.take(i as int));
                assert(self.output@ =~= so_far + escaped_char(c));
                assert(self.output@ =~= before + (seq!['"'] + escaped(v@.take(i + 1))));
                i = i + 1;
            }
            assert(v@.take(i as int) =~= v@);
            self.output.push('"');
            assert(self.output@ =~= before + quote_text(v@));
        }
        Ok(())
    }

    /// Writes bytes as a sequence of numbers.
    pub fn serialize_bytes(&mut self, v: &[u8]) -> (r: Result<(), Error>)
        ensures
            stepped(
                emit(old(self)@, Tree::List(Some(v@.len()), numbers(v@))),
                final(self)@,
                r,
            ),
    {
        let ghost all = numbers(v@);
        self.serialize_seq(Some(v.len()))?;
        let ghost opened = self@;
        let mut i: usize = 0;
        assert(all.skip(0) =~= all);
        while i < v.len()
            invariant
                i <= v@.len(),
                all == numbers(v@),
                !self.key_mode,
                emit_items(opened, all) == emit_items(self@, all.skip(i as int)),
            decreases v@.len() - i,
        {
            let ghost rest = all.skip(i as int);
            assert(rest[0] == Tree::Int(v@[i as int] as int));
            assert(rest.drop_first() =~= all.skip(i + 1));
            self.write_comma();
            let r = self.serialize_u8(v[i]);
            assert(r is Ok);
            i = i + 1;
        }
        assert(all.skip(i as int).len() == 0);
        self.close_bracket();
        Ok(())
    }

    pub fn serialize_none(&mut self) -> (r: Result<(), Error>)
        ensures
            stepped(emit(old(self)@, Tree::Null), final(self)@, r),
    {
        self.serialize_unit()
    }

    pub fn serialize_unit(&mut self) -> (r: Result<(), Error>)
        ensures
            stepped(emit(old(self)@, Tree::Null), final(self)@, r),
    {
        if self.key_mode {
            return Err(Error::KeyNotString);
        }
        self.output.push('0');
        assert(self.output@ =~= old(self).output@ + seq!['0']);
        Ok(())
    }

    pub fn serialize_unit_struct(&mut self, name: &str) -> (r: Result<(), Error>)
        ensures
            stepped(emit(old(self)@, Tree::UnitStruct(name@)), final(self)@, r),
    {
        if self.key_mode {
            return Err(Error::KeyNotString);
        }
        self.output.append(name);
        self.output.push('=');
        self.output.push('0');
        assert(self.output@ =~= old(self).output@ + (name@ + seq!['=', '0']));
        Ok(())
    }

    pub fn serialize_unit_variant(&mut self, variant: &str) -> (r: Result<(), Error>)
        ensures
            stepped(emit(old(self)@, Tree::Variant(variant@)), final(self)@, r),
    {
        self.output.append(variant);
        Ok(())
    }

    /// Variants around one value are not supported.
    pub fn serialize_newtype_variant(&mut self, name: &str) -> (r: Result<(), Error>)
        ensures
            stepped(emit(old(self)@, Tree::NewtypeVariant(name@)), final(self)@, r),
    {
        Err(Error::NewtypeVariant(name.to_owned()))
    }

    /// Opens a sequence of `len` elements.
    pub fn serialize_seq(&mut self, len: Option<usize>) -> (r: Result<(), Error>)
        ensures
            stepped(
                put_seq(
                    old(self)@,
                    match len {
                        Some(n) => Some(n as nat),
                        None => None,
                    },
                ),
                final(self)@,
                r,
            ),
    {
        if self.key_mode {
            return Err(Error::KeyNotString);
        }
        self.open_bracket();
        match len {
            Some(n) => {
                push_decimal(&mut self.output, n as u64);
                let ghost so_far = self.output@;
                self.output.push(';');
                assert(self.output@ =~= so_far + seq![';']);
                Ok(())
            },
            None => Err(Error::UnknownSeqSize),
        }
    }

    pub fn serialize_tuple(&mut self, len: usize) -> (r: Result<(), Error>)
        ensures
            stepped(put_seq(old(self)@, Some(len as nat)), final(self)@, r),
    {
        self.serialize_seq(Some(len))
    }

    pub fn serialize_tuple_struct(&mut self, len: usize) -> (r: Result<(), Error>)
        ensures
            stepped(put_seq(old(self)@, Some(len as nat)), final(self)@, r),
    {
        self.serialize_seq(Some(len))
    }

    /// Variants around several values are not supported.
    pub fn serialize_tuple_variant(&mut self, name: &str) -> (r: Result<(), Error>)
        ensures
            stepped(emit(old(self)@, Tree::TupleVariant(name@)), final(self)@, r),
    {
        Err(Error::TupleVariant(name.to_owned()))
    }

    /// Opens a map.
    pub fn serialize_map(&mut self) -> (r: Result<(), Error>)
        ensures
            stepped(put_value(old(self)@, seq!['{']), final(self)@, r),
    {
        if self.key_mode {
            return Err(Error::KeyNotString);
        }
        self.open_structure();
        Ok(())
    }

    /// Opens a struct.
    pub fn serialize_struct(&mut self) -> (r: Result<(), Error>)
        ensures
            stepped(put_value(old(self)@, seq!['{']), final(self)@, r),
    {
        self.serialize_map()
    }

    /// Opens a variant with fields.
    pub fn serialize_struct_variant(&mut self, variant: &str) -> (r: Result<(), Error>)
        ensures
            stepped(
                put_value(old(self)@, seq!['{'] + variant@ + seq!['=', '{']),
                final(self)@,
                r,
            ),
    {
        if self.key_mode {
            return Err(Error::KeyNotString);
        }
        self.open_structure();
        self.output.append(variant);
        self.output.push('=');
        self.open_structure();
        assert(self.output@ =~= old(self).output@ + (seq!['{'] + variant@ + seq!['=', '{']));
        Ok(())
    }

    fn write_comma(&mut self)
        ensures
            final(self)@ == put_comma(old(self)@),
    {
        if !ends_with_semicolon(self.output.as_str()) {
            self.output.push(',');
            assert(self.output@ =~= old(self).output@ + seq![',']);
        }
    }

    /// Writes `v`. Where an error stops it, what was written up to there stays.
    pub fn serialize(&mut self, v: &Value) -> (r: Result<(), Error>)
        ensures
            stepped(emit(old(self)@, v.tree()), final(self)@, r),
        decreases v, 0nat,
    {
        match v {
            Value::Bool(b) => self.serialize_bool(*b),
            Value::Signed(n) => self.serialize_i64(*n),
            Value::Unsigned(n) => self.serialize_u64(*n),
            Value::Float(s) => self.serialize_f64(s.as_str()),
            Value::Char(c) => self.serialize_char(*c),
            Value::Str(s) => self.serialize_str(s.as_str()),
            Value::ByteList(b) => self.serialize_bytes(b.as_slice()),
            Value::Absent => self.serialize_none(),
            Value::Present(inner) => self.serialize(inner),
            Value::Unit => self.serialize_unit(),
            Value::UnitStruct(name) => self.serialize_unit_struct(name.as_str()),
            Value::UnitVariant(name) => self.serialize_unit_variant(name.as_str()),
            Value::NewtypeStruct(inner) => self.serialize(inner),
            Value::NewtypeVariant(name) => self.serialize_newtype_variant(name.as_str()),
            Value::List(len, items) => {
                self.serialize_seq(*len)?;
                self.serialize_elements(items)?;
                self.end();
                Ok(())
            },
            Value::Tuple(len, items) => {
                self.serialize_tuple(*len)?;
                self.serialize_elements(items)?;
                self.end();
                Ok(())
            },
            Value::TupleStruct(len, items) => {
                self.serialize_tuple_struct(*len)?;
                self.serialize_elements(items)?;
                self.end();
                Ok(())
            },
            Value::TupleVariant(name) => self.serialize_tuple_variant(name.as_str()),
            Value::Table(entries) => {
                self.serialize_map()?;
                self.serialize_entries(entries)?;
                self.end();
                Ok(())
            },
            Value::Struct(fields) => {
                self.serialize_struct()?;
                self.serialize_fields(fields)?;
                self.end();
                Ok(())
            },
            Value::StructVariant(name, fields) => {
                self.serialize_struct_variant(name.as_str())?;
                self.serialize_fields(fields)?;
                self.end_struct_variant();
                Ok(())
            },
        }
    }

    /// Writes one element of a sequence, a tuple or a tuple struct, and the comma in front of it.
    pub fn serialize_element(&mut self, v: &Value) -> (r: Result<(), Error>)
        ensures
            stepped(emit(put_comma(old(self)@), v.tree()), final(self)@, r),
        decreases v, 1nat,
    {
        self.write_comma();
        self.serialize(v)
    }

    fn serialize_elements(&mut self, items: &Vec<Value>) -> (r: Result<(), Error>)
        ensures
            stepped(emit_items(old(self)@, trees(items@)), final(self)@, r),
        decreases items, 2nat,
    {
        let ghost all = trees(items@);
        let mut i: usize = 0;
        proof {
            assert(items@.skip(0) =~= items@);
        }
        while i < items.len()
            invariant
                i <= items.len(),
                all == trees(items@),
                emit_items(old(self)@, all) == emit_items(self@, trees(items@.skip(i as int))),
            decreases items.len() - i,
        {
            let ghost rest = items@.skip(i as int);
            let v: &Value = &items[i];
            proof {
                assert(rest[0] == *v);
                assert(rest.drop_first() =~= items@.skip(i + 1));
                assert(trees(rest).drop_first() =~= trees(items@.skip(i + 1)));
            }
            self.serialize_element(v)?;
            i = i + 1;
        }
        Ok(())
    }

    /// Writes the key of an entry. Where an error stops it, the next value still counts as a key.
    pub fn serialize_key(&mut self, key: &Value) -> (r: Result<(), Error>)
        ensures
            stepped(put_key(old(self)@, key.tree()), final(self)@, r),
        decreases key, 1nat,
    {
        self.key_mode = true;
        self.serialize(key)?;
        self.key_mode = false;
        Ok(())
    }

    /// Writes the value of an entry.
    pub fn serialize_value(&mut self, value: &Value) -> (r: Result<(), Error>)
        ensures
            stepped(put_entry(old(self)@, value.tree()), final(self)@, r),
        decreases value, 1nat,
    {
        self.output.push('=');
        assert(self.output@ =~= old(self).output@ + seq!['=']);
        self.serialize(value)?;
        let ghost so_far = self.output@;
        self.output.push(';');
        assert(self.output@ =~= so_far + seq![';']);
        Ok(())
    }

    fn serialize_entries(&mut self, entries: &Vec<(Value, Value)>) -> (r: Result<(), Error>)
        ensures
            stepped(emit_entries(old(self)@, entry_trees(entries@)), final(self)@, r),
        decreases entries, 2nat,
    {
        let ghost all = entry_trees(entries@);
        let mut i: usize = 0;
        proof {
            assert(entries@.skip(0) =~= entries@);
        }
        while i < entries.len()
            invariant
                i <= entries.len(),
                all == entry_trees(entries@),
                emit_entries(old(self)@, all) == emit_entries(
                    self@,
                    entry_trees(entries@.skip(i as int)),
                ),
            decreases entries.len() - i,
        {
            let ghost rest = entries@.skip(i as int);
            let entry: &(Value, Value) = &entries[i];
            proof {
                assert(rest[0] == *entry);
                assert(rest.drop_first() =~= entries@.skip(i + 1));
                assert(entry_trees(rest).drop_first() =~= entry_trees(entries@.skip(i + 1)));
                assert(decreases_to!(entries => entries@[i as int]));
            }
            self.serialize_key(&entry.0)?;
            self.serialize_value(&entry.1)?;
            i = i + 1;
        }
        Ok(())
    }

    /// Writes one field of a struct, or of a variant with fields.
    pub fn serialize_field(&mut self, key: &str, value: &Value) -> (r: Result<(), Error>)
        ensures
            stepped(
                {
                    let step = put_key(old(self)@, Tree::Text(key@));
                    if step.fault is Some {
                        step
                    } else {
                        put_entry(step.state, value.tree())
                    }
                },
                final(self)@,
                r,
            ),
        decreases value, 2nat,
    {
        self.key_mode = true;
        self.serialize_str(key)?;
        self.key_mode = false;
        self.serialize_value(value)
    }

    fn serialize_fields(&mut self, fields: &Vec<(String, Value)>) -> (r: Result<(), Error>)
        ensures
            stepped(emit_entries(old(self)@, field_trees(fields@)), final(self)@, r),
        decreases fields, 3nat,
    {
        let ghost all = field_trees(fields@);
        let mut i: usize = 0;
        proof {
            assert(fields@.skip(0) =~= fields@);
        }
        while i < fields.len()
            invariant
                i <= fields.len(),
                all == field_trees(fields@),
                emit_entries(old(self)@, all) == emit_entries(
                    self@,
                    field_trees(fields@.skip(i as int)),
                ),
            decreases fields.len() - i,
        {
            let ghost rest = fields@.skip(i as int);
            let field: &(String, Value) = &fields[i];
            proof {
                assert(rest[0] == *field);
                assert(rest.drop_first() =~= fields@.skip(i + 1));
                assert(field_trees(rest).drop_first() =~= field_trees(fields@.skip(i + 1)));
                assert(decreases_to!(fields => fields@[i as int]));
            }
            self.serialize_field(field.0.as_str(), &field.1)?;
            i = i + 1;
        }
        Ok(())
    }

    /// Closes a sequence, a tuple, a map or a struct.
    pub fn end(&mut self)
        ensures
            final(self)@ == put(old(self)@, seq!['}']),
    {
        self.close_structure();
    }

    /// Closes a variant with fields.
    pub fn end_struct_variant(&mut self)
        ensures
            final(self)@ == put(old(self)@, seq!['}', ';', '}']),
    {
        self.close_structure();
        self.output.push(';');
        self.close_structure();
        assert(self.output@ =~= old(self).output@ + seq!['}', ';', '}']);
    }
}

/// The text of `value`.
pub fn to_string(value: &Value) -> (r: Result<String, Error>)
    ensures
        ({
            let step = emit(State { key_mode: false, output: Seq::empty() }, value.tree());
            match step.fault {
                Some(fault) => r matches Err(e) && e@ == fault,
                None => r matches Ok(s) && s@ == step.state.output,
            }
        }),
{
    let mut serializer = Serializer::new();
    match serializer.serialize(value) {
        Ok(()) => Ok(serializer.output),
        Err(e) => Err(e),
    }
}

/// Whether a value that comes to `t` can be written as a key.
pub open spec fn key_writable(t: Tree) -> bool {
    match t {
        Tree::Text(s) => forall|i: int| 0 <= i < s.len() ==> key_char(#[trigger] s[i]),
        Tree::Variant(_) => true,
        _ => false,
    }
}

/// Whether a value that comes to `t` can be written.
pub open spec fn writable(t: Tree) -> bool
    decreases t,
{
    match t {
        Tree::NewtypeVariant(_) => false,
        Tree::TupleVariant(_) => false,
        Tree::List(len, items) => len is Some && items_writable(items),
        Tree::Table(entries) => entries_writable(entries),
        Tree::StructVariant(_, fields) => entries_writable(fields),
        _ => true,
    }
}

pub open spec fn items_writable(items: Seq<Tree>) -> bool
    decreases items,
{
    items.len() == 0 || (writable(items[0]) && items_writable(items.drop_first()))
}

pub open spec fn entries_writable(entries: Seq<(Tree, Tree)>) -> bool
    decreases entries,
{
    entries.len() == 0 || (key_writable(entries[0].0) && writable(entries[0].1)
        && entries_writable(entries.drop_first()))
}

proof fn lemma_first_bad_char(s: Seq<char>)
    ensures
        first_bad_char(s) is None <==> forall|i: int|
            0 <= i < s.len() ==> key_char(#[trigger] s[i]),
    decreases s.len(),
{
    if s.len() > 0 {
        let rest = s.drop_first();
        lemma_first_bad_char(rest);
        if first_bad_char(s) is None {
            assert forall|i: int| 0 <= i < s.len() implies key_char(#[trigger] s[i]) by {
                if i > 0 {
                    assert(rest[i - 1] == s[i]);
                }
            }
        } else if first_bad_char(rest) is Some {
            let i = choose|i: int| 0 <= i < rest.len() && !key_char(#[trigger] rest[i]);
            assert(!key_char(s[i + 1]));
        }
    }
}

proof fn lemma_prefix(a: Seq<char>, b: Seq<char>, c: Seq<char>)
    requires
        a.is_prefix_of(b),
        b.is_prefix_of(c),
    ensures
        a.is_prefix_of(c),
{
    assert(a =~= c.subrange(0, a.len() as int)) by {
        assert forall|i: int| 0 <= i < a.len() implies a[i] == c[i] by {
            assert(a[i] == b.subrange(0, a.len() as int)[i]);
            assert(b[i] == c.subrange(0, b.len() as int)[i]);
        }
    }
}

proof fn lemma_put_prefix(state: State, s: Seq<char>)
    ensures
        state.output.is_prefix_of(put(state, s).output),
{
    assert(state.output =~= put(state, s).output.subrange(0, state.output.len() as int));
}

/// A value is written without an error exactly where it can be: it holds no variant around
/// unnamed values, every sequence in it knows its length, and every key in it is a text of
/// letters, digits and underscores or a variant's name. What was written before stays in front.
pub proof fn written_iff_writable(state: State, t: Tree)
    requires
        !state.key_mode,
    ensures
        emit(state, t).fault is None <==> writable(t),
        state.output.is_prefix_of(emit(state, t).state.output),
        emit(state, t).fault is None ==> !emit(state, t).state.key_mode,
    decreases t,
{
    match t {
        Tree::List(len, items) => {
            let opened = put_seq(state, len).state;
            lemma_put_prefix(state, seq!['{']);
            if let Some(n) = len {
                lemma_seq_prefix(state, n);
                lemma_items_written(opened, items);
                lemma_closed_prefix(state, opened, emit_items(opened, items), seq!['}']);
            }
        },
        Tree::Table(entries) => {
            let opened = put(state, seq!['{']);
            lemma_put_prefix(state, seq!['{']);
            lemma_entries_written(opened, entries);
            lemma_closed_prefix(state, opened, emit_entries(opened, entries), seq!['}']);
        },
        Tree::StructVariant(name, fields) => {
            let opened = put(state, seq!['{'] + name + seq!['=', '{']);
            lemma_put_prefix(state, seq!['{'] + name + seq!['=', '{']);
            lemma_entries_written(opened, fields);
            lemma_closed_prefix(
                state,
                opened,
                emit_entries(opened, fields),
                seq!['}', ';', '}'],
            );
        },
        _ => {
            assert(forall|s: Seq<char>| #[trigger]
                state.output.is_prefix_of(put(state, s).output)) by {
                assert forall|s: Seq<char>| #[trigger]
                    state.output.is_prefix_of(put(state, s).output) by {
                    lemma_put_prefix(state, s);
                }
            }
            assert(state.output =~= state.output.subrange(0, state.output.len() as int));
        },
    }
}

proof fn lemma_seq_prefix(state: State, n: nat)
    requires
        !state.key_mode,
    ensures
        state.output.is_prefix_of(put_seq(state, Some(n)).state.output),
{
    let opened = put(state, seq!['{']);
    lemma_put_prefix(state, seq!['{']);
    lemma_put_prefix(opened, decimal(n));
    lemma_put_prefix(put(opened, decimal(n)), seq![';']);
    lemma_prefix(state.output, opened.output, put(opened, decimal(n)).output);
    lemma_prefix(
        state.output,
        put(opened, decimal(n)).output,
        put_seq(state, Some(n)).state.output,
    );
}

proof fn lemma_closed_prefix(state: State, opened: State, step: Step, end: Seq<char>)
    requires
        state.output.is_prefix_of(opened.output),
        opened.output.is_prefix_of(step.state.output),
    ensures
        state.output.is_prefix_of(closed(step, end).state.output),
{
    lemma_prefix(state.output, opened.output, step.state.output);
    lemma_put_prefix(step.state, end);
    lemma_prefix(state.output, step.state.output, put(step.state, end).output);
}

proof fn lemma_items_written(state: State, items: Seq<Tree>)
    requires
        !state.key_mode,
    ensures
        emit_items(state, items).fault is None <==> items_writable(items),
        state.output.is_prefix_of(emit_items(state, items).state.output),
        emit_items(state, items).fault is None ==> !emit_items(state, items).state.key_mode,
    decreases items,
{
    if items.len() > 0 {
        let before = put_comma(state);
        written_iff_writable(before, items[0]);
        let step = emit(before, items[0]);
        lemma_put_prefix(state, seq![',']);
        assert(state.output =~= state.output.subrange(0, state.output.len() as int));
        lemma_prefix(state.output, before.output, step.state.output);
        if step.fault is None {
            lemma_items_written(step.state, items.drop_first());
            lemma_prefix(
                state.output,
                step.state.output,
                emit_items(step.state, items.drop_first()).state.output,
            );
        }
    } else {
        assert(state.output =~= state.output.subrange(0, state.output.len() as int));
    }
}

proof fn lemma_entries_written(state: State, entries: Seq<(Tree, Tree)>)
    requires
        !state.key_mode,
    ensures
        emit_entries(state, entries).fault is None <==> entries_writable(entries),
        state.output.is_prefix_of(emit_entries(state, entries).state.output),
        emit_entries(state, entries).fault is None ==> !emit_entries(
            state,
            entries,
        ).state.key_mode,
    decreases entries,
{
    if entries.len() > 0 {
        let key = emit(State { key_mode: true, output: state.output }, entries[0].0);
        if let Tree::Text(s) = entries[0].0 {
            lemma_first_bad_char(s);
        }
        assert(state.output =~= state.output.subrange(0, state.output.len() as int));
        lemma_put_prefix(state, key_text(entries[0].0));
        if key.fault is None {
            let word = State { key_mode: false, output: key.state.output };
            let at = put(word, seq!['=']);
            written_iff_writable(at, entries[0].1);
            let value = emit(at, entries[0].1);
            lemma_put_prefix(word, seq!['=']);
            lemma_prefix(state.output, word.output, at.output);
            lemma_prefix(state.output, at.output, value.state.output);
            if value.fault is None {
                let next = put(value.state, seq![';']);
                lemma_entries_written(next, entries.drop_first());
                lemma_put_prefix(value.state, seq![';']);
                lemma_prefix(state.output, value.state.output, next.output);
                lemma_prefix(
                    state.output,
                    next.output,
                    emit_entries(next, entries.drop_first()).state.output,
                );
            }
        }
    } else {
        assert(state.output =~= state.output.subrange(0, state.output.len() as int));
    }
}

/// Whether `name` can be told from the punctuation around it.
pub open spec fn is_name(name: Seq<char>) -> bool {
    name.len() > 0 && name.last() != ';'
}

/// Whether every bare word in `t` can be told from the punctuation around it, which holds of
/// every identifier and of every number.
pub open spec fn well_named(t: Tree) -> bool
    decreases t,
{
    match t {
        Tree::Float(s) => is_name(s),
        Tree::Variant(name) => is_name(name),
        Tree::List(_, items) => items_well_named(items),
        Tree::Table(entries) => entries_well_named(entries),
        Tree::StructVariant(_, fields) => entries_well_named(fields),
        _ => true,
    }
}

pub open spec fn items_well_named(items: Seq<Tree>) -> bool
    decreases items,
{
    items.len() == 0 || (well_named(items[0]) && items_well_named(items.drop_first()))
}

pub open spec fn entries_well_named(entries: Seq<(Tree, Tree)>) -> bool
    decreases entries,
{
    entries.len() == 0 || (well_named(entries[0].1) && entries_well_named(entries.drop_first()))
}

/// The text of a key.
pub open spec fn key_text(t: Tree) -> Seq<char> {
    match t {
        Tree::Text(s) => s,
        Tree::Variant(name) => name,
        _ => Seq::empty(),
    }
}

/// The text of a value.
pub open spec fn text(t: Tree) -> Seq<char>
    decreases t,
{
    match t {
        Tree::Bool(b) => truth(b),
        Tree::Int(n) => decimal_signed(n),
        Tree::Float(s) => s,
        Tree::Text(s) => quote_text(s),
        Tree::Null => seq!['0'],
        Tree::UnitStruct(name) => name + seq!['=', '0'],
        Tree::Variant(name) => name,
        Tree::NewtypeVariant(_) => Seq::empty(),
        Tree::TupleVariant(_) => Seq::empty(),
        Tree::List(len, items) => match len {
            Some(n) => seq!['{'] + decimal(n) + seq![';'] + items_text(items) + seq!['}'],
            None => Seq::empty(),
        },
        Tree::Table(entries) => seq!['{'] + entries_text(entries) + seq!['}'],
        Tree::StructVariant(name, fields) => seq!['{'] + name + seq!['=', '{'] + entries_text(
            fields,
        ) + seq!['}', ';', '}'],
    }
}

/// The texts of the elements of a sequence, with commas between them.
pub open spec fn items_text(items: Seq<Tree>) -> Seq<char>
    decreases items,
{
    if items.len() == 0 {
        Seq::empty()
    } else if items.len() == 1 {
        text(items[0]) + items_text(items.drop_first())
    } else {
        text(items[0]) + seq![','] + items_text(items.drop_first())
    }
}

/// The texts of entries: each a key, an equals sign, a value and a semicolon.
pub open spec fn entries_text(entries: Seq<(Tree, Tree)>) -> Seq<char>
    decreases entries,
{
    if entries.len() == 0 {
        Seq::empty()
    } else {
        key_text(entries[0].0) + seq!['='] + text(entries[0].1) + seq![';'] + entries_text(
            entries.drop_first(),
        )
    }
}

proof fn lemma_decimal_last(n: nat)
    ensures
        decimal(n).len() > 0,
        decimal(n).last() != ';',
    decreases n,
{
}

proof fn lemma_text_ends(t: Tree)
    requires
        writable(t),
        well_named(t),
    ensures
        text(t).len() > 0,
        text(t).last() != ';',
{
    match t {
        Tree::Int(n) => {
            lemma_decimal_last(n as nat);
            lemma_decimal_last((-n) as nat);
        },
        Tree::Bool(_) => {
            reveal_strlit("true");
            reveal_strlit("false");
        },
        _ => {},
    }
}

/// The layout of the text: a value that can be written, and whose bare words are names, gives
/// its text as `text` lays it out.
pub proof fn written_as_text(state: State, t: Tree)
    requires
        !state.key_mode,
        writable(t),
        well_named(t),
    ensures
        emit(state, t) == done(put(state, text(t))),
    decreases t,
{
    let out = state.output;
    match t {
        Tree::List(len, items) => {
            let n = len->0;
            let opened = put_seq(state, len).state;
            lemma_items_as_text(opened, items);
            assert(emit(state, t).state.output =~= out + text(t));
        },
        Tree::Table(entries) => {
            lemma_entries_as_text(put(state, seq!['{']), entries);
            assert(emit(state, t).state.output =~= out + text(t));
        },
        Tree::StructVariant(name, fields) => {
            lemma_entries_as_text(put(state, seq!['{'] + name + seq!['=', '{']), fields);
            assert(emit(state, t).state.output =~= out + text(t));
        },
        _ => {},
    }
}

proof fn lemma_items_as_text(state: State, items: Seq<Tree>)
    requires
        !state.key_mode,
        state.output.len() > 0,
        items_writable(items),
        items_well_named(items),
    ensures
        emit_items(state, items) == done(
            put(
                if items.len() > 0 {
                    put_comma(state)
                } else {
                    state
                },
                items_text(items),
            ),
        ),
    decreases items,
{
    if items.len() > 0 {
        let before = put_comma(state);
        written_as_text(before, items[0]);
        lemma_text_ends(items[0]);
        let next = put(before, text(items[0]));
        let rest = items.drop_first();
        lemma_items_as_text(next, rest);
        assert(next.output.last() == text(items[0]).last());
        assert(emit_items(state, items).state.output =~= before.output + items_text(items));
    } else {
        assert(state.output =~= state.output + items_text(items));
    }
}

proof fn lemma_entries_as_text(state: State, entries: Seq<(Tree, Tree)>)
    requires
        !state.key_mode,
        entries_writable(entries),
        entries_well_named(entries),
    ensures
        emit_entries(state, entries) == done(put(state, entries_text(entries))),
    decreases entries,
{
    if entries.len() > 0 {
        let key = State { key_mode: true, output: state.output };
        if let Tree::Text(s) = entries[0].0 {
            lemma_first_bad_char(s);
        }
        assert(emit(key, entries[0].0) == done(put(key, key_text(entries[0].0))));
        let at = put(
            State { key_mode: false, output: state.output + key_text(entries[0].0) },
            seq!['='],
        );
        written_as_text(at, entries[0].1);
        let next = put(put(at, text(entries[0].1)), seq![';']);
        lemma_entries_as_text(next, entries.drop_first());
        assert(emit_entries(state, entries).state.output =~= state.output + entries_text(entries));
    } else {
        assert(state.output =~= state.output + entries_text(entries));
    }
}

/// The text that the characters of a quoted text stand for.
pub open spec fn unescaped(s: Seq<char>) -> Seq<char>
    decreases s.len(),
{
    if s.len() == 0 {
        Seq::empty()
    } else if s[0] == '\\' && s.len() > 1 {
        let c = if s[1] == 'n' {
            '\n'
        } else if s[1] == 'r' {
            '\r'
        } else {
            s[1]
        };
        seq![c] + unescaped(s.skip(2))
    } else {
        seq![s[0]] + unescaped(s.skip(1))
    }
}

proof fn lemma_escaped_first(s: Seq<char>)
    requires
        s.len() > 0,
    ensures
        escaped(s) == escaped_char(s[0]) + escaped(s.drop_first()),
    decreases s.len(),
{
    if s.len() == 1 {
        assert(s.drop_last() =~= Seq::empty());
        assert(s.drop_first() =~= Seq::empty());
        assert(escaped(s) =~= escaped_char(s[0]) + escaped(s.drop_first()));
    } else {
        lemma_escaped_first(s.drop_last());
        assert(s.drop_last().drop_first() =~= s.drop_first().drop_last());
        assert(escaped(s) =~= escaped_char(s[0]) + escaped(s.drop_first()));
    }
}

/// Quoting loses nothing: what a quoted text stands for is the text that was quoted.
pub proof fn quoting_is_undone(s: Seq<char>)
    ensures
        unescaped(escaped(s)) == s,
    decreases s.len(),
{
    if s.len() > 0 {
        let rest = s.drop_first();
        lemma_escaped_first(s);
        quoting_is_undone(rest);
        let e = escaped(s);
        assert(e.skip(escaped_char(s[0]).len() as int) =~= escaped(rest));
        assert(seq![s[0]] + rest =~= s);
    }
}

} // verus!
