//! Values that can be written as text.

use vstd::prelude::*;

verus! {

/// A value to be written, in the data model of serialization.
pub enum Value {
    Bool(bool),
    Signed(i64),
    Unsigned(u64),
    /// A floating-point number, by its decimal notation.
    Float(String),
    Char(char),
    Str(String),
    ByteList(Vec<u8>),
    Absent,
    Present(Box<Value>),
    Unit,
    /// A struct without fields, by its name.
    UnitStruct(String),
    /// A variant without fields, by its own name.
    UnitVariant(String),
    NewtypeStruct(Box<Value>),
    /// A variant around one value, by the name of its enum.
    NewtypeVariant(String),
    /// A sequence and its length, if that is known beforehand.
    List(Option<usize>, Vec<Value>),
    Tuple(usize, Vec<Value>),
    TupleStruct(usize, Vec<Value>),
    /// A variant around several values, by the name of its enum.
    TupleVariant(String),
    Table(Vec<(Value, Value)>),
    Struct(Vec<(String, Value)>),
    /// A variant with fields, by its own name.
    StructVariant(String, Vec<(String, Value)>),
}

/// What a value comes to: kinds of values that are written in the same way are one.
pub enum Tree {
    Bool(bool),
    Int(int),
    Float(Seq<char>),
    Text(Seq<char>),
    Null,
    UnitStruct(Seq<char>),
    Variant(Seq<char>),
    NewtypeVariant(Seq<char>),
    TupleVariant(Seq<char>),
    List(Option<nat>, Seq<Tree>),
    Table(Seq<(Tree, Tree)>),
    StructVariant(Seq<char>, Seq<(Tree, Tree)>),
}

impl Value {
    pub open spec fn tree(self) -> Tree
        decreases self,
    {
        match self {
            Value::Bool(b) => Tree::Bool(b),
            Value::Signed(n) => Tree::Int(n as int),
            Value::Unsigned(n) => Tree::Int(n as int),
            Value::Float(s) => Tree::Float(s@),
            Value::Char(c) => Tree::Text(seq![c]),
            Value::Str(s) => Tree::Text(s@),
            Value::ByteList(b) => Tree::List(Some(b@.len()), numbers(b@)),
            Value::Absent => Tree::Null,
            Value::Present(v) => v.tree(),
            Value::Unit => Tree::Null,
            Value::UnitStruct(name) => Tree::UnitStruct(name@),
            Value::UnitVariant(name) => Tree::Variant(name@),
            Value::NewtypeStruct(v) => v.tree(),
            Value::NewtypeVariant(name) => Tree::NewtypeVariant(name@),
            Value::List(len, items) => Tree::List(
                match len {
                    Some(n) => Some(n as nat),
                    None => None,
                },
                trees(items@),
            ),
            Value::Tuple(len, items) => Tree::List(Some(len as nat), trees(items@)),
            Value::TupleStruct(len, items) => Tree::List(Some(len as nat), trees(items@)),
            Value::TupleVariant(name) => Tree::TupleVariant(name@),
            Value::Table(entries) => Tree::Table(entry_trees(entries@)),
            Value::Struct(fields) => Tree::Table(field_trees(fields@)),
            Value::StructVariant(name, fields) => Tree::StructVariant(
                name@,
                field_trees(fields@),
            ),
        }
    }
}

pub open spec fn numbers(b: Seq<u8>) -> Seq<Tree> {
    b.map_values(|n: u8| Tree::Int(n as int))
}

pub open spec fn trees(items: Seq<Value>) -> Seq<Tree>
    decreases items,
{
    if items.len() == 0 {
        Seq::empty()
    } else {
        seq![items[0].tree()] + trees(items.drop_first())
    }
}

pub open spec fn entry_trees(entries: Seq<(Value, Value)>) -> Seq<(Tree, Tree)>
    decreases entries,
{
    if entries.len() == 0 {
        Seq::empty()
    } else {
        seq![(entries[0].0.tree(), entries[0].1.tree())] + entry_trees(entries.drop_first())
    }
}

pub open spec fn field_trees(fields: Seq<(String, Value)>) -> Seq<(Tree, Tree)>
    decreases fields,
{
    if fields.len() == 0 {
        Seq::empty()
    } else {
        seq![(Tree::Text(fields[0].0@), fields[0].1.tree())] + field_trees(fields.drop_first())
    }
}

} // verus!
