//! How values look in XPrm notation: numbers in digits, texts in quotes, lists with their lengths,
//! and named fields, each as it looks alone.

use crate::lobby::listing::{host_tree, lobby_tree, room_tree};
use crate::lobby::room_info::{LobbyHost, LobbyWithRooms, RoomInfo};
use crate::text::{decimal, decimal_signed};
use crate::xprm::ser::{
    emit, entries_text, entries_well_named, entries_writable, items_text, items_well_named,
    items_writable, key_text, key_writable, quote_text, text, to_string, well_named, writable,
    written_as_text, written_iff_writable, Error, Fault, State,
};
use crate::xprm::value::{entry_trees, field_trees, trees, Tree, Value};
use vstd::prelude::*;

verus! {

/// Whether `value` is written as `s`.
pub open spec fn written(value: Value, s: Seq<char>) -> bool {
    exists|r: Result<String, Error>| #[trigger]
        call_ensures(to_string, (&value,), r) && (r matches Ok(t) && t@ == s)
}

/// Whether `r` is what writing `value` gives.
pub open spec fn writes(value: Value, r: Result<String, Error>) -> bool {
    call_ensures(to_string, (&value,), r)
}

/// A number below ten is one digit; any other is the tenth of it, and its last digit behind that.
pub proof fn numbers_are_written_in_digits(
    n: u64,
    r: Result<String, Error>,
    shorter: Result<String, Error>,
)
    requires
        writes(Value::Unsigned(n), r),
        writes(Value::Unsigned(n / 10), shorter),
    ensures
        r is Ok,
        n < 10 ==> r->Ok_0@ == seq![(48 + n) as char],
        n >= 10 ==> r->Ok_0@ == shorter->Ok_0@.push((48 + n % 10) as char),
{
    let none = State { key_mode: false, output: Seq::empty() };
    assert(Value::Unsigned(n).tree() == Tree::Int(n as int));
    assert(Value::Unsigned(n / 10).tree() == Tree::Int((n / 10) as int));
    assert(r->Ok_0@ =~= decimal(n as nat));
    assert(shorter->Ok_0@ =~= decimal((n / 10) as nat));
}

/// A negative number has a minus sign before what it is without it; any other is written as a
/// number without a sign is.
pub proof fn signs_are_written(
    n: i64,
    r: Result<String, Error>,
    m: u64,
    without: Result<String, Error>,
)
    requires
        writes(Value::Signed(n), r),
        m == if n < 0 {
            -n
        } else {
            n as int
        },
        writes(Value::Unsigned(m), without),
    ensures
        r is Ok,
        n < 0 ==> r->Ok_0@ == seq!['-'] + without->Ok_0@,
        n >= 0 ==> r->Ok_0@ == without->Ok_0@,
{
    assert(Value::Signed(n).tree() == Tree::Int(n as int));
    assert(Value::Unsigned(m).tree() == Tree::Int(m as int));
    assert(r->Ok_0@ =~= decimal_signed(n as int));
    assert(without->Ok_0@ =~= decimal(m as nat));
}

/// A truth value is a word, and what is absent is a zero.
pub proof fn words_are_written(
    b: bool,
    name: String,
    truth: Result<String, Error>,
    absent: Result<String, Error>,
    unit: Result<String, Error>,
    variant: Result<String, Error>,
    unit_struct: Result<String, Error>,
)
    requires
        writes(Value::Bool(b), truth),
        writes(Value::Absent, absent),
        writes(Value::Unit, unit),
        writes(Value::UnitVariant(name), variant),
        writes(Value::UnitStruct(name), unit_struct),
    ensures
        truth matches Ok(s) && s@ == if b {
            "true"@
        } else {
            "false"@
        },
        absent matches Ok(s) && s@ == seq!['0'],
        unit matches Ok(s) && s@ == seq!['0'],
        variant matches Ok(s) && s@ == name@,
        unit_struct matches Ok(s) && s@ == name@ + seq!['=', '0'],
{
    assert(Value::Bool(b).tree() == Tree::Bool(b));
    assert(truth->Ok_0@ =~= crate::text::truth(b));
    assert(absent->Ok_0@ =~= seq!['0']);
    assert(unit->Ok_0@ =~= seq!['0']);
    assert(variant->Ok_0@ =~= name@);
    assert(unit_struct->Ok_0@ =~= name@ + seq!['=', '0']);
}

/// A text stands between quotes, character by character, where a backslash, a quote, a line feed
/// and a carriage return have a backslash before them.
pub proof fn texts_are_quoted(
    before: String,
    c: char,
    after: String,
    r: Result<String, Error>,
    longer: Result<String, Error>,
)
    requires
        after@ == before@.push(c),
        writes(Value::Str(before), r),
        writes(Value::Str(after), longer),
    ensures
        r is Ok,
        longer is Ok,
        before@.len() == 0 ==> r->Ok_0@ == seq!['"', '"'],
        longer->Ok_0@ == r->Ok_0@.drop_last() + (if c == '\\' {
            seq!['\\', '\\']
        } else if c == '"' {
            seq!['\\', '"']
        } else if c == '\n' {
            seq!['\\', 'n']
        } else if c == '\r' {
            seq!['\\', 'r']
        } else {
            seq![c]
        }) + seq!['"'],
{
    let a = crate::xprm::ser::escaped(before@);
    let b = crate::xprm::ser::escaped(after@);
    assert(after@.drop_last() =~= before@);
    assert(b == a + crate::xprm::ser::escaped_char(c));
    assert(r->Ok_0@ =~= quote_text(before@));
    assert(longer->Ok_0@ =~= quote_text(after@));
    assert(quote_text(before@).drop_last() =~= seq!['"'] + a);
    assert(longer->Ok_0@ =~= seq!['"'] + a + crate::xprm::ser::escaped_char(c) + seq!['"']);
    if before@.len() == 0 {
        assert(r->Ok_0@ =~= seq!['"', '"']);
    }
}

/// What is present, or wrapped, is written as it is alone, and a character as a text of one.
pub proof fn wrappers_are_not_written(
    v: Value,
    alone: Result<String, Error>,
    present: Result<String, Error>,
    wrapped: Result<String, Error>,
    c: char,
    s: String,
    one: Result<String, Error>,
    text: Result<String, Error>,
)
    requires
        writes(v, alone),
        writes(Value::Present(Box::new(v)), present),
        writes(Value::NewtypeStruct(Box::new(v)), wrapped),
        s@ == seq![c],
        writes(Value::Char(c), one),
        writes(Value::Str(s), text),
    ensures
        alone is Ok <==> present is Ok,
        alone is Ok <==> wrapped is Ok,
        alone is Ok ==> present->Ok_0@ == alone->Ok_0@ && wrapped->Ok_0@ == alone->Ok_0@,
        one is Ok && text is Ok && one->Ok_0@ == text->Ok_0@,
{
    assert(Value::Present(Box::new(v)).tree() == v.tree());
    assert(Value::NewtypeStruct(Box::new(v)).tree() == v.tree());
}

/// Texts with commas between them.
pub open spec fn with_commas(texts: Seq<Seq<char>>) -> Seq<char>
    decreases texts.len(),
{
    if texts.len() == 0 {
        Seq::empty()
    } else if texts.len() == 1 {
        texts[0]
    } else {
        texts[0] + seq![','] + with_commas(texts.drop_first())
    }
}

/// Named texts, each behind its name and an equals sign, and with a semicolon behind it.
pub open spec fn named(fields: Seq<(Seq<char>, Seq<char>)>) -> Seq<char>
    decreases fields.len(),
{
    if fields.len() == 0 {
        Seq::empty()
    } else {
        fields[0].0 + seq!['='] + fields[0].1 + seq![';'] + named(fields.drop_first())
    }
}

proof fn lemma_with_commas(items: Seq<Tree>, texts: Seq<Seq<char>>)
    requires
        items.len() == texts.len(),
        forall|i: int| 0 <= i < items.len() ==> text(#[trigger] items[i]) == texts[i],
    ensures
        items_text(items) == with_commas(texts),
    decreases items.len(),
{
    if items.len() > 0 {
        let rest = items.drop_first();
        let rest_texts = texts.drop_first();
        assert forall|i: int| 0 <= i < rest.len() implies text(#[trigger] rest[i])
            == rest_texts[i] by {
            assert(rest[i] == items[i + 1]);
        }
        lemma_with_commas(rest, rest_texts);
        assert(text(items[0]) == texts[0]);
        if items.len() == 1 {
            assert(items_text(rest) =~= Seq::empty());
            assert(items_text(items) =~= texts[0]);
        }
    }
}

proof fn lemma_named(entries: Seq<(Tree, Tree)>, fields: Seq<(Seq<char>, Seq<char>)>)
    requires
        entries.len() == fields.len(),
        forall|i: int|
            0 <= i < entries.len() ==> key_text((#[trigger] entries[i]).0) == fields[i].0 && text(
                entries[i].1,
            ) == fields[i].1,
    ensures
        entries_text(entries) == named(fields),
    decreases entries.len(),
{
    if entries.len() > 0 {
        let rest = entries.drop_first();
        let rest_fields = fields.drop_first();
        assert forall|i: int| 0 <= i < rest.len() implies key_text((#[trigger] rest[i]).0)
            == rest_fields[i].0 && text(rest[i].1) == rest_fields[i].1 by {
            assert(rest[i] == entries[i + 1]);
        }
        lemma_named(rest, rest_fields);
        assert(key_text(entries[0].0) == fields[0].0 && text(entries[0].1) == fields[0].1);
    }
}

/// What is written, where it holds no words that could be taken for punctuation.
proof fn lemma_text(v: Value, r: Result<String, Error>)
    requires
        writes(v, r),
        well_named(v.tree()),
    ensures
        r is Ok <==> writable(v.tree()),
        r is Ok ==> r->Ok_0@ == text(v.tree()),
{
    let none = State { key_mode: false, output: Seq::empty() };
    written_iff_writable(none, v.tree());
    if writable(v.tree()) {
        written_as_text(none, v.tree());
        assert(r->Ok_0@ =~= text(v.tree()));
    }
}

proof fn lemma_trees_at(items: Seq<Value>)
    ensures
        trees(items).len() == items.len(),
        forall|i: int| 0 <= i < items.len() ==> trees(items)[i] == (#[trigger] items[i]).tree(),
{
    let ts = items.map_values(|v: Value| v.tree());
    crate::lobby::listing::lemma_trees(items, ts);
}

proof fn lemma_fields_at(fields: Seq<(String, Value)>)
    ensures
        field_trees(fields).len() == fields.len(),
        forall|i: int|
            0 <= i < fields.len() ==> field_trees(fields)[i] == (
                Tree::Text((#[trigger] fields[i]).0@),
                fields[i].1.tree(),
            ),
    decreases fields.len(),
{
    if fields.len() > 0 {
        let rest = fields.drop_first();
        lemma_fields_at(rest);
        assert forall|i: int| 0 <= i < fields.len() implies field_trees(fields)[i] == (
            Tree::Text((#[trigger] fields[i]).0@),
            fields[i].1.tree(),
        ) by {
            if i > 0 {
                assert(rest[i - 1] == fields[i]);
            }
        }
    }
}

/// Whether each of `items` is written as the text at its place says.
pub open spec fn written_each(items: Seq<Value>, texts: Seq<Seq<char>>) -> bool {
    &&& items.len() == texts.len()
    &&& forall|i: int| 0 <= i < items.len() ==> written(#[trigger] items[i], texts[i])
}

proof fn lemma_items(items: Seq<Value>, texts: Seq<Seq<char>>)
    requires
        written_each(items, texts),
        items_well_named(trees(items)),
    ensures
        items_writable(trees(items)),
        items_text(trees(items)) == with_commas(texts),
{
    lemma_trees_at(items);
    let ts = trees(items);
    lemma_items_each(ts);
    assert forall|i: int| 0 <= i < ts.len() implies writable(#[trigger] ts[i]) && text(ts[i])
        == texts[i] by {
        assert(ts[i] == items[i].tree());
        assert(written(items[i], texts[i]));
        let r = choose|r: Result<String, Error>| #[trigger]
            call_ensures(to_string, (&items[i],), r) && (r matches Ok(t) && t@ == texts[i]);
        lemma_text(items[i], r);
    }
    crate::lobby::listing::lemma_items_writable(ts);
    lemma_with_commas(ts, texts);
}

proof fn lemma_items_each(ts: Seq<Tree>)
    requires
        items_well_named(ts),
    ensures
        forall|i: int| 0 <= i < ts.len() ==> well_named(#[trigger] ts[i]),
    decreases ts.len(),
{
    if ts.len() > 0 {
        let rest = ts.drop_first();
        lemma_items_each(rest);
        assert forall|i: int| 0 <= i < ts.len() implies well_named(#[trigger] ts[i]) by {
            if i > 0 {
                assert(rest[i - 1] == ts[i]);
            }
        }
    }
}

/// A list is its length and its elements, each as it looks alone, with commas between them; tuples
/// are no different.
pub proof fn lists_are_written(
    n: usize,
    items: Vec<Value>,
    texts: Seq<Seq<char>>,
    length: Seq<char>,
    list: Result<String, Error>,
    tuple: Result<String, Error>,
    tuple_struct: Result<String, Error>,
)
    requires
        n <= u64::MAX,
        written_each(items@, texts),
        written(Value::Unsigned(n as u64), length),
        items_well_named(trees(items@)),
        writes(Value::List(Some(n), items), list),
        writes(Value::Tuple(n, items), tuple),
        writes(Value::TupleStruct(n, items), tuple_struct),
    ensures
        list matches Ok(s) && s@ == seq!['{'] + length + seq![';'] + with_commas(texts) + seq!['}'],
        tuple matches Ok(s) && s@ == list->Ok_0@,
        tuple_struct matches Ok(s) && s@ == list->Ok_0@,
{
    lemma_items(items@, texts);
    let tree = Tree::List(Some(n as nat), trees(items@));
    assert(Value::List(Some(n), items).tree() == tree);
    assert(Value::Tuple(n, items).tree() == tree);
    assert(Value::TupleStruct(n, items).tree() == tree);
    lemma_text(Value::List(Some(n), items), list);
    lemma_text(Value::Tuple(n, items), tuple);
    lemma_text(Value::TupleStruct(n, items), tuple_struct);
    let r = choose|r: Result<String, Error>| #[trigger]
        call_ensures(to_string, (&Value::Unsigned(n as u64),), r) && (r matches Ok(t) && t@
            == length);
    assert(Value::Unsigned(n as u64).tree() == Tree::Int(n as int));
    assert(length =~= decimal(n as nat));
}

/// Whether a name is made of letters, digits and underscores.
pub open spec fn is_plain(name: Seq<char>) -> bool {
    forall|i: int|
        0 <= i < name.len() ==> {
            let c = #[trigger] name[i];
            ('0' <= c && c <= '9') || ('A' <= c && c <= 'Z') || ('a' <= c && c <= 'z') || c == '_'
        }
}

/// Whether each of `fields` is written as the text at its place says.
pub open spec fn written_fields(
    fields: Seq<(String, Value)>,
    texts: Seq<(Seq<char>, Seq<char>)>,
) -> bool {
    &&& fields.len() == texts.len()
    &&& forall|i: int|
        0 <= i < fields.len() ==> (#[trigger] fields[i]).0@ == texts[i].0 && is_plain(texts[i].0)
            && written(fields[i].1, texts[i].1)
}

proof fn lemma_fields(fields: Seq<(String, Value)>, texts: Seq<(Seq<char>, Seq<char>)>)
    requires
        written_fields(fields, texts),
        entries_well_named(field_trees(fields)),
    ensures
        entries_writable(field_trees(fields)),
        entries_text(field_trees(fields)) == named(texts),
{
    lemma_fields_at(fields);
    let ts = field_trees(fields);
    lemma_entries_each(ts);
    assert forall|i: int| 0 <= i < ts.len() implies key_writable((#[trigger] ts[i]).0) && writable(
        ts[i].1,
    ) && key_text(ts[i].0) == texts[i].0 && text(ts[i].1) == texts[i].1 by {
        assert(ts[i] == (Tree::Text(fields[i].0@), fields[i].1.tree()));
        let v = fields[i].1;
        assert(written(v, texts[i].1));
        let r = choose|r: Result<String, Error>| #[trigger]
            call_ensures(to_string, (&v,), r) && (r matches Ok(t) && t@ == texts[i].1);
        lemma_text(v, r);
        let name = fields[i].0@;
        assert forall|j: int| 0 <= j < name.len() implies crate::xprm::ser::key_char(
            #[trigger] name[j],
        ) by {
            assert(is_plain(texts[i].0));
        }
    }
    crate::lobby::listing::lemma_entries_writable(ts);
    lemma_named(ts, texts);
}

proof fn lemma_entries_each(ts: Seq<(Tree, Tree)>)
    requires
        entries_well_named(ts),
    ensures
        forall|i: int| 0 <= i < ts.len() ==> well_named((#[trigger] ts[i]).1),
    decreases ts.len(),
{
    if ts.len() > 0 {
        let rest = ts.drop_first();
        lemma_entries_each(rest);
        assert forall|i: int| 0 <= i < ts.len() implies well_named((#[trigger] ts[i]).1) by {
            if i > 0 {
                assert(rest[i - 1] == ts[i]);
            }
        }
    }
}

/// A struct is its fields, each behind its name, as it looks alone; a variant with fields has its
/// own name in front.
pub proof fn structs_are_written(
    fields: Vec<(String, Value)>,
    texts: Seq<(Seq<char>, Seq<char>)>,
    r: Result<String, Error>,
    name: String,
    variant: Result<String, Error>,
)
    requires
        written_fields(fields@, texts),
        entries_well_named(field_trees(fields@)),
        writes(Value::Struct(fields), r),
        writes(Value::StructVariant(name, fields), variant),
    ensures
        r matches Ok(s) && s@ == seq!['{'] + named(texts) + seq!['}'],
        variant matches Ok(s) && s@ == seq!['{'] + name@ + seq!['=', '{'] + named(texts) + seq![
            '}',
            ';',
            '}',
        ],
{
    lemma_fields(fields@, texts);
    assert(Value::Struct(fields).tree() == Tree::Table(field_trees(fields@)));
    assert(Value::StructVariant(name, fields).tree() == Tree::StructVariant(
        name@,
        field_trees(fields@),
    ));
    lemma_text(Value::Struct(fields), r);
    lemma_text(Value::StructVariant(name, fields), variant);
}

/// What cannot be written is an error: variants around unnamed values, a list whose length is not
/// known, and a key that is no text or has a character that no key may have.
pub proof fn the_rest_is_not_written(
    name: String,
    items: Vec<Value>,
    newtype: Result<String, Error>,
    tuple: Result<String, Error>,
    unsized_list: Result<String, Error>,
    key: String,
    number: u64,
    value: Value,
    bad: Vec<(Value, Value)>,
    by_text: Result<String, Error>,
    numbered: Vec<(Value, Value)>,
    by_number: Result<String, Error>,
)
    requires
        writes(Value::NewtypeVariant(name), newtype),
        writes(Value::TupleVariant(name), tuple),
        writes(Value::List(None, items), unsized_list),
        bad@ == seq![(Value::Str(key), value)],
        writes(Value::Table(bad), by_text),
        !is_plain(key@),
        numbered@ == seq![(Value::Unsigned(number), value)],
        writes(Value::Table(numbered), by_number),
    ensures
        newtype matches Err(Error::NewtypeVariant(n)) && n@ == name@,
        tuple matches Err(Error::TupleVariant(n)) && n@ == name@,
        unsized_list matches Err(Error::UnknownSeqSize),
        by_text matches Err(Error::KeyInvalidChar(c)) && key@.contains(c) && !is_plain(seq![c]),
        by_number matches Err(Error::KeyNotString),
{
    assert(newtype->Err_0@ == Fault::NewtypeVariant(name@));
    assert(tuple->Err_0@ == Fault::TupleVariant(name@));
    assert(Value::List(None, items).tree() == Tree::List(None, trees(items@)));
    reveal_with_fuel(emit, 3);
    reveal_with_fuel(crate::xprm::ser::emit_entries, 3);
    let bt = entry_trees(bad@);
    assert(bad@[0].0.tree() == Tree::Text(key@));
    assert(bt.len() > 0 && bt[0].0 == Tree::Text(key@));
    assert(Value::Table(bad).tree() == Tree::Table(bt));
    lemma_bad_char(key@);
    let c = crate::xprm::ser::first_bad_char(key@)->0;
    assert(by_text->Err_0@ == Fault::KeyInvalidChar(c));
    assert(seq![c][0] == c);
    assert(Value::Table(numbered).tree() == Tree::Table(entry_trees(numbered@)));
    assert(numbered@[0].0.tree() == Tree::Int(number as int));
    assert(entry_trees(numbered@)[0].0 == Tree::Int(number as int));
    assert(by_number->Err_0@ == Fault::KeyNotString);
}

proof fn lemma_bad_char(s: Seq<char>)
    ensures
        crate::xprm::ser::first_bad_char(s) is None <==> is_plain(s),
        crate::xprm::ser::first_bad_char(s) matches Some(c) ==> s.contains(c)
            && !crate::xprm::ser::key_char(c),
    decreases s.len(),
{
    if s.len() > 0 {
        let rest = s.drop_first();
        lemma_bad_char(rest);
        if crate::xprm::ser::key_char(s[0]) {
            if is_plain(rest) {
                assert forall|i: int| 0 <= i < s.len() implies crate::xprm::ser::key_char(
                    #[trigger] s[i],
                ) by {
                    if i > 0 {
                        assert(rest[i - 1] == s[i]);
                    }
                }
            }
            if is_plain(s) {
                assert forall|i: int| 0 <= i < rest.len() implies crate::xprm::ser::key_char(
                    #[trigger] rest[i],
                ) by {
                    assert(rest[i] == s[i + 1]);
                }
            }
            if let Some(c) = crate::xprm::ser::first_bad_char(rest) {
                let i = choose|i: int| 0 <= i < rest.len() && rest[i] == c;
                assert(s[i + 1] == c);
            }
        } else {
            assert(s[0] == s[0]);
        }
    }
}

/// The pairs of a room's extra data, each behind its key, in quotes.
pub open spec fn quoted_pairs(listed: Seq<(Seq<char>, Seq<char>)>) -> Seq<(Seq<char>, Seq<char>)> {
    listed.map_values(|p: (Seq<char>, Seq<char>)| (p.0, quote_text(p.1)))
}

/// A room in XPrm notation: its fields by their names, in this order.
pub open spec fn room_text(room: RoomInfo) -> Seq<char> {
    seq!['{'] + named(
        seq![
            ("room_id"@, decimal(room.room_id as nat)),
            ("game_type"@, quote_text(room.game_type@)),
            ("game_version"@, quote_text(room.game_version@)),
            ("room_name"@, quote_text(room.room_name@)),
            (
                "room_password"@,
                if room.room_password {
                    "true"@
                } else {
                    "false"@
                },
            ),
            (
                "room_closed"@,
                if room.room_closed {
                    "true"@
                } else {
                    "false"@
                },
            ),
            (
                "game_started"@,
                if room.game_started {
                    "true"@
                } else {
                    "false"@
                },
            ),
            ("players_count"@, decimal(room.players_count as nat)),
            ("players_max"@, decimal(room.players_max as nat)),
            ("ping"@, decimal(room.ping as nat)),
            (
                "extra_data"@,
                seq!['{'] + named(quoted_pairs(room.extra_data.listed())) + seq!['}'],
            ),
        ],
    ) + seq!['}']
}

/// Whether every key of a room's extra data is made of letters, digits and underscores.
pub open spec fn has_plain_keys(room: RoomInfo) -> bool {
    forall|i: int|
        0 <= i < room.extra_data.listed().len() ==> is_plain(
            (#[trigger] room.extra_data.listed()[i]).0,
        )
}

proof fn lemma_room_text(room: RoomInfo)
    requires
        has_plain_keys(room),
    ensures
        writable(room_tree(room)),
        well_named(room_tree(room)),
        text(room_tree(room)) == room_text(room),
{
    let listed = room.extra_data.listed();
    let extra = crate::lobby::listing::text_entries(listed);
    let entries = room_tree(room)->Table_0;
    assert(crate::lobby::listing::plain_keys(room)) by {
        assert forall|i: int| 0 <= i < listed.len() implies crate::lobby::listing::is_word(
            (#[trigger] listed[i]).0,
        ) by {
            let name = listed[i].0;
            assert(is_plain(name));
            assert forall|j: int| 0 <= j < name.len() implies crate::xprm::ser::key_char(
                #[trigger] name[j],
            ) by {}
        }
    }
    crate::lobby::listing::lemma_room_writable(room);
    lemma_well_named(extra);
    lemma_well_named(entries);
    assert forall|i: int| 0 <= i < extra.len() implies well_named((#[trigger] extra[i]).1) by {}
    assert forall|i: int| 0 <= i < entries.len() implies well_named((#[trigger] entries[i]).1) by {
        if i == 10 {
            assert(entries[i].1 == Tree::Table(extra));
        }
    }
    lemma_named(extra, quoted_pairs(listed));
    let fields = seq![
        ("room_id"@, decimal(room.room_id as nat)),
        ("game_type"@, quote_text(room.game_type@)),
        ("game_version"@, quote_text(room.game_version@)),
        ("room_name"@, quote_text(room.room_name@)),
        (
            "room_password"@,
            if room.room_password {
                "true"@
            } else {
                "false"@
            },
        ),
        (
            "room_closed"@,
            if room.room_closed {
                "true"@
            } else {
                "false"@
            },
        ),
        (
            "game_started"@,
            if room.game_started {
                "true"@
            } else {
                "false"@
            },
        ),
        ("players_count"@, decimal(room.players_count as nat)),
        ("players_max"@, decimal(room.players_max as nat)),
        ("ping"@, decimal(room.ping as nat)),
        ("extra_data"@, seq!['{'] + named(quoted_pairs(listed)) + seq!['}']),
    ];
    assert(entries[10].1 == Tree::Table(extra));
    assert(text(Tree::Table(extra)) == seq!['{'] + entries_text(extra) + seq!['}']);
    lemma_named(entries, fields);
}

proof fn lemma_well_named(entries: Seq<(Tree, Tree)>)
    ensures
        entries_well_named(entries) <==> forall|i: int|
            0 <= i < entries.len() ==> well_named((#[trigger] entries[i]).1),
    decreases entries.len(),
{
    if entries.len() > 0 {
        let rest = entries.drop_first();
        lemma_well_named(rest);
        if entries_well_named(entries) {
            assert forall|i: int| 0 <= i < entries.len() implies well_named(
                (#[trigger] entries[i]).1,
            ) by {
                if i > 0 {
                    assert(rest[i - 1] == entries[i]);
                }
            }
        }
        if forall|i: int| 0 <= i < entries.len() ==> well_named((#[trigger] entries[i]).1) {
            assert(well_named(entries[0].1));
            assert forall|i: int| 0 <= i < rest.len() implies well_named((#[trigger] rest[i]).1) by {
                assert(rest[i] == entries[i + 1]);
            }
        }
    }
}

proof fn lemma_items_well_named(items: Seq<Tree>)
    requires
        forall|i: int| 0 <= i < items.len() ==> well_named(#[trigger] items[i]),
    ensures
        items_well_named(items),
    decreases items.len(),
{
    if items.len() > 0 {
        let rest = items.drop_first();
        assert(well_named(items[0]));
        assert forall|i: int| 0 <= i < rest.len() implies well_named(#[trigger] rest[i]) by {
            assert(rest[i] == items[i + 1]);
        }
        lemma_items_well_named(rest);
    }
}

/// A room is written with its fields by their names.
pub proof fn rooms_are_written(room: RoomInfo, value: Value, r: Result<String, Error>)
    requires
        call_ensures(crate::lobby::listing::room_value, (&room,), value),
        writes(value, r),
        has_plain_keys(room),
    ensures
        r matches Ok(s) && s@ == room_text(room),
{
    lemma_room_text(room);
    lemma_text(value, r);
}

/// Where a lobby can be reached, in XPrm notation.
pub open spec fn host_text(host: LobbyHost) -> Seq<char> {
    seq!['{'] + named(
        seq![
            ("host_tcp"@, quote_text(host.host_tcp@)),
            ("host_ws"@, quote_text(host.host_ws@)),
        ],
    ) + seq!['}']
}

/// A list of texts, in XPrm notation.
pub open spec fn list_text(texts: Seq<Seq<char>>) -> Seq<char> {
    seq!['{'] + decimal(texts.len()) + seq![';'] + with_commas(texts) + seq!['}']
}

/// A lobby and its rooms, in XPrm notation.
pub open spec fn lobby_text(lobby: LobbyWithRooms) -> Seq<char> {
    seq!['{'] + named(
        seq![
            ("host"@, host_text(lobby.host)),
            (
                "rooms"@,
                list_text(lobby.rooms@.map_values(|room: RoomInfo| room_text(room))),
            ),
        ],
    ) + seq!['}']
}

proof fn lemma_host_text(host: LobbyHost)
    ensures
        writable(host_tree(host)),
        well_named(host_tree(host)),
        text(host_tree(host)) == host_text(host),
{
    let entries = host_tree(host)->Table_0;
    let fields = seq![
        ("host_tcp"@, quote_text(host.host_tcp@)),
        ("host_ws"@, quote_text(host.host_ws@)),
    ];
    reveal_strlit("host_tcp");
    reveal_strlit("host_ws");
    lemma_well_named(entries);
    lemma_named(entries, fields);
    crate::lobby::listing::lemma_entries_writable(entries);
    assert forall|i: int| 0 <= i < entries.len() implies key_writable((#[trigger] entries[i]).0)
        && writable(entries[i].1) && well_named(entries[i].1) by {
        let name = entries[i].0->Text_0;
        assert forall|j: int| 0 <= j < name.len() implies crate::xprm::ser::key_char(
            #[trigger] name[j],
        ) by {}
    }
}

proof fn lemma_list_text(items: Seq<Tree>, texts: Seq<Seq<char>>)
    requires
        items.len() == texts.len(),
        forall|i: int|
            0 <= i < items.len() ==> writable(#[trigger] items[i]) && well_named(items[i]) && text(
                items[i],
            ) == texts[i],
    ensures
        writable(crate::lobby::listing::list_tree(items)),
        well_named(crate::lobby::listing::list_tree(items)),
        text(crate::lobby::listing::list_tree(items)) == list_text(texts),
{
    crate::lobby::listing::lemma_items_writable(items);
    lemma_items_well_named(items);
    lemma_with_commas(items, texts);
}

proof fn lemma_lobby_text(lobby: LobbyWithRooms)
    requires
        forall|j: int| 0 <= j < lobby.rooms@.len() ==> has_plain_keys(#[trigger] lobby.rooms@[j]),
    ensures
        writable(lobby_tree(lobby)),
        well_named(lobby_tree(lobby)),
        text(lobby_tree(lobby)) == lobby_text(lobby),
{
    let rooms = lobby.rooms@.map_values(|room: RoomInfo| room_tree(room));
    let room_texts = lobby.rooms@.map_values(|room: RoomInfo| room_text(room));
    assert forall|i: int| 0 <= i < rooms.len() implies writable(#[trigger] rooms[i])
        && well_named(rooms[i]) && text(rooms[i]) == room_texts[i] by {
        assert(has_plain_keys(lobby.rooms@[i]));
        lemma_room_text(lobby.rooms@[i]);
    }
    lemma_list_text(rooms, room_texts);
    lemma_host_text(lobby.host);
    let entries = lobby_tree(lobby)->Table_0;
    let fields = seq![("host"@, host_text(lobby.host)), ("rooms"@, list_text(room_texts))];
    reveal_strlit("host");
    reveal_strlit("rooms");
    assert(entries[1].1 == crate::lobby::listing::list_tree(rooms));
    lemma_well_named(entries);
    lemma_named(entries, fields);
    crate::lobby::listing::lemma_entries_writable(entries);
    assert forall|i: int| 0 <= i < entries.len() implies key_writable((#[trigger] entries[i]).0)
        && writable(entries[i].1) && well_named(entries[i].1) by {
        let name = entries[i].0->Text_0;
        assert forall|j: int| 0 <= j < name.len() implies crate::xprm::ser::key_char(
            #[trigger] name[j],
        ) by {}
    }
}

/// Lobbies are written with their hosts and their rooms, and hosts with both of their addresses.
pub proof fn lobbies_are_written(
    lobbies: Vec<LobbyWithRooms>,
    value: Value,
    r: Result<String, Error>,
    hosts: Vec<LobbyHost>,
    hosts_value: Value,
    hosts_r: Result<String, Error>,
)
    requires
        call_ensures(crate::lobby::listing::lobbies_value, (&lobbies,), value),
        writes(value, r),
        forall|i: int, j: int|
            0 <= i < lobbies@.len() && 0 <= j < lobbies@[i].rooms@.len() ==> has_plain_keys(
                #[trigger] lobbies@[i].rooms@[j],
            ),
        call_ensures(crate::lobby::listing::hosts_value, (&hosts,), hosts_value),
        writes(hosts_value, hosts_r),
    ensures
        r matches Ok(s) && s@ == list_text(
            lobbies@.map_values(|lobby: LobbyWithRooms| lobby_text(lobby)),
        ),
        hosts_r matches Ok(s) && s@ == list_text(
            hosts@.map_values(|host: LobbyHost| host_text(host)),
        ),
{
    let items = lobbies@.map_values(|lobby: LobbyWithRooms| lobby_tree(lobby));
    let texts = lobbies@.map_values(|lobby: LobbyWithRooms| lobby_text(lobby));
    assert forall|i: int| 0 <= i < items.len() implies writable(#[trigger] items[i])
        && well_named(items[i]) && text(items[i]) == texts[i] by {
        let lobby = lobbies@[i];
        assert forall|j: int| 0 <= j < lobby.rooms@.len() implies has_plain_keys(
            #[trigger] lobby.rooms@[j],
        ) by {
            assert(has_plain_keys(lobbies@[i].rooms@[j]));
        }
        lemma_lobby_text(lobby);
    }
    lemma_list_text(items, texts);
    lemma_text(value, r);
    let host_items = hosts@.map_values(|host: LobbyHost| host_tree(host));
    let host_texts = hosts@.map_values(|host: LobbyHost| host_text(host));
    assert forall|i: int| 0 <= i < host_items.len() implies writable(#[trigger] host_items[i])
        && well_named(host_items[i]) && text(host_items[i]) == host_texts[i] by {
        lemma_host_text(hosts@[i]);
    }
    lemma_list_text(host_items, host_texts);
    lemma_text(hosts_value, hosts_r);
}

/// The list that the HTTP server gives names its lobbies, and that of the games is their names.
pub proof fn http_lists_are_written(
    response: crate::http::lobby::LobbyListResponse,
    value: Value,
    r: Result<String, Error>,
    allowed: Vec<String>,
    games: Value,
    games_r: Result<String, Error>,
)
    requires
        call_ensures(crate::http::lobby::LobbyListResponse::value, (&response,), value),
        writes(value, r),
        forall|i: int, j: int|
            0 <= i < response.lobbies@.len() && 0 <= j < response.lobbies@[i].rooms@.len()
                ==> has_plain_keys(#[trigger] response.lobbies@[i].rooms@[j]),
        call_ensures(crate::http::lobby::game_types, (&allowed,), games),
        writes(games, games_r),
    ensures
        r matches Ok(s) && s@ == seq!['{'] + named(
            seq![
                (
                    "lobbies"@,
                    list_text(
                        response.lobbies@.map_values(|lobby: LobbyWithRooms| lobby_text(lobby)),
                    ),
                ),
            ],
        ) + seq!['}'],
        games_r matches Ok(s) && s@ == list_text(
            allowed@.map_values(|name: String| quote_text(name@)),
        ),
{
    let lobbies = response.lobbies@;
    let items = lobbies.map_values(|lobby: LobbyWithRooms| lobby_tree(lobby));
    let texts = lobbies.map_values(|lobby: LobbyWithRooms| lobby_text(lobby));
    assert forall|i: int| 0 <= i < items.len() implies writable(#[trigger] items[i])
        && well_named(items[i]) && text(items[i]) == texts[i] by {
        let lobby = lobbies[i];
        assert forall|j: int| 0 <= j < lobby.rooms@.len() implies has_plain_keys(
            #[trigger] lobby.rooms@[j],
        ) by {
            assert(has_plain_keys(response.lobbies@[i].rooms@[j]));
        }
        lemma_lobby_text(lobby);
    }
    lemma_list_text(items, texts);
    let entries = response.tree()->Table_0;
    let fields = seq![("lobbies"@, list_text(texts))];
    reveal_strlit("lobbies");
    assert(entries[0].1 == crate::lobby::listing::list_tree(items));
    lemma_well_named(entries);
    lemma_named(entries, fields);
    crate::lobby::listing::lemma_entries_writable(entries);
    assert forall|i: int| 0 <= i < entries.len() implies key_writable((#[trigger] entries[i]).0)
        && writable(entries[i].1) && well_named(entries[i].1) by {
        let name = entries[i].0->Text_0;
        assert forall|j: int| 0 <= j < name.len() implies crate::xprm::ser::key_char(
            #[trigger] name[j],
        ) by {}
    }
    lemma_text(value, r);
    let game_items = allowed@.map_values(|s: String| Tree::Text(s@));
    let game_texts = allowed@.map_values(|name: String| quote_text(name@));
    lemma_list_text(game_items, game_texts);
    lemma_text(games, games_r);
}

/// A payload is in the notation that was asked for: XPrm, or else what the JSON writer made.
pub proof fn payloads_are_in_their_notation(
    xprm: bool,
    value: Value,
    json: Result<String, String>,
    r: Result<String, crate::utils::xprm::PayloadError>,
    response: Result<crate::http::utils::Serialized, crate::utils::xprm::PayloadError>,
    written_as: Result<String, Error>,
)
    requires
        call_ensures(crate::utils::xprm::serialize_xprm_or_json, (xprm, &value, json), r),
        call_ensures(crate::http::utils::http_ok_serialize, (xprm, &value, json), response),
        writes(value, written_as),
    ensures
        xprm ==> (r is Ok <==> written_as is Ok),
        xprm && r is Ok ==> r->Ok_0@ == written_as->Ok_0@,
        !xprm ==> (r is Ok <==> json is Ok),
        !xprm && r is Ok ==> r->Ok_0@ == json->Ok_0@,
        response is Ok <==> r is Ok,
        response is Ok ==> response->Ok_0.body@ == r->Ok_0@,
        response is Ok && xprm ==> response->Ok_0.content_type@ == "application/xprm"@,
        response is Ok && !xprm ==> response->Ok_0.content_type@ == "application/json"@,
{
}

/// What cannot be written is said, and a response that reports it is one of a server at fault.
pub proof fn faults_are_said(
    e: Error,
    s: String,
    payload: crate::utils::xprm::PayloadError,
    payload_text: String,
    status: u16,
)
    requires
        call_ensures(Error::message, (&e,), s),
        call_ensures(crate::utils::xprm::PayloadError::to_text, (&payload,), payload_text),
        call_ensures(crate::utils::xprm::PayloadError::status_code, (&payload,), status),
    ensures
        e is KeyNotString ==> s@ == "Key must be string"@,
        e matches Error::KeyInvalidChar(c) ==> s@ == "Key has invalid char: '"@ + seq![c, '\''],
        e is UnknownSeqSize ==> s@ == "Unknown seq size"@,
        e matches Error::NewtypeVariant(name) ==> s@ == "NewtypeVariant for "@
            + crate::xprm::ser::quoted(name@) + " not supported"@,
        e matches Error::TupleVariant(name) ==> s@ == "TupleVariant for "@
            + crate::xprm::ser::quoted(name@) + " not supported"@,
        payload matches crate::utils::xprm::PayloadError::SerializeXPRM(fault) ==> fault@ == e@
            ==> payload_text@ == s@,
        payload matches crate::utils::xprm::PayloadError::SerializeJSON(text) ==> payload_text@
            == text@,
        status == 500,
{
    if let Error::KeyInvalidChar(c) = e {
        assert("Key has invalid char: '"@.push(c).push('\'') =~= "Key has invalid char: '"@ + seq![
            c,
            '\'',
        ]);
    }
}

} // verus!
