//! The configuration-value model.
//!
//! Configuration for the shell is written in an embedded scripting language;
//! the host converts each script value into a `DataValue` before handing it
//! to this crate, so that every parsing and dispatch decision made here is
//! over plain data.  A script function is carried as an opaque `FuncKey`
//! handle: the host keeps the real callback in its registry under that key.

use vstd::prelude::*;
use crate::text::str_eq;

verus! {

/// Handle to a host-side callback: an index into the host's function
/// registry.  The core never calls through it; it only stores and returns
/// it so the host knows which callback to run.
#[derive(Clone, Copy, Debug, PartialEq, Eq, Structural)]
pub struct FuncKey {
    pub key: u64,
}

/// A script value, as this crate sees it.
///
/// Tables from the scripting language are split into their named fields
/// (`Table`) and their positional elements (`List`); a table used as a
/// dynamic-value descriptor or a widget definition is carried as `Table`,
/// one used as an array of values as `List`.
#[derive(Debug)]
pub enum DataValue {
    /// The absent value.
    Nil,
    /// A boolean.
    Bool(bool),
    /// An integer.
    Int(i64),
    /// A string.
    Str(String),
    /// A script function, by registry handle.
    Func(FuncKey),
    /// An array of values.
    List(Vec<DataValue>),
    /// Named fields, in source order.
    Table(Vec<(String, DataValue)>),
}

/// The value of field `key` in a field list: the first binding wins.
pub open spec fn lookup(fields: Seq<(String, DataValue)>, key: Seq<char>) -> Option<DataValue>
    decreases fields.len(),
{
    if fields.len() == 0 {
        None
    } else if fields[0].0@ == key {
        Some(fields[0].1)
    } else {
        lookup(fields.drop_first(), key)
    }
}

/// Looks a field up in a table's field list.
pub fn table_get<'a>(fields: &'a Vec<(String, DataValue)>, key: &str) -> (r: Option<&'a DataValue>)
    ensures
        match r {
            Some(v) => lookup(fields@, key@) == Some(*v),
            None => lookup(fields@, key@) is None,
        },
{
    let mut i: usize = 0;
    proof {
        assert(fields@.skip(0) =~= fields@);
    }
    while i < fields.len()
        invariant
            i <= fields@.len(),
            lookup(fields@, key@) == lookup(fields@.skip(i as int), key@),
        decreases fields@.len() - i,
    {
        let ghost rest = fields@.skip(i as int);
        proof {
            assert(rest[0] == fields@[i as int]);
            assert(rest.drop_first() =~= fields@.skip(i + 1 as int));
        }
        if str_eq(fields[i].0.as_str(), key) {
            return Some(&fields[i].1);
        }
        i = i + 1;
    }
    proof {
        assert(fields@.skip(fields@.len() as int) =~= Seq::<(String, DataValue)>::empty());
    }
    None
}


/// A found field value is one of the field list's entries.
pub proof fn lemma_lookup_is_field(fields: Seq<(String, DataValue)>, key: Seq<char>)
    ensures
        (match lookup(fields, key) {
            Some(x) => exists|i: int| 0 <= i < fields.len() && #[trigger] fields[i].1 == x,
            None => true,
        }),
    decreases fields.len(),
{
    if fields.len() > 0 {
        if fields[0].0@ == key {
            assert(fields[0].1 == lookup(fields, key)->Some_0);
        } else {
            lemma_lookup_is_field(fields.drop_first(), key);
            match lookup(fields, key) {
                Some(x) => {
                    let i = choose|i: int|
                        0 <= i < fields.drop_first().len() && #[trigger] fields.drop_first()[i].1
                            == x;
                    assert(fields[i + 1].1 == x);
                }
                None => {}
            }
        }
    }
}

/// A found field value sits structurally below the table that holds it.
pub proof fn lemma_field_decreases(v: DataValue, key: Seq<char>)
    ensures
        (match v {
            DataValue::Table(fields) => match lookup(fields@, key) {
                Some(x) => decreases_to!(v => x),
                None => true,
            },
            _ => true,
        }),
{
    match v {
        DataValue::Table(fields) => {
            lemma_lookup_is_field(fields@, key);
            match lookup(fields@, key) {
                Some(x) => {
                    let i = choose|i: int| 0 <= i < fields@.len() && #[trigger] fields@[i].1 == x;
                    assert(decreases_to!(v => v->Table_0));
                    assert(decreases_to!(fields => fields@));
                    assert(decreases_to!(fields@ => fields@[i]));
                    assert(decreases_to!(fields@[i] => fields@[i].1));
                    assert(decreases_to!(v => x));
                }
                None => {}
            }
        }
        _ => {}
    }
}

/// The elements of a list value sit structurally below any table that holds
/// the list as a field.
pub proof fn lemma_field_list_decreases(v: DataValue, key: Seq<char>)
    ensures
        (match v {
            DataValue::Table(fields) => match lookup(fields@, key) {
                Some(DataValue::List(items)) => decreases_to!(v => items@),
                _ => true,
            },
            _ => true,
        }),
{
    match v {
        DataValue::Table(fields) => {
            lemma_field_decreases(v, key);
            match lookup(fields@, key) {
                Some(x) => {
                    match x {
                        DataValue::List(items) => {
                            assert(decreases_to!(x => x->List_0));
                            assert(decreases_to!(items => items@));
                            assert(decreases_to!(v => items@));
                        }
                        _ => {}
                    }
                }
                None => {}
            }
        }
        _ => {}
    }
}

} // verus!
