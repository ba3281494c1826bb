//! The JSON value model for the build-time inputs: density-function
//! files, noise settings and noise parameters.
//!
//! Numbers are kept as the numeral text of the document, never converted
//! to machine floating point: the analyses only ask whether a numeral is
//! zero, and code generation copies the numeral into the emitted source,
//! so every constant survives bit-exactly.

use vstd::prelude::*;
use crate::strkey::str_eq;

verus! {

/// A parsed JSON value.
pub enum JsonValue {
    /// `null`.
    Null,
    /// `true` or `false`.
    Bool(bool),
    /// A number, as the numeral text of the document.
    Num(String),
    /// A string.
    Str(String),
    /// An array, in document order.
    Arr(Vec<JsonValue>),
    /// An object: fields with their values, in document order.
    Obj(Vec<(String, JsonValue)>),
}

/// The value of the first field named `k`, if the object has one.
pub open spec fn obj_lookup(fields: Seq<(String, JsonValue)>, k: Seq<char>) -> Option<
    JsonValue,
>
    decreases fields.len(),
{
    if fields.len() == 0 {
        None
    } else if fields[0].0@ == k {
        Some(fields[0].1)
    } else {
        obj_lookup(fields.drop_first(), k)
    }
}

/// Looks up the first field named `k` of an object's field list.
pub fn obj_get<'a>(fields: &'a Vec<(String, JsonValue)>, k: &str) -> (r: Option<&'a JsonValue>)
    ensures
        match r {
            Some(v) => obj_lookup(fields@, k@) == Some(*v),
            None => obj_lookup(fields@, k@) is None,
        },
{
    let n = fields.len();
    proof {
        assert(fields@.subrange(0, n as int) =~= fields@);
    }
    let mut i: usize = 0;
    while i < n
        invariant
            n == fields@.len(),
            i <= n,
            obj_lookup(fields@, k@) == obj_lookup(fields@.subrange(i as int, n as int), k@),
        decreases n - i,
    {
        proof {
            let suf = fields@.subrange(i as int, n as int);
            assert(suf[0] == fields@[i as int]);
            assert(suf.drop_first() =~= fields@.subrange(i + 1, n as int));
        }
        if str_eq(fields[i].0.as_str(), k) {
            return Some(&fields[i].1);
        }
        i = i + 1;
    }
    proof {
        assert(fields@.subrange(n as int, n as int).len() == 0);
    }
    None
}

/// A successful lookup returns one of the field values.
pub proof fn lemma_obj_lookup_is_field(fields: Seq<(String, JsonValue)>, k: Seq<char>) -> (i: int)
    requires
        obj_lookup(fields, k) is Some,
    ensures
        0 <= i < fields.len(),
        fields[i].1 == obj_lookup(fields, k)->Some_0,
    decreases fields.len(),
{
    if fields[0].0@ == k {
        0
    } else {
        let j = lemma_obj_lookup_is_field(fields.drop_first(), k);
        assert(fields.drop_first()[j] == fields[j + 1]);
        j + 1
    }
}

/// What an object field holds is structurally beneath the object value:
/// the termination argument for every recursion through [`obj_lookup`].
pub proof fn lemma_lookup_decreases(j: JsonValue, k: Seq<char>)
    requires
        j matches JsonValue::Obj(fields) && obj_lookup(fields@, k) is Some,
    ensures
        decreases_to!(j => obj_lookup(j->Obj_0@, k)->Some_0),
{
    let fields = j->Obj_0;
    let i = lemma_obj_lookup_is_field(fields@, k);
    let sub = obj_lookup(fields@, k)->Some_0;
    assert(decreases_to!(j => fields));
    assert(decreases_to!(fields => fields@));
    assert(decreases_to!(fields@ => fields@[i]));
    assert(decreases_to!(fields@[i] => fields@[i].1));
    assert(decreases_to!(j => sub));
}

/// What an object field holds is structurally beneath the field vector.
pub proof fn lemma_lookup_decreases_vec(fields: Vec<(String, JsonValue)>, k: Seq<char>)
    requires
        obj_lookup(fields@, k) is Some,
    ensures
        decreases_to!(fields => obj_lookup(fields@, k)->Some_0),
{
    let i = lemma_obj_lookup_is_field(fields@, k);
    let sub = obj_lookup(fields@, k)->Some_0;
    assert(decreases_to!(fields => fields@));
    assert(decreases_to!(fields@ => fields@[i]));
    assert(decreases_to!(fields@[i] => fields@[i].1));
}

} // verus!
