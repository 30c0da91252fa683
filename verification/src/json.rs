//! A JSON document as plain values, for the decisions taken on decoded
//! frames and updates. Numbers keep their textual form; object members keep
//! their order (keys are distinct in decoded documents).
use vstd::prelude::*;
use crate::num::{parse_i64, parse_i64_spec};
use crate::text::{chars_eq, to_chars};

verus! {

#[derive(Debug)]
pub enum Json {
    Null,
    Bool(bool),
    /// A number in its textual form (`12`, `-3`, `1.5e3`).
    Number(String),
    Str(String),
    Array(Vec<Json>),
    Object(Vec<(String, Json)>),
}

/// Index of the first member named `key`.
pub open spec fn member_index(members: Seq<(String, Json)>, key: Seq<char>) -> Option<int>
    decreases members.len(),
{
    if members.len() == 0 {
        None
    } else {
        match member_index(members.drop_last(), key) {
            Some(i) => Some(i),
            None => if members.last().0@ == key {
                Some(members.len() - 1)
            } else {
                None
            },
        }
    }
}

/// A key found among the first `k` members is found at the same place in
/// all of them.
pub(crate) proof fn lemma_member_index_prefix(members: Seq<(String, Json)>, key: Seq<char>, k: int)
    requires
        0 <= k <= members.len(),
        member_index(members.subrange(0, k), key) is Some,
    ensures
        member_index(members, key) == member_index(members.subrange(0, k), key),
    decreases members.len() - k,
{
    if k < members.len() {
        assert(members.subrange(0, k + 1).drop_last() =~= members.subrange(0, k));
        lemma_member_index_prefix(members, key, k + 1);
    } else {
        assert(members.subrange(0, k) =~= members);
    }
}

proof fn lemma_member_index_bound(members: Seq<(String, Json)>, key: Seq<char>)
    ensures
        match member_index(members, key) {
            Some(i) => 0 <= i < members.len() && members[i].0@ == key,
            None => true,
        },
    decreases members.len(),
{
    if members.len() > 0 {
        lemma_member_index_bound(members.drop_last(), key);
    }
}

/// `value.get(key)`: the member of an object, if any.
pub open spec fn get_spec(v: Json, key: Seq<char>) -> Option<Json> {
    match v {
        Json::Object(m) => match member_index(m@, key) {
            Some(i) => Some(m@[i].1),
            None => None,
        },
        _ => None,
    }
}

/// Member `key` of an object.
pub fn get<'a>(v: &'a Json, key: &str) -> (r: Option<&'a Json>)
    ensures
        match r {
            Some(x) => get_spec(*v, key@) == Some(*x),
            None => get_spec(*v, key@) is None,
        },
{
    match v {
        Json::Object(m) => {
            let k = to_chars(key);
            let mut i: usize = 0;
            while i < m.len()
                invariant
                    i <= m@.len(),
                    member_index(m@.subrange(0, i as int), key@) is None,
                    k@ == key@,
                    *v is Object && v->Object_0 == *m,
                decreases m@.len() - i,
            {
                assert(m@.subrange(0, i + 1).drop_last() =~= m@.subrange(0, i as int));
                let name = to_chars(m[i].0.as_str());
                if chars_eq(name.as_slice(), k.as_slice()) {
                    proof {
                        assert(m@.subrange(0, i + 1).last() == m@[i as int]);
                        assert(member_index(m@.subrange(0, i + 1), key@) == Some(i as int));
                        lemma_member_index_prefix(m@, key@, i + 1);
                        assert(member_index(m@, key@) == Some(i as int));
                        assert(get_spec(*v, key@) == Some(m@[i as int].1));
                    }
                    let r = &m[i].1;
                    assert(*r == m@[i as int].1);
                    return Some(r);
                }
                i = i + 1;
            }
            assert(m@.subrange(0, m@.len() as int) =~= m@);
            None
        },
        _ => None,
    }
}

/// `value.as_str()`.
pub open spec fn as_str_spec(v: Json) -> Option<Seq<char>> {
    match v {
        Json::Str(s) => Some(s@),
        _ => None,
    }
}

/// `value.as_i64()`: an integral number that fits `i64`.
pub open spec fn as_i64_spec(v: Json) -> Option<i64> {
    match v {
        Json::Number(n) => parse_i64_spec(n@),
        _ => None,
    }
}

pub fn as_str(v: &Json) -> (r: Option<&str>)
    ensures
        match r {
            Some(s) => as_str_spec(*v) == Some(s@),
            None => as_str_spec(*v) is None,
        },
{
    match v {
        Json::Str(s) => Some(s.as_str()),
        _ => None,
    }
}

pub fn as_i64(v: &Json) -> (r: Option<i64>)
    ensures
        r == as_i64_spec(*v),
{
    match v {
        Json::Number(n) => {
            let c = to_chars(n.as_str());
            parse_i64(c.as_slice())
        },
        _ => None,
    }
}

/// Member `key` as a string.
pub open spec fn str_member(v: Json, key: Seq<char>) -> Option<Seq<char>> {
    match get_spec(v, key) {
        Some(x) => as_str_spec(x),
        None => None,
    }
}

/// Member `key` as an `i64`.
pub open spec fn i64_member(v: Json, key: Seq<char>) -> Option<i64> {
    match get_spec(v, key) {
        Some(x) => as_i64_spec(x),
        None => None,
    }
}

pub fn get_str<'a>(v: &'a Json, key: &str) -> (r: Option<&'a str>)
    ensures
        match r {
            Some(s) => str_member(*v, key@) == Some(s@),
            None => str_member(*v, key@) is None,
        },
{
    match get(v, key) {
        Some(x) => as_str(x),
        None => None,
    }
}

pub fn get_i64(v: &Json, key: &str) -> (r: Option<i64>)
    ensures
        r == i64_member(*v, key@),
{
    match get(v, key) {
        Some(x) => as_i64(x),
        None => None,
    }
}

} // verus!
