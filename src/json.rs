use vstd::prelude::*;

verus! {

/// A JSON document as plain values: what the inventory, scan and audit logic
/// reads out of manifests and tool output.
///
/// Integers are kept exactly; any other number is kept as its text, since no
/// rule here reads a fractional number.
#[derive(Debug)]
pub enum JsonValue {
    Null,
    Bool(bool),
    Int(i128),
    Real(String),
    Str(String),
    Array(Vec<JsonValue>),
    Object(Vec<(String, JsonValue)>),
}

/// The value bound to `key` in a list of keyed entries (the first one, if a
/// key repeats).
pub open spec fn keyed<T>(entries: Seq<(String, T)>, key: Seq<char>) -> Option<T>
    decreases entries.len(),
{
    if entries.len() == 0 {
        None
    } else if entries[0].0@ == key {
        Some(entries[0].1)
    } else {
        keyed(entries.drop_first(), key)
    }
}

/// `v[key]`: the member of an object, and nothing for any other value.
pub open spec fn get(v: JsonValue, key: Seq<char>) -> Option<JsonValue> {
    match v {
        JsonValue::Object(entries) => keyed(entries@, key),
        _ => None,
    }
}

/// `v[key]` when it is a string.
pub open spec fn get_str(v: JsonValue, key: Seq<char>) -> Option<String> {
    match get(v, key) {
        Some(JsonValue::Str(s)) => Some(s),
        _ => None,
    }
}

/// Reading an optional string field the way a typed record does: absent or
/// `null` is `None`, a string is itself, anything else makes the record invalid.
pub open spec fn optional_str(m: Option<JsonValue>) -> Result<Option<String>, ()> {
    match m {
        None => Ok(None),
        Some(JsonValue::Null) => Ok(None),
        Some(JsonValue::Str(s)) => Ok(Some(s)),
        _ => Err(()),
    }
}

/// Every member of an object read by `f`, in order; nothing if one of them
/// cannot be read.
pub open spec fn read_all<T>(
    entries: Seq<(String, JsonValue)>,
    f: spec_fn(JsonValue) -> Option<T>,
) -> Option<Seq<(String, T)>>
    decreases entries.len(),
{
    if entries.len() == 0 {
        Some(Seq::empty())
    } else {
        match (read_all(entries.drop_last(), f), f(entries.last().1)) {
            (Some(r), Some(x)) => Some(r.push((entries.last().0, x))),
            _ => None,
        }
    }
}

/// Once a prefix cannot be read, neither can the whole.
pub proof fn lemma_read_all_prefix<T>(
    entries: Seq<(String, JsonValue)>,
    f: spec_fn(JsonValue) -> Option<T>,
    i: int,
)
    requires
        0 <= i <= entries.len(),
        read_all(entries.subrange(0, i), f) is None,
    ensures
        read_all(entries, f) is None,
    decreases entries.len() - i,
{
    if i < entries.len() {
        assert(entries.subrange(0, i + 1).drop_last() =~= entries.subrange(0, i));
        lemma_read_all_prefix(entries, f, i + 1);
    } else {
        assert(entries.subrange(0, i) =~= entries);
    }
}

/// One more member read.
pub proof fn lemma_read_all_step<T>(
    entries: Seq<(String, JsonValue)>,
    f: spec_fn(JsonValue) -> Option<T>,
    i: int,
)
    requires
        0 <= i < entries.len(),
    ensures
        read_all(entries.subrange(0, i + 1), f) == match (
            read_all(entries.subrange(0, i), f),
            f(entries[i].1),
        ) {
            (Some(r), Some(x)) => Some(r.push((entries[i].0, x))),
            _ => None,
        },
{
    assert(entries.subrange(0, i + 1).drop_last() =~= entries.subrange(0, i));
}

/// The view of an optional string.
pub open spec fn opt_view(o: Option<String>) -> Option<Seq<char>> {
    match o {
        Some(s) => Some(s@),
        None => None,
    }
}

proof fn lemma_keyed_skip<T>(entries: Seq<(String, T)>, i: int, key: Seq<char>)
    requires
        0 <= i < entries.len(),
        entries[i].0@ != key,
    ensures
        keyed(entries.subrange(i, entries.len() as int), key) == keyed(
            entries.subrange(i + 1, entries.len() as int),
            key,
        ),
{
    assert(entries.subrange(i, entries.len() as int).drop_first() =~= entries.subrange(
        i + 1,
        entries.len() as int,
    ));
}

/// Finds the value bound to `key` in a list of keyed entries.
pub fn lookup<'a, T>(entries: &'a Vec<(String, T)>, key: &str) -> (r: Option<&'a T>)
    ensures
        match r {
            Some(v) => keyed(entries@, key@) == Some(*v),
            None => keyed(entries@, key@) is None,
        },
{
    let wanted = String::from_str(key);
    let n = entries.len();
    let mut i: usize = 0;
    assert(entries@.subrange(0, n as int) =~= entries@);
    while i < n
        invariant
            i <= n,
            n == entries@.len(),
            wanted@ == key@,
            keyed(entries@, key@) == keyed(entries@.subrange(i as int, n as int), key@),
        decreases n - i,
    {
        if entries[i].0 == wanted {
            return Some(&entries[i].1);
        }
        proof {
            lemma_keyed_skip(entries@, i as int, key@);
        }
        i = i + 1;
    }
    None
}

/// `v[key]`.
pub fn get_member<'a>(v: &'a JsonValue, key: &str) -> (r: Option<&'a JsonValue>)
    ensures
        match r {
            Some(x) => get(*v, key@) == Some(*x),
            None => get(*v, key@) is None,
        },
{
    match v {
        JsonValue::Object(entries) => lookup(entries, key),
        _ => None,
    }
}

/// `v[key]` when it is a string.
pub fn get_string(v: &JsonValue, key: &str) -> (r: Option<String>)
    ensures
        r == get_str(*v, key@),
{
    match get_member(v, key) {
        Some(JsonValue::Str(s)) => Some(s.clone()),
        _ => None,
    }
}

/// Reads an optional string field of a typed record (see `optional_str`).
pub fn read_optional_str(m: Option<&JsonValue>) -> (r: Result<Option<String>, ()>)
    ensures
        r == optional_str(match m {
            Some(v) => Some(*v),
            None => None,
        }),
{
    match m {
        None => Ok(None),
        Some(JsonValue::Null) => Ok(None),
        Some(JsonValue::Str(s)) => Ok(Some(s.clone())),
        _ => Err(()),
    }
}

} // verus!
