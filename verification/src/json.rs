use vstd::prelude::*;

verus! {

/// A JSON document, modelled with plain values so that walking it can be
/// reasoned about: object fields are kept in payload order.
#[derive(Debug)]
pub enum JsonValue {
    Null,
    Bool(bool),
    Int(i64),
    Text(String),
    Array(Vec<JsonValue>),
    Object(Vec<(String, JsonValue)>),
}

/// The value of the first entry with this key, if any.
pub open spec fn spec_lookup(entries: Seq<(String, JsonValue)>, key: Seq<char>) -> Option<
    JsonValue,
>
    decreases entries.len(),
{
    if entries.len() == 0 {
        None
    } else if entries[0].0@ == key {
        Some(entries[0].1)
    } else {
        spec_lookup(entries.skip(1), key)
    }
}

impl JsonValue {
    /// Object field access: the first entry named `key`, `None` on any
    /// other kind of value.
    pub open spec fn spec_get(&self, key: Seq<char>) -> Option<JsonValue> {
        match self {
            JsonValue::Object(entries) => spec_lookup(entries@, key),
            _ => None,
        }
    }

    /// Array element access, `None` out of range or on any other kind of value.
    pub open spec fn spec_index(&self, i: int) -> Option<JsonValue> {
        match self {
            JsonValue::Array(items) => if 0 <= i < items@.len() {
                Some(items@[i])
            } else {
                None
            },
            _ => None,
        }
    }

    /// The character content, for strings only.
    pub open spec fn spec_as_text(&self) -> Option<Seq<char>> {
        match self {
            JsonValue::Text(s) => Some(s@),
            _ => None,
        }
    }

    pub fn get_key<'a>(&'a self, key: &str) -> (r: Option<&'a JsonValue>)
        ensures
            match r {
                Some(v) => self.spec_get(key@) == Some(*v),
                None => self.spec_get(key@) is None,
            },
    {
        match self {
            JsonValue::Object(entries) => {
                let wanted = key.to_owned();
                proof {
                    assert(entries@.skip(0) =~= entries@);
                }
                let mut i: usize = 0;
                while i < entries.len()
                    invariant
                        *self == JsonValue::Object(*entries),
                        i <= entries@.len(),
                        wanted@ == key@,
                        spec_lookup(entries@, key@) == spec_lookup(
                            entries@.skip(i as int),
                            key@,
                        ),
                    decreases entries@.len() - i,
                {
                    proof {
                        assert(entries@.skip(i as int)[0] == entries@[i as int]);
                        assert(entries@.skip(i as int).skip(1) =~= entries@.skip(i as int + 1));
                    }
                    if entries[i].0 == wanted {
                        proof {
                            assert(spec_lookup(entries@.skip(i as int), key@) == Some(
                                entries@[i as int].1,
                            ));
                        }
                        return Some(&entries[i].1);
                    }
                    i += 1;
                }
                proof {
                    assert(entries@.skip(i as int) =~= Seq::<(String, JsonValue)>::empty());
                }
                None
            },
            _ => None,
        }
    }

    pub fn get_index<'a>(&'a self, i: usize) -> (r: Option<&'a JsonValue>)
        ensures
            match r {
                Some(v) => self.spec_index(i as int) == Some(*v),
                None => self.spec_index(i as int) is None,
            },
    {
        match self {
            JsonValue::Array(items) => {
                if i < items.len() {
                    Some(&items[i])
                } else {
                    None
                }
            },
            _ => None,
        }
    }

    pub fn as_str<'a>(&'a self) -> (r: Option<&'a String>)
        ensures
            match r {
                Some(s) => self.spec_as_text() == Some(s@),
                None => self.spec_as_text() is None,
            },
    {
        match self {
            JsonValue::Text(s) => Some(s),
            _ => None,
        }
    }
}

} // verus!
