//! Typed reading of a JSON object's members, with the conventions a
//! field-by-field deserializer uses: a required member of the wrong shape is
//! a failure, an optional member reads absent and null as no value.

use vstd::prelude::*;
use vstd::string::*;
use crate::json::{JsonValue, spec_lookup};

verus! {

/// A required string member; None when absent or not a string.
pub open spec fn string_member(v: JsonValue, key: Seq<char>) -> Option<String> {
    match spec_lookup(v, key) {
        Some(JsonValue::Str(s)) => Some(s),
        _ => None,
    }
}

/// An optional string member; the outer None means a present member of the
/// wrong shape.
pub open spec fn opt_string_member(v: JsonValue, key: Seq<char>) -> Option<Option<String>> {
    match spec_lookup(v, key) {
        None => Some(None),
        Some(JsonValue::Null) => Some(None),
        Some(JsonValue::Str(s)) => Some(Some(s)),
        Some(_) => None,
    }
}

/// A required non-negative number member that fits in 32 bits.
pub open spec fn u32_member(v: JsonValue, key: Seq<char>) -> Option<u32> {
    match spec_lookup(v, key) {
        Some(JsonValue::UInt(n)) => if n <= u32::MAX {
            Some(n as u32)
        } else {
            None
        },
        _ => None,
    }
}

/// An optional such number; the outer None means a member of the wrong shape.
pub open spec fn opt_u32_member(v: JsonValue, key: Seq<char>) -> Option<Option<u32>> {
    match spec_lookup(v, key) {
        None => Some(None),
        Some(JsonValue::Null) => Some(None),
        Some(JsonValue::UInt(n)) => if n <= u32::MAX {
            Some(Some(n as u32))
        } else {
            None
        },
        Some(_) => None,
    }
}

/// A required boolean member.
pub open spec fn bool_member(v: JsonValue, key: Seq<char>) -> Option<bool> {
    match spec_lookup(v, key) {
        Some(JsonValue::Bool(b)) => Some(b),
        _ => None,
    }
}

/// Whether every element of the array is a string.
pub open spec fn all_strings(items: Seq<JsonValue>) -> bool {
    forall|i: int| 0 <= i < items.len() ==> (#[trigger] items[i]) is Str
}

/// The strings of an all-string array.
pub open spec fn string_values(items: Seq<JsonValue>) -> Seq<String> {
    Seq::new(items.len(), |i: int| items[i]->Str_0)
}

/// A required array-of-strings member.
pub open spec fn strings_member(v: JsonValue, key: Seq<char>) -> Option<Seq<String>> {
    match spec_lookup(v, key) {
        Some(JsonValue::Arr(items)) => if all_strings(items@) {
            Some(string_values(items@))
        } else {
            None
        },
        _ => None,
    }
}

/// The elements of an array member, if the member is an array.
pub open spec fn array_member(v: JsonValue, key: Seq<char>) -> Option<Seq<JsonValue>> {
    match spec_lookup(v, key) {
        Some(JsonValue::Arr(items)) => Some(items@),
        _ => None,
    }
}

impl JsonValue {
    /// Reads a required string member.
    pub fn get_string(&self, key: &str) -> (r: Option<String>)
        ensures
            r == string_member(*self, key@),
    {
        match self.lookup(key) {
            Some(m) => match m.as_str() {
                Some(s) => Some(s.clone()),
                None => None,
            },
            None => None,
        }
    }

    /// Reads an optional string member (absent and null read as no value).
    pub fn get_opt_string(&self, key: &str) -> (r: Option<Option<String>>)
        ensures
            r == opt_string_member(*self, key@),
    {
        match self.lookup(key) {
            None => Some(None),
            Some(m) => {
                if m.is_null() {
                    Some(None)
                } else {
                    match m.as_str() {
                        Some(s) => Some(Some(s.clone())),
                        None => None,
                    }
                }
            },
        }
    }

    /// Reads a required number member into 32 bits.
    pub fn get_u32(&self, key: &str) -> (r: Option<u32>)
        ensures
            r == u32_member(*self, key@),
    {
        match self.lookup(key) {
            Some(m) => match m.as_u64() {
                Some(n) => {
                    if n <= 0xffff_ffffu64 {
                        Some(n as u32)
                    } else {
                        None
                    }
                },
                None => None,
            },
            None => None,
        }
    }

    /// Reads an optional number member into 32 bits.
    pub fn get_opt_u32(&self, key: &str) -> (r: Option<Option<u32>>)
        ensures
            r == opt_u32_member(*self, key@),
    {
        match self.lookup(key) {
            None => Some(None),
            Some(m) => {
                if m.is_null() {
                    Some(None)
                } else {
                    match m.as_u64() {
                        Some(n) => {
                            if n <= 0xffff_ffffu64 {
                                Some(Some(n as u32))
                            } else {
                                None
                            }
                        },
                        None => None,
                    }
                }
            },
        }
    }

    /// Reads a required boolean member.
    pub fn get_bool(&self, key: &str) -> (r: Option<bool>)
        ensures
            r == bool_member(*self, key@),
    {
        match self.lookup(key) {
            Some(m) => match m {
                JsonValue::Bool(b) => Some(*b),
                _ => None,
            },
            None => None,
        }
    }

    /// Reads a required array-of-strings member.
    #[verifier::loop_isolation(false)]
    pub fn get_strings(&self, key: &str) -> (r: Option<Vec<String>>)
        ensures
            match r {
                Some(out) => strings_member(*self, key@) == Some(out@),
                None => strings_member(*self, key@) is None,
            },
    {
        match self.lookup(key) {
            Some(m) => match m.as_array() {
                Some(items) => {
                    let mut out: Vec<String> = Vec::new();
                    let mut j: usize = 0;
                    while j < items.len()
                        invariant
                            0 <= j <= items@.len(),
                            out@.len() == j,
                            forall|k: int|
                                0 <= k < j ==> (#[trigger] items@[k]) is Str && out@[k]
                                    == items@[k]->Str_0,
                        decreases items@.len() - j,
                    {
                        match items[j].as_str() {
                            Some(s) => {
                                out.push(s.clone());
                            },
                            None => {
                                proof {
                                    assert(!all_strings(items@));
                                }
                                return None;
                            },
                        }
                        j = j + 1;
                    }
                    proof {
                        assert(all_strings(items@));
                        assert(out@ =~= string_values(items@));
                    }
                    Some(out)
                },
                None => None,
            },
            None => None,
        }
    }
}

} // verus!
