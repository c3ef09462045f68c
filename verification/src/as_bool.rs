//! Truthiness. The conversion the `if` and `unless` helpers run their
//! condition through: numbers are true when non-zero, text and
//! collections when non-empty, optional and fallible values when present
//! and themselves true.
use vstd::prelude::*;

verus! {

use std::collections::BTreeMap;
use std::collections::BTreeSet;
use std::collections::HashMap;
use std::collections::HashSet;
use std::collections::VecDeque;

/// Conversion to a boolean for conditional rendering. Each implementor
/// states what its truthiness means.
pub trait AsBool {
    /// What this value's truthiness is.
    spec fn spec_as_bool(&self) -> bool;

    /// Converts the value to a boolean.
    fn as_bool(&self) -> (r: bool)
        ensures
            r == self.spec_as_bool(),
    ;
}

impl AsBool for bool {
    open spec fn spec_as_bool(&self) -> bool {
        *self
    }

    fn as_bool(&self) -> bool {
        *self
    }
}

impl AsBool for u8 {
    open spec fn spec_as_bool(&self) -> bool {
        *self != 0
    }

    fn as_bool(&self) -> bool {
        *self != 0
    }
}

impl AsBool for u16 {
    open spec fn spec_as_bool(&self) -> bool {
        *self != 0
    }

    fn as_bool(&self) -> bool {
        *self != 0
    }
}

impl AsBool for u32 {
    open spec fn spec_as_bool(&self) -> bool {
        *self != 0
    }

    fn as_bool(&self) -> bool {
        *self != 0
    }
}

impl AsBool for u64 {
    open spec fn spec_as_bool(&self) -> bool {
        *self != 0
    }

    fn as_bool(&self) -> bool {
        *self != 0
    }
}

impl AsBool for u128 {
    open spec fn spec_as_bool(&self) -> bool {
        *self != 0
    }

    fn as_bool(&self) -> bool {
        *self != 0
    }
}

impl AsBool for usize {
    open spec fn spec_as_bool(&self) -> bool {
        *self != 0
    }

    fn as_bool(&self) -> bool {
        *self != 0
    }
}

impl AsBool for i8 {
    open spec fn spec_as_bool(&self) -> bool {
        *self != 0
    }

    fn as_bool(&self) -> bool {
        *self != 0
    }
}

impl AsBool for i16 {
    open spec fn spec_as_bool(&self) -> bool {
        *self != 0
    }

    fn as_bool(&self) -> bool {
        *self != 0
    }
}

impl AsBool for i32 {
    open spec fn spec_as_bool(&self) -> bool {
        *self != 0
    }

    fn as_bool(&self) -> bool {
        *self != 0
    }
}

impl AsBool for i64 {
    open spec fn spec_as_bool(&self) -> bool {
        *self != 0
    }

    fn as_bool(&self) -> bool {
        *self != 0
    }
}

impl AsBool for i128 {
    open spec fn spec_as_bool(&self) -> bool {
        *self != 0
    }

    fn as_bool(&self) -> bool {
        *self != 0
    }
}

impl AsBool for isize {
    open spec fn spec_as_bool(&self) -> bool {
        *self != 0
    }

    fn as_bool(&self) -> bool {
        *self != 0
    }
}

impl AsBool for char {
    open spec fn spec_as_bool(&self) -> bool {
        *self != '\0'
    }

    fn as_bool(&self) -> bool {
        *self != '\0'
    }
}

impl AsBool for () {
    open spec fn spec_as_bool(&self) -> bool {
        false
    }

    fn as_bool(&self) -> bool {
        false
    }
}

impl AsBool for str {
    open spec fn spec_as_bool(&self) -> bool {
        self@.len() != 0
    }

    fn as_bool(&self) -> bool {
        !self.is_empty()
    }
}

impl AsBool for String {
    open spec fn spec_as_bool(&self) -> bool {
        self@.len() != 0
    }

    fn as_bool(&self) -> bool {
        !self.as_str().is_empty()
    }
}

impl<T> AsBool for [T] {
    open spec fn spec_as_bool(&self) -> bool {
        self@.len() != 0
    }

    fn as_bool(&self) -> bool {
        self.len() != 0
    }
}

impl<T> AsBool for Vec<T> {
    open spec fn spec_as_bool(&self) -> bool {
        self@.len() != 0
    }

    fn as_bool(&self) -> bool {
        self.len() != 0
    }
}

impl<T> AsBool for VecDeque<T> {
    open spec fn spec_as_bool(&self) -> bool {
        self@.len() != 0
    }

    fn as_bool(&self) -> bool {
        self.len() != 0
    }
}

impl<K, V> AsBool for HashMap<K, V> {
    open spec fn spec_as_bool(&self) -> bool {
        !self@.is_empty()
    }

    fn as_bool(&self) -> bool {
        !self.is_empty()
    }
}

impl<K> AsBool for HashSet<K> {
    open spec fn spec_as_bool(&self) -> bool {
        !self@.is_empty()
    }

    fn as_bool(&self) -> bool {
        !self.is_empty()
    }
}

impl<K, V> AsBool for BTreeMap<K, V> {
    open spec fn spec_as_bool(&self) -> bool {
        !self@.is_empty()
    }

    fn as_bool(&self) -> bool {
        !self.is_empty()
    }
}

impl<K> AsBool for BTreeSet<K> {
    open spec fn spec_as_bool(&self) -> bool {
        !self@.is_empty()
    }

    fn as_bool(&self) -> bool {
        !self.is_empty()
    }
}

impl<T: AsBool> AsBool for Option<T> {
    open spec fn spec_as_bool(&self) -> bool {
        match self {
            Some(t) => t.spec_as_bool(),
            None => false,
        }
    }

    fn as_bool(&self) -> bool {
        match self {
            Some(t) => t.as_bool(),
            None => false,
        }
    }
}

impl<T: AsBool, E> AsBool for Result<T, E> {
    open spec fn spec_as_bool(&self) -> bool {
        match self {
            Ok(t) => t.spec_as_bool(),
            Err(_) => false,
        }
    }

    fn as_bool(&self) -> bool {
        match self {
            Ok(t) => t.as_bool(),
            Err(_) => false,
        }
    }
}

} // verus!
