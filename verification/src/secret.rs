//! Secret values and the interface of secret stores.
use vstd::prelude::*;
use crate::errors::Error;
use crate::strmap::StrMap;

verus! {

/// A secret value: a single string or key-value pairs.
#[derive(Debug)]
pub enum SecretValue {
    String(String),
    /// Key-value pairs.
    KeyValues(StrMap),
}

impl SecretValue {
    /// The value as a string: the string itself, or for a map its first
    /// value (none for an empty map).
    pub fn as_string(&self) -> (r: Option<&str>)
        ensures
            match self {
                SecretValue::String(s) => r matches Some(x) && x@ == s@,
                SecretValue::KeyValues(m) => match r {
                    Some(x) => m.value_seq().len() > 0 && x@ == m.value_seq()[0] && m@.values().contains(x@),
                    None => m@.len() == 0,
                },
            },
    {
        match self {
            SecretValue::String(s) => Some(s.as_str()),
            SecretValue::KeyValues(m) => {
                m.lemma_unique();
                if m.len() == 0 {
                    None
                } else {
                    let (_, v) = m.entry_at(0);
                    proof {
                        let k = m.key_seq()[0];
                        assert(m.pairs()[0].0 == k);
                        assert(m@.contains_key(k));
                        assert(m@[k] == v@);
                    }
                    Some(v.as_str())
                }
            },
        }
    }

    /// A key of a map secret; the empty key names a string secret's value.
    pub fn get(&self, key: &str) -> (r: Option<&str>)
        ensures
            match self {
                SecretValue::String(s) => if key@.len() == 0 {
                    r matches Some(x) && x@ == s@
                } else {
                    r is None
                },
                SecretValue::KeyValues(m) => match r {
                    Some(x) => m@.contains_key(key@) && m@[key@] == x@,
                    None => !m@.contains_key(key@),
                },
            },
    {
        match self {
            SecretValue::String(s) => if key.is_empty() {
                Some(s.as_str())
            } else {
                None
            },
            SecretValue::KeyValues(m) => match m.get(key) {
                Some(v) => Some(v.as_str()),
                None => None,
            },
        }
    }
}

/// A secret storage backend.
pub trait SecretStore {
    /// A secret by path.
    fn get(&self, path: &str) -> Result<SecretValue, Error>;

    /// A key of a secret.
    fn get_key(&self, path: &str, key: &str) -> Result<String, Error>;

    /// The secret paths under a prefix.
    fn list(&self, prefix: &str) -> Result<Vec<String>, Error>;

    /// Sets or creates a secret.
    fn set(&self, path: &str, value: SecretValue) -> Result<(), Error>;

    /// Deletes a secret.
    fn delete(&self, path: &str) -> Result<(), Error>;
}

} // verus!
