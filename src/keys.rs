//! Short-lived, single-use keys, each bound to a payload.
use vstd::prelude::*;
use crate::entropy::{encode_url, encodes_bytes, make_rng, random_bytes, unix_now, SecretRng};
use crate::error::ModelError;
use crate::table::Table;

verus! {

/// Random bytes behind each key.
pub const KEY_BYTES: usize = 4;

/// Fresh keys drawn before giving up on finding one that is not in use.
pub const KEY_ATTEMPTS: usize = 2;

/// A key's payload and the time, in seconds, when the key was issued.
pub struct Payload<T> {
    pub data: T,
    pub timestamp: u64,
}

impl<T: View> View for Payload<T> {
    type V = (T::V, u64);

    open spec fn view(&self) -> (T::V, u64) {
        (self.data@, self.timestamp)
    }
}

/// A key issued at `issued` may still be redeemed at `now`: fewer than
/// `expiration` seconds have passed. A clock that went back counts as no time
/// passed.
pub open spec fn unexpired(expiration: u32, issued: u64, now: u64) -> bool {
    (now as int) - (issued as int) < expiration as int
}

/// The key store as plain data: the expiration window in seconds, and for
/// each live key its payload and issue time.
pub struct KeyStoreModel<D> {
    pub expiration: u32,
    pub keys: Map<Seq<char>, (D, u64)>,
}

/// One-time keys: each is redeemed at most once, and only within the
/// expiration window after it was issued.
pub struct KeyStorage<T> {
    expiration: u32,
    keys: Table<Payload<T>>,
    rng: SecretRng,
}

impl<T: View> View for KeyStorage<T> {
    type V = KeyStoreModel<T::V>;

    closed spec fn view(&self) -> KeyStoreModel<T::V> {
        KeyStoreModel { expiration: self.expiration, keys: self.keys@ }
    }
}

impl<T: View> KeyStorage<T> {
    /// An empty store whose keys live for `expiration` seconds.
    pub fn new(expiration: u32) -> (r: Self)
        ensures
            r@.expiration == expiration,
            r@.keys == Map::<Seq<char>, (T::V, u64)>::empty(),
    {
        KeyStorage { expiration, keys: Table::new(), rng: make_rng() }
    }

    /// A freshly drawn key text; whether it is in use is for the caller to see.
    fn random_key(&mut self) -> (r: String)
        ensures
            final(self)@ == old(self)@,
            encodes_bytes(r@, KEY_BYTES as nat),
            r@.len() == 6,
    {
        let bytes = random_bytes(&mut self.rng, KEY_BYTES);
        encode_url(&bytes)
    }

    /// Stores `data` under `key`, issued at `now`, where `key` is not in use;
    /// otherwise changes nothing and hands `data` back.
    pub fn store_under(&mut self, key: String, data: T, now: u64) -> (r: Result<String, T>)
        ensures
            final(self)@.expiration == old(self)@.expiration,
            r is Ok <==> !old(self)@.keys.contains_key(key@),
            match r {
                Ok(k) => k@ == key@ && final(self)@.keys == old(self)@.keys.insert(
                    key@,
                    (data@, now),
                ),
                Err(d) => d == data && final(self)@ == old(self)@,
            },
    {
        if self.keys.contains(&key) {
            Err(data)
        } else {
            self.keys.insert(key.clone(), Payload { data, timestamp: now });
            Ok(key)
        }
    }

    /// Stores `data` under a fresh key issued at `now` and returns the key:
    /// the URL-safe base64 text of `KEY_BYTES` random bytes. Fails with
    /// `Exhausted`, changing nothing, where every drawn key is in use
    /// already; a store with no live keys always succeeds.
    pub fn new_key_at(&mut self, data: T, now: u64) -> (r: Result<String, ModelError>)
        ensures
            final(self)@.expiration == old(self)@.expiration,
            old(self)@.keys.dom().is_empty() ==> r is Ok,
            match r {
                Ok(k) => {
                    &&& !old(self)@.keys.contains_key(k@)
                    &&& final(self)@.keys == old(self)@.keys.insert(k@, (data@, now))
                    &&& encodes_bytes(k@, KEY_BYTES as nat)
                    &&& k@.len() == 6
                },
                Err(e) => e == ModelError::Exhausted && final(self)@ == old(self)@,
            },
    {
        let mut held = data;
        let mut attempt: usize = 0;
        while attempt < KEY_ATTEMPTS
            invariant
                held == data,
                self@ == old(self)@,
                old(self)@.keys.dom().is_empty() ==> attempt == 0,
            decreases KEY_ATTEMPTS - attempt,
        {
            let key = self.random_key();
            proof {
                if old(self)@.keys.dom().is_empty() {
                    assert(!old(self)@.keys.dom().contains(key@));
                }
            }
            match self.store_under(key, held, now) {
                Ok(k) => {
                    return Ok(k);
                },
                Err(d) => {
                    held = d;
                },
            }
            attempt = attempt + 1;
        }
        Err(ModelError::Exhausted)
    }

    /// Stores `data` under a fresh key issued now and returns the key.
    pub fn new_key(&mut self, data: T) -> (r: Result<String, ModelError>)
        ensures
            final(self)@.expiration == old(self)@.expiration,
            old(self)@.keys.dom().is_empty() ==> r is Ok,
            match r {
                Ok(k) => {
                    &&& !old(self)@.keys.contains_key(k@)
                    &&& exists|t: u64| final(self)@.keys == old(self)@.keys.insert(k@, (data@, t))
                    &&& encodes_bytes(k@, KEY_BYTES as nat)
                    &&& k@.len() == 6
                },
                Err(e) => e == ModelError::Exhausted && final(self)@ == old(self)@,
            },
    {
        let now = unix_now();
        self.new_key_at(data, now)
    }

    /// Redeems `key` at time `now`: the key leaves the store whatever the
    /// outcome, and its payload comes back where it had not expired.
    pub fn take_data_at(&mut self, key: &str, now: u64) -> (r: Result<T, ModelError>)
        ensures
            final(self)@.expiration == old(self)@.expiration,
            final(self)@.keys == old(self)@.keys.remove(key@),
            !old(self)@.keys.contains_key(key@) ==> r == Err::<T, ModelError>(
                ModelError::InvalidKey,
            ),
            old(self)@.keys.contains_key(key@) ==> match r {
                Ok(d) => d@ == old(self)@.keys[key@].0 && unexpired(
                    old(self)@.expiration,
                    old(self)@.keys[key@].1,
                    now,
                ),
                Err(e) => e == ModelError::KeyExpired && !unexpired(
                    old(self)@.expiration,
                    old(self)@.keys[key@].1,
                    now,
                ),
            },
    {
        let owned = key.to_owned();
        match self.keys.remove(&owned) {
            Some(v) => {
                if now < v.timestamp || now - v.timestamp < self.expiration as u64 {
                    Ok(v.data)
                } else {
                    Err(ModelError::KeyExpired)
                }
            },
            None => Err(ModelError::InvalidKey),
        }
    }

    /// Redeems `key` now.
    pub fn take_data(&mut self, key: &str) -> (r: Result<T, ModelError>)
        ensures
            final(self)@.expiration == old(self)@.expiration,
            final(self)@.keys == old(self)@.keys.remove(key@),
            !old(self)@.keys.contains_key(key@) ==> r == Err::<T, ModelError>(
                ModelError::InvalidKey,
            ),
            old(self)@.keys.contains_key(key@) ==> match r {
                Ok(d) => d@ == old(self)@.keys[key@].0,
                Err(e) => e == ModelError::KeyExpired,
            },
    {
        let now = unix_now();
        self.take_data_at(key, now)
    }
}

} // verus!
