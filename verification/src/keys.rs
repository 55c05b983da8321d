use vstd::prelude::*;
use vstd::string::*;
use vstd::utf8::*;
use crate::encoding::{base64_encode, base64_fits, decode_base64, encode_base64, spec_decode_base64};
use crate::encryption::aes128::{spec_derive_key, KEY_LENGTH};
use crate::encryption::bytes_result;
use crate::encryption::symmetric::derive_key_from_string;
use crate::error::Error;
use crate::passwords::lemma_hex_salt_usable;
use crate::hashing::{compute_sha256_hash, sha256_hex};

verus! {

/// One stored item of the browser's local storage.
#[derive(Debug, Clone, PartialEq, Eq)]
pub struct StorageItem {
    pub key: String,
    pub value: String,
}

/// The browser's local storage: text values under text keys. No key occurs twice.
#[derive(Debug, PartialEq, Eq)]
pub struct LocalStorage {
    items: Vec<StorageItem>,
}

impl LocalStorage {
    /// The stored items as a map from key to value.
    pub closed spec fn view(&self) -> Map<Seq<char>, Seq<char>> {
        Map::new(
            |k: Seq<char>| exists|i: int| 0 <= i < self.items@.len() && #[trigger] self.items@[i].key@ == k,
            |k: Seq<char>| self.items@[self.index_of(k)].value@,
        )
    }

    closed spec fn index_of(&self, k: Seq<char>) -> int {
        choose|i: int| 0 <= i < self.items@.len() && #[trigger] self.items@[i].key@ == k
    }

    /// No key is stored twice.
    #[verifier::type_invariant]
    closed spec fn no_key_twice(&self) -> bool {
        forall|i: int, j: int|
            0 <= i < self.items@.len() && 0 <= j < self.items@.len() && i != j
                ==> #[trigger] self.items@[i].key@ != #[trigger] self.items@[j].key@
    }

    /// Empty storage.
    pub fn new() -> (s: LocalStorage)
        ensures
            s.view() == Map::<Seq<char>, Seq<char>>::empty(),
    {
        let s = LocalStorage { items: Vec::new() };
        assert(s.view() =~= Map::<Seq<char>, Seq<char>>::empty());
        s
    }

    fn find(&self, key: &str) -> (r: Option<usize>)
        ensures
            match r {
                Some(i) => i < self.items@.len() && self.items@[i as int].key@ == key@,
                None => !self.view().contains_key(key@),
            },
    {
        proof {
            use_type_invariant(self);
        }
        let wanted = String::from_str(key);
        let mut i: usize = 0;
        while i < self.items.len()
            invariant
                i <= self.items@.len(),
                wanted@ == key@,
                forall|j: int| 0 <= j < i ==> #[trigger] self.items@[j].key@ != key@,
            decreases self.items@.len() - i,
        {
            if self.items[i].key == wanted {
                return Some(i);
            }
            i = i + 1;
        }
        None
    }

    /// The value stored under the key, if any.
    pub fn get_item(&self, key: &str) -> (r: Option<String>)
        ensures
            match r {
                Some(v) => self.view().contains_key(key@) && self.view()[key@] == v@,
                None => !self.view().contains_key(key@),
            },
    {
        proof {
            use_type_invariant(self);
        }
        match self.find(key) {
            Some(i) => {
                proof {
                    let k = key@;
                    assert(self.view().contains_key(k));
                    let j = self.index_of(k);
                    assert(self.items@[j].key@ == k);
                    assert(j == i);
                }
                Some(self.items[i].value.clone())
            },
            None => None,
        }
    }

    /// A copy of the storage, holding the same items.
    pub fn duplicate(&self) -> (r: LocalStorage)
        ensures
            r.view() == self.view(),
    {
        proof {
            use_type_invariant(self);
        }
        let items = copy_items(&self.items);
        proof {
            assert forall|a: int, b: int|
                0 <= a < items@.len() && 0 <= b < items@.len() && a != b implies #[trigger] items@[a].key@ != #[trigger] items@[b].key@ by {
                assert(self.items@[a].key@ != self.items@[b].key@);
            }
        }
        let r = LocalStorage { items };
        proof {
            assert forall|k: Seq<char>| #[trigger] r.view().contains_key(k) <==> self.view().contains_key(k) by {
                if r.view().contains_key(k) {
                    let j = r.index_of(k);
                    assert(self.items@[j].key@ == k);
                }
                if self.view().contains_key(k) {
                    let j = self.index_of(k);
                    assert(r.items@[j].key@ == k);
                }
            }
            assert forall|k: Seq<char>| #[trigger] r.view().contains_key(k) implies r.view()[k] == self.view()[k] by {
                let j = r.index_of(k);
                let sj = self.index_of(k);
                assert(self.items@[j].key@ == k);
                assert(self.items@[sj].key@ == k);
                assert(j == sj);
            }
            assert(r.view() =~= self.view());
        }
        r
    }

    /// Stores a value under a key, replacing any value stored there.
    pub fn set_item(&mut self, key: &str, value: String)
        ensures
            final(self).view() == old(self).view().insert(key@, value@),
    {
        proof {
            use_type_invariant(&*self);
        }
        let ghost old_items = self.items@;
        match self.find(key) {
            Some(i) => {
                let item = StorageItem { key: String::from_str(key), value };
                let mut items = copy_items(&self.items);
                items.set(i, item);
                proof {
                    assert forall|a: int, b: int|
                        0 <= a < items@.len() && 0 <= b < items@.len() && a != b implies #[trigger] items@[a].key@ != #[trigger] items@[b].key@ by {
                        if a != i && b != i {
                            assert(old_items[a].key@ != old_items[b].key@);
                        } else if a == i {
                            assert(old_items[i as int].key@ == key@);
                            assert(old_items[b].key@ != old_items[i as int].key@);
                        } else {
                            assert(old_items[i as int].key@ == key@);
                            assert(old_items[a].key@ != old_items[i as int].key@);
                        }
                    }
                }
                self.items = items;
                proof {
                    assert forall|k: Seq<char>| #[trigger] self.view().contains_key(k) <==> old(self).view().insert(key@, value@).contains_key(k) by {
                        if k == key@ {
                            assert(self.items@[i as int].key@ == k);
                        }
                        if old(self).view().contains_key(k) {
                            let j = old(self).index_of(k);
                            if j != i {
                                assert(self.items@[j].key@ == k);
                            }
                        }
                        if self.view().contains_key(k) {
                            let j = self.index_of(k);
                            if j != i {
                                assert(old_items[j].key@ == k);
                            }
                        }
                    }
                    assert forall|k: Seq<char>| #[trigger] self.view().contains_key(k) implies self.view()[k] == old(self).view().insert(key@, value@)[k] by {
                        let j = self.index_of(k);
                        if k == key@ {
                            assert(j == i);
                        } else {
                            assert(old_items[j].key@ == k);
                            let oj = old(self).index_of(k);
                            assert(old_items[oj].key@ == k);
                            assert(oj == j);
                        }
                    }
                    assert(self.view() =~= old(self).view().insert(key@, value@));
                }
            },
            None => {
                let item = StorageItem { key: String::from_str(key), value };
                let mut items = copy_items(&self.items);
                items.push(item);
                proof {
                    let n = old_items.len() as int;
                    assert forall|a: int, b: int|
                        0 <= a < items@.len() && 0 <= b < items@.len() && a != b implies #[trigger] items@[a].key@ != #[trigger] items@[b].key@ by {
                        if a != n && b != n {
                            assert(old_items[a].key@ != old_items[b].key@);
                        } else if a == n {
                            assert(!old(self).view().contains_key(key@));
                            assert(old_items[b].key@ != key@);
                        } else {
                            assert(!old(self).view().contains_key(key@));
                            assert(old_items[a].key@ != key@);
                        }
                    }
                }
                self.items = items;
                proof {
                    let n = old_items.len() as int;
                    assert forall|k: Seq<char>| #[trigger] self.view().contains_key(k) <==> old(self).view().insert(key@, value@).contains_key(k) by {
                        if old(self).view().contains_key(k) {
                            let j = old(self).index_of(k);
                            assert(self.items@[j].key@ == k);
                        }
                        if k == key@ {
                            assert(self.items@[n].key@ == k);
                        }
                        if self.view().contains_key(k) {
                            let j = self.index_of(k);
                            if j != n {
                                assert(old_items[j].key@ == k);
                            }
                        }
                    }
                    assert forall|k: Seq<char>| #[trigger] self.view().contains_key(k) implies self.view()[k] == old(self).view().insert(key@, value@)[k] by {
                        let j = self.index_of(k);
                        if k == key@ {
                            if j != n {
                                assert(old_items[j].key@ == k);
                                assert(old(self).view().contains_key(k));
                            }
                        } else {
                            assert(j != n);
                            assert(old_items[j].key@ == k);
                            let oj = old(self).index_of(k);
                            assert(old_items[oj].key@ == k);
                            assert(oj == j);
                        }
                    }
                    assert(self.view() =~= old(self).view().insert(key@, value@));
                }
            },
        }
    }
}


/// A copy of stored items, key for key and value for value.
fn copy_items(items: &Vec<StorageItem>) -> (r: Vec<StorageItem>)
    ensures
        r@.len() == items@.len(),
        forall|j: int| 0 <= j < r@.len() ==> (#[trigger] r@[j]).key@ == items@[j].key@ && r@[j].value@ == items@[j].value@,
{
    let mut r: Vec<StorageItem> = Vec::new();
    let mut i: usize = 0;
    while i < items.len()
        invariant
            i <= items@.len(),
            r@.len() == i,
            forall|j: int| 0 <= j < i ==> (#[trigger] r@[j]).key@ == items@[j].key@ && r@[j].value@ == items@[j].value@,
        decreases items@.len() - i,
    {
        r.push(StorageItem { key: items[i].key.clone(), value: items[i].value.clone() });
        i = i + 1;
    }
    r
}

/// Local-storage key under which the user's master key is kept.
pub const LOCAL_STORAGE_KEY_MASTER_KEY: &'static str = "master-key";

/// Prefix of the local-storage keys under which share keys are kept.
pub const LOCAL_STORAGE_KEY_SHARE_KEY_PREFIX: &'static str = "share-key";

/// The local-storage key for a share's key: the prefix, a dash and the share's id.
pub open spec fn share_storage_key(share_id: Seq<char>) -> Seq<char> {
    LOCAL_STORAGE_KEY_SHARE_KEY_PREFIX@ + "-"@ + share_id
}

/// The local-storage key under which the key of a share is stored.
pub fn get_storage_key_for_share(share_id: &str) -> (key: String)
    ensures
        key@ == share_storage_key(share_id@),
{
    let mut key = String::from_str(LOCAL_STORAGE_KEY_SHARE_KEY_PREFIX);
    key.append("-");
    key.append(share_id);
    key
}

/// The user's keys as the browser client holds them: the master key in
/// memory, and local storage where the master key and share keys are kept as
/// base64 text.
pub struct KeyStore {
    master_key: Vec<u8>,
    storage: LocalStorage,
}

/// What loading keys from local storage gives: the decoded master key, or no
/// key when none is stored.
pub open spec fn spec_load_master_key(storage: Map<Seq<char>, Seq<char>>) -> Result<Seq<u8>, Error> {
    if storage.contains_key(LOCAL_STORAGE_KEY_MASTER_KEY@) {
        match spec_decode_base64(storage[LOCAL_STORAGE_KEY_MASTER_KEY@]) {
            Some(key) => Ok(key),
            None => Err(Error::InvalidBase64),
        }
    } else {
        Ok(Seq::empty())
    }
}

/// What [`get_share_key`] gives for the stored items and a share id.
pub open spec fn spec_get_share_key(storage: Map<Seq<char>, Seq<char>>, share_id: Seq<char>) -> Result<Option<Seq<u8>>, Error> {
    let k = share_storage_key(share_id);
    if storage.contains_key(k) {
        match spec_decode_base64(storage[k]) {
            Some(key) => Ok(Some(key)),
            None => Err(Error::InvalidBase64),
        }
    } else {
        Ok(None)
    }
}

impl KeyStore {
    /// The master key held in memory.
    pub closed spec fn master_key(&self) -> Seq<u8> {
        self.master_key@
    }

    /// The items in local storage.
    pub closed spec fn stored(&self) -> Map<Seq<char>, Seq<char>> {
        self.storage.view()
    }

    /// Loads the keys from local storage: the master key is the decoded
    /// stored master key, or empty when none is stored.
    pub fn load(storage: LocalStorage) -> (r: Result<KeyStore, Error>)
        ensures
            match r {
                Ok(store) => {
                    &&& store.stored() == storage.view()
                    &&& spec_load_master_key(storage.view()) == Ok::<Seq<u8>, Error>(store.master_key())
                },
                Err(e) => spec_load_master_key(storage.view()) == Err::<Seq<u8>, Error>(e),
            },
    {
        let master_key = match storage.get_item(LOCAL_STORAGE_KEY_MASTER_KEY) {
            Some(text) => match decode_base64(text.as_str()) {
                Some(key) => key,
                None => return Err(Error::InvalidBase64),
            },
            None => Vec::new(),
        };
        Ok(KeyStore { master_key, storage })
    }

    /// The local storage, for persisting it.
    pub fn storage(&self) -> (storage: &LocalStorage)
        ensures
            storage.view() == self.stored(),
    {
        &self.storage
    }
}

/// The user's master encryption key.
pub fn get_master_key(store: &KeyStore) -> (key: Vec<u8>)
    ensures
        key@ == store.master_key(),
{
    store.master_key.clone()
}

/// Sets the user's master encryption key, in memory and in local storage.
/// Afterwards [`get_master_key`] gives the key, and loading the keys again
/// from the storage gives the same master key.
pub fn set_master_key(store: &mut KeyStore, key: &Vec<u8>)
    requires
        base64_fits(key@.len() as int),
    ensures
        final(store).master_key() == key@,
        final(store).stored() == old(store).stored().insert(LOCAL_STORAGE_KEY_MASTER_KEY@, base64_encode(key@)),
        spec_load_master_key(final(store).stored()) == Ok::<Seq<u8>, Error>(key@),
{
    let key_text = encode_base64(key.as_slice());
    store.master_key = key.clone();
    store.storage.set_item(LOCAL_STORAGE_KEY_MASTER_KEY, key_text);
}

/// A share's encryption key from local storage: `None` when none is stored,
/// an error when the stored text is not base64.
pub fn get_share_key(store: &KeyStore, share_id: &str) -> (r: Result<Option<Vec<u8>>, Error>)
    ensures
        match r {
            Ok(Some(key)) => spec_get_share_key(store.stored(), share_id@) == Ok::<Option<Seq<u8>>, Error>(Some(key@)),
            Ok(None) => spec_get_share_key(store.stored(), share_id@) == Ok::<Option<Seq<u8>>, Error>(None),
            Err(e) => spec_get_share_key(store.stored(), share_id@) == Err::<Option<Seq<u8>>, Error>(e),
        },
{
    let storage_key = get_storage_key_for_share(share_id);
    match store.storage.get_item(storage_key.as_str()) {
        Some(text) => match decode_base64(text.as_str()) {
            Some(key) => Ok(Some(key)),
            None => Err(Error::InvalidBase64),
        },
        None => Ok(None),
    }
}

/// Stores a share's encryption key in local storage as base64 text.
/// Afterwards [`get_share_key`] gives the key back; the master key is unchanged.
pub fn set_share_key(store: &mut KeyStore, share_id: &str, key: &[u8]) -> (r: Result<(), Error>)
    requires
        base64_fits(key@.len() as int),
    ensures
        r is Ok,
        final(store).master_key() == old(store).master_key(),
        final(store).stored() == old(store).stored().insert(share_storage_key(share_id@), base64_encode(key@)),
        spec_get_share_key(final(store).stored(), share_id@) == Ok::<Option<Seq<u8>>, Error>(Some(key@)),
{
    let storage_key = get_storage_key_for_share(share_id);
    let key_text = encode_base64(key);
    store.storage.set_item(storage_key.as_str(), key_text);
    Ok(())
}

/// Number of characters of the username's hash used as salt.
pub const CREDENTIALS_SALT_LENGTH: usize = 20;

/// What [`get_key_from_user_credentials`] gives: an error for an empty
/// username or password, else the key derived from the password with the
/// first 20 hexadecimal digits of the username's SHA-256 hash as salt.
pub open spec fn spec_key_from_user_credentials(username: Seq<char>, password: Seq<char>) -> Result<Seq<u8>, Error> {
    if username.len() == 0 {
        Err(Error::UsernameEmpty)
    } else if password.len() == 0 {
        Err(Error::PasswordEmpty)
    } else {
        spec_derive_key(password, sha256_hex(encode_utf8(username)).take(CREDENTIALS_SALT_LENGTH as int))
    }
}

/// Derives a symmetric encryption key from a user's credentials.
pub fn get_key_from_user_credentials(username: &str, password: &str) -> (r: Result<Vec<u8>, Error>)
    ensures
        bytes_result(r) == spec_key_from_user_credentials(username@, password@),
        r is Ok <==> username@.len() > 0 && password@.len() > 0,
        r matches Ok(key) ==> key@.len() == KEY_LENGTH,
{
    if username.is_empty() {
        Err(Error::UsernameEmpty)
    } else if password.is_empty() {
        Err(Error::PasswordEmpty)
    } else {
        let hash = compute_sha256_hash(username.as_bytes());
        let salt = hash.as_str().substring_ascii(0, CREDENTIALS_SALT_LENGTH);
        proof {
            assert(salt@ =~= hash@.take(CREDENTIALS_SALT_LENGTH as int));
            lemma_hex_salt_usable(salt@);
        }
        derive_key_from_string(password, salt)
    }
}

} // verus!
