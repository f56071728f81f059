//! The file encryption service: list, get, encrypt, decrypt and delete, each
//! scoped to the file's owner.

use crate::cipher::{
    random_bytes, decrypts_to, get_cipher, method_named, opens_to, Cipher, CipherError,
    EncryptionMethod,
};
use crate::entity::{describes, FileMetadata, Model};
use crate::key_material::{
    encodes, handle_of, is_handle_shaped, lemma_encoded_handle_shaped, KeyMaterial,
};
use crate::store::{
    has_id, ids_unique, lemma_removed_id_gone, owned_at, owned_by, BlobStore, MetadataStore,
};
use vstd::prelude::*;

verus! {

#[derive(Clone, Copy, Debug, PartialEq, Eq, Structural)]
pub enum FileError {
    /// Unsupported algorithm, malformed key handle, or input the cipher refuses.
    InvalidArgument,
    /// No such file for this owner; whether another owner has it is not told.
    NotFound,
    /// The ciphertext does not authenticate under the supplied key handle.
    AuthenticationFailure,
    /// A failure of the service itself; no detail reaches the caller.
    Internal,
}

/// The hyphenated text of the random (version 4) UUID built from `bytes`.
pub uninterp spec fn uuid_text_of(bytes: Seq<u8>) -> Seq<char>;

/// The RFC 3339 text of the UTC instant `secs` seconds and `nanos`
/// nanoseconds after the Unix epoch.
pub uninterp spec fn rfc3339_text_of(secs: int, nanos: int) -> Seq<char>;

/// Relies on `uuid::Builder::from_random_bytes(..).into_uuid()` and the
/// UUID's `Display`: the 16 bytes with the version and variant bits set,
/// written in the hyphenated form of 36 characters, a function of the bytes
/// alone. `copy_from_slice` panics unless there are 16 bytes.
#[verifier::external_body]
fn uuid_text(bytes: &[u8]) -> (r: String)
    requires
        bytes@.len() == 16,
    ensures
        r@ == uuid_text_of(bytes@),
        r@.len() == 36,
{
    let mut raw = [0u8; 16];
    raw.copy_from_slice(bytes);
    uuid::Builder::from_random_bytes(raw).into_uuid().to_string()
}

/// Relies on `std::time::SystemTime::now` and `duration_since(UNIX_EPOCH)`:
/// the time since the Unix epoch as whole seconds and the nanoseconds below
/// one second, or `None` when the clock reads earlier than the epoch. Nothing
/// is promised of the value.
#[verifier::external_body]
fn unix_time_now() -> (r: Option<(u64, u32)>)
    ensures
        r matches Some((_, nanos)) ==> nanos < 1_000_000_000,
{
    match std::time::SystemTime::now().duration_since(std::time::UNIX_EPOCH) {
        Ok(d) => Some((d.as_secs(), d.subsec_nanos())),
        Err(_) => None,
    }
}

/// Last second of the year 9999, well inside chrono's range of dates.
pub const MAX_RFC3339_SECS: i64 = 253402300799;

/// Relies on `chrono::DateTime::from_timestamp` and `DateTime::to_rfc3339`:
/// `None` when the instant is outside chrono's range, else its RFC 3339
/// (ISO-8601) text in UTC, a function of the two numbers alone. Every instant
/// from the epoch to the end of the year 9999 with fewer than 10^9
/// nanoseconds is in range (`NaiveDate` reaches the year 262142). Writing to a
/// `String` does not fail, so `to_rfc3339` does not panic.
#[verifier::external_body]
fn rfc3339_text(secs: i64, nanos: u32) -> (r: Option<String>)
    ensures
        r matches Some(t) ==> t@ == rfc3339_text_of(secs as int, nanos as int),
        0 <= secs <= MAX_RFC3339_SECS && nanos < 1_000_000_000 ==> r is Some,
{
    match chrono::DateTime::from_timestamp(secs, nanos) {
        Some(instant) => Some(instant.to_rfc3339()),
        None => None,
    }
}

/// A new file id from 16 random bytes, or `None` when the operating system's
/// generator gives none.
fn new_file_id() -> (r: Option<String>)
    ensures
        r matches Some(id) ==> id@.len() == 36,
{
    match random_bytes(16) {
        Some(bytes) => Some(uuid_text(bytes.as_slice())),
        None => None,
    }
}

/// The current time as RFC 3339 text, or `None` when the clock reads before
/// the Unix epoch or beyond what the text can express.
fn now_timestamp() -> (r: Option<String>)
    ensures
        r matches Some(t) ==> exists|secs: int, nanos: int| t@ == rfc3339_text_of(secs, nanos),
{
    let (secs, nanos) = match unix_time_now() {
        Some(now) => now,
        None => return None,
    };
    if secs > i64::MAX as u64 {
        return None;
    }
    let r = rfc3339_text(secs as i64, nanos);
    proof {
        if r is Some {
            assert(r->0@ == rfc3339_text_of(secs as int, nanos as int));
        }
    }
    r
}

/// `after` is `before` with one record more, a file of `user` called `name`,
/// of `size` plaintext bytes encrypted with `method`, under a new id.
pub open spec fn one_file_added(
    before: Seq<Model>,
    after: Seq<Model>,
    user: Seq<char>,
    name: Seq<char>,
    method: EncryptionMethod,
    size: nat,
) -> bool {
    &&& after.len() == before.len() + 1
    &&& after.drop_last() == before
    &&& !has_id(before, after.last().id@)
    &&& after.last().user_id@ == user
    &&& after.last().name@ == name
    &&& after.last().size == size
    &&& after.last().encryption_method == method
    &&& after.last().created_at@ == after.last().updated_at@
}

/// What decrypting the file `record`, stored as `ciphertext`, with the key
/// handle `handle` owes: the algorithm is the one on the record.
pub open spec fn decrypt_outcome(
    record: Model,
    ciphertext: Seq<u8>,
    handle: Seq<char>,
    r: Result<(String, Vec<u8>), FileError>,
) -> bool {
    let m = record.encryption_method;
    match r {
        Ok((name, plaintext)) => {
            &&& name@ == record.name@
            &&& exists|nonce: Seq<u8>, key: Seq<u8>|
                #[trigger] encodes(handle, nonce, key) && decrypts_to(
                    m,
                    key,
                    nonce,
                    ciphertext,
                    Ok(plaintext@),
                )
        },
        Err(FileError::InvalidArgument) => forall|nonce: Seq<u8>, key: Seq<u8>|
            !#[trigger] encodes(handle, nonce, key),
        Err(FileError::AuthenticationFailure) => exists|nonce: Seq<u8>, key: Seq<u8>|
            #[trigger] encodes(handle, nonce, key) && decrypts_to(
                m,
                key,
                nonce,
                ciphertext,
                Err(CipherError::AuthenticationFailure),
            ),
        Err(_) => false,
    }
}

/// The service: file records and their ciphertexts, each record's ciphertext
/// stored before the record itself.
pub struct FileService {
    store: MetadataStore,
    blobs: BlobStore,
}

impl FileService {
    /// The stored records, in insertion order.
    pub closed spec fn records(&self) -> Seq<Model> {
        self.store@
    }

    /// The ciphertext stored for the file `id`.
    pub closed spec fn ciphertext(&self, id: Seq<char>) -> Option<Seq<u8>> {
        self.blobs.get_spec(id)
    }

    /// Record ids are distinct and every record has its ciphertext.
    pub closed spec fn wf(&self) -> bool {
        &&& self.store.wf()
        &&& self.blobs.wf()
        &&& forall|i: int|
            0 <= i < self.store@.len() ==> #[trigger] self.blobs.get_spec(self.store@[i].id@) is Some
    }

    pub proof fn lemma_wf_ids_unique(&self)
        requires
            self.wf(),
        ensures
            ids_unique(self.records()),
            forall|i: int|
                0 <= i < self.records().len() ==> #[trigger] self.ciphertext(self.records()[i].id@) is Some,
    {
        self.store.lemma_ids_unique();
        assert forall|i: int| 0 <= i < self.records().len() implies #[trigger] self.ciphertext(
            self.records()[i].id@,
        ) is Some by {
            assert(self.blobs.get_spec(self.store@[i].id@) is Some);
        }
    }

    pub fn new() -> (r: FileService)
        ensures
            r.wf(),
            r.records() == Seq::<Model>::empty(),
    {
        FileService { store: MetadataStore::new(), blobs: BlobStore::new() }
    }

    /// A service over the given metadata and blob stores, or `None` when a
    /// record has no ciphertext in the blob store.
    pub fn from_stores(store: MetadataStore, blobs: BlobStore) -> (r: Option<FileService>)
        requires
            store.wf(),
            blobs.wf(),
        ensures
            r is None <==> exists|i: int|
                0 <= i < store@.len() && #[trigger] blobs.get_spec(store@[i].id@) is None,
            r matches Some(s) ==> s.wf() && s.records() == store@ && forall|id: Seq<char>|
                s.ciphertext(id) == blobs.get_spec(id),
    {
        let mut i: usize = 0;
        while i < store.len()
            invariant
                blobs.wf(),
                i <= store@.len(),
                forall|j: int| 0 <= j < i ==> #[trigger] blobs.get_spec(store@[j].id@) is Some,
            decreases store@.len() - i,
        {
            if blobs.get(store.record(i).id.as_str()).is_none() {
                return None;
            }
            i = i + 1;
        }
        Some(FileService { store, blobs })
    }

    /// The metadata of every file of `user_id`, in stored order.
    pub fn get_all_files(&self, user_id: &str) -> (r: Vec<FileMetadata>)
        ensures
            r@.len() == owned_by(self.records(), user_id@).len(),
            forall|i: int|
                0 <= i < r@.len() ==> describes(#[trigger] r@[i], owned_by(self.records(), user_id@)[i]),
    {
        let owned = self.store.list_owned(user_id);
        let mut out: Vec<FileMetadata> = Vec::new();
        let mut i: usize = 0;
        while i < owned.len()
            invariant
                i <= owned@.len(),
                out@.len() == i,
                forall|j: int| 0 <= j < i ==> describes(#[trigger] out@[j], owned@[j]),
            decreases owned@.len() - i,
        {
            out.push(owned[i].to_proto());
            i = i + 1;
        }
        out
    }

    /// The metadata of file `file_id` if `user_id` owns it; `NotFound`
    /// otherwise, also when another owner has a file with that id.
    pub fn get_file(&self, file_id: &str, user_id: &str) -> (r: Result<FileMetadata, FileError>)
        ensures
            r matches Ok(meta) ==> exists|i: int|
                owned_at(self.records(), file_id@, user_id@, i) && describes(meta, self.records()[i]),
            r is Err ==> r == Err::<FileMetadata, FileError>(FileError::NotFound) && forall|i: int|
                !owned_at(self.records(), file_id@, user_id@, i),
    {
        match self.store.find_owned(file_id, user_id) {
            Some(record) => {
                let meta = record.to_proto();
                proof {
                    let i = choose|i: int|
                        owned_at(self.store@, file_id@, user_id@, i) && record == self.store@[i];
                    assert(owned_at(self.records(), file_id@, user_id@, i) && describes(
                        meta,
                        self.records()[i],
                    ));
                }
                Ok(meta)
            },
            None => Err(FileError::NotFound),
        }
    }

    /// Stores an encrypted file under `file_id`: its ciphertext first, then
    /// its record; returns the record's metadata and the key handle. Fails
    /// with `Internal`, storing nothing, when `file_id` is already in use.
    pub fn store_encrypted(
        &mut self,
        file_id: String,
        user_id: &str,
        name: &str,
        method: EncryptionMethod,
        size: usize,
        ciphertext: Vec<u8>,
        key: Vec<u8>,
        nonce: Vec<u8>,
        timestamp: String,
    ) -> (r: Result<(FileMetadata, String), FileError>)
        requires
            old(self).wf(),
            key@.len() <= usize::MAX / 2,
            nonce@.len() <= usize::MAX / 2,
        ensures
            final(self).wf(),
            has_id(old(self).records(), file_id@) || old(self).ciphertext(file_id@) is Some ==> {
                &&& r == Err::<(FileMetadata, String), FileError>(FileError::Internal)
                &&& final(self).records() == old(self).records()
                &&& forall|id: Seq<char>| final(self).ciphertext(id) == old(self).ciphertext(id)
            },
            r is Ok <==> !has_id(old(self).records(), file_id@) && old(self).ciphertext(
                file_id@,
            ) is None,
            r matches Ok((meta, handle)) ==> {
                &&& one_file_added(
                    old(self).records(),
                    final(self).records(),
                    user_id@,
                    name@,
                    method,
                    size as nat,
                )
                &&& final(self).records().last().id@ == file_id@
                &&& final(self).records().last().created_at@ == timestamp@
                &&& describes(meta, final(self).records().last())
                &&& final(self).ciphertext(file_id@) == Some(ciphertext@)
                &&& forall|id: Seq<char>|
                    id != file_id@ ==> final(self).ciphertext(id) == old(self).ciphertext(id)
                &&& handle@ == handle_of(nonce@, key@)
                &&& (nonce@.len() > 0 && key@.len() > 0 ==> encodes(handle@, nonce@, key@))
            },
            r is Err ==> r == Err::<(FileMetadata, String), FileError>(FileError::Internal),
    {
        if self.store.contains_id(file_id.as_str()) || self.blobs.get(file_id.as_str()).is_some() {
            return Err(FileError::Internal);
        }
        let record = Model {
            id: file_id.clone(),
            user_id: user_id.to_owned(),
            name: name.to_owned(),
            size,
            encryption_method: method,
            created_at: timestamp.clone(),
            updated_at: timestamp,
        };
        let ghost before = *self;
        match self.blobs.put(file_id, ciphertext) {
            Ok(()) => {},
            Err(_) => return Err(FileError::Internal),
        }
        let meta = record.to_proto();
        let ghost added = record;
        match self.store.insert(record) {
            Ok(()) => {},
            Err(_) => return Err(FileError::Internal),
        }
        proof {
            assert(self.store@.drop_last() =~= before.store@);
            assert forall|i: int| 0 <= i < self.store@.len() implies #[trigger] self.blobs.get_spec(
                self.store@[i].id@,
            ) is Some by {
                if i < before.store@.len() {
                    assert(self.store@[i] == before.store@[i]);
                    assert(before.blobs.get_spec(before.store@[i].id@) is Some);
                } else {
                    assert(self.store@[i] == added);
                }
            }
        }
        let key_material = KeyMaterial { key, nonce };
        let handle = key_material.encode();
        Ok((meta, handle))
    }

    /// Encrypts `content` with the algorithm named `encryption_method` under
    /// a fresh key and nonce, stores the ciphertext and then the record, and
    /// returns the record's metadata with the key handle, of which the
    /// service keeps no copy.
    pub fn encrypt_file(
        &mut self,
        user_id: &str,
        name: &str,
        encryption_method: &str,
        content: &[u8],
    ) -> (r: Result<(FileMetadata, String), FileError>)
        requires
            old(self).wf(),
        ensures
            final(self).wf(),
            r == Err::<(FileMetadata, String), FileError>(FileError::InvalidArgument) <==> (
            method_named(encryption_method@) matches Some(m) ==> content@.len()
                > m.max_plaintext_len()),
            r is Err ==> final(self).records() == old(self).records() && forall|id: Seq<char>|
                final(self).ciphertext(id) == old(self).ciphertext(id),
            r is Err ==> r == Err::<(FileMetadata, String), FileError>(FileError::InvalidArgument)
                || r == Err::<(FileMetadata, String), FileError>(FileError::Internal),
            r matches Ok((meta, handle)) ==> method_named(encryption_method@) matches Some(m) && {
                let added = final(self).records().last();
                &&& one_file_added(
                    old(self).records(),
                    final(self).records(),
                    user_id@,
                    name@,
                    m,
                    content@.len(),
                )
                &&& describes(meta, added)
                &&& meta.encryption_method@ == encryption_method@
                &&& is_handle_shaped(handle@)
                &&& added.id@.len() == 36
                &&& exists|secs: int, nanos: int| added.created_at@ == rfc3339_text_of(secs, nanos)
                &&& forall|id: Seq<char>|
                    id != added.id@ ==> final(self).ciphertext(id) == old(self).ciphertext(id)
                &&& final(self).ciphertext(added.id@) matches Some(c) && exists|
                    nonce: Seq<u8>,
                    key: Seq<u8>,
                | #[trigger] encodes(handle@, nonce, key) && opens_to(m, key, nonce, c, content@)
            },
    {
        let method = match get_cipher(encryption_method) {
            Ok(m) => m,
            Err(_) => return Err(FileError::InvalidArgument),
        };
        let (ciphertext, key, nonce) = match method.encrypt(content) {
            Ok(sealed) => sealed,
            Err(CipherError::PlaintextTooLong) => return Err(FileError::InvalidArgument),
            Err(_) => return Err(FileError::Internal),
        };
        let ghost sealed = (ciphertext@, key@, nonce@);
        let file_id = match new_file_id() {
            Some(id) => id,
            None => return Err(FileError::Internal),
        };
        let timestamp = match now_timestamp() {
            Some(t) => t,
            None => return Err(FileError::Internal),
        };
        let r = self.store_encrypted(
            file_id,
            user_id,
            name,
            method,
            content.len(),
            ciphertext,
            key,
            nonce,
            timestamp,
        );
        proof {
            if r is Ok {
                assert(encodes(r->Ok_0.1@, sealed.2, sealed.1));
                lemma_encoded_handle_shaped(r->Ok_0.1@, sealed.2, sealed.1);
            }
        }
        r
    }

    /// Decrypts the file `file_id` of `user_id` with the key handle
    /// `encryption_key`, always with the algorithm stored on its record, and
    /// returns the file's name and plaintext.
    pub fn decrypt_file(&self, file_id: &str, user_id: &str, encryption_key: &str) -> (r: Result<
        (String, Vec<u8>),
        FileError,
    >)
        requires
            self.wf(),
        ensures
            r == Err::<(String, Vec<u8>), FileError>(FileError::NotFound) <==> forall|i: int|
                !owned_at(self.records(), file_id@, user_id@, i),
            forall|i: int|
                owned_at(self.records(), file_id@, user_id@, i) ==> decrypt_outcome(
                    self.records()[i],
                    self.ciphertext(file_id@)->0,
                    encryption_key@,
                    r,
                ),
    {
        proof {
            self.lemma_wf_ids_unique();
        }
        let record = match self.store.find_owned(file_id, user_id) {
            Some(record) => record,
            None => return Err(FileError::NotFound),
        };
        let ghost idx = choose|i: int|
            owned_at(self.records(), file_id@, user_id@, i) && record == self.records()[i];
        assert forall|i: int| owned_at(self.records(), file_id@, user_id@, i) implies i == idx by {}
        let method = record.encryption_method;
        let material = match KeyMaterial::decode(encryption_key) {
            Ok(material) => material,
            Err(_) => return Err(FileError::InvalidArgument),
        };
        let ciphertext = match self.blobs.get(file_id) {
            Some(c) => c,
            None => {
                assert(self.ciphertext(self.records()[idx].id@) is Some);
                return Err(FileError::Internal);
            },
        };
        let opened = method.decrypt(ciphertext.as_slice(), material.key.as_slice(), material.nonce.as_slice());
        proof {
            assert(encodes(encryption_key@, material.nonce@, material.key@));
        }
        match opened {
            Ok(plaintext) => Ok((record.name, plaintext)),
            Err(_) => Err(FileError::AuthenticationFailure),
        }
    }

    /// Deletes the file `file_id` of `user_id`, its record and its
    /// ciphertext; `NotFound`, deleting nothing, when `user_id` has no such
    /// file.
    pub fn delete_file(&mut self, file_id: &str, user_id: &str) -> (r: Result<(), FileError>)
        requires
            old(self).wf(),
        ensures
            final(self).wf(),
            r is Err ==> r == Err::<(), FileError>(FileError::NotFound) && final(self).records()
                == old(self).records() && forall|id: Seq<char>|
                final(self).ciphertext(id) == old(self).ciphertext(id) && forall|i: int|
                !owned_at(old(self).records(), file_id@, user_id@, i),
            r is Ok ==> exists|i: int|
                owned_at(old(self).records(), file_id@, user_id@, i) && final(self).records()
                    == old(self).records().remove(i),
            r is Ok ==> final(self).ciphertext(file_id@) is None && forall|id: Seq<char>|
                id != file_id@ ==> final(self).ciphertext(id) == old(self).ciphertext(id),
    {
        let ghost before = *self;
        match self.store.delete_owned(file_id, user_id) {
            Ok(_) => {},
            Err(_) => return Err(FileError::NotFound),
        }
        self.blobs.remove(file_id);
        proof {
            let i = choose|i: int|
                owned_at(before.store@, file_id@, user_id@, i) && self.store@ == before.store@.remove(i);
            before.store.lemma_ids_unique();
            lemma_removed_id_gone(before.store@, i);
            assert(owned_at(before.records(), file_id@, user_id@, i) && self.records()
                == before.records().remove(i));
            assert forall|j: int| 0 <= j < self.store@.len() implies #[trigger] self.blobs.get_spec(
                self.store@[j].id@,
            ) is Some by {
                let j0 = if j < i { j } else { j + 1 };
                assert(self.store@[j] == before.store@[j0]);
                assert(before.blobs.get_spec(before.store@[j0].id@) is Some);
                if self.store@[j].id@ == file_id@ {
                    assert(has_id(self.store@, file_id@));
                }
            }
        }
        Ok(())
    }
}

/// After the file `id` of `user` is deleted, looking it up again finds
/// nothing, for that owner or any other.
pub proof fn lemma_deleted_file_not_found(
    before: FileService,
    after: FileService,
    id: Seq<char>,
    user: Seq<char>,
    i: int,
    anyone: Seq<char>,
)
    requires
        before.wf(),
        owned_at(before.records(), id, user, i),
        after.records() == before.records().remove(i),
    ensures
        forall|j: int| !owned_at(after.records(), id, anyone, j),
{
    before.lemma_wf_ids_unique();
    lemma_removed_id_gone(before.records(), i);
}

/// A file is found only by its owner: when the file `id` belongs to `owner`,
/// a lookup of `id` by any other owner matches no record.
pub proof fn lemma_owner_isolation(
    service: FileService,
    id: Seq<char>,
    owner: Seq<char>,
    i: int,
    other: Seq<char>,
)
    requires
        service.wf(),
        owned_at(service.records(), id, owner, i),
        other != owner,
    ensures
        forall|j: int| !owned_at(service.records(), id, other, j),
{
    service.lemma_wf_ids_unique();
    assert forall|j: int| !owned_at(service.records(), id, other, j) by {
        if owned_at(service.records(), id, other, j) {
            assert(j != i);
        }
    }
}

} // verus!
