//! The stored file record and the public metadata view of it.

use crate::cipher::EncryptionMethod;
use vstd::prelude::*;

verus! {

/// A stored file: who owns it, what it is called, how large its plaintext
/// was, and which algorithm encrypted it.
pub struct Model {
    pub id: String,
    pub user_id: String,
    pub name: String,
    pub size: usize,
    pub encryption_method: EncryptionMethod,
    pub created_at: String,
    pub updated_at: String,
}

/// What callers see of a stored file; it never carries key material.
pub struct FileMetadata {
    pub id: String,
    pub name: String,
    pub size: usize,
    pub encryption_method: String,
    pub created_at: String,
    pub updated_at: String,
}

/// `meta` is the public view of `record`.
pub open spec fn describes(meta: FileMetadata, record: Model) -> bool {
    &&& meta.id@ == record.id@
    &&& meta.name@ == record.name@
    &&& meta.size == record.size
    &&& meta.encryption_method@ == record.encryption_method.spec_name()
    &&& meta.created_at@ == record.created_at@
    &&& meta.updated_at@ == record.updated_at@
}

impl Model {
    /// A copy of this record.
    pub fn duplicate(&self) -> (r: Model)
        ensures
            r == *self,
    {
        Model {
            id: self.id.clone(),
            user_id: self.user_id.clone(),
            name: self.name.clone(),
            size: self.size,
            encryption_method: self.encryption_method,
            created_at: self.created_at.clone(),
            updated_at: self.updated_at.clone(),
        }
    }

    /// The public metadata view of this record.
    pub fn to_proto(&self) -> (r: FileMetadata)
        ensures
            describes(r, *self),
    {
        FileMetadata {
            id: self.id.clone(),
            name: self.name.clone(),
            size: self.size,
            encryption_method: self.encryption_method.as_str().to_owned(),
            created_at: self.created_at.clone(),
            updated_at: self.updated_at.clone(),
        }
    }
}

} // verus!
