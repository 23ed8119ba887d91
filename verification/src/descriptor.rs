use vstd::prelude::*;

verus! {

/// Why no descriptor could be read from a document.
#[derive(Clone, Copy, Debug, PartialEq, Eq, Structural)]
pub enum ExtractError {
    /// The document has no encryption dictionary: it needs no password.
    NotEncrypted,
    /// The document is protected by something other than the standard
    /// password-based security handler.
    UnsupportedHandler,
    /// The document is truncated or corrupt.
    Malformed,
}

/// The parameters of a document's standard security handler.
#[derive(Clone, Debug)]
pub struct EncryptionDescriptor {
    pub revision: u32,
    pub key_length_bits: u32,
    pub owner_entry: Vec<u8>,
    pub user_entry: Vec<u8>,
    pub permissions: i32,
    pub file_id: Vec<u8>,
    pub encrypt_metadata: bool,
}

/// The mathematical content of an `EncryptionDescriptor`.
pub struct DescriptorModel {
    pub revision: int,
    pub key_length_bits: int,
    pub owner_entry: Seq<u8>,
    pub user_entry: Seq<u8>,
    pub permissions: i32,
    pub file_id: Seq<u8>,
    pub encrypt_metadata: bool,
}

impl View for EncryptionDescriptor {
    type V = DescriptorModel;

    open spec fn view(&self) -> DescriptorModel {
        DescriptorModel {
            revision: self.revision as int,
            key_length_bits: self.key_length_bits as int,
            owner_entry: self.owner_entry@,
            user_entry: self.user_entry@,
            permissions: self.permissions,
            file_id: self.file_id@,
            encrypt_metadata: self.encrypt_metadata,
        }
    }
}

} // verus!
