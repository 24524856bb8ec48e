//! The data that discovery, the cache and the switcher share.

use vstd::prelude::*;

verus! {

/// The public key path and the private key path of a variant, in that order.
pub type KeyPair = (String, String);

/// The human identity bound to a variant.
#[derive(Debug)]
pub struct Metadata {
    /// Full name, e.g. `John Doe`.
    pub name: String,
    /// Email address.
    pub email: String,
    /// The variant this identity belongs to.
    pub username: String,
}

/// What a [`Metadata`] record holds, as text.
pub ghost struct Identity {
    pub name: Seq<char>,
    pub email: Seq<char>,
    pub username: Seq<char>,
}

impl View for Metadata {
    type V = Identity;

    open spec fn view(&self) -> Identity {
        Identity { name: self.name@, email: self.email@, username: self.username@ }
    }
}

impl Metadata {
    /// A copy of the record.
    pub fn duplicate(&self) -> (r: Metadata)
        ensures
            r == *self,
    {
        Metadata {
            name: self.name.clone(),
            email: self.email.clone(),
            username: self.username.clone(),
        }
    }
}

/// The views of a sequence of records.
pub open spec fn identities(records: Seq<Metadata>) -> Seq<Identity> {
    records.map_values(|m: Metadata| m@)
}

/// One git profile: a name (its directory under `<home>/.ssh`) and its key pair.
#[derive(Debug)]
pub struct Variant {
    /// The name of the variant directory.
    pub name: String,
    /// The public key path and the private key path.
    pub keys: KeyPair,
}

/// What a [`Variant`] holds, as text.
pub ghost struct VariantView {
    pub name: Seq<char>,
    pub public_key: Seq<char>,
    pub private_key: Seq<char>,
}

impl View for Variant {
    type V = VariantView;

    open spec fn view(&self) -> VariantView {
        VariantView { name: self.name@, public_key: self.keys.0@, private_key: self.keys.1@ }
    }
}

/// A store of metadata records keyed by username: a file, a database, and so on.
/// Implementations are left to the user of the library.
pub trait Persist {
    /// Inserts the record, or replaces name and email of the record with its username.
    fn write(&self, metadata: Metadata) -> Result<(), crate::errors::VariantError>;

    /// The first record with the given username, if any.
    fn read(&self, username: String) -> Result<Option<Metadata>, crate::errors::VariantError>;

    /// All records, in the order in which they were stored.
    fn read_all(&self) -> Result<Vec<Metadata>, crate::errors::VariantError>;
}

} // verus!
