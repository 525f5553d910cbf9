//! Connection profiles: what is stored of a saved connection.

use vstd::prelude::*;
use vstd::string::StringExecFns;

verus! {

/// A saved connection. The password is not part of it; it is kept in a
/// secret store under the profile's identifier.
#[derive(Debug, Clone, PartialEq, Eq)]
pub struct SshProfileMeta {
    pub id: String,
    pub host: String,
    pub port: u16,
    pub username: String,
    pub save_password: bool,
    pub private_key: Option<String>,
    pub name: Option<String>,
    pub group: Option<String>,
    pub tags: Vec<String>,
}

/// The name of the file that holds the profile with this identifier.
pub open spec fn file_name_of(id: Seq<char>) -> Seq<char> {
    id + ".json"@
}

/// The name of the file that holds the profile with this identifier.
pub fn profile_file_name(id: &str) -> (name: String)
    ensures
        name@ == file_name_of(id@),
{
    let mut name = String::from_str(id);
    name.append(".json");
    name
}

impl SshProfileMeta {
    /// The password to put into the secret store when the profile is saved:
    /// the one supplied, where the profile asks for its password to be
    /// saved, and none otherwise.
    pub fn password_to_store(&self, password: Option<String>) -> (kept: Option<String>)
        ensures
            kept == (if self.save_password {
                password
            } else {
                None
            }),
    {
        if self.save_password {
            password
        } else {
            None
        }
    }
}

} // verus!
