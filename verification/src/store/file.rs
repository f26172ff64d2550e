//! A credential that is kept in a file.
use vstd::prelude::*;

use crate::path::{file_name, file_name_of, renamed_file, with_file_name};
use crate::store::StoreError;
use crate::text::{decimal, decimal_of, join3};

verus! {

/// A file that holds the credential of the active account.
pub struct FileStore {
    path: String,
    permissions: u32,
}

impl FileStore {
    /// Where the credential lies.
    pub closed spec fn location(&self) -> Seq<char> {
        self.path@
    }

    /// The permissions that the file is created with.
    pub closed spec fn mode(&self) -> u32 {
        self.permissions
    }

    pub fn new(path: String, permissions: u32) -> (r: FileStore)
        ensures
            r.location() == path@,
            r.mode() == permissions,
    {
        FileStore { path, permissions }
    }

    pub fn path(&self) -> (r: &str)
        ensures
            r@ == self.location(),
    {
        self.path.as_str()
    }

    pub fn permissions(&self) -> (r: u32)
        ensures
            r == self.mode(),
    {
        self.permissions
    }

    /// Where the process `pid` writes the credential before it takes its place.
    pub fn temp_path(&self, pid: u32) -> (r: String)
        ensures
            r@ == renamed_file(
                self.location(),
                (match file_name_of(self.location()) {
                    Some(name) => name,
                    None => "credential"@,
                }) + ".tmp."@ + decimal_of(pid as nat),
            ),
    {
        let name = match file_name(self.path.as_str()) {
            Some(name) => name,
            None => "credential".to_owned(),
        };
        let temp = join3(name.as_str(), ".tmp.", decimal(pid as u64).as_str());
        with_file_name(self.path.as_str(), temp.as_str())
    }

    /// Why reading the file failed.
    pub fn read_failure(&self, not_found: bool) -> (r: StoreError)
        ensures
            match r {
                StoreError::NotFound { path } => not_found && path@ == self.location(),
                StoreError::Read { path } => !not_found && path@ == self.location(),
                _ => false,
            },
    {
        if not_found {
            StoreError::NotFound { path: self.path.clone() }
        } else {
            StoreError::Read { path: self.path.clone() }
        }
    }
}

} // verus!
