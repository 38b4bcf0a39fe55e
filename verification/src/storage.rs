//! Content-addressed storage paths.
//!
//! Reading and writing the files themselves is I/O and belongs to the
//! embedding program; this module computes where a blob lives: a two-level
//! directory fan-out taken from the checksum's leading characters.

use vstd::prelude::*;
use vstd::string::{StrSliceExecFns, StringExecFns};
use crate::file_service::{ext_of, ext_scan, file_part};
use crate::textform::push_char;

verus! {

/// The relative path of a blob: `<base>/<c0c1>/<c2c3>/<checksum><extension>`.
pub open spec fn spec_file_path(
    base: Seq<char>,
    checksum: Seq<char>,
    extension: Seq<char>,
) -> Seq<char> {
    base + seq!['/'] + checksum.subrange(0, 2) + seq!['/'] + checksum.subrange(2, 4)
        + seq!['/'] + checksum + extension
}

/// Plans storage locations under one base directory and a size ceiling.
#[derive(Debug, Clone)]
pub struct LocalStorageService {
    pub storage_path: String,
    pub max_file_size: u64,
}

impl LocalStorageService {
    /// A service rooted at `storage_path`; creating the directory is the
    /// embedding program's business.
    pub fn new(storage_path: String, max_file_size: u64) -> (r: LocalStorageService)
        ensures
            r.storage_path == storage_path,
            r.max_file_size == max_file_size,
    {
        LocalStorageService { storage_path, max_file_size }
    }

    /// The path for a blob: two directory levels from the checksum's first
    /// four characters, then the checksum with the extension appended.
    pub fn generate_file_path(&self, checksum: &str, extension: &str) -> (r: String)
        requires
            checksum@.len() >= 4,
        ensures
            r@ == spec_file_path(self.storage_path@, checksum@, extension@),
    {
        let mut s = self.storage_path.clone();
        push_char(&mut s, '/');
        let prefix = checksum.substring_char(0, 2);
        s.append(prefix);
        push_char(&mut s, '/');
        let subdir = checksum.substring_char(2, 4);
        s.append(subdir);
        push_char(&mut s, '/');
        s.append(checksum);
        s.append(extension);
        proof {
            assert(s@ =~= spec_file_path(self.storage_path@, checksum@, extension@));
        }
        s
    }

    /// The extension of `filename` with a leading dot, or the empty string
    /// when it has none.
    pub fn extract_extension(filename: &str) -> (r: String)
        ensures
            match ext_of(filename@) {
                Some(e) => r@ == seq!['.'] + e,
                None => r@ == Seq::<char>::empty(),
            },
    {
        match crate::file_service::DefaultFileService::get_file_extension_raw(filename) {
            Some(ext) => {
                let mut s = String::new();
                push_char(&mut s, '.');
                let r = s.concat(ext.as_str());
                proof {
                    assert(r@ =~= seq!['.'] + ext_of(filename@).unwrap());
                }
                r
            },
            None => String::new(),
        }
    }
}

} // verus!
