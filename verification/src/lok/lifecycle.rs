//! Versioning of the embedded LibreOffice runtime: which install is the
//! stable one, where a candidate install comes from, and whether the runtime
//! binary matches the pinned hash.

use vstd::prelude::*;

use crate::crypto::primitives::{blake3_digest, blake3_hash};
use crate::network::{nonempty, opt_str};
use crate::text::{chars_eq, chars_of, hex_lower, hex_text, join_path, path_join, trim, trim_ws};

verus! {

/// The compatibility matrix shipped with the node.
#[derive(Clone, Debug)]
pub struct CompatibilityMatrix {
    pub current_stable_core: String,
    pub minimum_required_version: String,
    pub embedded_hash_blake3: String,
    pub allowed_upstream_releases: Vec<String>,
}

/// The operating system the node runs on, as far as library names go.
#[derive(Clone, Copy, Debug, PartialEq, Eq, Structural)]
pub enum TargetOs {
    Windows,
    MacOs,
    Other,
}

/// File name of the runtime library on each operating system.
pub open spec fn lok_binary_name(os: TargetOs) -> Seq<char> {
    match os {
        TargetOs::Windows => "libreofficekit.dll"@,
        TargetOs::MacOs => "libreofficekit.dylib"@,
        TargetOs::Other => "libreofficekit.so"@,
    }
}

/// Path of the runtime library inside an install directory.
pub fn locate_lok_binary(install_path: &str, os: TargetOs) -> (p: String)
    ensures
        p@ == path_join(install_path@, lok_binary_name(os)),
{
    match os {
        TargetOs::Windows => join_path(install_path, "libreofficekit.dll"),
        TargetOs::MacOs => join_path(install_path, "libreofficekit.dylib"),
        TargetOs::Other => join_path(install_path, "libreofficekit.so"),
    }
}

/// Why the runtime binary was refused.
#[derive(Clone, Copy, Debug, PartialEq, Eq, Structural)]
pub enum LokHashError {
    BinaryNotFound,
    HashMismatch,
}

impl LokHashError {
    pub fn code(&self) -> (c: &'static str)
        ensures
            c@ == match *self {
                LokHashError::BinaryNotFound => "lok_binary_not_found"@,
                LokHashError::HashMismatch => "lok_hash_mismatch"@,
            },
    {
        match self {
            LokHashError::BinaryNotFound => "lok_binary_not_found",
            LokHashError::HashMismatch => "lok_hash_mismatch",
        }
    }
}

/// Placeholder hash text meaning that no hash is pinned.
pub open spec fn hash_placeholder() -> Seq<char> {
    "REPLACE_WITH_VERIFIED_BLAKE3_OF_LIBREOFFICEKIT_BINARY"@
}

/// Manager of the runtime versions, rooted at the project directory.
#[derive(Clone, Debug)]
pub struct CoreVersionManager {
    matrix: CompatibilityMatrix,
    project_root: String,
}

impl CoreVersionManager {
    pub closed spec fn stable_version(self) -> Seq<char> {
        self.matrix.current_stable_core@
    }

    pub closed spec fn pinned_hash(self) -> Seq<char> {
        self.matrix.embedded_hash_blake3@
    }

    pub closed spec fn root(self) -> Seq<char> {
        self.project_root@
    }

    /// A manager for the given matrix and project root.
    pub fn new(matrix: CompatibilityMatrix, project_root: String) -> (m: Self)
        ensures
            m.stable_version() == matrix.current_stable_core@,
            m.pinned_hash() == matrix.embedded_hash_blake3@,
            m.root() == project_root@,
    {
        CoreVersionManager { matrix, project_root }
    }

    pub fn current_stable_version(&self) -> (v: &str)
        ensures
            v@ == self.stable_version(),
    {
        self.matrix.current_stable_core.as_str()
    }

    pub fn project_root(&self) -> (r: &str)
        ensures
            r@ == self.root(),
    {
        self.project_root.as_str()
    }

    /// The candidate install directory named by its setting, when not empty.
    pub fn candidate_install_path(&self, setting: Option<&str>) -> (p: Option<String>)
        ensures
            match p {
                Some(s) => nonempty(opt_str(setting)) == Some(s@),
                None => nonempty(opt_str(setting)) is None,
            },
    {
        match setting {
            Some(v) => if v.is_empty() {
                None
            } else {
                Some(String::from_str(v))
            },
            None => None,
        }
    }

    /// The install directory of the stable runtime: the fallback setting when it
    /// is not empty, else `<root>/embedded/libreoffice/<stable version>/program`.
    pub open spec fn spec_stable_install_path(self, fallback: Option<Seq<char>>) -> Seq<char> {
        match nonempty(fallback) {
            Some(p) => p,
            None => path_join(
                path_join(
                    path_join(path_join(self.root(), "embedded"@), "libreoffice"@),
                    self.stable_version(),
                ),
                "program"@,
            ),
        }
    }

    pub fn stable_install_path(&self, fallback_setting: Option<&str>) -> (p: String)
        ensures
            p@ == self.spec_stable_install_path(opt_str(fallback_setting)),
    {
        if let Some(explicit) = fallback_setting {
            if !explicit.is_empty() {
                return String::from_str(explicit);
            }
        }
        let a = join_path(self.project_root.as_str(), "embedded");
        let b = join_path(a.as_str(), "libreoffice");
        let c = join_path(b.as_str(), self.current_stable_version());
        join_path(c.as_str(), "program")
    }

    /// Whether a hash is pinned: the trimmed hash text is neither empty nor the placeholder.
    pub open spec fn spec_hash_check_required(self) -> bool {
        let expected = trim_ws(self.pinned_hash());
        expected.len() != 0 && expected != hash_placeholder()
    }

    pub fn hash_check_required(&self) -> (r: bool)
        ensures
            r == self.spec_hash_check_required(),
    {
        let cs = chars_of(self.matrix.embedded_hash_blake3.as_str());
        let t = trim(cs.as_slice());
        let ph = chars_of("REPLACE_WITH_VERIFIED_BLAKE3_OF_LIBREOFFICEKIT_BINARY");
        t.len() != 0 && !chars_eq(t.as_slice(), ph.as_slice())
    }

    /// The verdict on the runtime binary, given its bytes (`None` when it cannot be read).
    pub open spec fn spec_verify_embedded_hash(self, binary: Option<Seq<u8>>) -> Result<(), LokHashError> {
        if !self.spec_hash_check_required() {
            Ok(())
        } else {
            match binary {
                None => Err(LokHashError::BinaryNotFound),
                Some(data) => if hex_text(blake3_digest(data)) != trim_ws(self.pinned_hash()) {
                    Err(LokHashError::HashMismatch)
                } else {
                    Ok(())
                },
            }
        }
    }

    /// Checks the runtime binary against the pinned hash.
    pub fn verify_embedded_hash(&self, binary: Option<&[u8]>) -> (r: Result<(), LokHashError>)
        ensures
            r == self.spec_verify_embedded_hash(match binary { Some(b) => Some(b@), None => None }),
    {
        if !self.hash_check_required() {
            return Ok(());
        }
        let data = match binary {
            None => return Err(LokHashError::BinaryNotFound),
            Some(d) => d,
        };
        let got = hex_lower(blake3_hash(data).as_slice());
        let got_chars = chars_of(got.as_str());
        let cs = chars_of(self.matrix.embedded_hash_blake3.as_str());
        let expected = trim(cs.as_slice());
        if !chars_eq(got_chars.as_slice(), expected.as_slice()) {
            return Err(LokHashError::HashMismatch);
        }
        Ok(())
    }
}

} // verus!

verus! {

use crate::text::{ancestor_dirs, ancestors};

/// The directories searched for the project root: the working directory and
/// up to eleven of its ancestors, nearest first.
pub fn project_root_candidates(current_dir: &str) -> (dirs: Vec<String>)
    ensures
        dirs@.map_values(|d: String| d@) == ancestors(current_dir@, 12),
{
    ancestor_dirs(current_dir, 12)
}

/// Where the compatibility matrix is read from under the project root: the
/// `core` directory, else the `config` directory.
pub fn matrix_paths(root: &str) -> (p: (String, String))
    ensures
        p.0@ == path_join(path_join(root@, "core"@), "compatibility_matrix.json"@),
        p.1@ == path_join(path_join(root@, "config"@), "compatibility_matrix.json"@),
{
    let core = join_path(root, "core");
    let config = join_path(root, "config");
    (join_path(core.as_str(), "compatibility_matrix.json"), join_path(config.as_str(), "compatibility_matrix.json"))
}

} // verus!
