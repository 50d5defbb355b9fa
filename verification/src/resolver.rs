//! Resolution of a package name to a target, a version and an artifact path.

use vstd::prelude::*;
use vstd::string::*;
use crate::manifest::{find_matches, matches_of, Located, Manifest, VersionSpec};
use crate::text::{decimal_text, decimal_u64, parse_u64, u64_to_string};

verus! {

/// Why a reference could not be resolved.
#[derive(Debug)]
pub enum ResolveError {
    /// No manifest in the start directory or any directory above it.
    ManifestNotFound { searched_from: String },
    /// The manifest could not be read.
    ManifestUnreadable { path: String, detail: String },
    /// The manifest does not have the expected structure.
    ManifestMalformed { path: String, detail: String },
    /// The user's home directory, below which the cache lies, is unknown.
    HomeDirectoryUnknown,
    /// No target depends on the package.
    PackageNotFound { package: String },
    /// More than one target depends on the package.
    AmbiguousTarget { package: String, targets: Vec<String> },
    /// The "latest" pointer of the package could not be read.
    LatestPointerMissing { path: String, detail: String, package: String },
    /// The "latest" pointer does not name a version number.
    LatestPointerMalformed { path: String, pointer: String, package: String },
    /// No interface file at the resolved path.
    ArtifactMissing { path: String, package: String },
}

/// A reference resolved to its artifact.
#[derive(Debug)]
pub struct ResolvedReference {
    pub target_id: String,
    pub package_name: String,
    pub version: u64,
    pub artifact_path: String,
}

/// What remains to be done to learn a version.
#[derive(Debug)]
pub enum VersionStep {
    /// The version is known; nothing is to be read.
    Resolved(u64),
    /// The pointer record at this path names the version.
    ReadPointer(String),
}

/// The items of `items`, each two neighbours parted by `separator`.
pub open spec fn joined(items: Seq<Seq<char>>, separator: Seq<char>) -> Seq<char>
    decreases items.len(),
{
    if items.len() == 0 {
        Seq::empty()
    } else if items.len() == 1 {
        items[0]
    } else {
        joined(items.drop_last(), separator) + separator + items.last()
    }
}

/// The views of a vector of strings.
pub open spec fn texts(items: Seq<String>) -> Seq<Seq<char>> {
    Seq::new(items.len(), |i: int| items[i]@)
}

/// The cache directory of a package of a target.
pub open spec fn package_dir_text(root: Seq<char>, target: Seq<char>, package: Seq<char>) -> Seq<
    char,
> {
    root + "/"@ + target + "/contracts/"@ + package
}

/// The path of the "latest" pointer of a package.
pub open spec fn pointer_path_text(root: Seq<char>, target: Seq<char>, package: Seq<char>) -> Seq<
    char,
> {
    package_dir_text(root, target, package) + "/latest"@
}

/// The path of the interface file of one version of a package.
pub open spec fn artifact_path_text(
    root: Seq<char>,
    target: Seq<char>,
    package: Seq<char>,
    version: u64,
) -> Seq<char> {
    package_dir_text(root, target, package) + "/"@ + decimal_text(version as nat) + "/abi.json"@
}

impl ResolveError {
    /// The message of an error, as text.
    pub open spec fn message_text(self) -> Seq<char> {
        match self {
            ResolveError::ManifestNotFound { searched_from } =>
                "cdm.json not found. Run 'cdm install' to create one. Searched from: "@
                    + searched_from@,
            ResolveError::ManifestUnreadable { path, detail } => "Failed to read "@ + path@ + ": "@
                + detail@,
            ResolveError::ManifestMalformed { path, detail } => "Failed to parse "@ + path@ + ": "@
                + detail@,
            ResolveError::HomeDirectoryUnknown => "Could not determine home directory"@,
            ResolveError::PackageNotFound { package } => "Package '"@ + package@
                + "' not found in cdm.json dependencies. Run 'cdm install "@ + package@
                + "' first."@,
            ResolveError::AmbiguousTarget { package, targets } => "Package '"@ + package@
                + "' found in multiple targets: ["@ + joined(texts(targets@), ", "@)
                + "]. Target disambiguation is not yet supported."@,
            ResolveError::LatestPointerMissing { path, detail, package } =>
                "Could not read latest symlink at "@ + path@ + ": "@ + detail@
                    + ". Run 'cdm install "@ + package@ + "' first."@,
            ResolveError::LatestPointerMalformed { path, pointer, package } =>
                "Could not parse version from latest symlink at "@ + path@ + ". Target: "@
                    + pointer@ + ". Run 'cdm install "@ + package@ + "' first."@,
            ResolveError::ArtifactMissing { path, package } => "ABI file not found at "@ + path@
                + ". Run 'cdm install "@ + package@ + "' to download it."@,
        }
    }

    /// The message that tells the user what went wrong and what to run.
    pub fn message(&self) -> (r: String)
        ensures
            r@ == self.message_text(),
    {
        match self {
            ResolveError::ManifestNotFound { searched_from } => {
                let mut out = String::from_str(
                    "cdm.json not found. Run 'cdm install' to create one. Searched from: ",
                );
                out.append(searched_from.as_str());
                out
            },
            ResolveError::ManifestUnreadable { path, detail } => {
                let mut out = String::from_str("Failed to read ");
                out.append(path.as_str());
                out.append(": ");
                out.append(detail.as_str());
                out
            },
            ResolveError::HomeDirectoryUnknown => String::from_str(
                "Could not determine home directory",
            ),
            ResolveError::ManifestMalformed { path, detail } => {
                let mut out = String::from_str("Failed to parse ");
                out.append(path.as_str());
                out.append(": ");
                out.append(detail.as_str());
                out
            },
            ResolveError::PackageNotFound { package } => {
                let mut out = String::from_str("Package '");
                out.append(package.as_str());
                out.append("' not found in cdm.json dependencies. Run 'cdm install ");
                out.append(package.as_str());
                out.append("' first.");
                out
            },
            ResolveError::AmbiguousTarget { package, targets } => {
                let list = join_names(targets);
                let mut out = String::from_str("Package '");
                out.append(package.as_str());
                out.append("' found in multiple targets: [");
                out.append(list.as_str());
                out.append("]. Target disambiguation is not yet supported.");
                out
            },
            ResolveError::LatestPointerMissing { path, detail, package } => {
                let mut out = String::from_str("Could not read latest symlink at ");
                out.append(path.as_str());
                out.append(": ");
                out.append(detail.as_str());
                out.append(". Run 'cdm install ");
                out.append(package.as_str());
                out.append("' first.");
                out
            },
            ResolveError::LatestPointerMalformed { path, pointer, package } => {
                let mut out = String::from_str("Could not parse version from latest symlink at ");
                out.append(path.as_str());
                out.append(". Target: ");
                out.append(pointer.as_str());
                out.append(". Run 'cdm install ");
                out.append(package.as_str());
                out.append("' first.");
                out
            },
            ResolveError::ArtifactMissing { path, package } => {
                let mut out = String::from_str("ABI file not found at ");
                out.append(path.as_str());
                out.append(". Run 'cdm install ");
                out.append(package.as_str());
                out.append("' to download it.");
                out
            },
        }
    }
}

/// Joins names with a comma and a space between each two.
pub fn join_names(items: &Vec<String>) -> (r: String)
    ensures
        r@ == joined(texts(items@), ", "@),
{
    let mut out = String::new();
    let mut i: usize = 0;
    while i < items.len()
        invariant
            i <= items.len(),
            out@ == joined(texts(items@).subrange(0, i as int), ", "@),
        decreases items.len() - i,
    {
        proof {
            let next = texts(items@).subrange(0, i + 1);
            assert(next.last() == items[i as int]@);
            assert(next.drop_last() =~= texts(items@).subrange(0, i as int));
        }
        if i > 0 {
            out.append(", ");
            out.append(items[i].as_str());
        } else {
            out.append(items[i].as_str());
            assert(out@ =~= items[i as int]@);
        }
        i += 1;
    }
    assert(texts(items@).subrange(0, items.len() as int) =~= texts(items@));
    out
}

/// Finds the one target that depends on `package_name`.
///
/// Fails with `PackageNotFound` where no target depends on it, and with
/// `AmbiguousTarget` and all the targets that do where more than one does.
pub fn find_package(manifest: &Manifest, package_name: &str) -> (r: Result<Located, ResolveError>)
    ensures
        ({
            let found = matches_of(manifest.dependencies@, package_name@);
            match r {
                Ok(located) => found.len() == 1 && located.target_id@ == found[0].0
                    && located.version == found[0].1,
                Err(ResolveError::PackageNotFound { package }) => found.len() == 0 && package@
                    == package_name@,
                Err(ResolveError::AmbiguousTarget { package, targets }) => found.len() > 1
                    && package@ == package_name@ && targets.len() == found.len() && forall|a: int|
                    0 <= a < found.len() ==> (#[trigger] targets[a])@ == found[a].0,
                Err(_) => false,
            }
        }),
{
    let name = String::from_str(package_name);
    let mut found = find_matches(manifest, &name);
    if found.len() == 0 {
        return Err(ResolveError::PackageNotFound { package: name });
    }
    if found.len() == 1 {
        let only = found.pop().unwrap();
        return Ok(only);
    }
    let mut targets: Vec<String> = Vec::new();
    let mut i: usize = 0;
    while i < found.len()
        invariant
            i <= found.len(),
            targets.len() == i,
            forall|a: int| 0 <= a < i ==> (#[trigger] targets[a])@ == found[a].target_id@,
        decreases found.len() - i,
    {
        targets.push(found[i].target_id.clone());
        i += 1;
    }
    Err(ResolveError::AmbiguousTarget { package: name, targets })
}

/// The root of the artifact cache: the directory `.cdm` in the user's home
/// directory. Fails with `HomeDirectoryUnknown` where there is no home
/// directory.
pub fn cache_root(home: Option<String>) -> (r: Result<String, ResolveError>)
    ensures
        match home {
            Some(dir) => r matches Ok(root) && root@ == dir@ + "/.cdm"@,
            None => r matches Err(ResolveError::HomeDirectoryUnknown),
        },
{
    match home {
        Some(dir) => {
            let mut root = dir;
            root.append("/.cdm");
            Ok(root)
        },
        None => Err(ResolveError::HomeDirectoryUnknown),
    }
}

fn package_dir(cdm_root: &str, target_id: &str, package_name: &str) -> (r: String)
    ensures
        r@ == package_dir_text(cdm_root@, target_id@, package_name@),
{
    let mut out = String::from_str(cdm_root);
    out.append("/");
    out.append(target_id);
    out.append("/contracts/");
    out.append(package_name);
    out
}

/// The path of the "latest" pointer of a package in the cache.
pub fn latest_pointer_path(cdm_root: &str, target_id: &str, package_name: &str) -> (r: String)
    ensures
        r@ == pointer_path_text(cdm_root@, target_id@, package_name@),
{
    let mut out = package_dir(cdm_root, target_id, package_name);
    out.append("/latest");
    out
}

/// The path of the interface file of one version of a package in the cache.
pub fn artifact_path(cdm_root: &str, target_id: &str, package_name: &str, version: u64) -> (r:
    String)
    ensures
        r@ == artifact_path_text(cdm_root@, target_id@, package_name@, version),
{
    let number = u64_to_string(version);
    let mut out = package_dir(cdm_root, target_id, package_name);
    out.append("/");
    out.append(number.as_str());
    out.append("/abi.json");
    out
}

/// Says how the version of a located package is learnt: a pinned version is
/// known at once, and only a "latest" specifier asks for the pointer record.
pub fn plan_version(cdm_root: &str, located: &Located, package_name: &str) -> (r: VersionStep)
    ensures
        match located.version {
            VersionSpec::Pinned(v) => r == VersionStep::Resolved(v),
            VersionSpec::Latest => r matches VersionStep::ReadPointer(path) && path@
                == pointer_path_text(cdm_root@, located.target_id@, package_name@),
        },
{
    match located.version {
        VersionSpec::Pinned(v) => VersionStep::Resolved(v),
        VersionSpec::Latest => VersionStep::ReadPointer(
            latest_pointer_path(cdm_root, located.target_id.as_str(), package_name),
        ),
    }
}

/// The version that a pointer record names.
///
/// `read` is what reading the record at `pointer_path` gave: the name it refers
/// to, or why it could not be read. The version is the number that the name
/// spells in decimal.
pub fn version_from_pointer(pointer_path: &str, package_name: &str, read: Result<String, String>) -> (r:
    Result<u64, ResolveError>)
    ensures
        match read {
            Ok(name) => match decimal_u64(name@) {
                Some(v) => r == Ok::<u64, ResolveError>(v),
                None => r matches Err(
                    ResolveError::LatestPointerMalformed { path, pointer, package },
                ) && path@ == pointer_path@ && pointer@ == name@ && package@ == package_name@,
            },
            Err(why) => r matches Err(ResolveError::LatestPointerMissing { path, detail, package })
                && path@ == pointer_path@ && detail@ == why@ && package@ == package_name@,
        },
{
    match read {
        Ok(name) => match parse_u64(name.as_str()) {
            Some(v) => Ok(v),
            None => Err(
                ResolveError::LatestPointerMalformed {
                    path: String::from_str(pointer_path),
                    pointer: name,
                    package: String::from_str(package_name),
                },
            ),
        },
        Err(why) => Err(
            ResolveError::LatestPointerMissing {
                path: String::from_str(pointer_path),
                detail: why,
                package: String::from_str(package_name),
            },
        ),
    }
}

/// Completes a resolution once it is known whether the interface file exists:
/// the resolved reference where it does, `ArtifactMissing` where it does not.
pub fn locate_artifact(
    cdm_root: &str,
    target_id: &str,
    package_name: &str,
    version: u64,
    exists: bool,
) -> (r: Result<ResolvedReference, ResolveError>)
    ensures
        ({
            let expected = artifact_path_text(cdm_root@, target_id@, package_name@, version);
            match r {
                Ok(found) => exists && found.target_id@ == target_id@ && found.package_name@
                    == package_name@ && found.version == version && found.artifact_path@
                    == expected,
                Err(ResolveError::ArtifactMissing { path, package }) => !exists && path@
                    == expected && package@ == package_name@,
                Err(_) => false,
            }
        }),
{
    let path = artifact_path(cdm_root, target_id, package_name, version);
    if exists {
        Ok(
            ResolvedReference {
                target_id: String::from_str(target_id),
                package_name: String::from_str(package_name),
                version,
                artifact_path: path,
            },
        )
    } else {
        Err(ResolveError::ArtifactMissing { path, package: String::from_str(package_name) })
    }
}

} // verus!
