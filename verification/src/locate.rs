//! Where Maya keeps its preferences, and which versions are installed.

use crate::decimal::{decimal, version_name};
use crate::manifest::InstallError;
use crate::paths::{MayaPath, MayaPathView};
use crate::text::texts;
use std::path::PathBuf;
use vstd::prelude::*;
use vstd::string::StringExecFns;

verus! {

/// The operating systems that the platform detection tells apart.
#[derive(Clone, Copy, Debug, PartialEq, Eq, Structural)]
pub enum Platform {
    Unknown,
    Redhat,
    OSX,
    Ubuntu,
    Debian,
    Arch,
    Manjaro,
    CentOS,
    OpenSUSE,
    Alpine,
    Deepin,
    NixOS,
    Kali,
}

/// Asks `dirs::home_dir` for the user's home directory. The answer depends
/// on the environment of the process, so nothing is claimed of it.
#[verifier::external_body]
fn home_directory() -> Option<PathBuf> {
    dirs::home_dir()
}

/// Asks `os_type::current_platform` which operating system this is, and
/// names the kind it reports by the variant of the same name. The answer
/// depends on the machine, so nothing is claimed of it.
#[verifier::external_body]
fn current_platform() -> Platform {
    match os_type::current_platform().os_type {
        os_type::OSType::Unknown => Platform::Unknown,
        os_type::OSType::Redhat => Platform::Redhat,
        os_type::OSType::OSX => Platform::OSX,
        os_type::OSType::Ubuntu => Platform::Ubuntu,
        os_type::OSType::Debian => Platform::Debian,
        os_type::OSType::Arch => Platform::Arch,
        os_type::OSType::Manjaro => Platform::Manjaro,
        os_type::OSType::CentOS => Platform::CentOS,
        os_type::OSType::OpenSUSE => Platform::OpenSUSE,
        os_type::OSType::Alpine => Platform::Alpine,
        os_type::OSType::Deepin => Platform::Deepin,
        os_type::OSType::NixOS => Platform::NixOS,
        os_type::OSType::Kali => Platform::Kali,
    }
}

/// The way from the home directory to the preference root of Maya: on OS X
/// `Library/Preferences/Autodesk/maya`, elsewhere `Documents/maya`.
pub open spec fn root_parts(platform: Platform) -> Seq<Seq<char>> {
    if platform == Platform::OSX {
        seq!["Library"@, "Preferences"@, "Autodesk"@, "maya"@]
    } else {
        seq!["Documents"@, "maya"@]
    }
}

/// The place where Maya's preference root would be for a user with the
/// given home directory on the given platform.
pub open spec fn root_candidate(home: PathBuf, platform: Platform) -> MayaPathView {
    MayaPathView { home, parts: root_parts(platform) }
}

/// The place where Maya's preference root would be for a user with the
/// given home directory on the given platform.
pub fn maya_directory_for(home: PathBuf, platform: Platform) -> (candidate: MayaPath)
    ensures
        candidate@ == root_candidate(home, platform),
{
    let mut parts: Vec<String> = Vec::new();
    match platform {
        Platform::OSX => {
            parts.push(String::from_str("Library"));
            parts.push(String::from_str("Preferences"));
            parts.push(String::from_str("Autodesk"));
            parts.push(String::from_str("maya"));
        },
        _ => {
            parts.push(String::from_str("Documents"));
            parts.push(String::from_str("maya"));
        },
    }
    let candidate = MayaPath { home, parts };
    assert(candidate@.parts =~= root_parts(platform));
    candidate
}

/// The place where Maya's preference root would be for the current user on
/// this machine, or nothing if the user's home directory cannot be
/// determined. Whether the place exists is for the caller to find out.
pub fn maya_directory_candidate() -> (candidate: Option<MayaPath>)
    ensures
        match candidate {
            Some(path) => exists|platform: Platform|
                path@.parts == #[trigger] root_parts(platform),
            None => true,
        },
{
    match home_directory() {
        Some(home) => {
            let platform = current_platform();
            let path = maya_directory_for(home, platform);
            assert(path@.parts == root_parts(platform));
            Some(path)
        },
        None => None,
    }
}

/// A location that may be missing, as a mathematical value.
pub open spec fn found_view(found: Option<MayaPath>) -> Option<MayaPathView> {
    match found {
        Some(path) => Some(path@),
        None => None,
    }
}

/// The preference root of Maya: the candidate if it is present on disk,
/// nothing otherwise.
pub fn get_maya_directory(candidate: MayaPath, present: bool) -> (found: Option<MayaPath>)
    ensures
        found_view(found) == if present {
            Some(candidate@)
        } else {
            None
        },
{
    if present {
        Some(candidate)
    } else {
        None
    }
}

/// Insists on a preference root: a run cannot go on without one.
pub fn set_maya_directory(found: Option<MayaPath>) -> (root: Result<MayaPath, InstallError>)
    ensures
        match found {
            Some(path) => root == Ok::<MayaPath, InstallError>(path),
            None => root == Err::<MayaPath, InstallError>(InstallError::RootNotFound),
        },
{
    match found {
        Some(path) => Ok(path),
        None => Err(InstallError::RootNotFound),
    }
}

/// The directory of one version below the root: it is named like the year.
pub open spec fn version_directory_of(root: MayaPathView, version: nat) -> MayaPathView {
    root.child(decimal(version))
}

/// The directory of one version's preferences below the root.
pub open spec fn prefs_directory_of(root: MayaPathView, version: nat) -> MayaPathView {
    version_directory_of(root, version).child("prefs"@)
}

/// The directory into which the shelf script of one version goes.
pub open spec fn shelf_directory_of(root: MayaPathView, version: nat) -> MayaPathView {
    prefs_directory_of(root, version).child("shelves"@)
}

/// The directory into which the icons of one version go.
pub open spec fn icons_directory_of(root: MayaPathView, version: nat) -> MayaPathView {
    prefs_directory_of(root, version).child("icons"@)
}

fn prefs_directory(maya_path: &MayaPath, maya_version: usize) -> (directory: MayaPath)
    ensures
        directory@ == prefs_directory_of(maya_path@, maya_version as nat),
{
    let name = version_name(maya_version);
    maya_path.join(name.as_str()).join("prefs")
}

/// Where the shelf script of one version goes, whether or not the directory
/// is there.
pub fn shelf_directory(maya_path: &MayaPath, maya_version: usize) -> (directory: MayaPath)
    ensures
        directory@ == shelf_directory_of(maya_path@, maya_version as nat),
{
    prefs_directory(maya_path, maya_version).join("shelves")
}

/// Where the icons of one version go, whether or not the directory is there.
pub fn icons_directory(maya_path: &MayaPath, maya_version: usize) -> (directory: MayaPath)
    ensures
        directory@ == icons_directory_of(maya_path@, maya_version as nat),
{
    prefs_directory(maya_path, maya_version).join("icons")
}

/// The shelf directory of one version: `<root>/<version>/prefs/shelves` if
/// it is present on disk, nothing otherwise. A version without one is no
/// error.
pub fn get_maya_shelf_directory(maya_path: &MayaPath, maya_version: &usize, present: bool) -> (found:
    Option<MayaPath>)
    ensures
        found_view(found) == if present {
            Some(shelf_directory_of(maya_path@, *maya_version as nat))
        } else {
            None
        },
{
    if present {
        Some(shelf_directory(maya_path, *maya_version))
    } else {
        None
    }
}

/// The icon directory of one version: `<root>/<version>/prefs/icons` if it
/// is present on disk, nothing otherwise. A version without one is no error.
pub fn get_maya_icons_directory(maya_path: &MayaPath, maya_version: &usize, present: bool) -> (found:
    Option<MayaPath>)
    ensures
        found_view(found) == if present {
            Some(icons_directory_of(maya_path@, *maya_version as nat))
        } else {
            None
        },
{
    if present {
        Some(icons_directory(maya_path, *maya_version))
    } else {
        None
    }
}

/// The versions from `first` to `last` that have a directory of their own
/// name among `children`, in ascending order.
pub open spec fn installed_versions(children: Seq<Seq<char>>, first: int, last: int) -> Seq<usize>
    decreases last - first + 1,
{
    if last < first {
        Seq::empty()
    } else {
        let earlier = installed_versions(children, first, last - 1);
        if children.contains(decimal(last as nat)) {
            earlier.push(last as usize)
        } else {
            earlier
        }
    }
}

/// The installed versions are exactly the years of the range that have a
/// child of their own name, each of them once and in ascending order.
pub proof fn installed_versions_are_the_named_years(
    children: Seq<Seq<char>>,
    first: int,
    last: int,
)
    requires
        0 <= first,
        last <= usize::MAX,
    ensures
        forall|year: int|
            first <= year <= last && children.contains(decimal(year as nat))
                <==> #[trigger] installed_versions(children, first, last).contains(year as usize)
                && 0 <= year <= usize::MAX,
        forall|i: int, j: int|
            0 <= i < j < installed_versions(children, first, last).len() ==> installed_versions(
                children,
                first,
                last,
            )[i] < installed_versions(children, first, last)[j],
        forall|i: int|
            0 <= i < installed_versions(children, first, last).len() ==> first <= (
            #[trigger] installed_versions(children, first, last)[i]) <= last,
    decreases last - first + 1,
{
    let versions = installed_versions(children, first, last);
    if last < first {
    } else {
        let earlier = installed_versions(children, first, last - 1);
        installed_versions_are_the_named_years(children, first, last - 1);
        assert forall|year: int|
            first <= year <= last && children.contains(decimal(year as nat)) implies (
        #[trigger] versions.contains(year as usize)) && 0 <= year <= usize::MAX by {
            if year == last {
                assert(versions.last() == last as usize);
            } else {
                assert(first <= year <= last - 1);
                assert(earlier.contains(year as usize));
                let k = choose|k: int| 0 <= k < earlier.len() && earlier[k] == year as usize;
                assert(versions[k] == year as usize);
            }
        }
        assert forall|year: int|
            (#[trigger] versions.contains(year as usize)) && 0 <= year <= usize::MAX implies first
            <= year <= last && children.contains(decimal(year as nat)) by {
            let k = choose|k: int| 0 <= k < versions.len() && versions[k] == year as usize;
            if k < earlier.len() {
                assert(earlier[k] == year as usize);
                assert(earlier.contains(year as usize));
            }
        }
    }
}

/// Whether `name` is one of `names`.
fn contains_name(names: &Vec<String>, name: &String) -> (found: bool)
    ensures
        found == texts(names@).contains(name@),
{
    let mut i: usize = 0;
    while i < names.len()
        invariant
            0 <= i <= names.len(),
            forall|k: int| 0 <= k < i ==> texts(names@)[k] != name@,
        decreases names.len() - i,
    {
        if names[i] == *name {
            assert(texts(names@)[i as int] == name@);
            return true;
        }
        i = i + 1;
    }
    false
}

/// The installed versions of Maya: the years from `first` to `last` for
/// which `children`, the names of the directories in the preference root,
/// hold a directory named like the year. Directories of other names are
/// ignored. The years come in ascending order, each of them once.
pub fn get_maya_installed_versions(children: &Vec<String>, first: usize, last: usize) -> (versions:
    Vec<usize>)
    ensures
        versions@ == installed_versions(texts(children@), first as int, last as int),
        forall|year: usize|
            versions@.contains(year) <==> first <= year <= last && texts(children@).contains(
                decimal(year as nat),
            ),
        forall|i: int, j: int| 0 <= i < j < versions.len() ==> versions[i] < versions[j],
{
    proof {
        let all = installed_versions(texts(children@), first as int, last as int);
        installed_versions_are_the_named_years(texts(children@), first as int, last as int);
        assert forall|year: usize|
            all.contains(year) <==> first <= year <= last && texts(children@).contains(
                decimal(year as nat),
            ) by {
            assert(all.contains((year as int) as usize) == all.contains(year));
        }
    }
    let mut versions: Vec<usize> = Vec::new();
    if last < first {
        return versions;
    }
    let mut year: usize = first;
    loop
        invariant_except_break
            first <= year <= last,
            versions@ == installed_versions(texts(children@), first as int, year - 1),
        ensures
            versions@ == installed_versions(texts(children@), first as int, last as int),
        decreases last - year,
    {
        let name = version_name(year);
        if contains_name(children, &name) {
            versions.push(year);
        }
        if year == last {
            break ;
        }
        year = year + 1;
    }
    versions
}

} // verus!
