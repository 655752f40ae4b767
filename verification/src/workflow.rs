//! The course of one run, as a machine that a driver steps through.
//!
//! The machine asks for one action at a time ([`Installer::pending`]). The
//! driver performs it and reports what happened ([`Installer::advance`]).
//! A failure before the preference root is known ends the run; whatever
//! goes wrong after that costs one file or one version, and the run goes on.

use crate::icons::{
    announced_icons, arrived, construct_icons_url, icon_address, icon_url, icon_views, image_view,
    received, shelf_address, shelf_file_url, store_payload, Icon, IconView,
};
use crate::locate::{
    found_view, get_maya_directory, get_maya_icons_directory, get_maya_installed_versions,
    get_maya_shelf_directory, icons_directory, icons_directory_of, installed_versions,
    installed_versions_are_the_named_years, set_maya_directory, shelf_directory,
    shelf_directory_of,
};
use crate::manifest::{check_json, checked, parsed_view, InstallError, Shelf, ShelfView};
use crate::paths::{MayaPath, MayaPathView};
use crate::text::texts;
use vstd::prelude::*;
use vstd::string::StringExecFns;

verus! {

/// The address of the manifest.
pub const AIV_SHELF_URL: &'static str = "https://www.giorgiopomettini.eu/aiv_shelf.json";

/// Why a text document did not arrive.
#[derive(Clone, Copy, Debug, PartialEq, Eq, Structural)]
pub enum FetchFailure {
    /// The request could not be completed.
    Transport,
    /// The response body is no text.
    Decode,
}

/// The error that ends the run when the manifest document does not arrive.
/// The shelf script knows one failure only: whatever keeps it from
/// arriving as text counts as a failed transport.
pub open spec fn failure_error(failure: FetchFailure) -> InstallError {
    match failure {
        FetchFailure::Transport => InstallError::Transport,
        FetchFailure::Decode => InstallError::Decode,
    }
}

/// What the driver reports after it has performed an action.
#[derive(Debug)]
pub enum Event {
    /// The text document that was asked for, or why it did not arrive.
    Text(Result<String, FetchFailure>),
    /// The manifest that the document was parsed into, or the parser's error.
    Manifest(Result<Shelf, serde_json::Error>),
    /// The image that was asked for, or nothing if the request failed.
    Image(Option<Vec<u8>>),
    /// The place where the preference root would be, or nothing if the
    /// user's home directory cannot be determined.
    Candidate(Option<MayaPath>),
    /// Whether the location that was asked about is present on disk.
    Present(bool),
    /// The names of the directories in the directory that was to be listed.
    Entries(Vec<String>),
    /// Whether the file was written.
    Written(bool),
}

/// A report as a mathematical value.
pub enum EventView {
    Text(Result<Seq<char>, FetchFailure>),
    Manifest(Option<ShelfView>),
    Image(Option<Seq<u8>>),
    Candidate(Option<MayaPathView>),
    Present(bool),
    Entries(Seq<Seq<char>>),
    Written(bool),
}

impl View for Event {
    type V = EventView;

    open spec fn view(&self) -> EventView {
        match *self {
            Event::Text(Ok(text)) => EventView::Text(Ok(text@)),
            Event::Text(Err(failure)) => EventView::Text(Err(failure)),
            Event::Manifest(parsed) => EventView::Manifest(parsed_view(parsed)),
            Event::Image(outcome) => EventView::Image(image_view(outcome)),
            Event::Candidate(candidate) => EventView::Candidate(found_view(candidate)),
            Event::Present(present) => EventView::Present(present),
            Event::Entries(names) => EventView::Entries(texts(names@)),
            Event::Written(done) => EventView::Written(done),
        }
    }
}

/// What the machine asks the driver to do next.
#[derive(Debug, PartialEq, Eq)]
pub enum Action {
    /// Fetch the text document at this address.
    FetchText(String),
    /// Parse this document as a manifest.
    ParseManifest(String),
    /// Fetch the image at this address.
    FetchImage(String),
    /// Find the place where the preference root would be.
    FindRoot,
    /// Find out whether this location is present on disk.
    Probe(MayaPath),
    /// List the names of the directories in this directory.
    List(MayaPath),
    /// Write this text to this file, replacing what is there.
    WriteText(MayaPath, String),
    /// Write this image to this file, replacing what is there.
    WriteImage(MayaPath, Vec<u8>),
    /// The installation is complete: there is nothing left to do.
    Finish,
    /// The run has failed: there is nothing left to do.
    Abort(InstallError),
}

/// An action as a mathematical value.
pub enum ActionView {
    FetchText(Seq<char>),
    ParseManifest(Seq<char>),
    FetchImage(Seq<char>),
    FindRoot,
    Probe(MayaPathView),
    List(MayaPathView),
    WriteText(MayaPathView, Seq<char>),
    WriteImage(MayaPathView, Seq<u8>),
    Finish,
    Abort(InstallError),
}

impl View for Action {
    type V = ActionView;

    open spec fn view(&self) -> ActionView {
        match *self {
            Action::FetchText(url) => ActionView::FetchText(url@),
            Action::ParseManifest(text) => ActionView::ParseManifest(text@),
            Action::FetchImage(url) => ActionView::FetchImage(url@),
            Action::FindRoot => ActionView::FindRoot,
            Action::Probe(path) => ActionView::Probe(path@),
            Action::List(path) => ActionView::List(path@),
            Action::WriteText(path, text) => ActionView::WriteText(path@, text@),
            Action::WriteImage(path, image) => ActionView::WriteImage(path@, image@),
            Action::Finish => ActionView::Finish,
            Action::Abort(error) => ActionView::Abort(error),
        }
    }
}

/// One line of the account that a run gives of itself. Versions are named
/// by their year, icons by their position in the list of icons.
#[derive(Clone, Copy, Debug, PartialEq, Eq, Structural)]
pub enum Notice {
    ManifestDownloaded,
    ManifestAccepted,
    ShelfDownloaded,
    IconDownloaded(usize),
    IconUnavailable(usize),
    RootFound,
    VersionStarted(usize),
    ShelfDirectoryFound(usize),
    ShelfDirectoryMissing(usize),
    Overwriting,
    ShelfWritten(usize),
    ShelfWriteFailed(usize),
    IconsDirectoryFound(usize),
    IconsDirectoryMissing(usize),
    IconWritten(usize, usize),
    IconWriteFailed(usize, usize),
    InstallationComplete,
}

/// Where a run stands: what it waits for. Versions are counted by their
/// position in the list of installed versions, icons by their position in
/// the list of icons.
#[derive(Clone, Copy, Debug, PartialEq, Eq, Structural)]
pub enum Stage {
    /// Waiting for the manifest document.
    Manifest,
    /// Waiting for the manifest to be parsed.
    Parsing,
    /// Waiting for the shelf script.
    ShelfScript,
    /// Waiting for the image of an icon.
    Image(usize),
    /// Waiting for the place of the preference root.
    Root,
    /// Waiting to learn whether the preference root is present.
    RootPresence,
    /// Waiting for the entries of the preference root.
    Versions,
    /// Waiting to learn whether a version has a shelf directory.
    ShelfDirectory(usize),
    /// Waiting to learn whether a version has a shelf file already.
    ShelfFile(usize),
    /// Waiting for the shelf file of a version to be written.
    ShelfWrite(usize),
    /// Waiting to learn whether a version has an icon directory.
    IconsDirectory(usize),
    /// Waiting to learn whether a version has the file of an icon already.
    IconFile(usize, usize),
    /// Waiting for the file of an icon to be written for a version.
    IconWrite(usize, usize),
    /// The installation is complete.
    Done,
    /// The run has failed.
    Failed(InstallError),
}

/// A run as a mathematical value.
pub struct InstallerView {
    pub stage: Stage,
    pub first: usize,
    pub last: usize,
    pub manifest_text: Seq<char>,
    pub shelf: ShelfView,
    pub shelf_text: Seq<char>,
    pub icons: Seq<IconView>,
    pub root: Option<MayaPathView>,
    pub versions: Seq<usize>,
    pub shelf_directory: Option<MayaPathView>,
    pub icons_directory: Option<MayaPathView>,
}

/// The position of the first icon at or after `from` that holds an image,
/// or the length of the list if there is none.
pub open spec fn next_loaded(icons: Seq<IconView>, from: int) -> int
    decreases icons.len() - from,
{
    if from < 0 || from >= icons.len() {
        icons.len() as int
    } else if icons[from].data.len() > 0 {
        from
    } else {
        next_loaded(icons, from + 1)
    }
}

impl InstallerView {
    /// What holds of every run: the stage speaks of a version and an icon
    /// that exist, the icon of a file to write holds an image, the root is
    /// known from the moment it has been looked for, the directory into
    /// which a file is to go is the one that was found for the version at
    /// hand, and the versions are in ascending order.
    pub open spec fn wf(self) -> bool {
        &&& match self.stage {
            Stage::Image(i) => i < self.icons.len(),
            Stage::RootPresence | Stage::Versions => self.root is Some,
            Stage::ShelfDirectory(k) | Stage::IconsDirectory(k) => {
                &&& self.root is Some
                &&& k < self.versions.len()
            },
            Stage::ShelfFile(k) | Stage::ShelfWrite(k) => {
                &&& self.root is Some
                &&& k < self.versions.len()
                &&& self.shelf_directory == Some(
                    shelf_directory_of(self.root->0, self.versions[k as int] as nat),
                )
            },
            Stage::IconFile(k, j) | Stage::IconWrite(k, j) => {
                &&& self.root is Some
                &&& k < self.versions.len()
                &&& j < self.icons.len()
                &&& self.icons[j as int].data.len() > 0
                &&& self.icons_directory == Some(
                    icons_directory_of(self.root->0, self.versions[k as int] as nat),
                )
            },
            _ => true,
        }
        &&& forall|i: int, j: int|
            0 <= i < j < self.versions.len() ==> self.versions[i] < self.versions[j]
    }

    /// The shelf file of the version at position `k`.
    pub open spec fn shelf_file(self, k: int) -> MayaPathView {
        shelf_directory_of(self.root->0, self.versions[k] as nat).child(self.shelf.shelf_name)
    }

    /// The file of the icon at position `j` for the version at position `k`.
    pub open spec fn icon_file(self, k: int, j: int) -> MayaPathView {
        icons_directory_of(self.root->0, self.versions[k] as nat).child(self.icons[j].name)
    }

    /// The action that the run waits for.
    pub open spec fn pending(self) -> ActionView {
        match self.stage {
            Stage::Manifest => ActionView::FetchText(AIV_SHELF_URL@),
            Stage::Parsing => ActionView::ParseManifest(self.manifest_text),
            Stage::ShelfScript => ActionView::FetchText(shelf_address(self.shelf)),
            Stage::Image(i) => ActionView::FetchImage(
                icon_address(self.shelf, self.icons[i as int]),
            ),
            Stage::Root => ActionView::FindRoot,
            Stage::RootPresence => ActionView::Probe(self.root->0),
            Stage::Versions => ActionView::List(self.root->0),
            Stage::ShelfDirectory(k) => ActionView::Probe(
                shelf_directory_of(self.root->0, self.versions[k as int] as nat),
            ),
            Stage::ShelfFile(k) => ActionView::Probe(self.shelf_file(k as int)),
            Stage::ShelfWrite(k) => ActionView::WriteText(
                self.shelf_file(k as int),
                self.shelf_text,
            ),
            Stage::IconsDirectory(k) => ActionView::Probe(
                icons_directory_of(self.root->0, self.versions[k as int] as nat),
            ),
            Stage::IconFile(k, j) => ActionView::Probe(self.icon_file(k as int, j as int)),
            Stage::IconWrite(k, j) => ActionView::WriteImage(
                self.icon_file(k as int, j as int),
                self.icons[j as int].data,
            ),
            Stage::Done => ActionView::Finish,
            Stage::Failed(error) => ActionView::Abort(error),
        }
    }

    /// The run at another stage.
    pub open spec fn at(self, stage: Stage) -> InstallerView {
        InstallerView { stage, ..self }
    }

    /// The run as it begins the version at position `k`, or as it ends if
    /// there is no such version. What was found out about the directories
    /// of the version before is forgotten.
    pub open spec fn begin(self, k: int) -> InstallerView {
        InstallerView {
            stage: self.version_stage(k),
            shelf_directory: None,
            icons_directory: None,
            ..self
        }
    }

    /// The run as it takes up the icons from position `j` on for the version
    /// at position `k`, or as it begins the next version if none of them
    /// holds an image.
    pub open spec fn resume(self, k: int, j: int) -> InstallerView {
        if self.icon_stage(k, j) is IconFile {
            self.at(self.icon_stage(k, j))
        } else {
            self.begin(k + 1)
        }
    }

    /// The stage at which the image of the icon at position `i` is fetched,
    /// or the search for the preference root if there is no such icon.
    pub open spec fn image_stage(self, i: int) -> Stage {
        if 0 <= i < self.icons.len() && i <= usize::MAX {
            Stage::Image(i as usize)
        } else {
            Stage::Root
        }
    }

    /// The stage at which the version at position `k` begins, or the end of
    /// the run if there is no such version.
    pub open spec fn version_stage(self, k: int) -> Stage {
        if 0 <= k < self.versions.len() && k <= usize::MAX {
            Stage::ShelfDirectory(k as usize)
        } else {
            Stage::Done
        }
    }

    /// What is noted when the version at position `k` begins, or when the
    /// run ends because there is no such version.
    pub open spec fn version_notices(self, k: int) -> Seq<Notice> {
        if self.version_stage(k) is ShelfDirectory {
            seq![Notice::VersionStarted(self.versions[k])]
        } else {
            seq![Notice::InstallationComplete]
        }
    }

    /// The stage at which the next icon at or after position `j` that holds
    /// an image is installed for the version at position `k`, or at which
    /// the next version begins if there is no such icon.
    pub open spec fn icon_stage(self, k: int, j: int) -> Stage {
        let next = next_loaded(self.icons, j);
        if next < self.icons.len() && next <= usize::MAX {
            Stage::IconFile(k as usize, next as usize)
        } else {
            self.version_stage(k + 1)
        }
    }

    /// What is noted when the icons from position `j` on are taken up for
    /// the version at position `k`.
    pub open spec fn icon_notices(self, k: int, j: int) -> Seq<Notice> {
        if self.icon_stage(k, j) is IconFile {
            Seq::empty()
        } else {
            self.version_notices(k + 1)
        }
    }

    /// The run after the driver has reported `event`. A report that does not
    /// answer the pending action changes nothing.
    pub open spec fn advanced(self, event: EventView) -> InstallerView {
        match (self.stage, event) {
            (Stage::Manifest, EventView::Text(Ok(text))) => InstallerView {
                stage: Stage::Parsing,
                manifest_text: text,
                ..self
            },
            (Stage::Manifest, EventView::Text(Err(failure))) => self.at(
                Stage::Failed(failure_error(failure)),
            ),
            (Stage::Parsing, EventView::Manifest(parsed)) => match checked(parsed) {
                Ok(shelf) => InstallerView { stage: Stage::ShelfScript, shelf, ..self },
                Err(error) => self.at(Stage::Failed(error)),
            },
            (Stage::ShelfScript, EventView::Text(Ok(text))) => {
                let fetched = InstallerView {
                    shelf_text: text,
                    icons: announced_icons(self.shelf),
                    ..self
                };
                fetched.at(fetched.image_stage(0))
            },
            (Stage::ShelfScript, EventView::Text(Err(_))) => self.at(
                Stage::Failed(InstallError::Transport),
            ),
            (Stage::Image(i), EventView::Image(outcome)) => InstallerView {
                stage: self.image_stage(i + 1),
                icons: self.icons.update(i as int, received(self.icons[i as int], outcome)),
                ..self
            },
            (Stage::Root, EventView::Candidate(Some(candidate))) => InstallerView {
                stage: Stage::RootPresence,
                root: Some(candidate),
                ..self
            },
            (Stage::Root, EventView::Candidate(None)) => self.at(
                Stage::Failed(InstallError::Environment),
            ),
            (Stage::RootPresence, EventView::Present(present)) => if present {
                self.at(Stage::Versions)
            } else {
                InstallerView {
                    stage: Stage::Failed(InstallError::RootNotFound),
                    root: None,
                    ..self
                }
            },
            (Stage::Versions, EventView::Entries(names)) => {
                let listed = InstallerView {
                    versions: installed_versions(names, self.first as int, self.last as int),
                    ..self
                };
                listed.begin(0)
            },
            (Stage::ShelfDirectory(k), EventView::Present(present)) => if present {
                InstallerView {
                    stage: Stage::ShelfFile(k),
                    shelf_directory: Some(
                        shelf_directory_of(self.root->0, self.versions[k as int] as nat),
                    ),
                    ..self
                }
            } else {
                self.begin(k + 1)
            },
            (Stage::ShelfFile(k), EventView::Present(_)) => self.at(Stage::ShelfWrite(k)),
            (Stage::ShelfWrite(k), EventView::Written(_)) => self.at(Stage::IconsDirectory(k)),
            (Stage::IconsDirectory(k), EventView::Present(present)) => if present {
                (InstallerView {
                    icons_directory: Some(
                        icons_directory_of(self.root->0, self.versions[k as int] as nat),
                    ),
                    ..self
                }).resume(k as int, 0)
            } else {
                self.begin(k + 1)
            },
            (Stage::IconFile(k, j), EventView::Present(_)) => self.at(Stage::IconWrite(k, j)),
            (Stage::IconWrite(k, j), EventView::Written(_)) => self.resume(k as int, j + 1),
            _ => self,
        }
    }

    /// What the run notes when the driver reports `event`, in order.
    pub open spec fn noticed(self, event: EventView) -> Seq<Notice> {
        match (self.stage, event) {
            (Stage::Manifest, EventView::Text(Ok(_))) => seq![Notice::ManifestDownloaded],
            (Stage::Parsing, EventView::Manifest(parsed)) => if checked(parsed) is Ok {
                seq![Notice::ManifestAccepted]
            } else {
                Seq::empty()
            },
            (Stage::ShelfScript, EventView::Text(Ok(_))) => seq![Notice::ShelfDownloaded],
            (Stage::Image(i), EventView::Image(outcome)) => if arrived(outcome) {
                seq![Notice::IconDownloaded(i)]
            } else {
                seq![Notice::IconUnavailable(i)]
            },
            (Stage::RootPresence, EventView::Present(true)) => seq![Notice::RootFound],
            (Stage::Versions, EventView::Entries(_)) => self.advanced(event).version_notices(0),
            (Stage::ShelfDirectory(k), EventView::Present(present)) => if present {
                seq![Notice::ShelfDirectoryFound(self.versions[k as int])]
            } else {
                seq![Notice::ShelfDirectoryMissing(self.versions[k as int])]
                    + self.version_notices(k + 1)
            },
            (Stage::ShelfFile(_), EventView::Present(present)) | (
                Stage::IconFile(_, _),
                EventView::Present(present),
            ) => if present {
                seq![Notice::Overwriting]
            } else {
                Seq::empty()
            },
            (Stage::ShelfWrite(k), EventView::Written(done)) => if done {
                seq![Notice::ShelfWritten(self.versions[k as int])]
            } else {
                seq![Notice::ShelfWriteFailed(self.versions[k as int])]
            },
            (Stage::IconsDirectory(k), EventView::Present(present)) => if present {
                seq![Notice::IconsDirectoryFound(self.versions[k as int])] + self.icon_notices(
                    k as int,
                    0,
                )
            } else {
                seq![Notice::IconsDirectoryMissing(self.versions[k as int])]
                    + self.version_notices(k + 1)
            },
            (Stage::IconWrite(k, j), EventView::Written(done)) => (if done {
                seq![Notice::IconWritten(self.versions[k as int], j)]
            } else {
                seq![Notice::IconWriteFailed(self.versions[k as int], j)]
            }) + self.icon_notices(k as int, j + 1),
            _ => Seq::empty(),
        }
    }
}

/// A run that has not begun, for the versions from `first` to `last`.
pub open spec fn fresh(first: usize, last: usize) -> InstallerView {
    InstallerView {
        stage: Stage::Manifest,
        first,
        last,
        manifest_text: Seq::empty(),
        shelf: ShelfView {
            response: Seq::empty(),
            shelf_url: Seq::empty(),
            shelf_name: Seq::empty(),
            icons_url: Seq::empty(),
            icons_name: Seq::empty(),
            icons_extension: Seq::empty(),
            icons_variants: Seq::empty(),
        },
        shelf_text: Seq::empty(),
        icons: Seq::empty(),
        root: None,
        versions: Seq::empty(),
        shelf_directory: None,
        icons_directory: None,
    }
}

/// One run of the installer.
pub struct Installer {
    stage: Stage,
    first: usize,
    last: usize,
    manifest_text: String,
    shelf: Shelf,
    shelf_text: String,
    icons: Vec<Icon>,
    root: Option<MayaPath>,
    versions: Vec<usize>,
    shelf_directory: Option<MayaPath>,
    icons_directory: Option<MayaPath>,
}

impl View for Installer {
    type V = InstallerView;

    closed spec fn view(&self) -> InstallerView {
        InstallerView {
            stage: self.stage,
            first: self.first,
            last: self.last,
            manifest_text: self.manifest_text@,
            shelf: self.shelf@,
            shelf_text: self.shelf_text@,
            icons: icon_views(self.icons@),
            root: found_view(self.root),
            versions: self.versions@,
            shelf_directory: found_view(self.shelf_directory),
            icons_directory: found_view(self.icons_directory),
        }
    }
}

/// The position of the first icon at or after `from` that holds an image,
/// or the length of the list if there is none.
fn next_loaded_icon(icons: &Vec<Icon>, from: usize) -> (next: usize)
    requires
        from <= icons.len(),
    ensures
        next == next_loaded(icon_views(icons@), from as int),
        from <= next <= icons.len(),
{
    let mut j: usize = from;
    while j < icons.len()
        invariant
            from <= j <= icons.len(),
            next_loaded(icon_views(icons@), from as int) == next_loaded(
                icon_views(icons@),
                j as int,
            ),
        decreases icons.len() - j,
    {
        if icons[j].data.len() > 0 {
            return j;
        }
        j = j + 1;
    }
    j
}

impl Installer {
    /// Every run is well-formed, at every moment.
    #[verifier::type_invariant]
    spec fn well_formed(self) -> bool {
        self@.wf()
    }

    /// A run that has not begun. It will take the years from `first` to
    /// `last` for versions of Maya.
    pub fn new(first: usize, last: usize) -> (installer: Installer)
        ensures
            installer@ == fresh(first, last),
            installer@.wf(),
    {
        let shelf = Shelf {
            response: String::new(),
            shelf_url: String::new(),
            shelf_name: String::new(),
            icons_url: String::new(),
            icons_name: Vec::new(),
            icons_extension: String::new(),
            icons_variants: Vec::new(),
        };
        let icons: Vec<Icon> = Vec::new();
        proof {
            assert(shelf@.icons_name =~= Seq::<Seq<char>>::empty());
            assert(shelf@.icons_variants =~= Seq::<Seq<char>>::empty());
            assert(icon_views(icons@) =~= Seq::<IconView>::empty());
        }
        Installer {
            stage: Stage::Manifest,
            first,
            last,
            manifest_text: String::new(),
            shelf,
            shelf_text: String::new(),
            icons,
            root: None,
            versions: Vec::new(),
            shelf_directory: None,
            icons_directory: None,
        }
    }

    /// Where the run stands.
    pub fn stage(&self) -> (stage: Stage)
        ensures
            stage == self@.stage,
    {
        self.stage
    }

    /// The icons that the manifest announces, with the images fetched so far.
    pub fn icons(&self) -> (icons: &Vec<Icon>)
        ensures
            icon_views(icons@) == self@.icons,
    {
        &self.icons
    }

    /// The installed versions that were found, in ascending order.
    pub fn versions(&self) -> (versions: &Vec<usize>)
        ensures
            versions@ == self@.versions,
    {
        &self.versions
    }

    fn root(&self) -> (root: &MayaPath)
        requires
            self@.root is Some,
        ensures
            root@ == self@.root->0,
    {
        self.root.as_ref().unwrap()
    }

    fn shelf_file(&self, k: usize) -> (file: MayaPath)
        requires
            self@.stage == Stage::ShelfFile(k) || self@.stage == Stage::ShelfWrite(k),
        ensures
            file@ == self@.shelf_file(k as int),
    {
        proof {
            use_type_invariant(self);
        }
        self.shelf_directory.as_ref().unwrap().join(self.shelf.shelf_name.as_str())
    }

    fn icon_file(&self, k: usize, j: usize) -> (file: MayaPath)
        requires
            self@.stage == Stage::IconFile(k, j) || self@.stage == Stage::IconWrite(k, j),
        ensures
            file@ == self@.icon_file(k as int, j as int),
    {
        proof {
            use_type_invariant(self);
        }
        self.icons_directory.as_ref().unwrap().join(self.icons[j].name.as_str())
    }

    /// The action that the run waits for. The driver performs it and reports
    /// what happened to [`Installer::advance`].
    pub fn pending(&self) -> (action: Action)
        ensures
            self@.wf(),
            action@ == self@.pending(),
    {
        proof {
            use_type_invariant(self);
        }
        match self.stage {
            Stage::Manifest => Action::FetchText(String::from_str(AIV_SHELF_URL)),
            Stage::Parsing => Action::ParseManifest(self.manifest_text.clone()),
            Stage::ShelfScript => Action::FetchText(shelf_file_url(&self.shelf)),
            Stage::Image(i) => Action::FetchImage(icon_url(&self.shelf, &self.icons[i])),
            Stage::Root => Action::FindRoot,
            Stage::RootPresence => Action::Probe(self.root().duplicate()),
            Stage::Versions => Action::List(self.root().duplicate()),
            Stage::ShelfDirectory(k) => Action::Probe(
                shelf_directory(self.root(), self.versions[k]),
            ),
            Stage::ShelfFile(k) => Action::Probe(self.shelf_file(k)),
            Stage::ShelfWrite(k) => Action::WriteText(
                self.shelf_file(k),
                self.shelf_text.clone(),
            ),
            Stage::IconsDirectory(k) => Action::Probe(
                icons_directory(self.root(), self.versions[k]),
            ),
            Stage::IconFile(k, j) => Action::Probe(self.icon_file(k, j)),
            Stage::IconWrite(k, j) => {
                let image = self.icons[j].data.clone();
                assert(image@ =~= self.icons[j as int].data@);
                Action::WriteImage(self.icon_file(k, j), image)
            },
            Stage::Done => Action::Finish,
            Stage::Failed(error) => Action::Abort(error),
        }
    }

    /// Begins the version at position `k`, or ends the run if there is none.
    fn enter_version(&mut self, k: usize, notices: &mut Vec<Notice>)
        requires
            old(self)@.root is Some,
        ensures
            final(self)@ == old(self)@.begin(k as int),
            final(notices)@ == old(notices)@ + old(self)@.version_notices(k as int),
    {
        proof {
            use_type_invariant(&*self);
        }
        if k < self.versions.len() {
            self.stage = Stage::ShelfDirectory(k);
            notices.push(Notice::VersionStarted(self.versions[k]));
        } else {
            self.stage = Stage::Done;
            notices.push(Notice::InstallationComplete);
        }
        self.shelf_directory = None;
        self.icons_directory = None;
        assert(notices@ =~= old(notices)@ + old(self)@.version_notices(k as int));
    }

    /// Takes up the icons from position `j` on for the version at position
    /// `k`, or begins the next version if none of them holds an image.
    fn enter_icon(&mut self, k: usize, j: usize, notices: &mut Vec<Notice>)
        requires
            old(self)@.root is Some,
            k < old(self)@.versions.len(),
            j <= old(self)@.icons.len(),
            old(self)@.icons_directory == Some(
                icons_directory_of(old(self)@.root->0, old(self)@.versions[k as int] as nat),
            ),
        ensures
            final(self)@ == old(self)@.resume(k as int, j as int),
            final(notices)@ == old(notices)@ + old(self)@.icon_notices(k as int, j as int),
    {
        proof {
            use_type_invariant(&*self);
        }
        assert(self.versions.len() == self@.versions.len());
        let next = next_loaded_icon(&self.icons, j);
        if next < self.icons.len() {
            proof {
                the_next_loaded_icon_holds_an_image(icon_views(self.icons@), j as int);
            }
            self.stage = Stage::IconFile(k, next);
            assert(notices@ =~= old(notices)@ + old(self)@.icon_notices(k as int, j as int));
        } else {
            self.enter_version(k + 1, notices);
        }
    }

    /// Takes in what the driver reports of the pending action, and tells what
    /// there is to note of it, in order. A report that does not answer the
    /// pending action changes nothing and notes nothing.
    pub fn advance(&mut self, event: Event) -> (notices: Vec<Notice>)
        ensures
            old(self)@.wf(),
            final(self)@ == old(self)@.advanced(event@),
            final(self)@.wf(),
            notices@ == old(self)@.noticed(event@),
    {
        proof {
            use_type_invariant(&*self);
        }
        let mut notices: Vec<Notice> = Vec::new();
        assert(self.versions.len() == self@.versions.len());
        assert(self.icons.len() == self@.icons.len());
        match (self.stage, event) {
            (Stage::Manifest, Event::Text(Ok(text))) => {
                self.manifest_text = text;
                self.stage = Stage::Parsing;
                notices.push(Notice::ManifestDownloaded);
            },
            (Stage::Manifest, Event::Text(Err(failure))) => {
                self.stage = Stage::Failed(failure_kind(failure));
            },
            (Stage::Parsing, Event::Manifest(parsed)) => {
                match check_json(parsed) {
                    Ok(shelf) => {
                        self.shelf = shelf;
                        self.stage = Stage::ShelfScript;
                        notices.push(Notice::ManifestAccepted);
                    },
                    Err(error) => {
                        self.stage = Stage::Failed(error);
                    },
                }
            },
            (Stage::ShelfScript, Event::Text(Ok(text))) => {
                self.shelf_text = text;
                self.icons = construct_icons_url(&self.shelf);
                self.stage = if self.icons.len() > 0 {
                    Stage::Image(0)
                } else {
                    Stage::Root
                };
                notices.push(Notice::ShelfDownloaded);
            },
            (Stage::ShelfScript, Event::Text(Err(_))) => {
                self.stage = Stage::Failed(InstallError::Transport);
            },
            (Stage::Image(i), Event::Image(outcome)) => {
                let stored = store_payload(&mut self.icons[i], outcome);
                self.stage = if i + 1 < self.icons.len() {
                    Stage::Image(i + 1)
                } else {
                    Stage::Root
                };
                if stored {
                    notices.push(Notice::IconDownloaded(i));
                } else {
                    notices.push(Notice::IconUnavailable(i));
                }
                assert(self@.icons =~= old(self)@.icons.update(
                    i as int,
                    received(old(self)@.icons[i as int], image_view(outcome)),
                ));
            },
            (Stage::Root, Event::Candidate(Some(candidate))) => {
                self.root = Some(candidate);
                self.stage = Stage::RootPresence;
            },
            (Stage::Root, Event::Candidate(None)) => {
                self.stage = Stage::Failed(InstallError::Environment);
            },
            (Stage::RootPresence, Event::Present(present)) => {
                let candidate = self.root().duplicate();
                match set_maya_directory(get_maya_directory(candidate, present)) {
                    Ok(root) => {
                        self.root = Some(root);
                        self.stage = Stage::Versions;
                        notices.push(Notice::RootFound);
                    },
                    Err(error) => {
                        self.stage = Stage::Failed(error);
                        self.root = None;
                    },
                }
            },
            (Stage::Versions, Event::Entries(names)) => {
                proof {
                    installed_versions_are_the_named_years(
                        texts(names@),
                        self.first as int,
                        self.last as int,
                    );
                }
                self.versions = get_maya_installed_versions(&names, self.first, self.last);
                self.enter_version(0, &mut notices);
            },
            (Stage::ShelfDirectory(k), Event::Present(present)) => {
                match get_maya_shelf_directory(self.root(), &self.versions[k], present) {
                    Some(directory) => {
                        self.shelf_directory = Some(directory);
                        self.stage = Stage::ShelfFile(k);
                        notices.push(Notice::ShelfDirectoryFound(self.versions[k]));
                    },
                    None => {
                        notices.push(Notice::ShelfDirectoryMissing(self.versions[k]));
                        self.enter_version(k + 1, &mut notices);
                    },
                }
            },
            (Stage::ShelfFile(k), Event::Present(present)) => {
                self.stage = Stage::ShelfWrite(k);
                if present {
                    notices.push(Notice::Overwriting);
                }
            },
            (Stage::ShelfWrite(k), Event::Written(done)) => {
                self.stage = Stage::IconsDirectory(k);
                if done {
                    notices.push(Notice::ShelfWritten(self.versions[k]));
                } else {
                    notices.push(Notice::ShelfWriteFailed(self.versions[k]));
                }
            },
            (Stage::IconsDirectory(k), Event::Present(present)) => {
                match get_maya_icons_directory(self.root(), &self.versions[k], present) {
                    Some(directory) => {
                        self.icons_directory = Some(directory);
                        notices.push(Notice::IconsDirectoryFound(self.versions[k]));
                        self.enter_icon(k, 0, &mut notices);
                    },
                    None => {
                        notices.push(Notice::IconsDirectoryMissing(self.versions[k]));
                        self.enter_version(k + 1, &mut notices);
                    },
                }
            },
            (Stage::IconFile(k, j), Event::Present(present)) => {
                self.stage = Stage::IconWrite(k, j);
                if present {
                    notices.push(Notice::Overwriting);
                }
            },
            (Stage::IconWrite(k, j), Event::Written(done)) => {
                if done {
                    notices.push(Notice::IconWritten(self.versions[k], j));
                } else {
                    notices.push(Notice::IconWriteFailed(self.versions[k], j));
                }
                self.enter_icon(k, j + 1, &mut notices);
            },
            _ => {},
        }
        proof {
            use_type_invariant(&*self);
        }
        assert(notices@ =~= old(self)@.noticed(event@));
        notices
    }
}

/// The error that ends the run when the manifest document does not arrive.
fn failure_kind(failure: FetchFailure) -> (error: InstallError)
    ensures
        error == failure_error(failure),
{
    match failure {
        FetchFailure::Transport => InstallError::Transport,
        FetchFailure::Decode => InstallError::Decode,
    }
}

/// The next icon that holds an image, if there is one, holds an image and
/// does not stand before the position from which it was looked for.
pub proof fn the_next_loaded_icon_holds_an_image(icons: Seq<IconView>, from: int)
    requires
        0 <= from,
    ensures
        next_loaded(icons, from) < icons.len() ==> from <= next_loaded(icons, from)
            && icons[next_loaded(icons, from)].data.len() > 0,
    decreases icons.len() - from,
{
    if from < icons.len() && icons[from].data.len() == 0 {
        the_next_loaded_icon_holds_an_image(icons, from + 1);
    }
}

} // verus!
