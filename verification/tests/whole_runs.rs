use shelf_installer::manifest::{InstallError, Shelf};
use shelf_installer::paths::MayaPath;
use shelf_installer::workflow::{Action, Event, FetchFailure, Installer, Notice};
use std::collections::{BTreeMap, BTreeSet};
use std::path::PathBuf;

fn strings(items: &[&str]) -> Vec<String> {
    items.iter().map(|item| item.to_string()).collect()
}

/// A machine with a network and a disk, both made up.
struct World {
    status: String,
    images: BTreeMap<String, Vec<u8>>,
    directories: BTreeSet<Vec<String>>,
    entries: Vec<String>,
    files: BTreeMap<Vec<String>, Vec<u8>>,
    read_only: BTreeSet<Vec<String>>,
}

fn root() -> MayaPath {
    MayaPath { home: PathBuf::from("/home/alice"), parts: strings(&["Documents", "maya"]) }
}

fn below_root(parts: &[&str]) -> Vec<String> {
    let mut all = strings(&["Documents", "maya"]);
    all.extend(strings(parts));
    all
}

fn world(versions_with_shelves: &[&str], versions_with_icons: &[&str], entries: &[&str]) -> World {
    let mut directories = BTreeSet::new();
    directories.insert(below_root(&[]));
    for version in versions_with_shelves {
        directories.insert(below_root(&[version, "prefs", "shelves"]));
    }
    for version in versions_with_icons {
        directories.insert(below_root(&[version, "prefs", "icons"]));
    }
    let mut images = BTreeMap::new();
    images.insert("https://y/a_1.png".to_string(), vec![1, 2, 3]);
    images.insert("https://y/a_2.png".to_string(), vec![4, 5]);
    World {
        status: "OK".to_string(),
        images,
        directories,
        entries: strings(entries),
        files: BTreeMap::new(),
        read_only: BTreeSet::new(),
    }
}

/// What a run did: the actions it asked for, what it noted, and how it ended.
struct Account {
    actions: Vec<Action>,
    notices: Vec<Notice>,
    end: Action,
}

fn present(world: &World, path: &MayaPath) -> bool {
    world.directories.contains(&path.parts) || world.files.contains_key(&path.parts)
}

fn write(world: &mut World, path: &MayaPath, content: Vec<u8>) -> bool {
    if world.read_only.contains(&path.parts) {
        false
    } else {
        world.files.insert(path.parts.clone(), content);
        true
    }
}

fn install(world: &mut World) -> Account {
    let mut run = Installer::new(2011, 2030);
    let mut actions = Vec::new();
    let mut notices = Vec::new();
    for _ in 0..1000 {
        let report = match run.pending() {
            Action::FetchText(url) => {
                if url == "https://www.giorgiopomettini.eu/aiv_shelf.json" {
                    Event::Text(Ok("the manifest".to_string()))
                } else if url == "https://x/s.mel" {
                    Event::Text(Ok("shelf body".to_string()))
                } else {
                    Event::Text(Err(FetchFailure::Transport))
                }
            }
            Action::ParseManifest(_) => Event::Manifest(Ok(Shelf {
                response: world.status.clone(),
                shelf_url: "https://x/".to_string(),
                shelf_name: "s.mel".to_string(),
                icons_url: "https://y/".to_string(),
                icons_name: strings(&["a"]),
                icons_extension: "png".to_string(),
                icons_variants: strings(&["_1", "_2"]),
            })),
            Action::FetchImage(url) => Event::Image(world.images.get(&url).cloned()),
            Action::FindRoot => Event::Candidate(Some(root())),
            Action::Probe(path) => Event::Present(present(world, &path)),
            Action::List(_) => Event::Entries(world.entries.clone()),
            Action::WriteText(path, text) => Event::Written(write(world, &path, text.into_bytes())),
            Action::WriteImage(path, image) => Event::Written(write(world, &path, image)),
            end => return Account { actions, notices, end },
        };
        actions.push(run.pending());
        notices.extend(run.advance(report));
    }
    panic!("the run does not end");
}

fn writes_of(account: &Account) -> Vec<Vec<String>> {
    account
        .actions
        .iter()
        .filter_map(|action| match action {
            Action::WriteText(path, _) | Action::WriteImage(path, _) => Some(path.parts.clone()),
            _ => None,
        })
        .collect()
}

#[test]
fn one_version_with_shelves_and_without_icons() {
    let mut world = world(&["2018"], &[], &["2018"]);
    let account = install(&mut world);
    assert_eq!(account.end, Action::Finish);
    assert_eq!(
        account.actions.iter().filter(|action| matches!(action, Action::FetchImage(_))).count(),
        2
    );
    assert!(account.actions.contains(&Action::FetchImage("https://y/a_1.png".to_string())));
    assert!(account.actions.contains(&Action::FetchImage("https://y/a_2.png".to_string())));
    assert_eq!(writes_of(&account), vec![below_root(&["2018", "prefs", "shelves", "s.mel"])]);
    assert_eq!(world.files.len(), 1);
    assert_eq!(
        world.files.get(&below_root(&["2018", "prefs", "shelves", "s.mel"])),
        Some(&b"shelf body".to_vec())
    );
    assert_eq!(account.notices.last(), Some(&Notice::InstallationComplete));
    assert_eq!(
        account.notices,
        vec![
            Notice::ManifestDownloaded,
            Notice::ManifestAccepted,
            Notice::ShelfDownloaded,
            Notice::IconDownloaded(0),
            Notice::IconDownloaded(1),
            Notice::RootFound,
            Notice::VersionStarted(2018),
            Notice::ShelfDirectoryFound(2018),
            Notice::ShelfWritten(2018),
            Notice::IconsDirectoryMissing(2018),
            Notice::InstallationComplete,
        ]
    );
}

#[test]
fn every_version_gets_the_shelf_and_the_icons() {
    let mut world = world(&["2016", "2018"], &["2016", "2018"], &["2018", "2016", "scripts"]);
    let account = install(&mut world);
    assert_eq!(account.end, Action::Finish);
    assert_eq!(
        writes_of(&account),
        vec![
            below_root(&["2016", "prefs", "shelves", "s.mel"]),
            below_root(&["2016", "prefs", "icons", "a_1.png"]),
            below_root(&["2016", "prefs", "icons", "a_2.png"]),
            below_root(&["2018", "prefs", "shelves", "s.mel"]),
            below_root(&["2018", "prefs", "icons", "a_1.png"]),
            below_root(&["2018", "prefs", "icons", "a_2.png"]),
        ]
    );
    assert_eq!(
        world.files.get(&below_root(&["2018", "prefs", "icons", "a_2.png"])),
        Some(&vec![4, 5])
    );
    assert_eq!(
        world.files.get(&below_root(&["2016", "prefs", "icons", "a_1.png"])),
        Some(&vec![1, 2, 3])
    );
}

#[test]
fn a_manifest_that_is_not_ok_touches_nothing() {
    let mut world = world(&["2018"], &["2018"], &["2018"]);
    world.status = "DEPRECATED".to_string();
    let account = install(&mut world);
    assert_eq!(account.end, Action::Abort(InstallError::ManifestRejected));
    assert_eq!(
        account.actions,
        vec![
            Action::FetchText("https://www.giorgiopomettini.eu/aiv_shelf.json".to_string()),
            Action::ParseManifest("the manifest".to_string()),
        ]
    );
    assert_eq!(account.notices, vec![Notice::ManifestDownloaded]);
    assert!(world.files.is_empty());
}

#[test]
fn a_version_without_shelves_gets_nothing_and_the_others_go_on() {
    let mut world = world(&["2015", "2019"], &["2015", "2017", "2019"], &["2015", "2017", "2019"]);
    let account = install(&mut world);
    assert_eq!(account.end, Action::Finish);
    assert!(world.files.keys().all(|path| path[2] != "2017"));
    assert!(account.actions.iter().all(|action| match action {
        Action::WriteText(path, _) | Action::WriteImage(path, _) => path.parts[2] != "2017",
        _ => true,
    }));
    assert!(world.files.contains_key(&below_root(&["2015", "prefs", "shelves", "s.mel"])));
    assert!(world.files.contains_key(&below_root(&["2019", "prefs", "shelves", "s.mel"])));
    assert!(world.files.contains_key(&below_root(&["2019", "prefs", "icons", "a_2.png"])));
    assert_eq!(world.files.len(), 6);
    assert!(account.notices.contains(&Notice::ShelfDirectoryMissing(2017)));
    assert!(!account.notices.contains(&Notice::IconsDirectoryFound(2017)));
}

#[test]
fn installing_twice_leaves_the_same_files() {
    let mut world = world(&["2016", "2018"], &["2018"], &["2016", "2018"]);
    let first = install(&mut world);
    let after_first = world.files.clone();
    let second = install(&mut world);
    assert_eq!(world.files, after_first);
    assert_eq!(writes_of(&first), writes_of(&second));
    assert_eq!(first.end, Action::Finish);
    assert_eq!(second.end, Action::Finish);
    assert_eq!(world.files.len(), 4);
    assert!(!first.notices.contains(&Notice::Overwriting));
    assert_eq!(
        second.notices.iter().filter(|notice| **notice == Notice::Overwriting).count(),
        4
    );
}

#[test]
fn files_that_cannot_be_written_cost_only_themselves() {
    let mut world = world(&["2016", "2018"], &["2016", "2018"], &["2016", "2018"]);
    world.read_only.insert(below_root(&["2016", "prefs", "shelves", "s.mel"]));
    world.read_only.insert(below_root(&["2018", "prefs", "icons", "a_1.png"]));
    let account = install(&mut world);
    assert_eq!(account.end, Action::Finish);
    assert_eq!(writes_of(&account).len(), 6);
    assert_eq!(world.files.len(), 4);
    assert!(account.notices.contains(&Notice::ShelfWriteFailed(2016)));
    assert!(account.notices.contains(&Notice::IconWriteFailed(2018, 0)));
    assert!(account.notices.contains(&Notice::IconWritten(2018, 1)));
    assert_eq!(account.notices.last(), Some(&Notice::InstallationComplete));
}

#[test]
fn an_icon_that_is_not_served_is_not_installed() {
    let mut world = world(&["2018"], &["2018"], &["2018"]);
    world.images.remove("https://y/a_1.png");
    let account = install(&mut world);
    assert_eq!(account.end, Action::Finish);
    assert_eq!(
        writes_of(&account),
        vec![
            below_root(&["2018", "prefs", "shelves", "s.mel"]),
            below_root(&["2018", "prefs", "icons", "a_2.png"]),
        ]
    );
    assert!(account.notices.contains(&Notice::IconUnavailable(0)));
}
