use shelf_installer::manifest::{InstallError, Shelf};
use shelf_installer::paths::MayaPath;
use shelf_installer::workflow::{
    Action, Event, FetchFailure, Installer, Notice, Stage, AIV_SHELF_URL,
};
use std::path::PathBuf;

fn strings(items: &[&str]) -> Vec<String> {
    items.iter().map(|item| item.to_string()).collect()
}

fn manifest(status: &str) -> Shelf {
    Shelf {
        response: status.to_string(),
        shelf_url: "https://x/".to_string(),
        shelf_name: "s.mel".to_string(),
        icons_url: "https://y/".to_string(),
        icons_name: strings(&["a"]),
        icons_extension: "png".to_string(),
        icons_variants: strings(&["_1", "_2"]),
    }
}

fn root() -> MayaPath {
    MayaPath { home: PathBuf::from("/home/alice"), parts: strings(&["Documents", "maya"]) }
}

fn below_root(parts: &[&str]) -> MayaPath {
    let mut all = strings(&["Documents", "maya"]);
    all.extend(strings(parts));
    MayaPath { home: PathBuf::from("/home/alice"), parts: all }
}

fn parse_error() -> serde_json::Error {
    match serde_json::from_str::<serde_json::Value>("[1, 2") {
        Ok(_) => panic!("a truncated document must not parse"),
        Err(error) => error,
    }
}

/// A run that has fetched the assets of the usual manifest and waits for
/// the place of the preference root.
fn run_with_assets(first_image: Option<Vec<u8>>, second_image: Option<Vec<u8>>) -> Installer {
    let mut run = Installer::new(2011, 2030);
    run.advance(Event::Text(Ok("{}".to_string())));
    run.advance(Event::Manifest(Ok(manifest("OK"))));
    run.advance(Event::Text(Ok("shelf body".to_string())));
    run.advance(Event::Image(first_image));
    run.advance(Event::Image(second_image));
    assert_eq!(run.pending(), Action::FindRoot);
    run
}

/// A run that has found the root and the given entries in it.
fn run_with_versions(
    first_image: Option<Vec<u8>>,
    second_image: Option<Vec<u8>>,
    entries: &[&str],
) -> (Installer, Vec<Notice>) {
    let mut run = run_with_assets(first_image, second_image);
    run.advance(Event::Candidate(Some(root())));
    run.advance(Event::Present(true));
    let notices = run.advance(Event::Entries(strings(entries)));
    (run, notices)
}

#[test]
fn a_run_begins_with_the_manifest() {
    let run = Installer::new(2011, 2030);
    assert_eq!(run.stage(), Stage::Manifest);
    assert_eq!(
        run.pending(),
        Action::FetchText("https://www.giorgiopomettini.eu/aiv_shelf.json".to_string())
    );
    assert_eq!(AIV_SHELF_URL, "https://www.giorgiopomettini.eu/aiv_shelf.json");
}

#[test]
fn a_root_with_one_version_and_no_icon_directory() {
    let mut run = Installer::new(2011, 2030);

    let notices = run.advance(Event::Text(Ok("{\"response\": \"OK\"}".to_string())));
    assert_eq!(notices, vec![Notice::ManifestDownloaded]);
    assert_eq!(run.pending(), Action::ParseManifest("{\"response\": \"OK\"}".to_string()));

    let notices = run.advance(Event::Manifest(Ok(manifest("OK"))));
    assert_eq!(notices, vec![Notice::ManifestAccepted]);
    assert_eq!(run.pending(), Action::FetchText("https://x/s.mel".to_string()));

    let notices = run.advance(Event::Text(Ok("shelf body".to_string())));
    assert_eq!(notices, vec![Notice::ShelfDownloaded]);
    assert_eq!(run.pending(), Action::FetchImage("https://y/a_1.png".to_string()));

    let notices = run.advance(Event::Image(Some(vec![1, 2, 3])));
    assert_eq!(notices, vec![Notice::IconDownloaded(0)]);
    assert_eq!(run.pending(), Action::FetchImage("https://y/a_2.png".to_string()));

    let notices = run.advance(Event::Image(Some(vec![4, 5])));
    assert_eq!(notices, vec![Notice::IconDownloaded(1)]);
    assert_eq!(run.pending(), Action::FindRoot);

    let notices = run.advance(Event::Candidate(Some(root())));
    assert_eq!(notices, Vec::new());
    assert_eq!(run.pending(), Action::Probe(root()));

    let notices = run.advance(Event::Present(true));
    assert_eq!(notices, vec![Notice::RootFound]);
    assert_eq!(run.pending(), Action::List(root()));

    let notices = run.advance(Event::Entries(strings(&["2018"])));
    assert_eq!(notices, vec![Notice::VersionStarted(2018)]);
    assert_eq!(run.pending(), Action::Probe(below_root(&["2018", "prefs", "shelves"])));

    let notices = run.advance(Event::Present(true));
    assert_eq!(notices, vec![Notice::ShelfDirectoryFound(2018)]);
    assert_eq!(run.pending(), Action::Probe(below_root(&["2018", "prefs", "shelves", "s.mel"])));

    let notices = run.advance(Event::Present(false));
    assert_eq!(notices, Vec::new());
    assert_eq!(
        run.pending(),
        Action::WriteText(
            below_root(&["2018", "prefs", "shelves", "s.mel"]),
            "shelf body".to_string()
        )
    );

    let notices = run.advance(Event::Written(true));
    assert_eq!(notices, vec![Notice::ShelfWritten(2018)]);
    assert_eq!(run.pending(), Action::Probe(below_root(&["2018", "prefs", "icons"])));

    let notices = run.advance(Event::Present(false));
    assert_eq!(
        notices,
        vec![Notice::IconsDirectoryMissing(2018), Notice::InstallationComplete]
    );
    assert_eq!(run.pending(), Action::Finish);
    assert_eq!(run.stage(), Stage::Done);
}

#[test]
fn a_rejected_manifest_ends_the_run_at_once() {
    let mut run = Installer::new(2011, 2030);
    run.advance(Event::Text(Ok("{}".to_string())));
    let notices = run.advance(Event::Manifest(Ok(manifest("MAINTENANCE"))));
    assert_eq!(notices, Vec::new());
    assert_eq!(run.stage(), Stage::Failed(InstallError::ManifestRejected));
    assert_eq!(run.pending(), Action::Abort(InstallError::ManifestRejected));
}

#[test]
fn a_failed_run_asks_for_nothing_more() {
    let mut run = Installer::new(2011, 2030);
    run.advance(Event::Text(Ok("{}".to_string())));
    run.advance(Event::Manifest(Ok(manifest("NO"))));
    let reports = vec![
        Event::Text(Ok("shelf body".to_string())),
        Event::Manifest(Ok(manifest("OK"))),
        Event::Image(Some(vec![1])),
        Event::Candidate(Some(root())),
        Event::Present(true),
        Event::Entries(strings(&["2018"])),
        Event::Written(true),
    ];
    for report in reports {
        assert_eq!(run.advance(report), Vec::new());
        assert_eq!(run.pending(), Action::Abort(InstallError::ManifestRejected));
    }
}

#[test]
fn a_document_that_does_not_parse_ends_the_run() {
    let mut run = Installer::new(2011, 2030);
    run.advance(Event::Text(Ok("[1, 2".to_string())));
    let notices = run.advance(Event::Manifest(Err(parse_error())));
    assert_eq!(notices, Vec::new());
    assert_eq!(run.pending(), Action::Abort(InstallError::MalformedManifest));
}

#[test]
fn a_manifest_that_cannot_be_fetched_ends_the_run() {
    let mut run = Installer::new(2011, 2030);
    let notices = run.advance(Event::Text(Err(FetchFailure::Transport)));
    assert_eq!(notices, Vec::new());
    assert_eq!(run.pending(), Action::Abort(InstallError::Transport));
}

#[test]
fn a_manifest_that_is_no_text_ends_the_run() {
    let mut run = Installer::new(2011, 2030);
    run.advance(Event::Text(Err(FetchFailure::Decode)));
    assert_eq!(run.pending(), Action::Abort(InstallError::Decode));
}

#[test]
fn a_shelf_script_that_cannot_be_fetched_ends_the_run() {
    let mut run = Installer::new(2011, 2030);
    run.advance(Event::Text(Ok("{}".to_string())));
    run.advance(Event::Manifest(Ok(manifest("OK"))));
    let notices = run.advance(Event::Text(Err(FetchFailure::Transport)));
    assert_eq!(notices, Vec::new());
    assert_eq!(run.pending(), Action::Abort(InstallError::Transport));

    let mut run = Installer::new(2011, 2030);
    run.advance(Event::Text(Ok("{}".to_string())));
    run.advance(Event::Manifest(Ok(manifest("OK"))));
    let notices = run.advance(Event::Text(Err(FetchFailure::Decode)));
    assert_eq!(notices, Vec::new());
    assert_eq!(run.stage(), Stage::Failed(InstallError::Transport));
    assert_eq!(run.pending(), Action::Abort(InstallError::Transport));
}

#[test]
fn a_shelf_script_that_is_no_text_leaves_no_shelf_text_behind() {
    let mut run = Installer::new(2011, 2030);
    run.advance(Event::Text(Ok("{}".to_string())));
    run.advance(Event::Manifest(Ok(manifest("OK"))));
    run.advance(Event::Text(Err(FetchFailure::Decode)));
    let reports = vec![
        Event::Text(Ok("late".to_string())),
        Event::Candidate(Some(root())),
        Event::Present(true),
        Event::Entries(strings(&["2018"])),
        Event::Written(true),
    ];
    for report in reports {
        assert_eq!(run.advance(report), Vec::new());
        assert_eq!(run.pending(), Action::Abort(InstallError::Transport));
    }
}

#[test]
fn an_unknown_home_directory_ends_the_run() {
    let mut run = run_with_assets(Some(vec![1]), Some(vec![2]));
    let notices = run.advance(Event::Candidate(None));
    assert_eq!(notices, Vec::new());
    assert_eq!(run.pending(), Action::Abort(InstallError::Environment));
}

#[test]
fn a_root_that_is_not_there_ends_the_run() {
    let mut run = run_with_assets(Some(vec![1]), Some(vec![2]));
    run.advance(Event::Candidate(Some(root())));
    let notices = run.advance(Event::Present(false));
    assert_eq!(notices, Vec::new());
    assert_eq!(run.pending(), Action::Abort(InstallError::RootNotFound));
}

#[test]
fn an_icon_that_cannot_be_fetched_does_not_end_the_run() {
    let mut run = Installer::new(2011, 2030);
    run.advance(Event::Text(Ok("{}".to_string())));
    run.advance(Event::Manifest(Ok(manifest("OK"))));
    run.advance(Event::Text(Ok("shelf body".to_string())));
    let notices = run.advance(Event::Image(None));
    assert_eq!(notices, vec![Notice::IconUnavailable(0)]);
    assert_eq!(run.pending(), Action::FetchImage("https://y/a_2.png".to_string()));
    let notices = run.advance(Event::Image(Some(Vec::new())));
    assert_eq!(notices, vec![Notice::IconUnavailable(1)]);
    assert_eq!(run.pending(), Action::FindRoot);
}

#[test]
fn a_manifest_without_icons_goes_on_to_the_root() {
    let mut run = Installer::new(2011, 2030);
    run.advance(Event::Text(Ok("{}".to_string())));
    let mut shelf = manifest("OK");
    shelf.icons_name = Vec::new();
    run.advance(Event::Manifest(Ok(shelf)));
    let notices = run.advance(Event::Text(Ok("shelf body".to_string())));
    assert_eq!(notices, vec![Notice::ShelfDownloaded]);
    assert_eq!(run.pending(), Action::FindRoot);
}

#[test]
fn a_root_without_versions_is_complete_at_once() {
    let (run, notices) = run_with_versions(Some(vec![1]), Some(vec![2]), &["scripts", "2031"]);
    assert_eq!(notices, vec![Notice::InstallationComplete]);
    assert_eq!(run.pending(), Action::Finish);
}

#[test]
fn a_complete_run_stays_complete() {
    let (mut run, _) = run_with_versions(Some(vec![1]), Some(vec![2]), &[]);
    for report in [Event::Present(true), Event::Written(true), Event::Entries(strings(&["2018"]))] {
        assert_eq!(run.advance(report), Vec::new());
        assert_eq!(run.pending(), Action::Finish);
    }
}

#[test]
fn a_report_that_answers_nothing_changes_nothing() {
    let mut run = Installer::new(2011, 2030);
    assert_eq!(run.advance(Event::Present(true)), Vec::new());
    assert_eq!(run.advance(Event::Written(true)), Vec::new());
    assert_eq!(run.advance(Event::Image(Some(vec![1]))), Vec::new());
    assert_eq!(run.advance(Event::Candidate(Some(root()))), Vec::new());
    assert_eq!(run.advance(Event::Entries(strings(&["2018"]))), Vec::new());
    assert_eq!(run.advance(Event::Manifest(Ok(manifest("OK")))), Vec::new());
    assert_eq!(run.stage(), Stage::Manifest);
    assert_eq!(run.pending(), Action::FetchText(AIV_SHELF_URL.to_string()));

    let (mut run, _) = run_with_versions(Some(vec![1]), None, &["2018"]);
    assert_eq!(run.advance(Event::Written(true)), Vec::new());
    assert_eq!(run.advance(Event::Text(Ok("x".to_string()))), Vec::new());
    assert_eq!(run.stage(), Stage::ShelfDirectory(0));
}

#[test]
fn a_version_without_shelf_directory_is_skipped() {
    let (mut run, notices) = run_with_versions(Some(vec![1]), Some(vec![2]), &["2018", "2016"]);
    assert_eq!(notices, vec![Notice::VersionStarted(2016)]);
    assert_eq!(run.pending(), Action::Probe(below_root(&["2016", "prefs", "shelves"])));

    let notices = run.advance(Event::Present(false));
    assert_eq!(
        notices,
        vec![Notice::ShelfDirectoryMissing(2016), Notice::VersionStarted(2018)]
    );
    assert_eq!(run.pending(), Action::Probe(below_root(&["2018", "prefs", "shelves"])));

    let notices = run.advance(Event::Present(false));
    assert_eq!(
        notices,
        vec![Notice::ShelfDirectoryMissing(2018), Notice::InstallationComplete]
    );
    assert_eq!(run.pending(), Action::Finish);
}

#[test]
fn a_shelf_file_that_is_there_is_overwritten() {
    let (mut run, _) = run_with_versions(None, None, &["2018"]);
    run.advance(Event::Present(true));
    let notices = run.advance(Event::Present(true));
    assert_eq!(notices, vec![Notice::Overwriting]);
    assert_eq!(
        run.pending(),
        Action::WriteText(
            below_root(&["2018", "prefs", "shelves", "s.mel"]),
            "shelf body".to_string()
        )
    );
}

#[test]
fn a_shelf_that_cannot_be_written_does_not_stop_the_icons() {
    let (mut run, _) = run_with_versions(Some(vec![1, 2, 3]), Some(vec![4, 5]), &["2018"]);
    run.advance(Event::Present(true));
    run.advance(Event::Present(false));
    let notices = run.advance(Event::Written(false));
    assert_eq!(notices, vec![Notice::ShelfWriteFailed(2018)]);
    assert_eq!(run.pending(), Action::Probe(below_root(&["2018", "prefs", "icons"])));

    let notices = run.advance(Event::Present(true));
    assert_eq!(notices, vec![Notice::IconsDirectoryFound(2018)]);
    assert_eq!(run.pending(), Action::Probe(below_root(&["2018", "prefs", "icons", "a_1.png"])));
}

#[test]
fn icons_are_written_one_after_the_other() {
    let (mut run, _) = run_with_versions(Some(vec![1, 2, 3]), Some(vec![4, 5]), &["2018"]);
    run.advance(Event::Present(true));
    run.advance(Event::Present(false));
    run.advance(Event::Written(true));
    run.advance(Event::Present(true));

    let notices = run.advance(Event::Present(false));
    assert_eq!(notices, Vec::new());
    assert_eq!(
        run.pending(),
        Action::WriteImage(below_root(&["2018", "prefs", "icons", "a_1.png"]), vec![1, 2, 3])
    );

    let notices = run.advance(Event::Written(true));
    assert_eq!(notices, vec![Notice::IconWritten(2018, 0)]);
    assert_eq!(run.pending(), Action::Probe(below_root(&["2018", "prefs", "icons", "a_2.png"])));

    let notices = run.advance(Event::Present(true));
    assert_eq!(notices, vec![Notice::Overwriting]);
    assert_eq!(
        run.pending(),
        Action::WriteImage(below_root(&["2018", "prefs", "icons", "a_2.png"]), vec![4, 5])
    );

    let notices = run.advance(Event::Written(true));
    assert_eq!(notices, vec![Notice::IconWritten(2018, 1), Notice::InstallationComplete]);
    assert_eq!(run.pending(), Action::Finish);
}

#[test]
fn an_icon_that_cannot_be_written_does_not_stop_the_next() {
    let (mut run, _) = run_with_versions(Some(vec![1]), Some(vec![2]), &["2018", "2019"]);
    run.advance(Event::Present(true));
    run.advance(Event::Present(false));
    run.advance(Event::Written(true));
    run.advance(Event::Present(true));
    run.advance(Event::Present(false));

    let notices = run.advance(Event::Written(false));
    assert_eq!(notices, vec![Notice::IconWriteFailed(2018, 0)]);
    assert_eq!(run.pending(), Action::Probe(below_root(&["2018", "prefs", "icons", "a_2.png"])));

    run.advance(Event::Present(false));
    let notices = run.advance(Event::Written(false));
    assert_eq!(notices, vec![Notice::IconWriteFailed(2018, 1), Notice::VersionStarted(2019)]);
    assert_eq!(run.pending(), Action::Probe(below_root(&["2019", "prefs", "shelves"])));
}

#[test]
fn an_icon_without_image_is_not_written() {
    let (mut run, _) = run_with_versions(None, Some(vec![9]), &["2018"]);
    run.advance(Event::Present(true));
    run.advance(Event::Present(false));
    run.advance(Event::Written(true));
    let notices = run.advance(Event::Present(true));
    assert_eq!(notices, vec![Notice::IconsDirectoryFound(2018)]);
    assert_eq!(run.stage(), Stage::IconFile(0, 1));
    assert_eq!(run.pending(), Action::Probe(below_root(&["2018", "prefs", "icons", "a_2.png"])));
    run.advance(Event::Present(false));
    assert_eq!(
        run.pending(),
        Action::WriteImage(below_root(&["2018", "prefs", "icons", "a_2.png"]), vec![9])
    );
    let notices = run.advance(Event::Written(true));
    assert_eq!(notices, vec![Notice::IconWritten(2018, 1), Notice::InstallationComplete]);
}

#[test]
fn no_icon_with_an_image_means_no_icon_file() {
    let (mut run, _) = run_with_versions(None, Some(Vec::new()), &["2017", "2018"]);
    run.advance(Event::Present(true));
    run.advance(Event::Present(false));
    run.advance(Event::Written(true));
    let notices = run.advance(Event::Present(true));
    assert_eq!(notices, vec![Notice::IconsDirectoryFound(2017), Notice::VersionStarted(2018)]);
    assert_eq!(run.pending(), Action::Probe(below_root(&["2018", "prefs", "shelves"])));
}

#[test]
fn the_range_of_years_is_the_callers() {
    let mut run = Installer::new(2019, 2020);
    run.advance(Event::Text(Ok("{}".to_string())));
    run.advance(Event::Manifest(Ok(manifest("OK"))));
    run.advance(Event::Text(Ok("shelf body".to_string())));
    run.advance(Event::Image(None));
    run.advance(Event::Image(None));
    run.advance(Event::Candidate(Some(root())));
    run.advance(Event::Present(true));
    let notices = run.advance(Event::Entries(strings(&["2018", "2019", "2020", "2021"])));
    assert_eq!(notices, vec![Notice::VersionStarted(2019)]);
    run.advance(Event::Present(false));
    assert_eq!(run.pending(), Action::Probe(below_root(&["2020", "prefs", "shelves"])));
    let notices = run.advance(Event::Present(false));
    assert_eq!(
        notices,
        vec![Notice::ShelfDirectoryMissing(2020), Notice::InstallationComplete]
    );
}

#[test]
fn a_run_shows_its_icons_and_versions() {
    let (run, _) = run_with_versions(Some(vec![1, 2, 3]), None, &["2019", "2012", "x"]);
    assert_eq!(run.versions(), &vec![2012, 2019]);
    let icons = run.icons();
    assert_eq!(icons.len(), 2);
    assert_eq!(icons[0].name, "a_1.png");
    assert_eq!(icons[0].data, vec![1, 2, 3]);
    assert_eq!(icons[1].name, "a_2.png");
    assert!(icons[1].data.is_empty());
}

#[test]
fn a_fresh_run_has_no_icons_and_no_versions() {
    let run = Installer::new(2011, 2030);
    assert!(run.icons().is_empty());
    assert!(run.versions().is_empty());
}
