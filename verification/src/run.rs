//! What holds of every run of the machine, whatever the driver reports.

use crate::decimal::{decimal, decimal_is_injective};
use crate::icons::arrived;
use crate::locate::{installed_versions_are_the_named_years, version_directory_of};
use crate::manifest::{accepted_status, InstallError, ShelfView};
use crate::paths::MayaPathView;
use crate::workflow::{
    fresh, the_next_loaded_icon_holds_an_image, ActionView, EventView, FetchFailure,
    InstallerView, Stage, AIV_SHELF_URL,
};
use vstd::prelude::*;

verus! {

/// What a file holds.
pub enum Content {
    Text(Seq<char>),
    Image(Seq<u8>),
}

/// One file written: where, and what.
pub struct FileWrite {
    pub path: MayaPathView,
    pub content: Content,
}

/// The run after the driver has reported `events`, one after the other.
pub open spec fn ran(run: InstallerView, events: Seq<EventView>) -> InstallerView
    decreases events.len(),
{
    if events.len() == 0 {
        run
    } else {
        ran(run.advanced(events[0]), events.drop_first())
    }
}

/// The file that the run waits to have written, if it waits for one.
pub open spec fn awaited_write(run: InstallerView) -> Option<FileWrite> {
    match run.pending() {
        ActionView::WriteText(path, text) => Some(FileWrite { path, content: Content::Text(text) }),
        ActionView::WriteImage(path, image) => Some(
            FileWrite { path, content: Content::Image(image) },
        ),
        _ => None,
    }
}

/// The files that the driver was asked to write and reported on while it
/// reported `events`, in order: all of them, or only those that it reported
/// as written.
pub open spec fn writes(run: InstallerView, events: Seq<EventView>, failed_too: bool) -> Seq<
    FileWrite,
>
    decreases events.len(),
{
    if events.len() == 0 {
        Seq::empty()
    } else {
        let later = writes(run.advanced(events[0]), events.drop_first(), failed_too);
        match (awaited_write(run), events[0]) {
            (Some(write), EventView::Written(done)) => if done || failed_too {
                seq![write] + later
            } else {
                later
            },
            _ => later,
        }
    }
}

/// Whether `path` is `directory` or lies below it, going by the lists of
/// names. This is what holds on disk as long as every name is the name of
/// one entry: a name that holds a separator, that is `..` or that is an
/// absolute path leads elsewhere when the path is followed on disk, and
/// this says nothing of where. Names come from the manifest as they are;
/// none is checked.
pub open spec fn is_below(path: MayaPathView, directory: MayaPathView) -> bool {
    path.home == directory.home && directory.parts.is_prefix_of(path.parts)
}

/// Whether the preference root has been found: from then on no failure ends
/// the run.
pub open spec fn root_resolved(stage: Stage) -> bool {
    match stage {
        Stage::Versions
        | Stage::ShelfDirectory(_)
        | Stage::ShelfFile(_)
        | Stage::ShelfWrite(_)
        | Stage::IconsDirectory(_)
        | Stage::IconFile(_, _)
        | Stage::IconWrite(_, _)
        | Stage::Done => true,
        _ => false,
    }
}

/// Whatever the driver reports, a run stays well-formed.
pub proof fn every_step_keeps_the_run_well_formed(run: InstallerView, event: EventView)
    requires
        run.wf(),
    ensures
        run.advanced(event).wf(),
{
    match (run.stage, event) {
        (Stage::Versions, EventView::Entries(names)) => {
            installed_versions_are_the_named_years(names, run.first as int, run.last as int);
        },
        (Stage::IconsDirectory(_), EventView::Present(true)) => {
            the_next_loaded_icon_holds_an_image(run.icons, 0);
        },
        (Stage::IconWrite(_, j), EventView::Written(_)) => {
            the_next_loaded_icon_holds_an_image(run.icons, j + 1);
        },
        _ => {},
    }
}

/// Whatever the driver reports, and however often, a run stays well-formed.
pub proof fn every_run_is_well_formed(run: InstallerView, events: Seq<EventView>)
    requires
        run.wf(),
    ensures
        ran(run, events).wf(),
    decreases events.len(),
{
    if events.len() > 0 {
        every_step_keeps_the_run_well_formed(run, events[0]);
        every_run_is_well_formed(run.advanced(events[0]), events.drop_first());
    }
}

/// A run that has ended, complete or failed, stays as it is: it asks for
/// nothing more, whatever is reported to it.
pub proof fn an_ended_run_stays_ended(run: InstallerView, events: Seq<EventView>)
    requires
        run.stage is Done || run.stage is Failed,
    ensures
        ran(run, events) == run,
        writes(run, events, true) == Seq::<FileWrite>::empty(),
    decreases events.len(),
{
    if events.len() > 0 {
        assert(run.advanced(events[0]) == run);
        an_ended_run_stays_ended(run, events.drop_first());
    }
}

/// A manifest whose status is not `"OK"` fails the run at once, and the
/// failed run asks for nothing but to be given up: after the manifest has
/// been fetched and parsed, nothing is fetched, looked up or written.
pub proof fn a_rejected_manifest_ends_the_run(
    run: InstallerView,
    shelf: ShelfView,
    events: Seq<EventView>,
)
    requires
        run.stage == Stage::Parsing,
        shelf.response != accepted_status(),
    ensures
        ran(run.advanced(EventView::Manifest(Some(shelf))), events).pending() == ActionView::Abort(
            InstallError::ManifestRejected,
        ),
        writes(run.advanced(EventView::Manifest(Some(shelf))), events, true) == Seq::<
            FileWrite,
        >::empty(),
{
    an_ended_run_stays_ended(run.advanced(EventView::Manifest(Some(shelf))), events);
}

/// A shelf script that does not arrive ends the run with a failed
/// transport, whether the request could not be completed or its body is no
/// text. The failed run asks for nothing but to be given up: the script is
/// not asked for again, and no file is written, none with an empty script
/// either.
pub proof fn a_shelf_script_that_does_not_arrive_ends_the_run(
    run: InstallerView,
    failure: FetchFailure,
    events: Seq<EventView>,
)
    requires
        run.stage == Stage::ShelfScript,
    ensures
        run.advanced(EventView::Text(Err(failure))) == run.at(
            Stage::Failed(InstallError::Transport),
        ),
        ran(run.advanced(EventView::Text(Err(failure))), events).pending() == ActionView::Abort(
            InstallError::Transport,
        ),
        writes(run.advanced(EventView::Text(Err(failure))), events, true) == Seq::<
            FileWrite,
        >::empty(),
{
    an_ended_run_stays_ended(run.advanced(EventView::Text(Err(failure))), events);
}

/// Once the preference root has been found, nothing that the driver reports
/// fails the run.
pub proof fn nothing_fails_once_the_root_is_found(run: InstallerView, event: EventView)
    requires
        root_resolved(run.stage),
    ensures
        root_resolved(run.advanced(event).stage),
{
}

/// How far a run has come: the phases before the versions are taken up,
/// then version after version, and within a version the shelf directory,
/// the shelf file, the icon directory and icon after icon.
pub open spec fn progress(stage: Stage) -> (int, int) {
    match stage {
        Stage::Manifest => (-7, 0),
        Stage::Parsing => (-6, 0),
        Stage::ShelfScript => (-5, 0),
        Stage::Image(i) => (-4, i as int),
        Stage::Root => (-3, 0),
        Stage::RootPresence => (-2, 0),
        Stage::Versions => (-1, 0),
        Stage::ShelfDirectory(k) => (k as int, 0),
        Stage::ShelfFile(k) => (k as int, 1),
        Stage::ShelfWrite(k) => (k as int, 2),
        Stage::IconsDirectory(k) => (k as int, 3),
        Stage::IconFile(k, j) => (k as int, 4 + 2 * j),
        Stage::IconWrite(k, j) => (k as int, 5 + 2 * j),
        Stage::Done | Stage::Failed(_) => (usize::MAX + 1, 0),
    }
}

/// Whether a run that has come as far as `earlier` has not come further
/// than `later`.
pub open spec fn not_after(earlier: (int, int), later: (int, int)) -> bool {
    earlier.0 < later.0 || (earlier.0 == later.0 && earlier.1 <= later.1)
}

/// A run never goes back: no report takes it to an earlier phase, an
/// earlier version or an earlier icon.
pub proof fn a_run_never_goes_back(run: InstallerView, event: EventView)
    requires
        run.wf(),
    ensures
        not_after(progress(run.stage), progress(run.advanced(event).stage)),
{
    match (run.stage, event) {
        (Stage::IconsDirectory(_), EventView::Present(true)) => {
            the_next_loaded_icon_holds_an_image(run.icons, 0);
        },
        (Stage::IconWrite(_, j), EventView::Written(_)) => {
            the_next_loaded_icon_holds_an_image(run.icons, j + 1);
        },
        _ => {},
    }
}

/// A run never goes back, however many reports it takes in.
pub proof fn no_run_goes_back(run: InstallerView, events: Seq<EventView>)
    requires
        run.wf(),
    ensures
        not_after(progress(run.stage), progress(ran(run, events).stage)),
    decreases events.len(),
{
    if events.len() > 0 {
        a_run_never_goes_back(run, events[0]);
        every_step_keeps_the_run_well_formed(run, events[0]);
        no_run_goes_back(run.advanced(events[0]), events.drop_first());
    }
}

/// Once the versions are taken up, the preference root and the list of
/// versions stay as they are.
pub proof fn the_versions_stay_once_taken_up(run: InstallerView, events: Seq<EventView>)
    requires
        run.wf(),
        progress(run.stage).0 >= 0,
    ensures
        ran(run, events).root == run.root,
        ran(run, events).versions == run.versions,
        ran(run, events).icons == run.icons,
        ran(run, events).shelf == run.shelf,
        ran(run, events).shelf_text == run.shelf_text,
    decreases events.len(),
{
    if events.len() > 0 {
        a_run_never_goes_back(run, events[0]);
        every_step_keeps_the_run_well_formed(run, events[0]);
        the_versions_stay_once_taken_up(run.advanced(events[0]), events.drop_first());
    }
}

/// Running on one list of reports and then on another is running on the two
/// lists joined, and the files written are those of the first part followed
/// by those of the second.
pub proof fn a_run_can_be_split(
    run: InstallerView,
    before: Seq<EventView>,
    after: Seq<EventView>,
    failed_too: bool,
)
    ensures
        ran(run, before + after) == ran(ran(run, before), after),
        writes(run, before + after, failed_too) == writes(run, before, failed_too) + writes(
            ran(run, before),
            after,
            failed_too,
        ),
    decreases before.len(),
{
    if before.len() == 0 {
        assert(before + after =~= after);
        assert(writes(run, before, failed_too) + writes(run, after, failed_too) =~= writes(
            run,
            after,
            failed_too,
        ));
    } else {
        let all = before + after;
        assert(all[0] == before[0]);
        assert(all.drop_first() =~= before.drop_first() + after);
        a_run_can_be_split(run.advanced(before[0]), before.drop_first(), after, failed_too);
        assert(writes(run, all, failed_too) =~= writes(run, before, failed_too) + writes(
            ran(run, before),
            after,
            failed_too,
        ));
    }
}

/// The file that a run waits to have written lies below the directory of
/// the version that the run is working on, and below that of no other.
pub proof fn a_write_goes_to_its_own_version(run: InstallerView, k: int)
    requires
        run.wf(),
        awaited_write(run) is Some,
        0 <= k < run.versions.len(),
        k != progress(run.stage).0,
    ensures
        !is_below(
            awaited_write(run)->0.path,
            version_directory_of(run.root->0, run.versions[k] as nat),
        ),
{
    let own = progress(run.stage).0;
    let root = run.root->0;
    let path = awaited_write(run)->0.path;
    let other = version_directory_of(root, run.versions[k] as nat);
    assert(0 <= own < run.versions.len());
    assert(run.versions[own] != run.versions[k]);
    let depth = root.parts.len() as int;
    assert(path.parts[depth] == decimal(run.versions[own] as nat));
    assert(other.parts[depth] == decimal(run.versions[k] as nat));
    if is_below(path, other) {
        assert(other.parts =~= path.parts.subrange(0, other.parts.len() as int));
        assert(other.parts[depth] == path.parts[depth]);
        decimal_is_injective(run.versions[own] as nat, run.versions[k] as nat);
    }
}

/// A run that has left the version at position `k` behind writes no file
/// below the directory of that version any more.
pub proof fn a_version_left_behind_gets_no_file(run: InstallerView, k: int, events: Seq<EventView>)
    requires
        run.wf(),
        0 <= k < run.versions.len(),
        k < progress(run.stage).0,
    ensures
        forall|i: int|
            0 <= i < writes(run, events, true).len() ==> !is_below(
                (#[trigger] writes(run, events, true)[i]).path,
                version_directory_of(run.root->0, run.versions[k] as nat),
            ),
    decreases events.len(),
{
    if events.len() > 0 {
        let next = run.advanced(events[0]);
        a_run_never_goes_back(run, events[0]);
        every_step_keeps_the_run_well_formed(run, events[0]);
        a_version_left_behind_gets_no_file(next, k, events.drop_first());
        if awaited_write(run) is Some {
            a_write_goes_to_its_own_version(run, k);
        }
    }
}

/// A run that has not reached the version at position `k` when it has taken
/// in `events` has written no file below the directory of that version.
pub proof fn a_version_not_reached_has_no_file(run: InstallerView, k: int, events: Seq<EventView>)
    requires
        run.wf(),
        0 <= k < ran(run, events).versions.len(),
        not_after(progress(ran(run, events).stage), (k, 0)),
    ensures
        forall|i: int|
            0 <= i < writes(run, events, true).len() ==> !is_below(
                (#[trigger] writes(run, events, true)[i]).path,
                version_directory_of(
                    ran(run, events).root->0,
                    ran(run, events).versions[k] as nat,
                ),
            ),
    decreases events.len(),
{
    if events.len() > 0 {
        let next = run.advanced(events[0]);
        every_step_keeps_the_run_well_formed(run, events[0]);
        a_version_not_reached_has_no_file(next, k, events.drop_first());
        if awaited_write(run) is Some {
            no_run_goes_back(run, events);
            the_versions_stay_once_taken_up(run, events);
            a_write_goes_to_its_own_version(run, k);
        }
    }
}

/// A version whose shelf directory is reported missing gets no file at all:
/// in the whole run, before and after the report, no file is written below
/// the directory of that version. And the version does not hold up the
/// others: on the report the run goes on to the next version, or is
/// complete if there is none.
///
/// "Below" goes by the lists of names (see [`is_below`]). It is the same on
/// disk on the assumption that the name of the shelf file and the name of
/// every icon is the name of one entry, without a separator and neither
/// `..` nor an absolute path. The manifest's names are taken as they are:
/// this assumption is stated here and checked nowhere.
pub proof fn a_version_without_shelf_directory_gets_no_file(
    run: InstallerView,
    events: Seq<EventView>,
    n: int,
    k: usize,
)
    requires
        run.wf(),
        0 <= n < events.len(),
        ran(run, events.take(n)).stage == Stage::ShelfDirectory(k),
        events[n] == EventView::Present(false),
    ensures
        ran(run, events.take(n + 1)).stage == ran(run, events.take(n)).version_stage(k + 1),
        forall|i: int|
            0 <= i < writes(run, events, true).len() ==> !is_below(
                (#[trigger] writes(run, events, true)[i]).path,
                version_directory_of(
                    ran(run, events.take(n)).root->0,
                    ran(run, events.take(n)).versions[k as int] as nat,
                ),
            ),
{
    let before = events.take(n);
    let after = events.skip(n);
    let rest = events.skip(n + 1);
    let here = ran(run, before);
    let beyond = here.advanced(events[n]);
    every_run_is_well_formed(run, before);
    every_step_keeps_the_run_well_formed(here, events[n]);

    assert(events.take(n + 1) =~= before + seq![events[n]]);
    a_run_can_be_split(run, before, seq![events[n]], true);
    assert(ran(here, seq![events[n]]) == beyond) by {
        reveal_with_fuel(ran, 2);
        assert(seq![events[n]][0] == events[n]);
        assert(seq![events[n]].drop_first().len() == 0);
    }

    assert(events =~= before + after);
    a_run_can_be_split(run, before, after, true);
    a_version_not_reached_has_no_file(run, k as int, before);
    assert(after[0] == events[n]);
    assert(after.drop_first() =~= rest);
    assert(writes(here, after, true) == writes(beyond, rest, true));
    a_version_left_behind_gets_no_file(beyond, k as int, rest);
}

/// The files on disk after `writes` have been carried out in order, each
/// of them replacing what its file held before.
pub open spec fn written(files: Map<MayaPathView, Content>, writes: Seq<FileWrite>) -> Map<
    MayaPathView,
    Content,
>
    decreases writes.len(),
{
    if writes.len() == 0 {
        files
    } else {
        written(files, writes.drop_last()).insert(writes.last().path, writes.last().content)
    }
}

/// What the last of `writes` to the file at `path` puts there, if any of
/// them goes to that file.
pub open spec fn last_written(writes: Seq<FileWrite>, path: MayaPathView) -> Option<Content>
    decreases writes.len(),
{
    if writes.len() == 0 {
        None
    } else if writes.last().path == path {
        Some(writes.last().content)
    } else {
        last_written(writes.drop_last(), path)
    }
}

/// After a list of writes, a file holds what the last write to it put
/// there; a file that none of them went to is as it was.
pub proof fn a_file_holds_its_last_write(
    files: Map<MayaPathView, Content>,
    writes: Seq<FileWrite>,
    path: MayaPathView,
)
    ensures
        written(files, writes).dom().contains(path) <==> files.dom().contains(path)
            || last_written(writes, path) is Some,
        match last_written(writes, path) {
            Some(content) => written(files, writes)[path] == content,
            None => written(files, writes)[path] == files[path],
        },
    decreases writes.len(),
{
    if writes.len() > 0 {
        a_file_holds_its_last_write(files, writes.drop_last(), path);
    }
}

/// Carrying out a list of writes a second time changes no file and adds
/// none.
pub proof fn writing_again_changes_nothing(files: Map<MayaPathView, Content>, writes: Seq<FileWrite>)
    ensures
        written(written(files, writes), writes) == written(files, writes),
{
    let once = written(files, writes);
    let twice = written(once, writes);
    assert forall|path: MayaPathView| once.dom().contains(path) == twice.dom().contains(path) by {
        a_file_holds_its_last_write(files, writes, path);
        a_file_holds_its_last_write(once, writes, path);
    }
    assert forall|path: MayaPathView| #[trigger] once.dom().contains(path) implies once[path]
        == twice[path] by {
        a_file_holds_its_last_write(files, writes, path);
        a_file_holds_its_last_write(once, writes, path);
    }
    assert(twice =~= once);
}

/// Whether two reports are the same, or both tell whether a file that is
/// about to be written is there already.
pub open spec fn same_but_for_files(stage: Stage, one: EventView, other: EventView) -> bool {
    if stage is ShelfFile || stage is IconFile {
        one is Present && other is Present
    } else {
        one == other
    }
}

/// Whether two lists of reports take a run the same way: they differ at
/// most in which of the files to be written were there already.
pub open spec fn same_course(run: InstallerView, one: Seq<EventView>, other: Seq<EventView>) -> bool
    decreases one.len(),
{
    &&& one.len() == other.len()
    &&& one.len() > 0 ==> {
        &&& same_but_for_files(run.stage, one[0], other[0])
        &&& same_course(run.advanced(one[0]), one.drop_first(), other.drop_first())
    }
}

/// Two runs that differ at most in which of the files to be written were
/// there already end in the same state and write the same files with the
/// same content in the same order.
pub proof fn files_in_place_do_not_change_the_course(
    run: InstallerView,
    one: Seq<EventView>,
    other: Seq<EventView>,
    failed_too: bool,
)
    requires
        same_course(run, one, other),
    ensures
        ran(run, one) == ran(run, other),
        writes(run, one, failed_too) == writes(run, other, failed_too),
    decreases one.len(),
{
    if one.len() > 0 {
        assert(run.advanced(one[0]) == run.advanced(other[0]));
        files_in_place_do_not_change_the_course(
            run.advanced(one[0]),
            one.drop_first(),
            other.drop_first(),
            failed_too,
        );
    }
}

/// Installing a second time changes nothing. Take a run and a second run
/// from the same state to which the same is reported, but for the files
/// that the first has put in place. The second writes the same files with
/// the same content, so that after it every file on disk holds what it held
/// after the first, and there is no file more.
pub proof fn a_second_run_changes_nothing(
    run: InstallerView,
    first: Seq<EventView>,
    second: Seq<EventView>,
    files: Map<MayaPathView, Content>,
)
    requires
        same_course(run, first, second),
    ensures
        writes(run, second, false) == writes(run, first, false),
        written(written(files, writes(run, first, false)), writes(run, second, false)) == written(
            files,
            writes(run, first, false),
        ),
{
    files_in_place_do_not_change_the_course(run, first, second, false);
    writing_again_changes_nothing(files, writes(run, first, false));
}

/// A run begins with the manifest: it asks for the document first, and for
/// nothing but to have it parsed once it has arrived.
pub proof fn a_run_begins_with_the_manifest(first: usize, last: usize, text: Seq<char>)
    ensures
        fresh(first, last).wf(),
        fresh(first, last).pending() == ActionView::FetchText(AIV_SHELF_URL@),
        fresh(first, last).advanced(EventView::Text(Ok(text))).stage == Stage::Parsing,
        fresh(first, last).advanced(EventView::Text(Ok(text))).pending()
            == ActionView::ParseManifest(text),
{
}

/// Whether a file could be written or not, the run goes on the same way.
pub proof fn a_failed_write_costs_only_the_file(run: InstallerView)
    ensures
        run.advanced(EventView::Written(false)) == run.advanced(EventView::Written(true)),
{
}

/// Whether the image of an icon arrives or not, the run goes on to the next
/// icon, or to the preference root after the last. No other icon changes,
/// and an icon whose image did not arrive stays as it was.
pub proof fn an_icon_costs_only_itself(run: InstallerView, i: usize, outcome: Option<Seq<u8>>)
    requires
        run.wf(),
        run.stage == Stage::Image(i),
    ensures
        run.advanced(EventView::Image(outcome)).stage == run.image_stage(i + 1),
        run.advanced(EventView::Image(outcome)).icons.len() == run.icons.len(),
        forall|j: int|
            0 <= j < run.icons.len() && j != i ==> run.advanced(EventView::Image(outcome)).icons[j]
                == run.icons[j],
        !arrived(outcome) ==> run.advanced(EventView::Image(outcome)).icons == run.icons,
{
    if !arrived(outcome) {
        assert(run.advanced(EventView::Image(outcome)).icons =~= run.icons);
    }
}

/// Whether a report answers the action that a run at `stage` waits for.
pub open spec fn answers(stage: Stage, event: EventView) -> bool {
    match (stage, event) {
        (Stage::Manifest, EventView::Text(_))
        | (Stage::Parsing, EventView::Manifest(_))
        | (Stage::ShelfScript, EventView::Text(_))
        | (Stage::Image(_), EventView::Image(_))
        | (Stage::Root, EventView::Candidate(_))
        | (Stage::RootPresence, EventView::Present(_))
        | (Stage::Versions, EventView::Entries(_))
        | (Stage::ShelfDirectory(_), EventView::Present(_))
        | (Stage::ShelfFile(_), EventView::Present(_))
        | (Stage::ShelfWrite(_), EventView::Written(_))
        | (Stage::IconsDirectory(_), EventView::Present(_))
        | (Stage::IconFile(_, _), EventView::Present(_))
        | (Stage::IconWrite(_, _), EventView::Written(_)) => true,
        _ => false,
    }
}

/// Whether every one of `events` answers the action that the run waits for
/// when it is reported.
pub open spec fn all_answer(run: InstallerView, events: Seq<EventView>) -> bool
    decreases events.len(),
{
    events.len() > 0 ==> {
        &&& answers(run.stage, events[0])
        &&& all_answer(run.advanced(events[0]), events.drop_first())
    }
}

/// Whether a run at `stage` is at work on a version.
pub open spec fn installing(stage: Stage) -> bool {
    0 <= progress(stage).0 <= usize::MAX
}

/// The most reports that a run which has taken up the versions still needs
/// before it is complete: for each version two for the shelf directory and
/// the icon directory, two for the shelf file, and two for each icon.
pub open spec fn steps_left(run: InstallerView) -> int {
    let each = 4 + 2 * run.icons.len();
    match run.stage {
        Stage::ShelfDirectory(k) => (run.versions.len() - k) * each,
        Stage::ShelfFile(k) => (run.versions.len() - k) * each - 1,
        Stage::ShelfWrite(k) => (run.versions.len() - k) * each - 2,
        Stage::IconsDirectory(k) => (run.versions.len() - k) * each - 3,
        Stage::IconFile(k, j) => (run.versions.len() - k) * each - 4 - 2 * j,
        Stage::IconWrite(k, j) => (run.versions.len() - k) * each - 5 - 2 * j,
        _ => 0,
    }
}

/// The steps that `versions` versions take are those of one version and
/// those of the others.
proof fn one_version_less(versions: int, each: int)
    requires
        versions >= 1,
        each >= 0,
    ensures
        versions * each == (versions - 1) * each + each,
        (versions - 1) * each >= 0,
{
    assert(versions * each == (versions - 1) * each + each) by (nonlinear_arith);
    assert((versions - 1) * each >= 0) by (nonlinear_arith)
        requires
            versions - 1 >= 0,
            each >= 0,
    ;
}

/// A list of machine integers in ascending order has a place for each of
/// them: the integer at a position is no less than the position.
proof fn ascending_versions_can_be_counted(versions: Seq<usize>, k: int)
    requires
        forall|i: int, j: int| 0 <= i < j < versions.len() ==> versions[i] < versions[j],
        0 <= k < versions.len(),
    ensures
        versions[k] >= k,
    decreases k,
{
    if k > 0 {
        ascending_versions_can_be_counted(versions, k - 1);
    }
}

/// Every answer brings a run that is at work on a version nearer to its
/// end, whatever the answer is: the run is then at work on a version with
/// fewer steps left, or it is complete.
pub proof fn every_answer_brings_the_end_nearer(run: InstallerView, event: EventView)
    requires
        run.wf(),
        installing(run.stage),
        answers(run.stage, event),
    ensures
        0 <= steps_left(run.advanced(event)) < steps_left(run),
        installing(run.advanced(event).stage) || run.advanced(event).stage is Done,
        run.advanced(event).stage is Done <==> steps_left(run.advanced(event)) == 0,
{
    let k = progress(run.stage).0;
    let each = (4 + 2 * run.icons.len()) as int;
    let next = run.advanced(event);
    one_version_less(run.versions.len() - k, each);
    ascending_versions_can_be_counted(run.versions, run.versions.len() - 1);
    if k + 1 < run.versions.len() {
        one_version_less(run.versions.len() - k - 1, each);
    }
    match (run.stage, event) {
        (Stage::IconsDirectory(_), EventView::Present(true)) => {
            the_next_loaded_icon_holds_an_image(run.icons, 0);
        },
        (Stage::IconWrite(_, j), EventView::Written(_)) => {
            the_next_loaded_icon_holds_an_image(run.icons, j + 1);
        },
        _ => {},
    }
}

/// A run that is at work on a version comes to its end: it takes no more
/// answers than it has steps left, whatever the answers are, and when it
/// has none left it is complete. No directory that is missing and no file
/// that cannot be written fails it or keeps it from its end.
pub proof fn an_answered_run_completes(run: InstallerView, events: Seq<EventView>)
    requires
        run.wf(),
        installing(run.stage),
        all_answer(run, events),
    ensures
        steps_left(ran(run, events)) + events.len() <= steps_left(run),
        0 <= steps_left(ran(run, events)),
        installing(ran(run, events).stage) || ran(run, events).stage is Done,
        ran(run, events).stage is Done <==> steps_left(ran(run, events)) == 0,
    decreases events.len(),
{
    let k = progress(run.stage).0;
    one_version_less(run.versions.len() - k, (4 + 2 * run.icons.len()) as int);
    assert(steps_left(run) > 0);
    if events.len() > 0 {
        let next = run.advanced(events[0]);
        let rest = events.drop_first();
        every_answer_brings_the_end_nearer(run, events[0]);
        every_step_keeps_the_run_well_formed(run, events[0]);
        assert(all_answer(next, rest));
        if next.stage is Done {
            if rest.len() > 0 {
                assert(answers(next.stage, rest[0]));
            }
            assert(ran(next, rest) == next);
        } else {
            an_answered_run_completes(next, rest);
        }
    }
}

} // verus!
