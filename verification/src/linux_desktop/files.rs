//! What installing leaves on a disk, as long as nothing fails there.

use vstd::prelude::*;

use crate::error::ErrorModel;
use crate::linux_desktop::entry::{self, IconModel};
use crate::linux_desktop::install::{self, ChangeModel, DesktopApplication};
use crate::linux_desktop::run::{self, ActionModel, EventModel, RunModel};
use crate::text;

verus! {

/// What a disk that does not fail answers to an action. There is no reading a
/// source that is not there.
pub open spec fn answer(files: Map<Seq<char>, Seq<u8>>, action: ActionModel) -> EventModel {
    match action {
        ActionModel::ReadSource(path) => if files.contains_key(path) {
            EventModel::Content(files[path])
        } else {
            EventModel::Failed(Seq::empty())
        },
        ActionModel::ReadInstalled(path) => if files.contains_key(path) {
            EventModel::Content(files[path])
        } else {
            EventModel::NotFound
        },
        ActionModel::RemoveFile(path) => if files.contains_key(path) {
            EventModel::Done
        } else {
            EventModel::NotFound
        },
        _ => EventModel::Done,
    }
}

/// The files after an action.
pub open spec fn effect(files: Map<Seq<char>, Seq<u8>>, action: ActionModel) -> Map<
    Seq<char>,
    Seq<u8>,
> {
    match action {
        ActionModel::WriteFile(path, content) => files.insert(path, content),
        ActionModel::RemoveFile(path) => files.remove(path),
        _ => files,
    }
}

/// A run that was carried out to its end, and the files then.
pub open spec fn carried_out(run: RunModel, files: Map<Seq<char>, Seq<u8>>) -> (
    RunModel,
    Map<Seq<char>, Seq<u8>>,
)
    decreases run::actions_left(run),
{
    if run.stopped() {
        (run, files)
    } else {
        proof {
            run::law_run_ends(run, answer(files, run.action()));
        }
        carried_out(run.after(answer(files, run.action())), effect(files, run.action()))
    }
}

/// Whether a change would change nothing.
pub open spec fn settled(files: Map<Seq<char>, Seq<u8>>, change: ChangeModel) -> bool {
    match change {
        ChangeModel::Remove(path) => !files.contains_key(path),
        ChangeModel::Write(path, content) => files.contains_key(path) && files[path]
            == vstd::utf8::encode_utf8(content),
        ChangeModel::Copy(source, path) => files.contains_key(source) && files.contains_key(path)
            && files[path] == files[source],
    }
}

/// No file that is written is changed a second time. To remove a file twice is
/// fine.
pub open spec fn apart(changes: Seq<ChangeModel>) -> bool {
    forall|i: int, j: int|
        0 <= i < j < changes.len() && !(changes[i] is Remove && changes[j] is Remove)
            ==> install::changed_path(#[trigger] changes[i]) != install::changed_path(
            #[trigger] changes[j],
        )
}

/// The files that are copied are there, and none of them is changed.
pub open spec fn sources_there(files: Map<Seq<char>, Seq<u8>>, changes: Seq<ChangeModel>) -> bool {
    forall|i: int|
        0 <= i < changes.len() && (#[trigger] changes[i]) is Copy ==> files.contains_key(
            changes[i]->Copy_0,
        ) && !changes_file(changes, changes[i]->Copy_0)
}

/// Whether a file is among those that are changed.
pub open spec fn changes_file(changes: Seq<ChangeModel>, path: Seq<char>) -> bool {
    exists|j: int| 0 <= j < changes.len() && install::changed_path(#[trigger] changes[j]) == path
}

/// Carrying out one change settles it and leaves all other files alone.
proof fn lemma_one_change(run: RunModel, files: Map<Seq<char>, Seq<u8>>) -> (next: (
    RunModel,
    Map<Seq<char>, Seq<u8>>,
))
    requires
        !run.stopped(),
        run.phase is Start,
        sources_there(files, run.changes),
        0 <= run.next,
    ensures
        carried_out(run, files) == carried_out(next.0, next.1),
        next.0.changes == run.changes,
        next.0.next == run.next + 1,
        next.0.phase is Start,
        next.0.error is None,
        next.0.ending == run.ending,
        settled(next.1, run.changes[run.next]),
        forall|path: Seq<char>|
            path != install::changed_path(run.changes[run.next]) ==> (next.1.contains_key(path)
                <==> files.contains_key(path)) && (files.contains_key(path) ==> next.1[path]
                == #[trigger] files[path]),
        settled(files, run.changes[run.next]) ==> next.1 =~= files && next.0.written == run.written
            && next.0.removed == run.removed,
{
    reveal_with_fuel(carried_out, 5);
    let change = run.changes[run.next];
    let path = install::changed_path(change);
    match change {
        ChangeModel::Remove(_) => {
            let event = answer(files, run.action());
            (run.after(event), effect(files, run.action()))
        },
        _ => {
            let comparing = if change is Copy {
                assert(!changes_file(run.changes, change->Copy_0));
                assert(change->Copy_0 != path);
                run.after(answer(files, run.action()))
            } else {
                run
            };
            let event = answer(files, comparing.action());
            let compared = comparing.after(event);
            if files.contains_key(path) && files[path] == comparing.wanted() {
                (compared, files)
            } else {
                let storing = if compared.phase is Directory {
                    compared.after(EventModel::Done)
                } else {
                    compared
                };
                (storing.after(EventModel::Done), effect(files, storing.action()))
            }
        },
    }
}

/// A run that is carried out settles all its changes.
proof fn lemma_all_settled(run: RunModel, files: Map<Seq<char>, Seq<u8>>)
    requires
        run.error is None,
        run.phase is Start,
        0 <= run.next <= run.changes.len(),
        apart(run.changes),
        sources_there(files, run.changes),
        forall|i: int| 0 <= i < run.next ==> settled(files, #[trigger] run.changes[i]),
    ensures
        carried_out(run, files).0.error is None,
        carried_out(run, files).0.next == run.changes.len(),
        sources_there(carried_out(run, files).1, run.changes),
        forall|i: int|
            0 <= i < run.changes.len() ==> settled(
                carried_out(run, files).1,
                #[trigger] run.changes[i],
            ),
    decreases run.changes.len() - run.next,
{
    if run.next < run.changes.len() {
        let (next, left) = lemma_one_change(run, files);
        let changed = install::changed_path(run.changes[run.next]);
        assert(changes_file(run.changes, changed));
        assert forall|i: int| 0 <= i < next.next implies settled(
            left,
            #[trigger] run.changes[i],
        ) by {
            let path = install::changed_path(run.changes[i]);
            if i < run.next && path != changed {
                if run.changes[i] is Copy {
                    assert(!changes_file(run.changes, run.changes[i]->Copy_0));
                    assert(left[run.changes[i]->Copy_0] == files[run.changes[i]->Copy_0]);
                }
                assert(files.contains_key(path) ==> left[path] == files[path]);
                assert(left.contains_key(path) <==> files.contains_key(path)) by {
                    let seen = files[path];
                }
            }
        }
        assert forall|i: int| 0 <= i < run.changes.len() && (#[trigger] run.changes[i]) is Copy implies left.contains_key(
        run.changes[i]->Copy_0) && !changes_file(run.changes, run.changes[i]->Copy_0) by {
            let seen = files[run.changes[i]->Copy_0];
        }
        lemma_all_settled(next, left);
    }
}

/// A run whose changes are settled does nothing.
proof fn lemma_nothing_to_do(run: RunModel, files: Map<Seq<char>, Seq<u8>>)
    requires
        run.error is None,
        run.phase is Start,
        0 <= run.next <= run.changes.len(),
        sources_there(files, run.changes),
        forall|i: int|
            run.next <= i < run.changes.len() ==> settled(files, #[trigger] run.changes[i]),
    ensures
        carried_out(run, files).1 =~= files,
        carried_out(run, files).0.error is None,
        carried_out(run, files).0.written == run.written,
        carried_out(run, files).0.removed == run.removed,
    decreases run.changes.len() - run.next,
{
    if run.next < run.changes.len() {
        let (next, left) = lemma_one_change(run, files);
        assert(settled(files, run.changes[run.next]));
        lemma_nothing_to_do(next, left);
    }
}

/// A second run of the same changes writes nothing and removes nothing, as long as
/// no file that is written is changed a second time and the icon is read from
/// another place than it is installed to.
pub proof fn law_second_run_changes_nothing(
    changes: Seq<ChangeModel>,
    ending: Option<ErrorModel>,
    files: Map<Seq<char>, Seq<u8>>,
)
    requires
        apart(changes),
        sources_there(files, changes),
    ensures
        ({
            let first = carried_out(RunModel::begun(changes, ending), files);
            let second = carried_out(RunModel::begun(changes, ending), first.1);
            &&& first.0.error is None
            &&& second.0.error is None
            &&& second.0.written == 0
            &&& second.0.removed == 0
            &&& second.1 == first.1
        }),
{
    let begun = RunModel::begun(changes, ending);
    lemma_all_settled(begun, files);
    lemma_nothing_to_do(begun, carried_out(begun, files).1);
}

/// Once a run was carried out, every file that it was to remove is gone and every
/// file that it was to write has its content.
pub proof fn law_run_leaves_what_was_planned(
    changes: Seq<ChangeModel>,
    ending: Option<ErrorModel>,
    files: Map<Seq<char>, Seq<u8>>,
)
    requires
        apart(changes),
        sources_there(files, changes),
    ensures
        forall|i: int|
            0 <= i < changes.len() ==> settled(
                carried_out(RunModel::begun(changes, ending), files).1,
                #[trigger] changes[i],
            ),
{
    lemma_all_settled(RunModel::begun(changes, ending), files);
}

/// A run leaves alone what its changes do not name.
proof fn lemma_other_files(run: RunModel, files: Map<Seq<char>, Seq<u8>>, path: Seq<char>)
    requires
        0 <= run.next,
        !changes_file(run.changes, path),
    ensures
        carried_out(run, files).1.contains_key(path) == files.contains_key(path),
        files.contains_key(path) ==> carried_out(run, files).1[path] == files[path],
    decreases run::actions_left(run),
{
    if !run.stopped() {
        let event = answer(files, run.action());
        assert(install::changed_path(run.changes[run.next]) != path);
        run::law_run_ends(run, event);
        lemma_other_files(run.after(event), effect(files, run.action()), path);
    }
}

/// A run leaves every file alone that its changes do not name, also one that ends
/// in an error.
pub proof fn law_run_leaves_other_files_alone(
    changes: Seq<ChangeModel>,
    ending: Option<ErrorModel>,
    files: Map<Seq<char>, Seq<u8>>,
    path: Seq<char>,
)
    requires
        !changes_file(changes, path),
    ensures
        ({
            let left = carried_out(RunModel::begun(changes, ending), files).1;
            &&& left.contains_key(path) == files.contains_key(path)
            &&& files.contains_key(path) ==> left[path] == files[path]
        }),
{
    lemma_other_files(RunModel::begun(changes, ending), files, path);
}

/// Whether a file belongs to one of some ids.
pub open spec fn belongs_to(data_home: Seq<char>, ids: Seq<Seq<char>>, path: Seq<char>) -> bool {
    exists|i: int|
        0 <= i < ids.len() && (path == entry::entry_path_of(data_home, #[trigger] ids[i]) || path
            == entry::svg_path_of(data_home, ids[i]) || path == entry::png_path_of(
            data_home,
            ids[i],
        ))
}

/// The ids that uninstalling takes out of the desktop.
pub open spec fn removed_ids(app_id: Seq<char>) -> Seq<Seq<char>> {
    entry::managed_ids(app_id) + install::legacy_ids()
}

/// Taking ids out of the desktop removes the files of these ids and no others.
proof fn lemma_removals(data_home: Seq<char>, ids: Seq<Seq<char>>)
    ensures
        forall|i: int|
            0 <= i < install::all_removals(data_home, ids).len() ==> (
            #[trigger] install::all_removals(data_home, ids)[i]) is Remove && belongs_to(
                data_home,
                ids,
                install::changed_path(install::all_removals(data_home, ids)[i]),
            ),
        forall|path: Seq<char>|
            #[trigger] belongs_to(data_home, ids, path) ==> changes_file(
                install::all_removals(data_home, ids),
                path,
            ),
    decreases ids.len(),
{
    let all = install::all_removals(data_home, ids);
    if ids.len() > 0 {
        let fewer = ids.drop_last();
        let before = install::all_removals(data_home, fewer);
        let behind = install::removals_of(data_home, ids.last());
        lemma_removals(data_home, fewer);
        assert(all == before + behind);
        assert forall|i: int| 0 <= i < all.len() implies (#[trigger] all[i]) is Remove && belongs_to(
            data_home,
            ids,
            install::changed_path(all[i]),
        ) by {
            if i < before.len() {
                assert(all[i] == before[i]);
                let path = install::changed_path(before[i]);
                let k = choose|k: int|
                    0 <= k < fewer.len() && (path == entry::entry_path_of(
                        data_home,
                        #[trigger] fewer[k],
                    ) || path == entry::svg_path_of(data_home, fewer[k]) || path
                        == entry::png_path_of(data_home, fewer[k]));
                assert(ids[k] == fewer[k]);
            } else {
                assert(all[i] == behind[i - before.len()]);
                assert(ids[ids.len() - 1] == ids.last());
            }
        }
        assert forall|path: Seq<char>| belongs_to(data_home, ids, path) implies changes_file(
            all,
            path,
        ) by {
            let k = choose|k: int|
                0 <= k < ids.len() && (path == entry::entry_path_of(data_home, #[trigger] ids[k])
                    || path == entry::svg_path_of(data_home, ids[k]) || path == entry::png_path_of(
                    data_home,
                    ids[k],
                ));
            if k < fewer.len() {
                assert(fewer[k] == ids[k]);
                assert(belongs_to(data_home, fewer, path));
                assert(changes_file(before, path));
                let j = choose|j: int|
                    0 <= j < before.len() && install::changed_path(#[trigger] before[j]) == path;
                assert(install::changed_path(all[j]) == path);
            } else {
                assert(all[before.len() as int] == behind[0]);
                assert(all[before.len() + 1int] == behind[1]);
                assert(all[before.len() + 2int] == behind[2]);
            }
        }
    }
}

/// Uninstalling changes the files of the removed ids and no others.
proof fn lemma_uninstalled(data_home: Seq<char>, app_id: Seq<char>)
    ensures
        forall|i: int|
            0 <= i < install::uninstall_changes(data_home, app_id).len() ==> (
            #[trigger] install::uninstall_changes(data_home, app_id)[i]) is Remove,
        forall|path: Seq<char>|
            #[trigger] changes_file(install::uninstall_changes(data_home, app_id), path)
                == belongs_to(data_home, removed_ids(app_id), path),
{
    let managed = entry::managed_ids(app_id);
    let legacy = install::legacy_ids();
    let ids = removed_ids(app_id);
    let first = install::all_removals(data_home, managed);
    let second = install::all_removals(data_home, legacy);
    let all = install::uninstall_changes(data_home, app_id);
    lemma_removals(data_home, managed);
    lemma_removals(data_home, legacy);
    assert(all == first + second);
    assert forall|path: Seq<char>| changes_file(all, path) == belongs_to(data_home, ids, path) by {
        if changes_file(all, path) {
            let j = choose|j: int|
                0 <= j < all.len() && install::changed_path(#[trigger] all[j]) == path;
            if j < first.len() {
                assert(first[j] == all[j]);
                assert(belongs_to(data_home, managed, path));
            } else {
                assert(second[j - first.len()] == all[j]);
                assert(belongs_to(data_home, legacy, path));
            }
            lemma_belongs(data_home, managed, legacy, path);
        }
        if belongs_to(data_home, ids, path) {
            lemma_belongs(data_home, managed, legacy, path);
            if belongs_to(data_home, managed, path) {
                assert(changes_file(first, path));
                let j = choose|j: int|
                    0 <= j < first.len() && install::changed_path(#[trigger] first[j]) == path;
                assert(install::changed_path(all[j]) == path);
            } else {
                assert(changes_file(second, path));
                let j = choose|j: int|
                    0 <= j < second.len() && install::changed_path(#[trigger] second[j]) == path;
                assert(install::changed_path(all[first.len() + j]) == path);
            }
        }
    }
}

proof fn lemma_belongs(
    data_home: Seq<char>,
    some: Seq<Seq<char>>,
    others: Seq<Seq<char>>,
    path: Seq<char>,
)
    ensures
        belongs_to(data_home, some + others, path) == (belongs_to(data_home, some, path)
            || belongs_to(data_home, others, path)),
{
    let all = some + others;
    assert forall|i: int| 0 <= i < some.len() implies #[trigger] some[i] == all[i] by {}
    assert forall|i: int| 0 <= i < others.len() implies #[trigger] others[i] == all[some.len()
        + i] by {}
    assert forall|i: int| 0 <= i < all.len() implies #[trigger] all[i] == (if i < some.len() {
        some[i]
    } else {
        others[i - some.len()]
    }) by {}
}

/// Once the application was taken out of the desktop, no file of its id, of the
/// id's alias or of an earlier version's id is left. Files that were not there are
/// no error, all other files are as they were, nothing is written, and to take the
/// application out a second time removes nothing.
pub proof fn law_uninstalling_removes_all_files(
    data_home: Seq<char>,
    app_id: Seq<char>,
    files: Map<Seq<char>, Seq<u8>>,
)
    ensures
        ({
            let changes = install::uninstall_changes(data_home, app_id);
            let first = carried_out(RunModel::begun(changes, None), files);
            let second = carried_out(RunModel::begun(changes, None), first.1);
            &&& first.0.error is None
            &&& first.0.written == 0
            &&& forall|path: Seq<char>|
                belongs_to(data_home, removed_ids(app_id), path)
                    ==> !#[trigger] first.1.contains_key(path)
            &&& forall|path: Seq<char>|
                !belongs_to(data_home, removed_ids(app_id), path)
                    ==> #[trigger] first.1.contains_key(path) == files.contains_key(path) && (
                files.contains_key(path) ==> first.1[path] == files[path])
            &&& second.0.error is None
            &&& second.0.written == 0
            &&& second.0.removed == 0
            &&& second.1 == first.1
        }),
{
    let changes = install::uninstall_changes(data_home, app_id);
    let begun = RunModel::begun(changes, None);
    let left = carried_out(begun, files).1;
    lemma_uninstalled(data_home, app_id);
    law_second_run_changes_nothing(changes, None, files);
    law_run_leaves_what_was_planned(changes, None, files);
    lemma_nothing_written(begun, files);
    assert forall|path: Seq<char>| belongs_to(data_home, removed_ids(app_id), path) implies
        !#[trigger] left.contains_key(path) by {
        assert(changes_file(changes, path));
        let j = choose|j: int|
            0 <= j < changes.len() && install::changed_path(#[trigger] changes[j]) == path;
        assert(settled(left, changes[j]));
    }
    assert forall|path: Seq<char>| !belongs_to(data_home, removed_ids(app_id), path) implies
        #[trigger] left.contains_key(path) == files.contains_key(path) && (files.contains_key(path)
        ==> left[path] == files[path]) by {
        assert(!changes_file(changes, path));
        lemma_other_files(begun, files, path);
    }
}

/// A run that only removes files writes none.
proof fn lemma_nothing_written(run: RunModel, files: Map<Seq<char>, Seq<u8>>)
    requires
        0 <= run.next,
        forall|i: int| 0 <= i < run.changes.len() ==> (#[trigger] run.changes[i]) is Remove,
    ensures
        carried_out(run, files).0.written == run.written,
    decreases run::actions_left(run),
{
    if !run.stopped() {
        let event = answer(files, run.action());
        assert(run.changes[run.next] is Remove);
        run::law_run_ends(run, event);
        lemma_nothing_written(run.after(event), effect(files, run.action()));
    }
}

/// Whether the files of some ids have paths of their own: different kinds of files
/// always, and the same kind of file for different ids.
pub open spec fn told_apart(data_home: Seq<char>, ids: Seq<Seq<char>>) -> bool {
    forall|i: int, j: int|
        #![trigger ids[i], ids[j]]
        0 <= i < ids.len() && 0 <= j < ids.len() ==> {
            &&& entry::entry_path_of(data_home, ids[i]) != entry::svg_path_of(data_home, ids[j])
            &&& entry::entry_path_of(data_home, ids[i]) != entry::png_path_of(data_home, ids[j])
            &&& entry::svg_path_of(data_home, ids[i]) != entry::png_path_of(data_home, ids[j])
            &&& ids[i] != ids[j] ==> {
                &&& entry::entry_path_of(data_home, ids[i]) != entry::entry_path_of(
                    data_home,
                    ids[j],
                )
                &&& entry::svg_path_of(data_home, ids[i]) != entry::svg_path_of(data_home, ids[j])
                &&& entry::png_path_of(data_home, ids[i]) != entry::png_path_of(data_home, ids[j])
            }
        }
}

/// Whether none of the ids that the application is installed under is one that
/// earlier versions were installed under.
pub open spec fn is_new_id(app_id: Seq<char>) -> bool {
    forall|i: int|
        0 <= i < entry::managed_ids(app_id).len() ==> !install::legacy_ids().contains(
            #[trigger] entry::managed_ids(app_id)[i],
        )
}

/// An id and its alias differ.
proof fn lemma_alias_differs(app_id: Seq<char>)
    ensures
        entry::alias_of(app_id) is Some ==> entry::alias_of(app_id)->0 != app_id,
{
    if entry::alias_of(app_id) is Some {
        let k = choose|k: int| 0 <= k < app_id.len() && entry::is_capital(#[trigger] app_id[k]);
        assert(text::ascii_lower_text(app_id)[k] != app_id[k]);
    }
}

/// A file of an earlier version is none of the application's.
proof fn lemma_legacy_path(data_home: Seq<char>, app_id: Seq<char>, k: int, path: Seq<char>)
    requires
        told_apart(data_home, removed_ids(app_id)),
        is_new_id(app_id),
        0 <= k < entry::managed_ids(app_id).len(),
        belongs_to(data_home, install::legacy_ids(), path),
    ensures
        path != entry::entry_path_of(data_home, entry::managed_ids(app_id)[k]),
        path != entry::svg_path_of(data_home, entry::managed_ids(app_id)[k]),
        path != entry::png_path_of(data_home, entry::managed_ids(app_id)[k]),
{
    let managed = entry::managed_ids(app_id);
    let legacy = install::legacy_ids();
    let ids = removed_ids(app_id);
    let j = choose|j: int|
        0 <= j < legacy.len() && (path == entry::entry_path_of(data_home, #[trigger] legacy[j])
            || path == entry::svg_path_of(data_home, legacy[j]) || path == entry::png_path_of(
            data_home,
            legacy[j],
        ));
    assert(ids[k] == managed[k]);
    assert(ids[managed.len() + j] == legacy[j]);
    assert(legacy.contains(legacy[j]));
}

/// The installed icons, one after the other.
proof fn lemma_icons(data_home: Seq<char>, icon: IconModel, app_id: Seq<char>)
    ensures
        ({
            let ids = entry::managed_ids(app_id);
            let icons = install::icon_changes(data_home, icon, ids);
            &&& icons.len() == 2 * ids.len()
            &&& forall|k: int|
                0 <= k < ids.len() ==> icons[2 * k] == install::icon_change(
                    data_home,
                    icon,
                    #[trigger] ids[k],
                )[0] && icons[2 * k + 1] == install::icon_change(data_home, icon, ids[k])[1]
        }),
{
    reveal_with_fuel(install::icon_changes, 3);
    let ids = entry::managed_ids(app_id);
    assert(ids.drop_last().len() == ids.len() - 1);
    if ids.len() == 2 {
        assert(ids.drop_last().last() == ids[0]);
        assert(ids.drop_last().drop_last().len() == 0);
    }
}

/// Installing changes no file a second time that it writes.
proof fn lemma_install_apart(
    data_home: Seq<char>,
    application: DesktopApplication,
    executable: Seq<char>,
    icon: Option<IconModel>,
)
    requires
        told_apart(data_home, removed_ids(application.id@)),
        is_new_id(application.id@),
    ensures
        apart(install::install_changes(data_home, application, executable, icon)),
{
    let app_id = application.id@;
    let managed = entry::managed_ids(app_id);
    let ids = removed_ids(app_id);
    let removals = install::all_removals(data_home, install::legacy_ids());
    let writes = install::entry_writes(data_home, application.name@, executable, managed);
    let icons = match icon {
        Some(icon) => install::icon_changes(data_home, icon, managed),
        None => Seq::empty(),
    };
    let all = install::install_changes(data_home, application, executable, icon);
    assert(all == removals + writes + icons);
    lemma_removals(data_home, install::legacy_ids());
    lemma_alias_differs(app_id);
    if icon is Some {
        lemma_icons(data_home, icon->0, app_id);
    }
    assert forall|i: int| 0 <= i < managed.len() implies #[trigger] managed[i] == ids[i] by {}
    assert forall|i: int, j: int|
        0 <= i < j < all.len() && !(all[i] is Remove && all[j] is Remove) implies install::changed_path(
        #[trigger] all[i]) != install::changed_path(#[trigger] all[j]) by {
        let first = removals.len() as int;
        let second = first + writes.len();
        assert(j >= first) by {
            if j < first {
                assert(all[i] == removals[i] && all[j] == removals[j]);
            }
        }
        let b: int = if j < second {
            j - first
        } else {
            (j - second) / 2
        };
        assert(0 <= b < managed.len());
        assert(managed[b] == ids[b]);
        if j < second {
            assert(all[j] == writes[b]);
        } else {
            assert(all[j] == icons[j - second]);
            assert(j - second == 2 * b || j - second == 2 * b + 1);
        }
        if i < first {
            assert(all[i] == removals[i]);
            lemma_legacy_path(data_home, app_id, b, install::changed_path(removals[i]));
        } else {
            let a: int = if i < second {
                i - first
            } else {
                (i - second) / 2
            };
            assert(0 <= a < managed.len());
            assert(managed[a] == ids[a]);
            if i < second {
                assert(all[i] == writes[a]);
            } else {
                assert(all[i] == icons[i - second]);
                assert(i - second == 2 * a || i - second == 2 * a + 1);
            }
            assert(a != b ==> managed[a] != managed[b]);
        }
    }
}

/// Once the application was put into the desktop, its desktop files and its icons
/// are there with their contents, and no file of an earlier version's id is. Other
/// files are as they were. To put the application into the desktop a second time
/// writes nothing and removes nothing. This is so where the files have paths of
/// their own, no id of the application is an earlier version's, and the icon is
/// there and read from another place than those that are changed.
pub proof fn law_installing_twice_changes_nothing(
    data_home: Seq<char>,
    application: DesktopApplication,
    executable: Seq<char>,
    icon: Option<IconModel>,
    files: Map<Seq<char>, Seq<u8>>,
)
    requires
        told_apart(data_home, removed_ids(application.id@)),
        is_new_id(application.id@),
        icon is Some ==> files.contains_key((icon->0).path) && !belongs_to(
            data_home,
            removed_ids(application.id@),
            (icon->0).path,
        ),
    ensures
        ({
            let changes = install::install_changes(data_home, application, executable, icon);
            let first = carried_out(RunModel::begun(changes, None), files);
            let second = carried_out(RunModel::begun(changes, None), first.1);
            &&& first.0.error is None
            &&& forall|i: int| 0 <= i < changes.len() ==> settled(first.1, #[trigger] changes[i])
            &&& forall|path: Seq<char>|
                !belongs_to(data_home, removed_ids(application.id@), path)
                    ==> #[trigger] first.1.contains_key(path) == files.contains_key(path) && (
                files.contains_key(path) ==> first.1[path] == files[path])
            &&& second.0.error is None
            &&& second.0.written == 0
            &&& second.0.removed == 0
            &&& second.1 == first.1
        }),
{
    let app_id = application.id@;
    let changes = install::install_changes(data_home, application, executable, icon);
    let begun = RunModel::begun(changes, None);
    let left = carried_out(begun, files).1;
    let removals = install::uninstall_changes(data_home, app_id);
    lemma_install_apart(data_home, application, executable, icon);
    lemma_uninstalled(data_home, app_id);
    assert forall|path: Seq<char>| #[trigger] changes_file(changes, path) implies belongs_to(
        data_home,
        removed_ids(app_id),
        path,
    ) by {
        let at = choose|at: int|
            0 <= at < changes.len() && install::changed_path(#[trigger] changes[at]) == path;
        install::law_uninstalling_removes_what_was_installed(
            data_home,
            application,
            executable,
            icon,
            at,
        );
        let place = choose|place: int|
            0 <= place < removals.len() && removals[place] == ChangeModel::Remove(path);
        assert(install::changed_path(removals[place]) == path);
        assert(changes_file(removals, path));
    }
    assert forall|i: int| 0 <= i < changes.len() && (#[trigger] changes[i]) is Copy implies
        files.contains_key(changes[i]->Copy_0) && !changes_file(changes, changes[i]->Copy_0) by {
        lemma_copied(data_home, application, executable, icon, i);
    }
    law_second_run_changes_nothing(changes, None, files);
    law_run_leaves_what_was_planned(changes, None, files);
    assert forall|path: Seq<char>| !belongs_to(data_home, removed_ids(app_id), path) implies
        #[trigger] left.contains_key(path) == files.contains_key(path) && (files.contains_key(path)
        ==> left[path] == files[path]) by {
        assert(!changes_file(changes, path));
        lemma_other_files(begun, files, path);
    }
}

/// All that installing copies is the icon.
proof fn lemma_copied(
    data_home: Seq<char>,
    application: DesktopApplication,
    executable: Seq<char>,
    icon: Option<IconModel>,
    at: int,
)
    requires
        0 <= at < install::install_changes(data_home, application, executable, icon).len(),
        install::install_changes(data_home, application, executable, icon)[at] is Copy,
    ensures
        icon is Some,
        install::install_changes(data_home, application, executable, icon)[at]->Copy_0 == (
        icon->0).path,
{
    let managed = entry::managed_ids(application.id@);
    let removals = install::all_removals(data_home, install::legacy_ids());
    let writes = install::entry_writes(data_home, application.name@, executable, managed);
    let all = install::install_changes(data_home, application, executable, icon);
    lemma_removals(data_home, install::legacy_ids());
    if at < removals.len() {
        assert(all[at] == removals[at]);
    } else if at < removals.len() + writes.len() {
        assert(all[at] == writes[at - removals.len()]);
    } else {
        let from = at - removals.len() - writes.len();
        let k: int = from / 2;
        assert(icon is Some);
        lemma_icons(data_home, icon->0, application.id@);
        assert(0 <= k < managed.len());
        assert(all[at] == install::icon_changes(data_home, icon->0, managed)[from]);
        assert(managed[k] == managed[k]);
        assert(from == 2 * k || from == 2 * k + 1);
    }
}

} // verus!
