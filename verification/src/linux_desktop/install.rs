//! Which files are written and removed when the application is put into the
//! desktop or taken out of it.

use vstd::prelude::*;

use crate::error::{AppError, AppResult, ErrorModel};
use crate::linux_desktop::entry::{
    self, DesktopEnvironment, DesktopIdentity, DesktopInstallPaths, IconModel, IconSource,
    IconSourceKind,
};
use crate::paths;

verus! {

pub const RESOLVE_EXECUTABLE: &'static str = "resolve current executable";

pub const RESOLVE_DIRECTORY: &'static str = "resolve current directory";

/// The application's name and id.
#[derive(Clone, Debug, PartialEq, Eq)]
pub struct DesktopApplication {
    pub name: String,
    pub id: String,
}

/// A change to one file.
#[derive(Clone, Debug, PartialEq, Eq)]
pub enum FileChange {
    /// Remove the file where it exists.
    Remove { path: String },
    /// Give the file this content unless it has it.
    Write { path: String, content: String },
    /// Give the file another file's content unless it has it.
    Copy { source: String, path: String },
}

/// A change to one file, as a value.
pub enum ChangeModel {
    Remove(Seq<char>),
    Write(Seq<char>, Seq<char>),
    Copy(Seq<char>, Seq<char>),
}

impl View for FileChange {
    type V = ChangeModel;

    open spec fn view(&self) -> ChangeModel {
        match self {
            FileChange::Remove { path } => ChangeModel::Remove(path@),
            FileChange::Write { path, content } => ChangeModel::Write(path@, content@),
            FileChange::Copy { source, path } => ChangeModel::Copy(source@, path@),
        }
    }
}

pub open spec fn changes(list: Seq<FileChange>) -> Seq<ChangeModel> {
    list.map_values(|change: FileChange| change@)
}

/// Changes to files, and the error that follows them, if one does.
#[derive(Debug)]
pub struct ChangePlan {
    pub changes: Vec<FileChange>,
    pub error: Option<AppError>,
}

/// The ids that earlier versions were installed under.
pub open spec fn legacy_ids() -> Seq<Seq<char>> {
    seq!["io.github.j3term"@, "j3Term"@, "j3term"@, "j3Launcher"@, "j3launcher"@]
}

pub fn legacy_app_ids() -> (ids: Vec<&'static str>)
    ensures
        ids@.map_values(|id: &'static str| id@) == legacy_ids(),
{
    let ids: Vec<&'static str> = vec![
        "io.github.j3term",
        "j3Term",
        "j3term",
        "j3Launcher",
        "j3launcher",
    ];
    assert(ids@.map_values(|id: &'static str| id@) =~= legacy_ids());
    ids
}

/// Taking an id out of the desktop.
pub open spec fn removals_of(data_home: Seq<char>, id: Seq<char>) -> Seq<ChangeModel> {
    seq![
        ChangeModel::Remove(entry::entry_path_of(data_home, id)),
        ChangeModel::Remove(entry::svg_path_of(data_home, id)),
        ChangeModel::Remove(entry::png_path_of(data_home, id)),
    ]
}

/// Taking some ids out of the desktop, one after the other.
pub open spec fn all_removals(data_home: Seq<char>, ids: Seq<Seq<char>>) -> Seq<ChangeModel>
    decreases ids.len(),
{
    if ids.len() == 0 {
        Seq::empty()
    } else {
        all_removals(data_home, ids.drop_last()) + removals_of(data_home, ids.last())
    }
}

/// The desktop files of some ids; only the first is shown.
pub open spec fn entry_writes(
    data_home: Seq<char>,
    name: Seq<char>,
    executable: Seq<char>,
    ids: Seq<Seq<char>>,
) -> Seq<ChangeModel> {
    Seq::new(
        ids.len(),
        |i: int|
            ChangeModel::Write(
                entry::entry_path_of(data_home, ids[i]),
                entry::entry_text(name, executable, ids[i], i > 0),
            ),
    )
}

/// One id's icon: a copy of the right kind, and none of the other kind.
pub open spec fn icon_change(data_home: Seq<char>, icon: IconModel, id: Seq<char>) -> Seq<ChangeModel> {
    match icon.kind {
        IconSourceKind::Svg => seq![
            ChangeModel::Copy(icon.path, entry::svg_path_of(data_home, id)),
            ChangeModel::Remove(entry::png_path_of(data_home, id)),
        ],
        IconSourceKind::Png => seq![
            ChangeModel::Copy(icon.path, entry::png_path_of(data_home, id)),
            ChangeModel::Remove(entry::svg_path_of(data_home, id)),
        ],
    }
}

/// The icons of some ids.
pub open spec fn icon_changes(data_home: Seq<char>, icon: IconModel, ids: Seq<Seq<char>>) -> Seq<
    ChangeModel,
>
    decreases ids.len(),
{
    if ids.len() == 0 {
        Seq::empty()
    } else {
        icon_changes(data_home, icon, ids.drop_last()) + icon_change(data_home, icon, ids.last())
    }
}

/// Putting the application into the desktop.
pub open spec fn install_changes(
    data_home: Seq<char>,
    application: DesktopApplication,
    executable: Seq<char>,
    icon: Option<IconModel>,
) -> Seq<ChangeModel> {
    let ids = entry::managed_ids(application.id@);
    all_removals(data_home, legacy_ids()) + entry_writes(
        data_home,
        application.name@,
        executable,
        ids,
    ) + (match icon {
        Some(icon) => icon_changes(data_home, icon, ids),
        None => Seq::empty(),
    })
}

/// Taking the application out of the desktop.
pub open spec fn uninstall_changes(data_home: Seq<char>, app_id: Seq<char>) -> Seq<ChangeModel> {
    all_removals(data_home, entry::managed_ids(app_id)) + all_removals(data_home, legacy_ids())
}

fn remove_installed_files(paths: &DesktopInstallPaths, app_id: &str, list: &mut Vec<FileChange>)
    ensures
        changes(final(list)@) == changes(old(list)@) + removals_of(paths.home(), app_id@),
{
    list.push(FileChange::Remove { path: paths.desktop_entry_path(app_id) });
    list.push(FileChange::Remove { path: paths.svg_icon_path(app_id) });
    list.push(FileChange::Remove { path: paths.png_icon_path(app_id) });
    assert(changes(list@) =~= changes(old(list)@) + removals_of(paths.home(), app_id@));
}

fn remove_legacy_files(paths: &DesktopInstallPaths, list: &mut Vec<FileChange>)
    ensures
        changes(final(list)@) == changes(old(list)@) + all_removals(paths.home(), legacy_ids()),
{
    let ids = legacy_app_ids();
    let ghost all = legacy_ids();
    let ghost before = changes(list@);
    let mut index: usize = 0;
    assert(before + all_removals(paths.home(), all.take(0)) =~= before);
    while index < ids.len()
        invariant
            all == ids@.map_values(|id: &'static str| id@),
            index <= ids@.len(),
            changes(list@) == before + all_removals(paths.home(), all.take(index as int)),
        decreases ids@.len() - index,
    {
        assert(all.take(index + 1).drop_last() =~= all.take(index as int));
        assert(all.take(index + 1).last() == ids@[index as int]@);
        remove_installed_files(paths, ids[index], list);
        assert(changes(list@) =~= before + all_removals(paths.home(), all.take(index + 1)));
        index += 1;
    }
    assert(all.take(index as int) =~= all);
}

/// Ids as values.
pub open spec fn identity_ids(identities: Seq<DesktopIdentity>) -> Seq<Seq<char>> {
    identities.map_values(|identity: DesktopIdentity| identity.app_id@)
}

fn install_icons(
    paths: &DesktopInstallPaths,
    identities: &Vec<DesktopIdentity>,
    icon: &IconSource,
    list: &mut Vec<FileChange>,
)
    ensures
        changes(final(list)@) == changes(old(list)@) + icon_changes(
            paths.home(),
            icon@,
            identity_ids(identities@),
        ),
{
    let ghost all = identity_ids(identities@);
    let ghost before = changes(list@);
    let mut index: usize = 0;
    assert(before + icon_changes(paths.home(), icon@, all.take(0)) =~= before);
    while index < identities.len()
        invariant
            all == identity_ids(identities@),
            index <= identities@.len(),
            changes(list@) == before + icon_changes(paths.home(), icon@, all.take(index as int)),
        decreases identities@.len() - index,
    {
        assert(all.take(index + 1).drop_last() =~= all.take(index as int));
        let id = identities[index].app_id.as_str();
        assert(all.take(index + 1).last() == id@);
        let ghost so_far = changes(list@);
        match icon.kind {
            IconSourceKind::Svg => {
                list.push(
                    FileChange::Copy { source: icon.path.clone(), path: paths.svg_icon_path(id) },
                );
                list.push(FileChange::Remove { path: paths.png_icon_path(id) });
            },
            IconSourceKind::Png => {
                list.push(
                    FileChange::Copy { source: icon.path.clone(), path: paths.png_icon_path(id) },
                );
                list.push(FileChange::Remove { path: paths.svg_icon_path(id) });
            },
        }
        assert(changes(list@) =~= so_far + icon_change(paths.home(), icon@, id@));
        assert(changes(list@) =~= before + icon_changes(paths.home(), icon@, all.take(index + 1)));
        index += 1;
    }
    assert(all.take(index as int) =~= all);
}

/// The changes that put the application into the desktop. A path that no
/// desktop file can name ends them once the earlier versions are removed.
pub fn install_with_request(
    application: &DesktopApplication,
    request: &DesktopInstallRequest,
    paths: &DesktopInstallPaths,
    icon: &Option<IconSource>,
) -> (plan: ChangePlan)
    ensures
        match entry::entry_executable(request.executable_path@, request.executable_is_utf8) {
            Ok(executable) => {
                &&& plan.error is None
                &&& changes(plan.changes@) == install_changes(
                    paths.home(),
                    *application,
                    executable,
                    match *icon {
                        Some(source) => Some(source@),
                        None => None,
                    },
                )
            },
            Err(error) => {
                &&& plan.error is Some && (plan.error->0)@ == error
                &&& changes(plan.changes@) == all_removals(paths.home(), legacy_ids())
            },
        },
{
    let mut list: Vec<FileChange> = Vec::new();
    remove_legacy_files(paths, &mut list);
    assert(changes(Seq::<FileChange>::empty()) + all_removals(paths.home(), legacy_ids())
        =~= all_removals(paths.home(), legacy_ids()));
    let identities = managed_identities(application);
    let ghost ids = entry::managed_ids(application.id@);
    let ghost removed = changes(list@);
    let mut index: usize = 0;
    while index < identities.len()
        invariant
            index <= identities@.len(),
            ids == entry::managed_ids(application.id@),
            identities@.len() == ids.len(),
            removed == all_removals(paths.home(), legacy_ids()),
            forall|i: int|
                0 <= i < identities@.len() ==> (#[trigger] identities@[i]).app_id@ == ids[i]
                    && identities@[i].no_display == (i > 0),
            index > 0 ==> entry::entry_executable(
                request.executable_path@,
                request.executable_is_utf8,
            ) == Ok::<Seq<char>, ErrorModel>(request.executable_path@),
            changes(list@) =~= removed + entry_writes(
                paths.home(),
                application.name@,
                request.executable_path@,
                ids,
            ).take(index as int),
        decreases identities@.len() - index,
    {
        let ghost so_far = changes(list@);
        match entry::desktop_entry_content(
            application.name.as_str(),
            request.executable_path.as_str(),
            request.executable_is_utf8,
            &identities[index],
        ) {
            Ok(content) => {
                let path = paths.desktop_entry_path(identities[index].app_id.as_str());
                list.push(FileChange::Write { path, content });
                assert(changes(list@) =~= so_far.push(list@.last()@));
            },
            Err(error) => return ChangePlan { changes: list, error: Some(error) },
        }
        index += 1;
    }
    match icon {
        Some(source) => {
            install_icons(paths, &identities, source, &mut list);
            assert(identity_ids(identities@) =~= ids);
        },
        None => {},
    }
    assert(changes(list@) =~= install_changes(
        paths.home(),
        *application,
        request.executable_path@,
        match *icon {
            Some(source) => Some(source@),
            None => None,
        },
    ));
    ChangePlan { changes: list, error: None }
}

fn managed_identities(application: &DesktopApplication) -> (identities: Vec<DesktopIdentity>)
    ensures
        identities@.len() == entry::managed_ids(application.id@).len(),
        identities@.len() >= 1,
        forall|i: int|
            0 <= i < identities@.len() ==> (#[trigger] identities@[i]).app_id@
                == entry::managed_ids(application.id@)[i] && identities@[i].no_display == (i > 0),
{
    entry::managed_desktop_identities(application.id.as_str())
}

/// The changes that take the application out of the desktop.
pub fn uninstall_from_paths(application: &DesktopApplication, paths: &DesktopInstallPaths) -> (plan:
    ChangePlan)
    ensures
        plan.error is None,
        changes(plan.changes@) == uninstall_changes(paths.home(), application.id@),
{
    let mut list: Vec<FileChange> = Vec::new();
    let identities = managed_identities(application);
    let ghost ids = entry::managed_ids(application.id@);
    let mut index: usize = 0;
    assert(changes(list@) =~= all_removals(paths.home(), ids.take(0)));
    while index < identities.len()
        invariant
            index <= identities@.len(),
            identities@.len() == ids.len(),
            forall|i: int| 0 <= i < identities@.len() ==> (#[trigger] identities@[i]).app_id@ == ids[i],
            changes(list@) == all_removals(paths.home(), ids.take(index as int)),
        decreases identities@.len() - index,
    {
        assert(ids.take(index + 1).drop_last() =~= ids.take(index as int));
        remove_installed_files(paths, identities[index].app_id.as_str(), &mut list);
        index += 1;
    }
    assert(ids.take(index as int) =~= ids);
    remove_legacy_files(paths, &mut list);
    ChangePlan { changes: list, error: None }
}

/// What an installation is made from.
#[derive(Clone, Debug, PartialEq, Eq)]
pub struct DesktopInstallRequest {
    pub executable_path: String,
    /// Whether `executable_path` is the path as it is.
    pub executable_is_utf8: bool,
    pub current_directory: String,
    pub environment: DesktopEnvironment,
}

/// The path of the running executable: below the current directory where it is
/// not absolute.
pub open spec fn executable_of(executable: Seq<char>, current: Seq<char>) -> Seq<char> {
    if paths::absolute(executable) {
        executable
    } else {
        paths::joined(current, executable)
    }
}

impl DesktopInstallRequest {
    /// What the process says of itself. Not knowing the executable weighs more
    /// than not knowing the current directory.
    pub fn from_process_environment(
        executable: Result<String, String>,
        executable_is_utf8: bool,
        current_directory: Result<String, String>,
        environment: DesktopEnvironment,
    ) -> (request: AppResult<Self>)
        ensures
            match (executable, current_directory) {
                (Err(cause), _) => request is Err && (request->Err_0)@ == ErrorModel::Io(
                    RESOLVE_EXECUTABLE@,
                    cause@,
                ),
                (Ok(_), Err(cause)) => request is Err && (request->Err_0)@ == ErrorModel::Io(
                    RESOLVE_DIRECTORY@,
                    cause@,
                ),
                (Ok(path), Ok(current)) => {
                    &&& request is Ok
                    &&& (request->Ok_0).executable_path@ == executable_of(path@, current@)
                    &&& (request->Ok_0).executable_is_utf8 == executable_is_utf8
                    &&& (request->Ok_0).current_directory == current
                    &&& (request->Ok_0).environment == environment
                },
            },
    {
        match executable {
            Ok(path) => match current_directory {
                Ok(current) => {
                    let executable_path = if paths::is_absolute(path.as_str()) {
                        path
                    } else {
                        paths::join(current.as_str(), path.as_str())
                    };
                    Ok(
                        DesktopInstallRequest {
                            executable_path,
                            executable_is_utf8,
                            current_directory: current,
                            environment,
                        },
                    )
                },
                Err(cause) => Err(AppError::io(RESOLVE_DIRECTORY, cause)),
            },
            Err(cause) => Err(AppError::io(RESOLVE_EXECUTABLE, cause)),
        }
    }

    pub fn install_paths(&self) -> (paths: AppResult<DesktopInstallPaths>)
        ensures
            match entry::data_home_of(self.environment) {
                Ok(home) => paths is Ok && (paths->Ok_0).home() == home,
                Err(error) => paths is Err && (paths->Err_0)@ == error,
            },
    {
        match self.environment.data_home() {
            Ok(data_home) => Ok(DesktopInstallPaths::new(data_home)),
            Err(error) => Err(error),
        }
    }
}

/// The file that the window's icon is taken from; `is_file` says of each
/// candidate whether it is a file.
pub fn find_runtime_icon_path(request: &DesktopInstallRequest, is_file: &Vec<bool>) -> (path: Option<
    String,
>)
    ensures
        path is Some == entry::first_icon(
            entry::icon_candidates_of(request.executable_path@, request.current_directory@),
            is_file@,
        ) is Some,
        path is Some ==> (path->0)@ == (entry::first_icon(
            entry::icon_candidates_of(request.executable_path@, request.current_directory@),
            is_file@,
        )->0).path,
{
    match entry::find_icon_source(
        request.executable_path.as_str(),
        request.current_directory.as_str(),
        is_file,
    ) {
        Some(source) => Some(source.path),
        None => None,
    }
}

/// The file that a change is about.
pub open spec fn changed_path(change: ChangeModel) -> Seq<char> {
    match change {
        ChangeModel::Remove(path) => path,
        ChangeModel::Write(path, _) => path,
        ChangeModel::Copy(_, path) => path,
    }
}

/// Every id's files are among those that are removed for it.
proof fn lemma_removed(data_home: Seq<char>, ids: Seq<Seq<char>>, index: int)
    requires
        0 <= index < ids.len(),
    ensures
        forall|change: ChangeModel|
            removals_of(data_home, ids[index]).contains(change) ==> #[trigger] all_removals(
                data_home,
                ids,
            ).contains(change),
    decreases ids.len(),
{
    let last = ids.len() - 1;
    let before = all_removals(data_home, ids.drop_last());
    let behind = removals_of(data_home, ids.last());
    assert(all_removals(data_home, ids) == before + behind);
    assert forall|change: ChangeModel|
        removals_of(data_home, ids[index]).contains(change) implies #[trigger] all_removals(
        data_home,
        ids,
    ).contains(change) by {
        if index == last {
            let at = choose|i: int| 0 <= i < behind.len() && behind[i] == change;
            assert((before + behind)[before.len() + at] == change);
        } else {
            lemma_removed(data_home, ids.drop_last(), index);
            assert(before.contains(change));
            let at = choose|i: int| 0 <= i < before.len() && before[i] == change;
            assert((before + behind)[at] == change);
        }
    }
}

/// An icon change is about one of the ids.
proof fn lemma_icon_id(data_home: Seq<char>, icon: IconModel, ids: Seq<Seq<char>>, at: int) -> (index:
    int)
    requires
        0 <= at < icon_changes(data_home, icon, ids).len(),
    ensures
        0 <= index < ids.len(),
        removals_of(data_home, ids[index]).contains(
            ChangeModel::Remove(changed_path(icon_changes(data_home, icon, ids)[at])),
        ),
    decreases ids.len(),
{
    let before = icon_changes(data_home, icon, ids.drop_last());
    if at < before.len() {
        lemma_icon_id(data_home, icon, ids.drop_last(), at)
    } else {
        let index = ids.len() - 1;
        let removals = removals_of(data_home, ids[index]);
        assert(icon_changes(data_home, icon, ids)[at] == icon_change(data_home, icon, ids.last())[at
            - before.len()]);
        assert(removals[1] == ChangeModel::Remove(entry::svg_path_of(data_home, ids[index])));
        assert(removals[2] == ChangeModel::Remove(entry::png_path_of(data_home, ids[index])));
        index
    }
}

/// Whatever installing touches, uninstalling removes.
pub proof fn law_uninstalling_removes_what_was_installed(
    data_home: Seq<char>,
    application: DesktopApplication,
    executable: Seq<char>,
    icon: Option<IconModel>,
    at: int,
)
    requires
        0 <= at < install_changes(data_home, application, executable, icon).len(),
    ensures
        uninstall_changes(data_home, application.id@).contains(
            ChangeModel::Remove(
                changed_path(install_changes(data_home, application, executable, icon)[at]),
            ),
        ),
{
    let ids = entry::managed_ids(application.id@);
    let all = install_changes(data_home, application, executable, icon);
    let old_removals = all_removals(data_home, legacy_ids());
    let writes = entry_writes(data_home, application.name@, executable, ids);
    let removals = all_removals(data_home, ids);
    let removed = uninstall_changes(data_home, application.id@);
    let wanted = ChangeModel::Remove(changed_path(all[at]));
    if at < old_removals.len() {
        lemma_only_removals(data_home, legacy_ids(), at);
        assert(removed[removals.len() + at] == wanted);
    } else {
        let index = if at < old_removals.len() + writes.len() {
            let index = at - old_removals.len();
            assert(removals_of(data_home, ids[index])[0] == wanted);
            index
        } else {
            lemma_icon_id(data_home, icon->0, ids, at - old_removals.len() - writes.len())
        };
        assert(removals_of(data_home, ids[index]).contains(wanted));
        lemma_removed(data_home, ids, index);
        assert(removals.contains(wanted));
        let place = choose|i: int| 0 <= i < removals.len() && removals[i] == wanted;
        assert(removed[place] == wanted);
    }
}

proof fn lemma_only_removals(data_home: Seq<char>, ids: Seq<Seq<char>>, at: int)
    requires
        0 <= at < all_removals(data_home, ids).len(),
    ensures
        all_removals(data_home, ids)[at] is Remove,
    decreases ids.len(),
{
    let before = all_removals(data_home, ids.drop_last());
    if at < before.len() {
        lemma_only_removals(data_home, ids.drop_last(), at);
    }
}

/// Taking ids out of the desktop removes the desktop file, the drawing and the picture of each of
/// them, and does nothing else.
pub proof fn law_removals_take_every_file_out(data_home: Seq<char>, ids: Seq<Seq<char>>, i: int, at: int)
    ensures
        0 <= i < ids.len() ==> {
            let removals = all_removals(data_home, ids);
            &&& removals.contains(ChangeModel::Remove(entry::entry_path_of(data_home, ids[i])))
            &&& removals.contains(ChangeModel::Remove(entry::svg_path_of(data_home, ids[i])))
            &&& removals.contains(ChangeModel::Remove(entry::png_path_of(data_home, ids[i])))
        },
        0 <= at < all_removals(data_home, ids).len() ==> all_removals(data_home, ids)[at] is Remove,
        all_removals(data_home, ids).len() == 3 * ids.len(),
    decreases ids.len(),
{
    if ids.len() > 0 {
        let rest = all_removals(data_home, ids.drop_last());
        let own = removals_of(data_home, ids.last());
        let whole = all_removals(data_home, ids);
        law_removals_take_every_file_out(data_home, ids.drop_last(), i, at);
        assert(whole == rest + own);
        if 0 <= i < ids.len() {
            if i == ids.len() - 1 {
                assert(whole[rest.len() as int] == own[0]);
                assert(whole[rest.len() as int + 1] == own[1]);
                assert(whole[rest.len() as int + 2] == own[2]);
            } else {
                assert(ids.drop_last()[i] == ids[i]);
                let entry_change = ChangeModel::Remove(entry::entry_path_of(data_home, ids[i]));
                let svg_change = ChangeModel::Remove(entry::svg_path_of(data_home, ids[i]));
                let png_change = ChangeModel::Remove(entry::png_path_of(data_home, ids[i]));
                let a = choose|a: int| 0 <= a < rest.len() && rest[a] == entry_change;
                let b = choose|b: int| 0 <= b < rest.len() && rest[b] == svg_change;
                let c = choose|c: int| 0 <= c < rest.len() && rest[c] == png_change;
                assert(whole[a] == entry_change);
                assert(whole[b] == svg_change);
                assert(whole[c] == png_change);
            }
        }
        if 0 <= at < rest.len() {
            assert(whole[at] == rest[at]);
        }
    }
}

/// The ids of earlier versions, each once.
pub proof fn law_earlier_ids_are_known(id: Seq<char>)
    ensures
        legacy_ids().contains(id) <==> id == "io.github.j3term"@ || id == "j3Term"@ || id
            == "j3term"@ || id == "j3Launcher"@ || id == "j3launcher"@,
        legacy_ids().len() == 5,
{
    let ids = legacy_ids();
    assert(ids[0] == "io.github.j3term"@);
    assert(ids[1] == "j3Term"@);
    assert(ids[2] == "j3term"@);
    assert(ids[3] == "j3Launcher"@);
    assert(ids[4] == "j3launcher"@);
}

/// An icon is copied to where its kind belongs, and an icon of the other kind is removed, for
/// every id.
pub proof fn law_every_id_gets_its_icon(
    data_home: Seq<char>,
    icon: IconModel,
    ids: Seq<Seq<char>>,
    i: int,
)
    requires
        0 <= i < ids.len(),
    ensures
        ({
            let list = icon_changes(data_home, icon, ids);
            let drawing = entry::svg_path_of(data_home, ids[i]);
            let picture = entry::png_path_of(data_home, ids[i]);
            &&& icon.kind is Svg ==> list.contains(ChangeModel::Copy(icon.path, drawing))
                && list.contains(ChangeModel::Remove(picture))
            &&& icon.kind is Png ==> list.contains(ChangeModel::Copy(icon.path, picture))
                && list.contains(ChangeModel::Remove(drawing))
        }),
    decreases ids.len(),
{
    let list = icon_changes(data_home, icon, ids);
    let rest = icon_changes(data_home, icon, ids.drop_last());
    let own = icon_change(data_home, icon, ids.last());
    assert(list == rest + own);
    if i == ids.len() - 1 {
        assert(list[rest.len() as int] == own[0]);
        assert(list[rest.len() as int + 1] == own[1]);
    } else {
        law_every_id_gets_its_icon(data_home, icon, ids.drop_last(), i);
        assert(ids.drop_last()[i] == ids[i]);
        let first = icon_change(data_home, icon, ids[i])[0];
        let second = icon_change(data_home, icon, ids[i])[1];
        let a = choose|a: int| 0 <= a < rest.len() && rest[a] == first;
        let b = choose|b: int| 0 <= b < rest.len() && rest[b] == second;
        assert(list[a] == first);
        assert(list[b] == second);
    }
}

/// Putting the application into the desktop writes a desktop file for each of its ids, the first
/// of which is shown, gives each of them the icon, where there is one, and removes what earlier
/// versions installed before anything is written.
pub proof fn law_installing_writes_every_file(
    data_home: Seq<char>,
    application: DesktopApplication,
    executable: Seq<char>,
    icon: Option<IconModel>,
    i: int,
)
    requires
        0 <= i < entry::managed_ids(application.id@).len(),
    ensures
        ({
            let list = install_changes(data_home, application, executable, icon);
            let id = entry::managed_ids(application.id@)[i];
            let removals = all_removals(data_home, legacy_ids());
            &&& list[removals.len() + i] == ChangeModel::Write(
                entry::entry_path_of(data_home, id),
                entry::entry_text(application.name@, executable, id, i > 0),
            )
            &&& list.take(removals.len() as int) == removals
            &&& icon matches Some(source) ==> {
                let drawing = entry::svg_path_of(data_home, id);
                let picture = entry::png_path_of(data_home, id);
                &&& source.kind is Svg ==> list.contains(ChangeModel::Copy(source.path, drawing))
                    && list.contains(ChangeModel::Remove(picture))
                &&& source.kind is Png ==> list.contains(ChangeModel::Copy(source.path, picture))
                    && list.contains(ChangeModel::Remove(drawing))
            }
            &&& icon is None ==> list.len() == removals.len() + entry::managed_ids(
                application.id@,
            ).len()
        }),
{
    let list = install_changes(data_home, application, executable, icon);
    let ids = entry::managed_ids(application.id@);
    let removals = all_removals(data_home, legacy_ids());
    let writes = entry_writes(data_home, application.name@, executable, ids);
    assert(list.take(removals.len() as int) =~= removals);
    assert(list[removals.len() + i] == writes[i]);
    if icon is Some {
        let source = icon->0;
        let copies = icon_changes(data_home, source, ids);
        law_every_id_gets_its_icon(data_home, source, ids, i);
        let first = icon_change(data_home, source, ids[i])[0];
        let second = icon_change(data_home, source, ids[i])[1];
        let a = choose|a: int| 0 <= a < copies.len() && copies[a] == first;
        let b = choose|b: int| 0 <= b < copies.len() && copies[b] == second;
        assert(list[removals.len() + writes.len() + a] == first);
        assert(list[removals.len() + writes.len() + b] == second);
    }
}

/// Taking the application out of the desktop removes the files of all its ids and of the ids of
/// earlier versions, and does nothing else.
pub proof fn law_uninstalling_removes_every_file(
    data_home: Seq<char>,
    app_id: Seq<char>,
    id: Seq<char>,
    at: int,
)
    ensures
        ({
            let list = uninstall_changes(data_home, app_id);
            &&& entry::managed_ids(app_id).contains(id) || legacy_ids().contains(id) ==> {
                &&& list.contains(ChangeModel::Remove(entry::entry_path_of(data_home, id)))
                &&& list.contains(ChangeModel::Remove(entry::svg_path_of(data_home, id)))
                &&& list.contains(ChangeModel::Remove(entry::png_path_of(data_home, id)))
            }
            &&& 0 <= at < list.len() ==> list[at] is Remove
        }),
{
    let own = all_removals(data_home, entry::managed_ids(app_id));
    let earlier = all_removals(data_home, legacy_ids());
    let list = uninstall_changes(data_home, app_id);
    law_removals_take_every_file_out(data_home, entry::managed_ids(app_id), -1, at);
    law_removals_take_every_file_out(data_home, legacy_ids(), -1, at - own.len());
    if 0 <= at < list.len() {
        if at < own.len() {
            assert(list[at] == own[at]);
        } else {
            assert(list[at] == earlier[at - own.len()]);
        }
    }
    if entry::managed_ids(app_id).contains(id) {
        let ids = entry::managed_ids(app_id);
        let i = choose|i: int| 0 <= i < ids.len() && ids[i] == id;
        law_removals_take_every_file_out(data_home, ids, i, 0);
        lemma_contained_before(own, earlier, ChangeModel::Remove(entry::entry_path_of(data_home, id)));
        lemma_contained_before(own, earlier, ChangeModel::Remove(entry::svg_path_of(data_home, id)));
        lemma_contained_before(own, earlier, ChangeModel::Remove(entry::png_path_of(data_home, id)));
    }
    if legacy_ids().contains(id) {
        let ids = legacy_ids();
        let i = choose|i: int| 0 <= i < ids.len() && ids[i] == id;
        law_removals_take_every_file_out(data_home, ids, i, 0);
        lemma_contained_behind(own, earlier, ChangeModel::Remove(entry::entry_path_of(data_home, id)));
        lemma_contained_behind(own, earlier, ChangeModel::Remove(entry::svg_path_of(data_home, id)));
        lemma_contained_behind(own, earlier, ChangeModel::Remove(entry::png_path_of(data_home, id)));
    }
}

proof fn lemma_contained_before(first: Seq<ChangeModel>, second: Seq<ChangeModel>, change: ChangeModel)
    requires
        first.contains(change),
    ensures
        (first + second).contains(change),
{
    let i = choose|i: int| 0 <= i < first.len() && first[i] == change;
    assert((first + second)[i] == change);
}

proof fn lemma_contained_behind(first: Seq<ChangeModel>, second: Seq<ChangeModel>, change: ChangeModel)
    requires
        second.contains(change),
    ensures
        (first + second).contains(change),
{
    let i = choose|i: int| 0 <= i < second.len() && second[i] == change;
    assert((first + second)[first.len() + i] == change);
}

/// An executable is named by its path, from the current directory on where the path is not
/// absolute.
pub proof fn law_executable_is_named_from_the_current_directory(
    executable: Seq<char>,
    current: Seq<char>,
)
    ensures
        paths::absolute(executable) ==> executable_of(executable, current) == executable,
        !paths::absolute(executable) ==> executable_of(executable, current) == paths::joined(
            current,
            executable,
        ),
{
}

} // verus!
