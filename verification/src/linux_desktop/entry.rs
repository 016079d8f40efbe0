//! Desktop files, icons and where they are kept.

use vstd::prelude::*;

use crate::error::{AppError, AppResult, ErrorModel};
use crate::paths;
use crate::text;

verus! {

pub const SVG_ICON_FILE_NAME: &'static str = "icon.svg";

pub const PNG_ICON_FILE_NAME: &'static str = "icon.png";

pub const HOME_MISSING: &'static str = "HOME is required to install Linux desktop integration";

pub const NOT_UTF8: &'static str = "desktop entry executable path must be valid UTF-8";

pub const HAS_NEWLINE: &'static str = "desktop entry executable path must not contain newlines";

/// What the environment says of the user's directories.
#[derive(Clone, Debug, PartialEq, Eq)]
pub struct DesktopEnvironment {
    pub xdg_data_home: Option<String>,
    pub home: Option<String>,
}

/// The directory below which a user's data is kept.
pub open spec fn data_home_of(environment: DesktopEnvironment) -> Result<Seq<char>, ErrorModel> {
    if environment.xdg_data_home is Some && paths::absolute((environment.xdg_data_home->0)@) {
        Ok((environment.xdg_data_home->0)@)
    } else {
        match environment.home {
            Some(home) => Ok(paths::joined(paths::joined(home@, ".local"@), "share"@)),
            None => Err(ErrorModel::InvalidState(HOME_MISSING@)),
        }
    }
}

impl DesktopEnvironment {
    /// The directory that the environment names, if its path is absolute, and
    /// otherwise the usual one below the home directory.
    pub fn data_home(&self) -> (data_home: AppResult<String>)
        ensures
            match data_home_of(*self) {
                Ok(path) => data_home is Ok && (data_home->Ok_0)@ == path,
                Err(error) => data_home is Err && (data_home->Err_0)@ == error,
            },
    {
        match &self.xdg_data_home {
            Some(path) => {
                if paths::is_absolute(path.as_str()) {
                    return Ok(path.clone());
                }
            },
            None => {},
        }
        match &self.home {
            Some(home) => {
                let local = paths::join(home.as_str(), ".local");
                Ok(paths::join(local.as_str(), "share"))
            },
            None => Err(AppError::InvalidState(HOME_MISSING)),
        }
    }
}

/// Where desktop files and icons go.
#[derive(Clone, Debug, PartialEq, Eq)]
pub struct DesktopInstallPaths {
    data_home: String,
}

pub open spec fn applications_of(data_home: Seq<char>) -> Seq<char> {
    paths::joined(data_home, "applications"@)
}

/// The directory of one kind of icon.
pub open spec fn icons_of(data_home: Seq<char>, size: Seq<char>) -> Seq<char> {
    paths::joined(
        paths::joined(paths::joined(paths::joined(data_home, "icons"@), "hicolor"@), size),
        "apps"@,
    )
}

pub open spec fn entry_path_of(data_home: Seq<char>, app_id: Seq<char>) -> Seq<char> {
    paths::joined(applications_of(data_home), app_id + ".desktop"@)
}

pub open spec fn svg_path_of(data_home: Seq<char>, app_id: Seq<char>) -> Seq<char> {
    paths::joined(icons_of(data_home, "scalable"@), app_id + ".svg"@)
}

pub open spec fn png_path_of(data_home: Seq<char>, app_id: Seq<char>) -> Seq<char> {
    paths::joined(icons_of(data_home, "256x256"@), app_id + ".png"@)
}

impl DesktopInstallPaths {
    pub closed spec fn home(&self) -> Seq<char> {
        self.data_home@
    }

    pub fn new(data_home: String) -> (paths: Self)
        ensures
            paths.home() == data_home@,
    {
        DesktopInstallPaths { data_home }
    }

    pub fn data_home(&self) -> (data_home: &str)
        ensures
            data_home@ == self.home(),
    {
        self.data_home.as_str()
    }

    pub fn applications_dir(&self) -> (directory: String)
        ensures
            directory@ == applications_of(self.home()),
    {
        paths::join(self.data_home.as_str(), "applications")
    }

    fn icon_dir(&self, size: &str) -> (directory: String)
        ensures
            directory@ == icons_of(self.home(), size@),
    {
        let icons = paths::join(self.data_home.as_str(), "icons");
        let theme = paths::join(icons.as_str(), "hicolor");
        let sized = paths::join(theme.as_str(), size);
        paths::join(sized.as_str(), "apps")
    }

    pub fn scalable_icon_dir(&self) -> (directory: String)
        ensures
            directory@ == icons_of(self.home(), "scalable"@),
    {
        self.icon_dir("scalable")
    }

    pub fn png_icon_dir(&self) -> (directory: String)
        ensures
            directory@ == icons_of(self.home(), "256x256"@),
    {
        self.icon_dir("256x256")
    }

    pub fn desktop_entry_path(&self, app_id: &str) -> (path: String)
        ensures
            path@ == entry_path_of(self.home(), app_id@),
    {
        let name = text::join2(app_id, ".desktop");
        paths::join(self.applications_dir().as_str(), name.as_str())
    }

    pub fn svg_icon_path(&self, app_id: &str) -> (path: String)
        ensures
            path@ == svg_path_of(self.home(), app_id@),
    {
        let name = text::join2(app_id, ".svg");
        paths::join(self.scalable_icon_dir().as_str(), name.as_str())
    }

    pub fn png_icon_path(&self, app_id: &str) -> (path: String)
        ensures
            path@ == png_path_of(self.home(), app_id@),
    {
        let name = text::join2(app_id, ".png");
        paths::join(self.png_icon_dir().as_str(), name.as_str())
    }
}

/// A name under which the desktop may look for the application.
#[derive(Clone, Debug, PartialEq, Eq)]
pub struct DesktopIdentity {
    pub app_id: String,
    pub no_display: bool,
}

pub open spec fn is_capital(character: char) -> bool {
    'A' <= character && character <= 'Z'
}

/// An id without capitals, for an id that has some.
pub open spec fn alias_of(app_id: Seq<char>) -> Option<Seq<char>> {
    if exists|i: int| 0 <= i < app_id.len() && is_capital(#[trigger] app_id[i]) {
        Some(text::ascii_lower_text(app_id))
    } else {
        None
    }
}

pub fn lowercase_alias_id(app_id: &str) -> (alias: Option<String>)
    ensures
        alias is Some == alias_of(app_id@) is Some,
        alias is Some ==> (alias->0)@ == alias_of(app_id@)->0,
{
    let chars = text::chars_of(app_id);
    let mut index: usize = 0;
    while index < chars.len()
        invariant
            chars@ == app_id@,
            index <= chars@.len(),
            forall|i: int| 0 <= i < index ==> !is_capital(#[trigger] chars@[i]),
        decreases chars@.len() - index,
    {
        if 'A' <= chars[index] && chars[index] <= 'Z' {
            assert(is_capital(app_id@[index as int]));
            return Some(text::to_ascii_lower(app_id));
        }
        index += 1;
    }
    None
}

/// The ids that the application is installed under.
pub open spec fn managed_ids(app_id: Seq<char>) -> Seq<Seq<char>> {
    match alias_of(app_id) {
        Some(alias) => seq![app_id, alias],
        None => seq![app_id],
    }
}

/// The id itself, which is shown, and its alias, which is not.
pub fn managed_desktop_identities(app_id: &str) -> (identities: Vec<DesktopIdentity>)
    ensures
        identities@.len() == managed_ids(app_id@).len(),
        forall|i: int|
            0 <= i < identities@.len() ==> (#[trigger] identities@[i]).app_id@ == managed_ids(
                app_id@,
            )[i] && identities@[i].no_display == (i > 0),
{
    let mut identities: Vec<DesktopIdentity> = Vec::new();
    identities.push(DesktopIdentity { app_id: app_id.to_owned(), no_display: false });
    match lowercase_alias_id(app_id) {
        Some(alias) => identities.push(DesktopIdentity { app_id: alias, no_display: true }),
        None => {},
    }
    identities
}

/// The text of a desktop file.
pub open spec fn entry_text(
    app_name: Seq<char>,
    executable: Seq<char>,
    app_id: Seq<char>,
    no_display: bool,
) -> Seq<char> {
    "# Managed by "@ + app_name + " --install\n[Desktop Entry]\nType=Application\nName="@ + app_name
        + "\nComment="@ + app_name + "\nExec="@ + executable + "\nIcon="@ + app_id
        + "\nTerminal=false\nCategories=Utility;\nStartupNotify=true\nStartupWMClass="@ + app_id
        + "\n"@ + (if no_display {
        "NoDisplay=true\n"@
    } else {
        Seq::empty()
    })
}

/// What stands for an executable in a desktop file, or why nothing can.
pub open spec fn entry_executable(path: Seq<char>, is_utf8: bool) -> Result<Seq<char>, ErrorModel> {
    if !is_utf8 {
        Err(ErrorModel::InvalidInput(NOT_UTF8@))
    } else if !text::one_line(path) {
        Err(ErrorModel::InvalidInput(HAS_NEWLINE@))
    } else {
        Ok(path)
    }
}

/// Whether a result is the text, or the error, that is expected.
pub open spec fn text_outcome(outcome: AppResult<String>, expected: Result<Seq<char>, ErrorModel>) -> bool {
    match outcome {
        Ok(text) => expected == Ok::<Seq<char>, ErrorModel>(text@),
        Err(error) => expected == Err::<Seq<char>, ErrorModel>(error@),
    }
}

/// An executable's path as a desktop file names it; `is_utf8` says whether
/// `executable_path` is the path as it is.
pub fn executable_path_to_desktop_entry_value(executable_path: &str, is_utf8: bool) -> (value:
    AppResult<String>)
    ensures
        text_outcome(value, entry_executable(executable_path@, is_utf8)),
{
    if !is_utf8 {
        return Err(AppError::InvalidInput(NOT_UTF8));
    }
    if !text::is_one_line(executable_path) {
        return Err(AppError::InvalidInput(HAS_NEWLINE));
    }
    Ok(executable_path.to_owned())
}

/// The desktop file of one identity.
pub fn desktop_entry_content(
    app_name: &str,
    executable_path: &str,
    is_utf8: bool,
    identity: &DesktopIdentity,
) -> (content: AppResult<String>)
    ensures
        text_outcome(
            content,
            match entry_executable(executable_path@, is_utf8) {
                Ok(executable) => Ok(
                    entry_text(app_name@, executable, identity.app_id@, identity.no_display),
                ),
                Err(error) => Err(error),
            },
        ),
{
    let executable = match executable_path_to_desktop_entry_value(executable_path, is_utf8) {
        Ok(executable) => executable,
        Err(error) => return Err(error),
    };
    let mut content = text::join3(
        "# Managed by ",
        app_name,
        " --install\n[Desktop Entry]\nType=Application\nName=",
    );
    content.append(app_name);
    content.append("\nComment=");
    content.append(app_name);
    content.append("\nExec=");
    content.append(executable.as_str());
    content.append("\nIcon=");
    content.append(identity.app_id.as_str());
    content.append("\nTerminal=false\nCategories=Utility;\nStartupNotify=true\nStartupWMClass=");
    content.append(identity.app_id.as_str());
    content.append("\n");
    if identity.no_display {
        content.append("NoDisplay=true\n");
    }
    assert(content@ =~= entry_text(
        app_name@,
        executable@,
        identity.app_id@,
        identity.no_display,
    ));
    Ok(content)
}

/// What an icon's file holds.
#[derive(Clone, Copy, Debug, PartialEq, Eq, Structural)]
pub enum IconSourceKind {
    Svg,
    Png,
}

/// A file to take the icon from.
#[derive(Clone, Debug, PartialEq, Eq)]
pub struct IconSource {
    pub path: String,
    pub kind: IconSourceKind,
}

/// A file to take the icon from, as a value.
pub struct IconModel {
    pub path: Seq<char>,
    pub kind: IconSourceKind,
}

impl View for IconSource {
    type V = IconModel;

    open spec fn view(&self) -> IconModel {
        IconModel { path: self.path@, kind: self.kind }
    }
}

/// The directories that an icon is looked for in: the executable's, then the
/// current one.
pub open spec fn icon_directories(executable: Seq<char>, current: Seq<char>) -> Seq<Seq<char>> {
    match paths::parent_of(executable) {
        Some(parent) => seq![parent, current],
        None => seq![current],
    }
}

/// The files that an icon may be in, the best one first: a drawing before a
/// picture, and the executable's directory before the current one.
pub open spec fn icon_candidates_of(executable: Seq<char>, current: Seq<char>) -> Seq<IconModel> {
    let directories = icon_directories(executable, current);
    directories.map_values(
        |directory: Seq<char>|
            IconModel {
                path: paths::joined(directory, SVG_ICON_FILE_NAME@),
                kind: IconSourceKind::Svg,
            },
    ) + directories.map_values(
        |directory: Seq<char>|
            IconModel {
                path: paths::joined(directory, PNG_ICON_FILE_NAME@),
                kind: IconSourceKind::Png,
            },
    )
}

pub open spec fn icon_models(sources: Seq<IconSource>) -> Seq<IconModel> {
    sources.map_values(|source: IconSource| source@)
}

pub fn icon_source_directories(executable_path: &str, current_directory: &str) -> (directories: Vec<
    String,
>)
    ensures
        directories@.map_values(|directory: String| directory@) == icon_directories(
            executable_path@,
            current_directory@,
        ),
{
    let mut directories: Vec<String> = Vec::new();
    match paths::parent(executable_path) {
        Some(parent) => directories.push(parent),
        None => {},
    }
    directories.push(current_directory.to_owned());
    assert(directories@.map_values(|directory: String| directory@) =~= icon_directories(
        executable_path@,
        current_directory@,
    ));
    directories
}

/// The files that an icon may be in, the best one first.
pub fn icon_candidates(executable_path: &str, current_directory: &str) -> (candidates: Vec<
    IconSource,
>)
    ensures
        icon_models(candidates@) == icon_candidates_of(executable_path@, current_directory@),
{
    let directories = icon_source_directories(executable_path, current_directory);
    let ghost views = directories@.map_values(|directory: String| directory@);
    let mut candidates: Vec<IconSource> = Vec::new();
    let mut index: usize = 0;
    while index < directories.len()
        invariant
            index <= directories@.len(),
            candidates@.len() == index,
            forall|i: int|
                0 <= i < index ==> (#[trigger] candidates@[i])@ == (IconModel {
                    path: paths::joined(directories@[i]@, SVG_ICON_FILE_NAME@),
                    kind: IconSourceKind::Svg,
                }),
        decreases directories@.len() - index,
    {
        let path = paths::join(directories[index].as_str(), SVG_ICON_FILE_NAME);
        candidates.push(IconSource { path, kind: IconSourceKind::Svg });
        index += 1;
    }
    let ghost count = index as int;
    index = 0;
    while index < directories.len()
        invariant
            index <= directories@.len(),
            count == directories@.len(),
            candidates@.len() == count + index,
            forall|i: int|
                0 <= i < count ==> (#[trigger] candidates@[i])@ == (IconModel {
                    path: paths::joined(directories@[i]@, SVG_ICON_FILE_NAME@),
                    kind: IconSourceKind::Svg,
                }),
            forall|i: int|
                count <= i < count + index ==> (#[trigger] candidates@[i])@ == (IconModel {
                    path: paths::joined(directories@[i - count]@, PNG_ICON_FILE_NAME@),
                    kind: IconSourceKind::Png,
                }),
        decreases directories@.len() - index,
    {
        let path = paths::join(directories[index].as_str(), PNG_ICON_FILE_NAME);
        candidates.push(IconSource { path, kind: IconSourceKind::Png });
        index += 1;
    }
    assert forall|i: int| 0 <= i < count implies #[trigger] directories@[i]@ == views[i] by {}
    assert(icon_models(candidates@) =~= icon_candidates_of(executable_path@, current_directory@));
    candidates
}

/// The first candidate that is a file.
pub open spec fn first_icon(candidates: Seq<IconModel>, is_file: Seq<bool>) -> Option<IconModel>
    decreases candidates.len(),
{
    if candidates.len() == 0 || is_file.len() == 0 {
        None
    } else if is_file[0] {
        Some(candidates[0])
    } else {
        first_icon(candidates.skip(1), is_file.skip(1))
    }
}

/// The icon to use; `is_file` says of each candidate whether it is a file.
pub fn find_icon_source(executable_path: &str, current_directory: &str, is_file: &Vec<bool>) -> (icon:
    Option<IconSource>)
    ensures
        icon is Some == first_icon(
            icon_candidates_of(executable_path@, current_directory@),
            is_file@,
        ) is Some,
        icon is Some ==> (icon->0)@ == first_icon(
            icon_candidates_of(executable_path@, current_directory@),
            is_file@,
        )->0,
{
    let candidates = icon_candidates(executable_path, current_directory);
    let ghost models = icon_models(candidates@);
    let mut index: usize = 0;
    assert(models.skip(0) =~= models);
    assert(is_file@.skip(0) =~= is_file@);
    while index < candidates.len() && index < is_file.len()
        invariant
            models == icon_models(candidates@),
            models == icon_candidates_of(executable_path@, current_directory@),
            index <= candidates@.len(),
            index <= is_file@.len(),
            first_icon(models.skip(index as int), is_file@.skip(index as int)) == first_icon(
                models,
                is_file@,
            ),
        decreases candidates@.len() - index,
    {
        assert(models.skip(index as int).skip(1) =~= models.skip(index + 1));
        assert(is_file@.skip(index as int).skip(1) =~= is_file@.skip(index + 1));
        if is_file[index] {
            return Some(
                IconSource { path: candidates[index].path.clone(), kind: candidates[index].kind },
            );
        }
        index += 1;
    }
    None
}

/// A user's data is kept where the environment says, if that is an absolute path, and below the
/// home directory otherwise; without either it is an error.
pub proof fn law_data_home_is_absolute_or_below_home(environment: DesktopEnvironment)
    ensures
        environment.xdg_data_home matches Some(path) ==> (paths::absolute(path@) ==> data_home_of(
            environment,
        ) == Ok::<Seq<char>, ErrorModel>(path@)),
        (environment.xdg_data_home is None || !paths::absolute((environment.xdg_data_home->0)@))
            ==> (match environment.home {
            Some(home) => data_home_of(environment) == Ok::<Seq<char>, ErrorModel>(
                paths::joined(paths::joined(home@, ".local"@), "share"@),
            ),
            None => data_home_of(environment) is Err,
        }),
{
}

/// Desktop files and icons go where desktops look for them, under the application's id: the
/// desktop file with the other applications, a drawing with the icons of any size, a picture
/// with those of its own size.
pub proof fn law_files_go_where_desktops_look(data_home: Seq<char>, app_id: Seq<char>)
    ensures
        ({
            let theme = paths::joined(paths::joined(data_home, "icons"@), "hicolor"@);
            let drawings = paths::joined(paths::joined(theme, "scalable"@), "apps"@);
            let pictures = paths::joined(paths::joined(theme, "256x256"@), "apps"@);
            &&& entry_path_of(data_home, app_id) == paths::joined(
                paths::joined(data_home, "applications"@),
                app_id + ".desktop"@,
            )
            &&& svg_path_of(data_home, app_id) == paths::joined(drawings, app_id + ".svg"@)
            &&& png_path_of(data_home, app_id) == paths::joined(pictures, app_id + ".png"@)
        }),
{
}

/// An id has an alias exactly where it has a capital. The alias is as long, has no capital, and
/// differs from the id in capitals only.
pub proof fn law_alias_has_no_capitals(app_id: Seq<char>, i: int)
    ensures
        alias_of(app_id) is Some <==> exists|j: int|
            0 <= j < app_id.len() && 'A' <= (#[trigger] app_id[j]) && app_id[j] <= 'Z',
        alias_of(app_id) matches Some(alias) ==> {
            &&& alias.len() == app_id.len()
            &&& alias != app_id
            &&& 0 <= i < alias.len() ==> !('A' <= alias[i] && alias[i] <= 'Z')
            &&& 0 <= i < alias.len() && !('A' <= app_id[i] && app_id[i] <= 'Z') ==> alias[i]
                == app_id[i]
        },
{
    if exists|j: int| 0 <= j < app_id.len() && 'A' <= (#[trigger] app_id[j]) && app_id[j] <= 'Z' {
        let j = choose|j: int|
            0 <= j < app_id.len() && 'A' <= (#[trigger] app_id[j]) && app_id[j] <= 'Z';
        assert(is_capital(app_id[j]));
    }
    if alias_of(app_id) is Some {
        let j = choose|j: int| 0 <= j < app_id.len() && is_capital(#[trigger] app_id[j]);
        let alias = alias_of(app_id)->0;
        text::law_only_capitals_are_made_small(app_id, j);
        assert(alias[j] != app_id[j]);
        if 0 <= i < alias.len() {
            text::law_only_capitals_are_made_small(app_id, i);
        }
    }
}

/// The application is installed under its id, and under the alias of the id where it has one, and
/// under nothing else.
pub proof fn law_application_has_its_id_and_its_alias(app_id: Seq<char>)
    ensures
        managed_ids(app_id)[0] == app_id,
        alias_of(app_id) is None ==> managed_ids(app_id).len() == 1,
        alias_of(app_id) matches Some(alias) ==> managed_ids(app_id).len() == 2 && managed_ids(
            app_id,
        )[1] == alias && alias != app_id,
{
    law_alias_has_no_capitals(app_id, 0);
}

/// A desktop file holds a line each for the application's name, the program that is run, the
/// icon and the windows that belong to it; it ends with a line that hides it exactly where it
/// is not to be shown.
pub proof fn law_desktop_file_names_the_application(
    app_name: Seq<char>,
    executable: Seq<char>,
    app_id: Seq<char>,
    no_display: bool,
)
    ensures
        ({
            let content = entry_text(app_name, executable, app_id, no_display);
            let shown = entry_text(app_name, executable, app_id, false);
            &&& text::holds_text(content, "[Desktop Entry]\nType=Application\n"@)
            &&& text::holds_text(content, "\nName="@ + app_name + "\n"@)
            &&& text::holds_text(content, "\nExec="@ + executable + "\n"@)
            &&& text::holds_text(content, "\nIcon="@ + app_id + "\n"@)
            &&& text::holds_text(content, "\nTerminal=false\n"@)
            &&& text::holds_text(content, "\nStartupWMClass="@ + app_id + "\n"@)
            &&& no_display ==> content == shown + "NoDisplay=true\n"@
            &&& content.take(shown.len() as int) == shown
        }),
{
    let content = entry_text(app_name, executable, app_id, no_display);
    let shown = entry_text(app_name, executable, app_id, false);
    let begin = "# Managed by "@;
    let head = " --install\n[Desktop Entry]\nType=Application\nName="@;
    let comment = "\nComment="@;
    let exec = "\nExec="@;
    let icon = "\nIcon="@;
    let middle = "\nTerminal=false\nCategories=Utility;\nStartupNotify=true\nStartupWMClass="@;
    let line = "\n"@;
    reveal_strlit("# Managed by ");
    reveal_strlit(" --install\n[Desktop Entry]\nType=Application\nName=");
    reveal_strlit("[Desktop Entry]\nType=Application\n");
    reveal_strlit("\nName=");
    reveal_strlit("\nComment=");
    reveal_strlit("\nExec=");
    reveal_strlit("\nIcon=");
    reveal_strlit("\nTerminal=false\nCategories=Utility;\nStartupNotify=true\nStartupWMClass=");
    reveal_strlit("\nTerminal=false\n");
    reveal_strlit("\nStartupWMClass=");
    reveal_strlit("\n");
    let start = begin.len() + app_name.len() as int;
    let named = start + head.len() - 6;
    let name_end = start + head.len() + app_name.len();
    let exec_at = name_end + comment.len() + app_name.len();
    let icon_at = exec_at + exec.len() + executable.len();
    let middle_at = icon_at + icon.len() + app_id.len();
    let class_at = middle_at + middle.len() - 16;
    let intro = "[Desktop Entry]\nType=Application\n"@;
    let name_line = "\nName="@ + app_name + "\n"@;
    let exec_line = "\nExec="@ + executable + "\n"@;
    let icon_line = "\nIcon="@ + app_id + "\n"@;
    let terminal_line = "\nTerminal=false\n"@;
    let class_line = "\nStartupWMClass="@ + app_id + "\n"@;
    assert(content.subrange(start + 11, start + 11 + intro.len()) =~= intro);
    assert(content.subrange(named, named + name_line.len()) =~= name_line);
    assert(content.subrange(exec_at, exec_at + exec_line.len()) =~= exec_line);
    assert(content.subrange(icon_at, icon_at + icon_line.len()) =~= icon_line);
    assert(content.subrange(middle_at, middle_at + terminal_line.len()) =~= terminal_line);
    assert(content.subrange(class_at, class_at + class_line.len()) =~= class_line);
    assert(content.take(shown.len() as int) =~= shown);
    if no_display {
        assert(content =~= shown + "NoDisplay=true\n"@);
    }
}

/// An executable is named as it is where its path is a single line of UTF-8, and cannot be named
/// otherwise.
pub proof fn law_executable_is_named_as_it_is(path: Seq<char>, is_utf8: bool)
    ensures
        entry_executable(path, is_utf8) is Ok <==> is_utf8 && text::one_line(path),
        entry_executable(path, is_utf8) matches Ok(named) ==> named == path,
{
}

/// An icon is looked for beside the executable and then in the current directory, as a drawing
/// in both of them before as a picture in either.
pub proof fn law_drawings_are_looked_for_first(executable: Seq<char>, current: Seq<char>)
    ensures
        ({
            let candidates = icon_candidates_of(executable, current);
            match paths::parent_of(executable) {
                Some(beside) => {
                    &&& candidates.len() == 4
                    &&& candidates[0] == (IconModel {
                        path: paths::joined(beside, "icon.svg"@),
                        kind: IconSourceKind::Svg,
                    })
                    &&& candidates[1] == (IconModel {
                        path: paths::joined(current, "icon.svg"@),
                        kind: IconSourceKind::Svg,
                    })
                    &&& candidates[2] == (IconModel {
                        path: paths::joined(beside, "icon.png"@),
                        kind: IconSourceKind::Png,
                    })
                    &&& candidates[3] == (IconModel {
                        path: paths::joined(current, "icon.png"@),
                        kind: IconSourceKind::Png,
                    })
                },
                None => {
                    &&& candidates.len() == 2
                    &&& candidates[0] == (IconModel {
                        path: paths::joined(current, "icon.svg"@),
                        kind: IconSourceKind::Svg,
                    })
                    &&& candidates[1] == (IconModel {
                        path: paths::joined(current, "icon.png"@),
                        kind: IconSourceKind::Png,
                    })
                },
            }
        }),
{
}

/// The first candidate that is a file is the icon; there is none where no candidate is.
pub proof fn law_first_file_is_the_icon(candidates: Seq<IconModel>, is_file: Seq<bool>, i: int)
    requires
        candidates.len() == is_file.len(),
    ensures
        0 <= i < candidates.len() && is_file[i] && (forall|j: int|
            0 <= j < i ==> !(#[trigger] is_file[j])) ==> first_icon(candidates, is_file) == Some(
            candidates[i],
        ),
        (forall|j: int| 0 <= j < is_file.len() ==> !(#[trigger] is_file[j])) ==> first_icon(
            candidates,
            is_file,
        ) is None,
    decreases candidates.len(),
{
    if candidates.len() > 0 {
        let rest = is_file.skip(1);
        law_first_file_is_the_icon(candidates.skip(1), rest, i - 1);
        assert(forall|j: int| 0 <= j < rest.len() ==> #[trigger] rest[j] == is_file[j + 1]);
    }
}

} // verus!
