//! Desktop integration on Linux, and the texts that come with the program.

use std::collections::BTreeMap;
use std::path::Path;

use j3term::distribution::{distribution_text_directories, load_text_file_or_embedded, TextRead};
use j3term::error::{AppError, AppResult};
use j3term::linux_desktop::entry::{
    desktop_entry_content, executable_path_to_desktop_entry_value, find_icon_source,
    icon_candidates, icon_source_directories, lowercase_alias_id, managed_desktop_identities,
    DesktopEnvironment, DesktopIdentity, DesktopInstallPaths, IconSourceKind, PNG_ICON_FILE_NAME,
    SVG_ICON_FILE_NAME,
};
use j3term::linux_desktop::install::{
    find_runtime_icon_path, install_with_request, uninstall_from_paths, DesktopApplication,
    DesktopInstallRequest,
};
use j3term::linux_desktop::run::{
    cache_command, install_for_current_exe, uninstall, DesktopAction, DesktopInstallReport,
    DesktopRun, FileEvent,
};

const APPLICATION_ID: &str = "org.example.j3Term";

fn application() -> DesktopApplication {
    DesktopApplication { name: "j3Term".to_string(), id: APPLICATION_ID.to_string() }
}

fn nothing() -> DesktopInstallReport {
    DesktopInstallReport { written_files: 0, removed_files: 0 }
}

/// Files in memory, with a program and a directory that it was started in.
struct Layout {
    files: BTreeMap<String, Vec<u8>>,
    request: DesktopInstallRequest,
    refused: Option<String>,
}

impl Layout {
    fn new() -> Self {
        let mut files = BTreeMap::new();
        files.insert("/root/bin/j3term".to_string(), b"bin".to_vec());
        Layout {
            files,
            request: DesktopInstallRequest {
                executable_path: "/root/bin/j3term".to_string(),
                executable_is_utf8: true,
                current_directory: "/root/cwd".to_string(),
                environment: DesktopEnvironment {
                    xdg_data_home: Some("/root/data-home".to_string()),
                    home: None,
                },
            },
            refused: None,
        }
    }

    fn paths(&self) -> DesktopInstallPaths {
        self.request.install_paths().unwrap()
    }

    fn write(&mut self, path: &str, content: &[u8]) {
        self.files.insert(path.to_string(), content.to_vec());
    }

    fn read(&self, path: &str) -> &[u8] {
        self.files.get(path).unwrap()
    }

    fn text(&self, path: &str) -> String {
        String::from_utf8(self.read(path).to_vec()).unwrap()
    }

    fn holds(&self, path: &str) -> bool {
        self.files.contains_key(path)
    }

    fn are_files(&self) -> Vec<bool> {
        icon_candidates(&self.request.executable_path, &self.request.current_directory)
            .iter()
            .map(|icon| self.holds(&icon.path))
            .collect()
    }

    fn perform(&mut self, mut run: DesktopRun) -> AppResult<DesktopInstallReport> {
        loop {
            let event = match run.action() {
                DesktopAction::Finish => return run.finish(),
                DesktopAction::ReadSource { path } | DesktopAction::ReadInstalled { path } => {
                    match self.files.get(&path) {
                        Some(content) => FileEvent::Content(content.clone()),
                        None => FileEvent::NotFound,
                    }
                }
                DesktopAction::CreateDirectory { .. } => FileEvent::Done,
                DesktopAction::WriteFile { path, content } => {
                    if self.refused.as_ref() == Some(&path) {
                        FileEvent::Failed("denied".to_string())
                    } else {
                        self.files.insert(path, content);
                        FileEvent::Done
                    }
                }
                DesktopAction::RemoveFile { path } => match self.files.remove(&path) {
                    Some(_) => FileEvent::Done,
                    None => FileEvent::NotFound,
                },
            };
            run.step(event);
        }
    }

    fn install(&mut self) -> AppResult<DesktopInstallReport> {
        let icon = find_icon_source(
            &self.request.executable_path,
            &self.request.current_directory,
            &self.are_files(),
        );
        let plan = install_with_request(&application(), &self.request, &self.paths(), &icon);
        self.perform(DesktopRun::new(plan))
    }

    fn uninstall(&mut self) -> AppResult<DesktopInstallReport> {
        let plan = uninstall_from_paths(&application(), &self.paths());
        self.perform(DesktopRun::new(plan))
    }
}

fn joined(directory: &str, name: &str) -> String {
    Path::new(directory).join(name).to_str().unwrap().to_string()
}

#[test]
fn data_home_uses_absolute_xdg_data_home() -> AppResult<()> {
    let environment = DesktopEnvironment {
        xdg_data_home: Some("/tmp/xdg-data-home".to_string()),
        home: Some("/home/example".to_string()),
    };

    assert_eq!(environment.data_home()?, "/tmp/xdg-data-home");
    Ok(())
}

#[test]
fn data_home_ignores_relative_xdg_data_home() -> AppResult<()> {
    let environment = DesktopEnvironment {
        xdg_data_home: Some("relative-data".to_string()),
        home: Some("/home/example".to_string()),
    };

    assert_eq!(environment.data_home()?, joined(&joined("/home/example", ".local"), "share"));
    Ok(())
}

#[test]
fn data_home_needs_a_home() {
    let environment = DesktopEnvironment { xdg_data_home: None, home: None };

    assert_eq!(
        environment.data_home(),
        Err(AppError::InvalidState("HOME is required to install Linux desktop integration"))
    );
}

#[test]
fn install_prefers_svg_and_removes_stale_png() -> AppResult<()> {
    let mut layout = Layout::new();
    layout.write(&joined("/root/bin", PNG_ICON_FILE_NAME), b"png-source");
    layout.write(&joined("/root/cwd", SVG_ICON_FILE_NAME), b"svg-source");

    let paths = layout.paths();
    layout.write(&paths.png_icon_path(APPLICATION_ID), b"stale-png");
    layout.write(&paths.desktop_entry_path("j3Launcher"), b"legacy");
    layout.write(&paths.svg_icon_path("j3Launcher"), b"legacy");

    let report = layout.install()?;

    assert!(report.written_files >= 4);
    assert!(report.removed_files >= 3);
    assert_eq!(layout.read(&paths.svg_icon_path(APPLICATION_ID)), b"svg-source");
    assert!(!layout.holds(&paths.png_icon_path(APPLICATION_ID)));
    assert!(!layout.holds(&paths.desktop_entry_path("j3Launcher")));
    assert!(!layout.holds(&paths.svg_icon_path("j3Launcher")));
    Ok(())
}

#[test]
fn install_uses_png_fallback_and_removes_stale_svg() -> AppResult<()> {
    let mut layout = Layout::new();
    layout.write(&joined("/root/cwd", PNG_ICON_FILE_NAME), b"png-source");

    let paths = layout.paths();
    layout.write(&paths.svg_icon_path(APPLICATION_ID), b"stale-svg");

    layout.install()?;

    assert_eq!(layout.read(&paths.png_icon_path(APPLICATION_ID)), b"png-source");
    assert!(!layout.holds(&paths.svg_icon_path(APPLICATION_ID)));
    Ok(())
}

#[test]
fn repeated_install_with_same_content_does_not_rewrite_files() -> AppResult<()> {
    let mut layout = Layout::new();
    layout.write(&joined("/root/cwd", SVG_ICON_FILE_NAME), b"svg-source");

    let first = layout.install()?;
    let second = layout.install()?;

    assert!(first.written_files > 0);
    assert_eq!(second, nothing());
    Ok(())
}

#[test]
fn repeated_install_updates_changed_executable_path() -> AppResult<()> {
    let mut layout = Layout::new();
    layout.write(&joined("/root/cwd", SVG_ICON_FILE_NAME), b"svg-source");
    let paths = layout.paths();
    layout.install()?;

    let moved_executable = "/root/new-bin/j3term".to_string();
    layout.write(&moved_executable, b"bin");
    layout.request.executable_path = moved_executable.clone();

    let report = layout.install()?;
    let desktop_entry = layout.text(&paths.desktop_entry_path(APPLICATION_ID));

    assert!(report.written_files >= 2);
    assert!(desktop_entry.contains(&format!("Exec={}", moved_executable)));
    Ok(())
}

#[test]
fn installs_lowercase_alias_desktop_entry_and_icon() -> AppResult<()> {
    let mut layout = Layout::new();
    layout.write(&joined("/root/cwd", SVG_ICON_FILE_NAME), b"svg-source");
    let paths = layout.paths();

    layout.install()?;

    let alias_id = lowercase_alias_id(APPLICATION_ID)
        .ok_or(AppError::InvalidInput("alias should exist"))?;
    let alias_desktop = layout.text(&paths.desktop_entry_path(&alias_id));

    assert!(alias_desktop.contains(&format!("Icon={alias_id}\n")));
    assert!(alias_desktop.contains(&format!("StartupWMClass={alias_id}\n")));
    assert!(alias_desktop.contains("NoDisplay=true\n"));
    assert_eq!(layout.read(&paths.svg_icon_path(&alias_id)), b"svg-source");
    Ok(())
}

#[test]
fn uninstall_removes_managed_alias_and_legacy_files() -> AppResult<()> {
    let mut layout = Layout::new();
    let paths = layout.paths();
    let alias_id = lowercase_alias_id(APPLICATION_ID)
        .ok_or(AppError::InvalidInput("alias should exist"))?;
    let ids =
        [APPLICATION_ID, alias_id.as_str(), "io.github.j3term", "j3Launcher", "j3launcher"];

    for app_id in ids {
        layout.write(&paths.desktop_entry_path(app_id), b"desktop");
        layout.write(&paths.svg_icon_path(app_id), b"svg");
        layout.write(&paths.png_icon_path(app_id), b"png");
    }

    let first = layout.uninstall()?;
    let second = layout.uninstall()?;

    assert!(first.removed_files > 0);
    assert_eq!(second, nothing());
    for app_id in ids {
        assert!(!layout.holds(&paths.desktop_entry_path(app_id)));
        assert!(!layout.holds(&paths.svg_icon_path(app_id)));
        assert!(!layout.holds(&paths.png_icon_path(app_id)));
    }
    Ok(())
}

#[test]
fn uninstalling_takes_an_installation_away() -> AppResult<()> {
    let mut layout = Layout::new();
    layout.write(&joined("/root/cwd", SVG_ICON_FILE_NAME), b"svg-source");
    let before = layout.files.clone();

    let run = install_for_current_exe(&application(), &layout.request, &layout.are_files())?;
    let installed = layout.perform(run)?;
    assert_eq!(installed.written_files, layout.files.len() - before.len());
    let run = uninstall(&application(), &layout.request.environment)?;
    let removed = layout.perform(run)?;

    assert_eq!(removed.removed_files, installed.written_files);
    assert_eq!(layout.files, before);
    Ok(())
}

#[test]
fn refused_write_ends_the_installation() {
    let mut layout = Layout::new();
    layout.write(&joined("/root/cwd", SVG_ICON_FILE_NAME), b"svg-source");
    layout.refused = Some(layout.paths().svg_icon_path(APPLICATION_ID));

    assert_eq!(
        layout.install(),
        Err(AppError::io("write Linux desktop file", "denied".to_string()))
    );
}

#[test]
fn executable_path_must_be_one_line_of_text() {
    assert_eq!(
        executable_path_to_desktop_entry_value("/opt/j3term", true),
        Ok("/opt/j3term".to_string())
    );
    assert_eq!(
        executable_path_to_desktop_entry_value("/opt/a b/j3term", true),
        Ok("/opt/a b/j3term".to_string())
    );
    assert_eq!(
        executable_path_to_desktop_entry_value("/opt/j3term", false),
        Err(AppError::InvalidInput("desktop entry executable path must be valid UTF-8"))
    );
    assert_eq!(
        executable_path_to_desktop_entry_value("/opt/a\nb", true),
        Err(AppError::InvalidInput("desktop entry executable path must not contain newlines"))
    );
}

#[test]
fn entry_is_shown_unless_it_is_an_alias() -> AppResult<()> {
    let identities = managed_desktop_identities(APPLICATION_ID);
    assert_eq!(
        identities,
        vec![
            DesktopIdentity { app_id: APPLICATION_ID.to_string(), no_display: false },
            DesktopIdentity { app_id: "org.example.j3term".to_string(), no_display: true },
        ]
    );
    assert_eq!(lowercase_alias_id("lower"), None);
    let shown = desktop_entry_content("j3Term", "/opt/j3term", true, &identities[0])?;
    assert!(shown.starts_with("# Managed by j3Term --install\n[Desktop Entry]\n"));
    assert!(shown.contains("Name=j3Term\n"));
    assert!(shown.contains("Exec=/opt/j3term"));
    assert!(!shown.contains("NoDisplay"));
    Ok(())
}

#[test]
fn icon_is_looked_for_beside_the_program_first() {
    let directories = icon_source_directories("/root/bin/j3term", "/root/cwd");
    assert_eq!(directories[0], "/root/bin");
    assert!(directories.contains(&"/root/cwd".to_string()));

    let candidates = icon_candidates("/root/bin/j3term", "/root/cwd");
    let all = vec![true; candidates.len()];
    let none = vec![false; candidates.len()];
    let found = find_icon_source("/root/bin/j3term", "/root/cwd", &all).unwrap();
    assert_eq!(found.path, "/root/bin/icon.svg");
    assert_eq!(found.kind, IconSourceKind::Svg);
    assert_eq!(find_icon_source("/root/bin/j3term", "/root/cwd", &none), None);
}

#[test]
fn runtime_icon_is_the_one_that_would_be_installed() {
    let mut layout = Layout::new();
    assert_eq!(find_runtime_icon_path(&layout.request, &layout.are_files()), None);
    layout.write("/root/cwd/icon.png", b"png");
    assert_eq!(
        find_runtime_icon_path(&layout.request, &layout.are_files()),
        Some("/root/cwd/icon.png".to_string())
    );
}

#[test]
fn request_needs_an_executable_and_a_directory() {
    let environment = DesktopEnvironment { xdg_data_home: None, home: None };
    assert_eq!(
        DesktopInstallRequest::from_process_environment(
            Err("gone".to_string()),
            true,
            Ok("/".to_string()),
            environment.clone()
        ),
        Err(AppError::io("resolve current executable", "gone".to_string()))
    );
    assert_eq!(
        DesktopInstallRequest::from_process_environment(
            Ok("/bin/j3term".to_string()),
            true,
            Err("gone".to_string()),
            environment
        ),
        Err(AppError::io("resolve current directory", "gone".to_string()))
    );
}

#[test]
fn caches_are_refreshed_by_each_tool_in_turn() {
    let programs = |previous_installed: bool| {
        let mut programs: Vec<&'static str> = Vec::new();
        while let Some(command) = cache_command("/data", programs.len(), previous_installed) {
            programs.push(command.program);
        }
        programs
    };

    assert_eq!(
        programs(false),
        vec!["update-desktop-database", "gtk-update-icon-cache", "kbuildsycoca6", "kbuildsycoca5"]
    );
    assert_eq!(
        programs(true),
        vec!["update-desktop-database", "gtk-update-icon-cache", "kbuildsycoca6"]
    );
    assert_eq!(
        cache_command("/data", 1, false).unwrap().arguments,
        vec!["-f".to_string(), "-t".to_string(), "/data/icons/hicolor".to_string()]
    );
}

#[test]
fn texts_come_from_the_first_directory_that_has_them() {
    assert_eq!(
        distribution_text_directories(
            Some("/opt/j3term/bin/j3term".to_string()),
            Some("/home/example".to_string())
        ),
        vec!["/opt/j3term/bin".to_string(), "/home/example".to_string()]
    );
    assert_eq!(distribution_text_directories(None, None), Vec::<String>::new());
    assert_eq!(
        load_text_file_or_embedded(
            &vec![
                TextRead::NotFound,
                TextRead::Content("found".to_string()),
                TextRead::Content("later".to_string())
            ],
            "embedded"
        ),
        "found"
    );
    assert_eq!(load_text_file_or_embedded(&vec![TextRead::NotFound], "embedded"), "embedded");
    assert_eq!(
        load_text_file_or_embedded(
            &vec![TextRead::Failed, TextRead::Content("later".to_string())],
            "embedded"
        ),
        "embedded"
    );
    assert_eq!(
        distribution_text_directories(
            Some("/opt/j3term/j3term".to_string()),
            Some("/opt/j3term".to_string())
        ),
        vec!["/opt/j3term".to_string()]
    );
}

#[test]
fn uninstalling_leaves_files_of_other_ids() -> AppResult<()> {
    let mut layout = Layout::new();
    let paths = layout.paths();
    for app_id in ["j3Term", "org.example.other"] {
        layout.write(&paths.desktop_entry_path(app_id), b"desktop");
        layout.write(&paths.svg_icon_path(app_id), b"svg");
    }

    let report = layout.uninstall()?;

    assert_eq!(report, DesktopInstallReport { written_files: 0, removed_files: 2 });
    assert!(!layout.holds(&paths.desktop_entry_path("j3Term")));
    assert_eq!(layout.read(&paths.desktop_entry_path("org.example.other")), b"desktop");
    assert_eq!(layout.read(&paths.svg_icon_path("org.example.other")), b"svg");
    assert_eq!(layout.read("/root/bin/j3term"), b"bin");
    Ok(())
}

#[test]
fn installing_again_rewrites_only_what_was_changed_meanwhile() -> AppResult<()> {
    let mut layout = Layout::new();
    let paths = layout.paths();
    layout.write(&joined("/root/cwd", SVG_ICON_FILE_NAME), b"svg-source");
    layout.install()?;
    let installed = layout.files.clone();
    layout.write(&paths.svg_icon_path(APPLICATION_ID), b"other");
    layout.write(&paths.desktop_entry_path("j3launcher"), b"desktop");

    let second = layout.install()?;
    assert_eq!(second, DesktopInstallReport { written_files: 1, removed_files: 1 });
    assert_eq!(layout.files, installed);
    assert_eq!(layout.install()?, nothing());
    Ok(())
}
