//! What saving leaves on a disk, and what is loaded from there.

use vstd::prelude::*;

use crate::config::file::{self, FileModel, SettingsModel};
use crate::config::store::{self, ReadModel};
use crate::config::write::{StepModel, WriteModel, WriteStage, TEMP_FILE_ATTEMPTS};
use crate::domain::command_panel;
use crate::error::ErrorModel;
use crate::paths;

verus! {

/// The files of a disk with their texts, and its directories.
#[verifier::ext_equal]
pub struct Disk {
    pub files: Map<Seq<char>, Seq<char>>,
    pub directories: Set<Seq<char>>,
}

/// The new file beside a settings file, on one attempt of one process.
pub open spec fn temporary_of(path: Seq<char>, process: nat, attempt: nat) -> Seq<char> {
    paths::joined(
        crate::config::write::directory_of(path),
        crate::config::write::temporary_name(paths::file_name_of(path)->0, process, attempt),
    )
}

/// The new file of a write.
pub open spec fn new_file(write: WriteModel) -> Seq<char> {
    temporary_of(write.path, write.process, write.attempt)
}

/// Whether no new file stands in for the settings file itself.
pub open spec fn beside(path: Seq<char>, process: nat) -> bool {
    forall|attempt: nat| #[trigger] temporary_of(path, process, attempt) != path
}

/// Whether two disks hold the same files, but for one.
pub open spec fn same_but(before: Disk, after: Disk, path: Seq<char>) -> bool {
    forall|other: Seq<char>|
        other != path ==> (#[trigger] after.files.contains_key(other) == before.files.contains_key(
            other,
        )) && (before.files.contains_key(other) ==> after.files[other] == before.files[other])
}

/// What a step of a write can do to a disk. A step that fails does nothing, but
/// that some of the directories may have been created, and that some of the
/// content may have gone into the new file.
pub open spec fn can_follow(before: Disk, after: Disk, write: WriteModel, outcome: StepModel) -> bool {
    match (write.stage, outcome) {
        (WriteStage::CreateDirectory, StepModel::Done) => {
            &&& after.files == before.files
            &&& after.directories.contains(crate::config::write::directory_of(write.path))
        },
        (WriteStage::CreateDirectory, _) => after.files == before.files,
        (WriteStage::CreateTemporary, StepModel::Done) => {
            &&& !before.files.contains_key(new_file(write))
            &&& after.files == before.files.insert(new_file(write), Seq::empty())
        },
        (WriteStage::WriteContent, StepModel::Done) => after.files == before.files.insert(
            new_file(write),
            write.content,
        ),
        (WriteStage::WriteContent, _) => same_but(before, after, new_file(write)),
        (WriteStage::Replace, StepModel::Done) => after.files == before.files.remove(
            new_file(write),
        ).insert(write.path, before.files[new_file(write)]),
        (WriteStage::RemoveTemporary, StepModel::Done) => after.files == before.files.remove(
            new_file(write),
        ),
        _ => after.files == before.files,
    }
}

/// Whether disks can follow each other while a write takes these steps.
pub open spec fn can_happen(write: WriteModel, disks: Seq<Disk>, outcomes: Seq<StepModel>) -> bool
    decreases outcomes.len(),
{
    &&& disks.len() == outcomes.len() + 1
    &&& outcomes.len() > 0 ==> {
        &&& can_follow(disks[0], disks[1], write, outcomes[0])
        &&& can_happen(write.after(outcomes[0]), disks.skip(1), outcomes.skip(1))
    }
}

/// What a disk holds at a stage of a write, by what it held before the write.
spec fn holds(write: WriteModel, start: Disk, disk: Disk) -> bool {
    match write.stage {
        WriteStage::CreateDirectory | WriteStage::CreateTemporary => disk.files == start.files,
        WriteStage::WriteContent | WriteStage::RemoveTemporary => {
            &&& !start.files.contains_key(new_file(write))
            &&& same_but(start, disk, new_file(write))
        },
        WriteStage::SyncContent | WriteStage::Replace => {
            &&& !start.files.contains_key(new_file(write))
            &&& disk.files == start.files.insert(new_file(write), write.content)
        },
        WriteStage::SyncDirectory => disk.files == start.files.insert(write.path, write.content),
        WriteStage::Finished => if write.error is None {
            disk.files == start.files.insert(write.path, write.content)
        } else {
            disk.files == start.files || (!start.files.contains_key(new_file(write)) && same_but(
                start,
                disk,
                new_file(write),
            ))
        },
    }
}

/// One step keeps to what the disk holds at each stage.
proof fn lemma_step(write: WriteModel, outcome: StepModel, start: Disk, before: Disk, after: Disk)
    requires
        write.consistent(),
        beside(write.path, write.process),
        holds(write, start, before),
        can_follow(before, after, write, outcome),
    ensures
        holds(write.after(outcome), start, after),
{
    let temporary = new_file(write);
    assert(temporary != write.path);
    if outcome is Done {
        if write.stage is WriteContent {
            assert(after.files =~= start.files.insert(temporary, write.content));
        } else if write.stage is Replace {
            assert(after.files =~= start.files.insert(write.path, write.content));
        }
    }
}

proof fn lemma_steps(write: WriteModel, start: Disk, disks: Seq<Disk>, outcomes: Seq<StepModel>)
    requires
        write.consistent(),
        beside(write.path, write.process),
        can_happen(write, disks, outcomes),
        holds(write, start, disks[0]),
    ensures
        holds(write.run(outcomes), start, disks.last()),
        write.run(outcomes).path == write.path,
        write.run(outcomes).content == write.content,
        write.run(outcomes).process == write.process,
    decreases outcomes.len(),
{
    if outcomes.len() > 0 {
        lemma_step(write, outcomes[0], start, disks[0], disks[1]);
        lemma_steps(write.after(outcomes[0]), start, disks.skip(1), outcomes.skip(1));
        assert(disks.skip(1).last() == disks.last());
    }
}

/// Whatever goes wrong on the way: a write that reports success has put the whole
/// new text in the place of the settings file and left nothing else behind, and
/// one that reports an error has left the settings file as it was, and all other
/// files but its own new one.
pub proof fn law_settings_are_replaced_whole_or_kept(
    path: Seq<char>,
    content: Seq<char>,
    process: nat,
    disks: Seq<Disk>,
    outcomes: Seq<StepModel>,
)
    requires
        beside(path, process),
        can_happen(WriteModel::begun(path, content, process), disks, outcomes),
        WriteModel::begun(path, content, process).run(outcomes).stage is Finished,
    ensures
        ({
            let end = WriteModel::begun(path, content, process).run(outcomes);
            let left = disks.last();
            &&& end.error is None ==> left.files == disks[0].files.insert(path, content)
            &&& end.error is Some ==> {
                &&& left.files.contains_key(path) == disks[0].files.contains_key(path)
                &&& disks[0].files.contains_key(path) ==> left.files[path] == disks[0].files[path]
                &&& same_but(disks[0], left, new_file(end))
            }
        }),
{
    let begun = WriteModel::begun(path, content, process);
    lemma_steps(begun, disks[0], disks, outcomes);
    assert(new_file(begun.run(outcomes)) != path);
}

/// How a step goes on a disk that does not fail. A new file is created only where
/// there is none of its name, and in a directory that exists.
pub open spec fn answer(disk: Disk, write: WriteModel) -> StepModel {
    match write.stage {
        WriteStage::CreateTemporary => if !disk.directories.contains(
            crate::config::write::directory_of(write.path),
        ) {
            StepModel::Failed(Seq::empty())
        } else if disk.files.contains_key(new_file(write)) {
            StepModel::AlreadyExists(Seq::empty())
        } else {
            StepModel::Done
        },
        _ => StepModel::Done,
    }
}

/// The disk after a step that went so.
pub open spec fn effect(disk: Disk, write: WriteModel) -> Disk {
    let temporary = new_file(write);
    match write.stage {
        WriteStage::CreateDirectory => Disk {
            directories: disk.directories.insert(crate::config::write::directory_of(write.path)),
            ..disk
        },
        WriteStage::CreateTemporary => if answer(disk, write) is Done {
            Disk { files: disk.files.insert(temporary, Seq::empty()), ..disk }
        } else {
            disk
        },
        WriteStage::WriteContent => Disk {
            files: disk.files.insert(temporary, write.content),
            ..disk
        },
        WriteStage::Replace => Disk {
            files: disk.files.remove(temporary).insert(write.path, disk.files[temporary]),
            ..disk
        },
        WriteStage::RemoveTemporary => Disk { files: disk.files.remove(temporary), ..disk },
        _ => disk,
    }
}

/// A write that was carried out to its end on a disk that does not fail, and the
/// disk then.
pub open spec fn carried_out(write: WriteModel, disk: Disk) -> (WriteModel, Disk)
    decreases crate::config::write::steps_left(write),
    when write.consistent()
{
    if write.stage is Finished {
        (write, disk)
    } else {
        proof {
            crate::config::write::law_write_ends(write, answer(disk, write));
        }
        carried_out(write.after(answer(disk, write)), effect(disk, write))
    }
}

/// A write on a disk that does not fail reaches its end once a name is free.
proof fn lemma_carried_out(write: WriteModel, start: Disk, disk: Disk, free: nat)
    requires
        write.consistent(),
        beside(write.path, write.process),
        holds(write, start, disk),
        write.error is None,
        !(write.stage is CreateDirectory) ==> disk.directories.contains(
            crate::config::write::directory_of(write.path),
        ),
        write.stage is CreateDirectory || write.stage is CreateTemporary ==> write.attempt <= free
            < TEMP_FILE_ATTEMPTS && !start.files.contains_key(
            temporary_of(write.path, write.process, free),
        ),
    ensures
        carried_out(write, disk).0.stage is Finished,
        carried_out(write, disk).0.error is None,
        carried_out(write, disk).1.files == start.files.insert(write.path, write.content),
        carried_out(write, disk).1.directories.contains(crate::config::write::directory_of(write.path)),
    decreases crate::config::write::steps_left(write),
{
    if !(write.stage is Finished) {
        let outcome = answer(disk, write);
        let after = effect(disk, write);
        crate::config::write::law_write_ends(write, outcome);
        lemma_step(write, outcome, start, disk, after);
        lemma_carried_out(write.after(outcome), start, after, free);
    }
}

/// A save on a disk that does not fail succeeds as long as one of the names for
/// the new file is free. The settings file then holds the new text and nothing of
/// what it held before, whether or not it and its directory were there, and every
/// other file is as it was.
pub proof fn law_save_replaces_the_file(
    path: Seq<char>,
    content: Seq<char>,
    process: nat,
    disk: Disk,
    free: nat,
)
    requires
        beside(path, process),
        free < TEMP_FILE_ATTEMPTS,
        !disk.files.contains_key(temporary_of(path, process, free)),
    ensures
        ({
            let saved = carried_out(WriteModel::begun(path, content, process), disk);
            &&& saved.0.stage is Finished
            &&& saved.0.error is None
            &&& saved.1.files == disk.files.insert(path, content)
            &&& saved.1.directories.contains(crate::config::write::directory_of(path))
        }),
{
    lemma_carried_out(WriteModel::begun(path, content, process), disk, disk, free);
}

/// What reading a settings file gives on a disk that does not fail, where texts
/// are read as `decode` says.
pub open spec fn read_of(
    disk: Disk,
    path: Seq<char>,
    decode: spec_fn(Seq<char>) -> Result<FileModel, Seq<char>>,
) -> ReadModel {
    if disk.files.contains_key(path) {
        match decode(disk.files[path]) {
            Ok(config) => ReadModel::Parsed(config),
            Err(cause) => ReadModel::Unparsable(cause),
        }
    } else {
        ReadModel::NotFound
    }
}

/// What is loaded from a disk that does not fail.
pub open spec fn loaded_from(
    disk: Disk,
    path: Seq<char>,
    legacy: Option<Seq<char>>,
    decode: spec_fn(Seq<char>) -> Result<FileModel, Seq<char>>,
    defaults: SettingsModel,
) -> Result<SettingsModel, ErrorModel> {
    let existing = store::existing_path(
        path,
        legacy,
        Ok(disk.files.contains_key(path)),
        match legacy {
            Some(legacy_path) => Ok(disk.files.contains_key(legacy_path)),
            None => Ok(false),
        },
    );
    let read = match existing {
        Ok(Some(found)) => read_of(disk, found, decode),
        _ => ReadModel::NotFound,
    };
    store::loaded_settings(existing, read, defaults)
}

/// Settings that were saved are loaded again: whatever the settings file held
/// before, and whether or not it and its directory were there, what is loaded after
/// the save has the same categories with the same buttons in the same order, the
/// same selected category and the same font. The text must be read as the file that
/// it was written from.
pub proof fn law_saved_settings_are_loaded_again(
    settings: SettingsModel,
    content: Seq<char>,
    path: Seq<char>,
    legacy: Option<Seq<char>>,
    process: nat,
    disk: Disk,
    free: nat,
    decode: spec_fn(Seq<char>) -> Result<FileModel, Seq<char>>,
    defaults: SettingsModel,
)
    requires
        settings.panel.selection_valid(),
        file::categories_problem(file::definitions_of(settings.panel)) is None,
        command_panel::button_count(file::definitions_of(settings.panel)) < u64::MAX,
        settings.font.valid(),
        decode(content) == Ok::<FileModel, Seq<char>>(file::file_of(settings)),
        beside(path, process),
        free < TEMP_FILE_ATTEMPTS,
        !disk.files.contains_key(temporary_of(path, process, free)),
    ensures
        ({
            let saved = carried_out(WriteModel::begun(path, content, process), disk);
            let loaded = loaded_from(saved.1, path, legacy, decode, defaults);
            &&& saved.0.error is None
            &&& loaded is Ok
            &&& file::definitions_of((loaded->Ok_0).panel) == file::definitions_of(settings.panel)
            &&& (loaded->Ok_0).panel.selected == settings.panel.selected
            &&& (loaded->Ok_0).font == settings.font
        }),
{
    law_save_replaces_the_file(path, content, process, disk, free);
    file::law_saved_settings_are_loaded(settings);
}

} // verus!
