//! Writing a file so that it is never seen half written.

use crate::paths::{install_fault, layout, lemma_layout_names_are_plain};
use crate::winpath::{
    file_name, last_dot, law_joined_paths_stay_inside, lemma_file_name, parts, path_with_extension,
    stem_len, takes_names, with_extension,
};
use vstd::prelude::*;
use vstd::string::StringExecFns;

verus! {

/// The path of the temporary file beside a file: the same with another extension.
pub open spec fn temp_name(path: Seq<char>) -> Seq<char> {
    with_extension(path, "tmp"@)
}

pub fn temp_path(path: &str) -> (temp: String)
    ensures
        temp@ == temp_name(path@),
{
    proof {
        reveal_strlit("tmp");
    }
    path_with_extension(path, "tmp")
}

/// The temporary file of a file that has a name is another file, unless that name
/// already has the extension of temporary files.
pub proof fn law_temporary_files_are_apart(path: Seq<char>)
    requires
        parts(path).len() > 0,
        parts(path).last() is Name,
    ensures
        file_name(path) matches Some((a, b)) && (temp_name(path) == path ==> path.skip(
            a + stem_len(path.subrange(a, b)),
        ) == ".tmp"@),
{
    reveal_strlit("tmp");
    reveal_strlit(".tmp");
    lemma_file_name(path);
    let (a, b) = file_name(path)->0;
    lemma_stem_len(path.subrange(a, b));
    let n = a + stem_len(path.subrange(a, b));
    assert(temp_name(path).skip(n) =~= ".tmp"@);
}

proof fn lemma_stem_len(name: Seq<char>)
    ensures
        -1 <= last_dot(name) < name.len(),
        0 <= stem_len(name) <= name.len(),
    decreases name.len(),
{
    if name.len() > 0 {
        lemma_stem_len(name.drop_last());
    }
}

/// The files that are written in an installation are other files than the
/// temporary files beside them.
pub proof fn law_install_files_have_temporary_files(root: Seq<char>)
    requires
        install_fault(root) is None,
        takes_names(root),
    ensures
        temp_name(layout(root).config) != layout(root).config,
        temp_name(layout(root).config) != layout(root).state_file,
        temp_name(layout(root).state_file) != layout(root).state_file,
        temp_name(layout(root).state_file) != layout(root).config,
{
    lemma_layout_names_are_plain();
    reveal_strlit("tmp");
    reveal_strlit("ramp.toml");
    reveal_strlit("ramp.state");
    law_joined_paths_stay_inside(root, "ramp.toml"@);
    law_joined_paths_stay_inside(root, "ramp.state"@);
    let config = layout(root).config;
    let state = layout(root).state_file;
    lemma_file_name(config);
    lemma_file_name(state);
    assert(temp_name(config).last() == 'p');
    assert(temp_name(state).last() == 'p');
    assert(config.last() == 'l');
    assert(state.last() == 'e');
}

/// The steps of writing a file, in their order.
#[derive(Debug, Clone, Copy, PartialEq, Eq, Structural)]
pub enum WriteStep {
    /// Create the directory of the file.
    CreateDir,
    /// Create an empty temporary file beside the file.
    CreateTemp,
    /// Write the data to the temporary file.
    WriteTemp,
    /// Flush the temporary file.
    FlushTemp,
    /// Have the temporary file brought to the disk.
    SyncTemp,
    /// Give the temporary file the name of the file.
    Rename,
}

/// What comes after a step.
#[derive(Debug)]
pub enum WriteNext {
    /// The next step.
    Do(WriteStep),
    /// The file has been written.
    Written,
    /// The file could not be written, for this reason.
    Failed(String),
}

/// The step after a step that went well, if there is one.
pub open spec fn write_after(step: WriteStep) -> Option<WriteStep> {
    match step {
        WriteStep::CreateDir => Some(WriteStep::CreateTemp),
        WriteStep::CreateTemp => Some(WriteStep::WriteTemp),
        WriteStep::WriteTemp => Some(WriteStep::FlushTemp),
        WriteStep::FlushTemp => Some(WriteStep::SyncTemp),
        WriteStep::SyncTemp => Some(WriteStep::Rename),
        WriteStep::Rename => None,
    }
}

/// Why a file could not be written, for the failure of one step.
pub open spec fn write_failure(step: WriteStep, error: Seq<char>, dir: Seq<char>) -> Seq<char> {
    match step {
        WriteStep::CreateDir => "cannot create dir "@ + dir + ": "@ + error,
        WriteStep::CreateTemp => "cannot create temp file: "@ + error,
        WriteStep::WriteTemp => "write failed: "@ + error,
        WriteStep::FlushTemp => "flush failed: "@ + error,
        WriteStep::SyncTemp => "fsync failed: "@ + error,
        WriteStep::Rename => "atomic rename failed: "@ + error,
    }
}

/// What to do after a step of writing a file to the directory `dir`. The first
/// step that fails is the last one.
pub fn write_next(step: WriteStep, outcome: Result<(), String>, dir: &str) -> (next: WriteNext)
    ensures
        match outcome {
            Ok(_) => match write_after(step) {
                Some(following) => next == WriteNext::Do(following),
                None => next is Written,
            },
            Err(error) => next matches WriteNext::Failed(reason) && reason@ == write_failure(
                step,
                error@,
                dir@,
            ),
        },
{
    match outcome {
        Ok(_) => match step {
            WriteStep::CreateDir => WriteNext::Do(WriteStep::CreateTemp),
            WriteStep::CreateTemp => WriteNext::Do(WriteStep::WriteTemp),
            WriteStep::WriteTemp => WriteNext::Do(WriteStep::FlushTemp),
            WriteStep::FlushTemp => WriteNext::Do(WriteStep::SyncTemp),
            WriteStep::SyncTemp => WriteNext::Do(WriteStep::Rename),
            WriteStep::Rename => WriteNext::Written,
        },
        Err(error) => {
            let start = match step {
                WriteStep::CreateDir => "cannot create dir ".to_string().concat(dir).concat(": "),
                WriteStep::CreateTemp => "cannot create temp file: ".to_string(),
                WriteStep::WriteTemp => "write failed: ".to_string(),
                WriteStep::FlushTemp => "flush failed: ".to_string(),
                WriteStep::SyncTemp => "fsync failed: ".to_string(),
                WriteStep::Rename => "atomic rename failed: ".to_string(),
            };
            WriteNext::Failed(start.concat(error.as_str()))
        },
    }
}

/// What the file and the temporary file beside it hold, if they exist.
#[verifier::ext_equal]
pub struct Disk {
    pub file: Option<Seq<u8>>,
    pub temp: Option<Seq<u8>>,
}

/// What a step that goes well makes of the two files. `data` is what is being
/// written.
pub open spec fn stepped(disk: Disk, step: WriteStep, data: Seq<u8>) -> Disk {
    match step {
        WriteStep::CreateTemp => Disk { temp: Some(seq![]), ..disk },
        WriteStep::WriteTemp => Disk { temp: Some(data), ..disk },
        WriteStep::Rename => Disk { file: disk.temp, temp: None },
        _ => disk,
    }
}

/// What a step that is cut short may have made of the two files: it
/// may have left anything in the temporary file if it works on that one; a
/// renaming either happens or does not.
pub open spec fn may_leave(disk: Disk, step: WriteStep, data: Seq<u8>, left: Disk) -> bool {
    match step {
        WriteStep::CreateDir => left == disk,
        WriteStep::Rename => left == disk || left == stepped(disk, step, data),
        _ => left.file == disk.file,
    }
}

/// The next step of writing a file and what the two files hold before it, once
/// so many steps have gone well.
pub open spec fn written_so_far(disk: Disk, data: Seq<u8>, steps: nat) -> (Option<WriteStep>, Disk)
    decreases steps,
{
    if steps == 0 {
        (Some(WriteStep::CreateDir), disk)
    } else {
        match written_so_far(disk, data, (steps - 1) as nat) {
            (Some(step), before) => (write_after(step), stepped(before, step, data)),
            (None, before) => (None, before),
        }
    }
}

/// However far the writing of a file gets, and whatever a step that is cut short
/// leaves behind, the file holds what it held before or all of the new data.
pub proof fn law_files_are_never_half_written(
    disk: Disk,
    data: Seq<u8>,
    steps: nat,
    step: WriteStep,
    left: Disk,
)
    requires
        written_so_far(disk, data, steps).0 == Some(step),
        may_leave(written_so_far(disk, data, steps).1, step, data, left),
    ensures
        left.file == disk.file || left.file == Some(data),
{
    lemma_written_so_far(disk, data);
    lemma_writing_ends(disk, data, steps);
}

/// What a step that is reported as failed may have made of the two files: a
/// renaming that failed has changed nothing.
pub open spec fn may_leave_failed(disk: Disk, step: WriteStep, left: Disk) -> bool {
    match step {
        WriteStep::CreateDir | WriteStep::Rename => left == disk,
        _ => left.file == disk.file,
    }
}

/// A write that failed, at whatever step, leaves the file as it was.
pub proof fn law_failed_writes_change_nothing(
    disk: Disk,
    data: Seq<u8>,
    steps: nat,
    step: WriteStep,
    left: Disk,
)
    requires
        written_so_far(disk, data, steps).0 == Some(step),
        may_leave_failed(written_so_far(disk, data, steps).1, step, left),
    ensures
        left.file == disk.file,
{
    lemma_written_so_far(disk, data);
    lemma_writing_ends(disk, data, steps);
}

/// Once every step has gone well, the file holds the new data and the temporary
/// file is gone.
pub proof fn law_written_files_hold_the_data(disk: Disk, data: Seq<u8>, steps: nat)
    requires
        written_so_far(disk, data, steps).0 is None,
    ensures
        written_so_far(disk, data, steps).1 == (Disk { file: Some(data), temp: None }),
{
    lemma_written_so_far(disk, data);
    lemma_writing_ends(disk, data, steps);
}

proof fn lemma_written_so_far(disk: Disk, data: Seq<u8>)
    ensures
        written_so_far(disk, data, 0) == (Some(WriteStep::CreateDir), disk),
        written_so_far(disk, data, 1) == (Some(WriteStep::CreateTemp), disk),
        written_so_far(disk, data, 2) == (
            Some(WriteStep::WriteTemp),
            Disk { temp: Some(seq![]), ..disk },
        ),
        written_so_far(disk, data, 3) == (
            Some(WriteStep::FlushTemp),
            Disk { temp: Some(data), ..disk },
        ),
        written_so_far(disk, data, 4) == (
            Some(WriteStep::SyncTemp),
            Disk { temp: Some(data), ..disk },
        ),
        written_so_far(disk, data, 5) == (
            Some(WriteStep::Rename),
            Disk { temp: Some(data), ..disk },
        ),
        written_so_far(disk, data, 6) == (
            None::<WriteStep>,
            Disk { file: Some(data), temp: None },
        ),
{
    reveal_with_fuel(written_so_far, 7);
}

proof fn lemma_writing_ends(disk: Disk, data: Seq<u8>, steps: nat)
    ensures
        steps >= 6 ==> written_so_far(disk, data, steps) == written_so_far(disk, data, 6),
    decreases steps,
{
    lemma_written_so_far(disk, data);
    if steps > 6 {
        lemma_writing_ends(disk, data, (steps - 1) as nat);
    }
}

/// A file is written in six steps, in this order: only the last one touches the
/// file itself.
pub proof fn law_write_order(disk: Disk, data: Seq<u8>)
    ensures
        written_so_far(disk, data, 0).0 == Some(WriteStep::CreateDir),
        write_after(WriteStep::CreateDir) == Some(WriteStep::CreateTemp),
        write_after(WriteStep::CreateTemp) == Some(WriteStep::WriteTemp),
        write_after(WriteStep::WriteTemp) == Some(WriteStep::FlushTemp),
        write_after(WriteStep::FlushTemp) == Some(WriteStep::SyncTemp),
        write_after(WriteStep::SyncTemp) == Some(WriteStep::Rename),
        write_after(WriteStep::Rename) is None,
{
    lemma_written_so_far(disk, data);
}

} // verus!
