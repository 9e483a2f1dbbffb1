//! The clipboard: which commands serve it, and the steps of a copy that gives the
//! previous text back.
use vstd::prelude::*;

use crate::error::ComlinkError;
use crate::paths::{component_count, path_keys};
use crate::strings::{cat2, cat4, lossy_text, str_trim, text_lossy, trim};

verus! {

/// What is known of a clipboard command.
#[derive(Debug, PartialEq, Eq)]
pub enum ClipboardCommandState {
    Found(String),
    Missing(String),
    NotExecutable(String),
}

impl ClipboardCommandState {
    /// Whether it can be used.
    pub fn is_ok(&self) -> (r: bool)
        ensures
            r == (self is Found),
    {
        match self {
            ClipboardCommandState::Found(_) => true,
            _ => false,
        }
    }

    /// The command or its path.
    pub open spec fn command(self) -> String {
        match self {
            ClipboardCommandState::Found(p)
            | ClipboardCommandState::Missing(p)
            | ClipboardCommandState::NotExecutable(p) => p,
        }
    }

    /// The command or its path.
    pub fn path(&self) -> (r: &String)
        ensures
            *r == self.command(),
    {
        match self {
            ClipboardCommandState::Found(p)
            | ClipboardCommandState::Missing(p)
            | ClipboardCommandState::NotExecutable(p) => p,
        }
    }
}

/// What is known of both clipboard commands.
#[derive(Debug, PartialEq, Eq)]
pub struct ClipboardReport {
    pub copy: ClipboardCommandState,
    pub read: ClipboardCommandState,
}

/// The command to use: the one that the environment names, else the usual one.
pub fn command_or(named: Option<String>, usual: &str) -> (r: String)
    ensures
        r@ == match named {
            Some(c) => c@,
            None => usual@,
        },
{
    match named {
        Some(c) => c,
        None => usual.to_owned(),
    }
}

/// The state of a command: one without a directory is looked up on `PATH`, any
/// other has to be a file that can be run.
pub fn inspect_command(
    command: String,
    on_path: Option<String>,
    executable: bool,
    present: bool,
) -> (r: ClipboardCommandState)
    ensures
        r == if path_keys(command@).len() == 1 {
            match on_path {
                Some(p) => ClipboardCommandState::Found(p),
                None => ClipboardCommandState::Missing(command),
            }
        } else if executable {
            ClipboardCommandState::Found(command)
        } else if present {
            ClipboardCommandState::NotExecutable(command)
        } else {
            ClipboardCommandState::Missing(command)
        },
{
    if component_count(&command) == 1 {
        match on_path {
            Some(p) => ClipboardCommandState::Found(p),
            None => ClipboardCommandState::Missing(command),
        }
    } else if executable {
        ClipboardCommandState::Found(command)
    } else if present {
        ClipboardCommandState::NotExecutable(command)
    } else {
        ClipboardCommandState::Missing(command)
    }
}

/// How a text is copied.
#[derive(Debug, Clone, Copy, PartialEq, Eq, Structural)]
pub struct CopyOptions {
    /// Whether the clipboard gets its previous text back.
    pub restore_previous: bool,
}

impl Default for CopyOptions {
    fn default() -> (r: Self)
        ensures
            !r.restore_previous,
    {
        CopyOptions { restore_previous: false }
    }
}

/// What a copy did.
#[derive(Debug, Clone, Copy, PartialEq, Eq, Structural)]
pub struct CopyResult {
    pub restored_previous: bool,
}

/// What a copy does next.
#[derive(Debug)]
pub enum CopyStep {
    /// Read the clipboard.
    Read,
    /// Write the new text; afterwards the previous one is due where it is given.
    Write(Option<String>),
    /// Write the previous text.
    Restore(String),
    /// The copy is done.
    Done(CopyResult),
    /// The copy has failed.
    Fail(ComlinkError),
}

/// A copy starts by reading what it has to give back.
pub fn copy_start(options: CopyOptions) -> (r: CopyStep)
    ensures
        if options.restore_previous {
            r is Read
        } else {
            r == CopyStep::Write(None)
        },
{
    if options.restore_previous {
        CopyStep::Read
    } else {
        CopyStep::Write(None)
    }
}

/// After the clipboard was read the new text is written; where it cannot be read
/// nothing is written at all.
pub fn copy_after_read(read: Result<String, ComlinkError>) -> (r: CopyStep)
    ensures
        match read {
            Ok(previous) => r == CopyStep::Write(Some(previous)),
            Err(e) => r matches CopyStep::Fail(ComlinkError::ClipboardFailed(m)) && m@
                == "cannot restore clipboard because current clipboard could not be read: "@
                + e.text(),
        },
{
    match read {
        Ok(previous) => CopyStep::Write(Some(previous)),
        Err(e) => CopyStep::Fail(
            ComlinkError::ClipboardFailed(
                cat2(
                    "cannot restore clipboard because current clipboard could not be read: ",
                    &e.message(),
                ),
            ),
        ),
    }
}

/// After the new text was written the previous one is given back, where it is
/// due.
pub fn copy_after_write(previous: Option<String>, written: Result<(), ComlinkError>) -> (r:
    CopyStep)
    ensures
        match written {
            Err(e) => r == CopyStep::Fail(e),
            Ok(_) => match previous {
                Some(p) => r == CopyStep::Restore(p),
                None => r == CopyStep::Done(CopyResult { restored_previous: false }),
            },
        },
{
    match written {
        Err(e) => CopyStep::Fail(e),
        Ok(_) => match previous {
            Some(p) => CopyStep::Restore(p),
            None => CopyStep::Done(CopyResult { restored_previous: false }),
        },
    }
}

/// After the previous text was written back the copy is done.
pub fn copy_after_restore(written: Result<(), ComlinkError>) -> (r: CopyStep)
    ensures
        match written {
            Ok(_) => r == CopyStep::Done(CopyResult { restored_previous: true }),
            Err(e) => r matches CopyStep::Fail(ComlinkError::ClipboardFailed(m)) && m@
                == "copied final text but failed to restore previous clipboard: "@ + e.text(),
        },
{
    match written {
        Ok(_) => CopyStep::Done(CopyResult { restored_previous: true }),
        Err(e) => CopyStep::Fail(
            ComlinkError::ClipboardFailed(
                cat2(
                    "copied final text but failed to restore previous clipboard: ",
                    &e.message(),
                ),
            ),
        ),
    }
}

/// What a failed command said, or a text in place of nothing.
pub open spec fn said_or(stderr: Seq<u8>, otherwise: Seq<char>) -> Seq<char> {
    let t = trim(lossy_text(stderr));
    if t.len() == 0 {
        otherwise
    } else {
        t
    }
}

/// The outcome of a command that writes the clipboard.
pub fn write_outcome(success: bool, stderr: &[u8]) -> (r: Result<(), ComlinkError>)
    ensures
        if success {
            r is Ok
        } else {
            r matches Err(ComlinkError::ClipboardFailed(m)) && m@ == said_or(
                stderr@,
                "clipboard command exited unsuccessfully"@,
            )
        },
{
    if success {
        return Ok(());
    }
    let t = str_trim(&text_lossy(stderr));
    Err(
        ComlinkError::ClipboardFailed(
            if t.as_str().is_empty() {
                "clipboard command exited unsuccessfully".to_owned()
            } else {
                t
            },
        ),
    )
}

/// The outcome of a command that reads the clipboard.
pub fn read_outcome(success: bool, command: &str, stdout: &[u8], stderr: &[u8]) -> (r: Result<
    String,
    ComlinkError,
>)
    ensures
        if success {
            r matches Ok(t) && t@ == lossy_text(stdout@)
        } else {
            r matches Err(ComlinkError::ClipboardFailed(m)) && m@ == said_or(
                stderr@,
                command@ + " exited unsuccessfully"@,
            )
        },
{
    if success {
        return Ok(text_lossy(stdout));
    }
    let t = str_trim(&text_lossy(stderr));
    Err(
        ComlinkError::ClipboardFailed(
            if t.as_str().is_empty() {
                cat2(command, " exited unsuccessfully")
            } else {
                t
            },
        ),
    )
}

/// The failure of a command that could not be started.
pub fn start_failure(command: &str, error: &str) -> (r: ComlinkError)
    ensures
        r matches ComlinkError::ClipboardFailed(m) && m@ == "failed to start "@ + command@ + ": "@
            + error@,
{
    ComlinkError::ClipboardFailed(cat4("failed to start ", command, ": ", error))
}

/// What a failed command said is told, without the white space round it, and another text
/// just where it said nothing.
pub proof fn law_what_a_command_said(stderr: Seq<u8>, otherwise: Seq<char>)
    ensures
        trim(lossy_text(stderr)).len() > 0 ==> said_or(stderr, otherwise) == trim(
            lossy_text(stderr),
        ),
        trim(lossy_text(stderr)).len() == 0 ==> said_or(stderr, otherwise) == otherwise,
{
}

} // verus!
