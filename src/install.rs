//! Deciding how to clear the output folder, and opening the downloaded archive.
use vstd::prelude::*;
use std::io::Cursor;
use zip::result::ZipError;
use zip::ZipArchive;

verus! {

#[verifier::external_type_specification]
#[verifier::external_body]
pub struct ExZipError(ZipError);

#[verifier::external_type_specification]
#[verifier::external_body]
#[verifier::reject_recursive_types(R)]
pub struct ExZipArchive<R>(ZipArchive<R>);

#[verifier::external_type_specification]
#[verifier::external_body]
#[verifier::reject_recursive_types(T)]
pub struct ExCursor<T>(Cursor<T>);

/// What the output path is before a run.
#[derive(PartialEq, Eq, Structural, Clone, Copy, Debug)]
pub enum PathKind {
    Absent,
    Directory,
    File,
    Symlink,
}

/// What to do with the output path before the folder is created afresh.
#[derive(PartialEq, Eq, Structural, Clone, Copy, Debug)]
pub enum ClearAction {
    /// Nothing stands there.
    Nothing,
    /// A folder stands there: remove it with all it holds.
    RemoveDirectory,
}

/// Why the archive was not installed.
#[derive(Debug)]
pub enum InstallError {
    OutputIsFile,
    RemoveFailed(String),
    CreateFailed,
    ArchiveReadFailed(String),
    ExtractFailed(String),
}

/// Decides how to clear the output path. A file or a link there is an error and is left as it
/// is; a folder is removed, so that nothing of an earlier run is kept.
pub fn clear_action(kind: PathKind) -> (r: Result<ClearAction, InstallError>)
    ensures
        (kind is File || kind is Symlink) <==> r == Err::<ClearAction, InstallError>(
            InstallError::OutputIsFile,
        ),
        kind is Directory <==> r == Ok::<ClearAction, InstallError>(ClearAction::RemoveDirectory),
        kind is Absent <==> r == Ok::<ClearAction, InstallError>(ClearAction::Nothing),
{
    match kind {
        PathKind::Absent => Ok(ClearAction::Nothing),
        PathKind::Directory => Ok(ClearAction::RemoveDirectory),
        PathKind::File => Err(InstallError::OutputIsFile),
        PathKind::Symlink => Err(InstallError::OutputIsFile),
    }
}

/// Whether `b` can be read as a zip archive: it holds a central directory that can be parsed.
pub uninterp spec fn zip_readable(b: Seq<u8>) -> bool;

/// Relies on zip::ZipArchive::new over an in-memory cursor: it parses the central directory
/// of the bytes, and fails when they hold none that it can read.
#[verifier::external_body]
fn read_zip(bytes: Vec<u8>) -> (r: Result<ZipArchive<Cursor<Vec<u8>>>, ZipError>)
    ensures
        r is Ok <==> zip_readable(bytes@),
{
    ZipArchive::new(Cursor::new(bytes))
}

/// Opens the downloaded bytes as a zip archive, ready to be extracted.
pub fn open_archive(bytes: Vec<u8>) -> (r: Result<ZipArchive<Cursor<Vec<u8>>>, InstallError>)
    ensures
        r is Ok <==> zip_readable(bytes@),
        r is Err ==> r->Err_0 is ArchiveReadFailed,
{
    match read_zip(bytes) {
        Ok(a) => Ok(a),
        Err(e) => Err(InstallError::ArchiveReadFailed(e.to_string())),
    }
}

impl InstallError {
    /// The text shown to the user for this error.
    pub open spec fn message_spec(&self) -> Seq<char> {
        match self {
            InstallError::OutputIsFile => "Output is not a folder"@,
            InstallError::RemoveFailed(c) => "Can't remove folder. ("@ + c@ + ")"@,
            InstallError::CreateFailed => "Can't create folder"@,
            InstallError::ArchiveReadFailed(c) => "Can't read downloaded file. ("@ + c@ + ")"@,
            InstallError::ExtractFailed(c) => "Can't extract downloaded file ("@ + c@ + ")"@,
        }
    }

    pub fn message(&self) -> (r: String)
        ensures
            r@ == self.message_spec(),
    {
        let (mut m, c) = match self {
            InstallError::OutputIsFile => {
                return String::from_str("Output is not a folder");
            },
            InstallError::CreateFailed => {
                return String::from_str("Can't create folder");
            },
            InstallError::RemoveFailed(c) => (String::from_str("Can't remove folder. ("), c),
            InstallError::ArchiveReadFailed(c) => (String::from_str("Can't read downloaded file. ("), c),
            InstallError::ExtractFailed(c) => (String::from_str("Can't extract downloaded file ("), c),
        };
        m.append(c.as_str());
        m.append(")");
        m
    }
}

} // verus!
