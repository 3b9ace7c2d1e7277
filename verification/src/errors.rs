//! Typed errors for the update engine. I/O failures are carried as plain
//! path and detail strings; fatal errors halt a run, per-item errors are
//! logged and skipped by the executors.

use vstd::prelude::*;
use crate::decimal::spec_dec;

verus! {

/// A file-system operation that failed, with the path it touched and the
/// underlying system detail, both as plain text.
#[derive(Clone, Debug, PartialEq, Eq)]
pub enum IOError {
    Open { path: String, detail: String },
    Seek { path: String, detail: String },
    CreateDir { path: String, detail: String },
    ReadToEnd { path: String, detail: String },
    ReadLine { path: String, detail: String },
    ReadToString { path: String, detail: String },
    WriteAll { path: String, detail: String },
    CurrentDir { detail: String },
    ReadDir { path: String, detail: String },
    ReadDirEntry { path: String, detail: String },
    ReadBuffer { path: String, detail: String },
    CreateFile { path: String, detail: String },
}

impl IOError {
    pub fn open(path: String, detail: String) -> (r: Self)
        ensures
            r == (IOError::Open { path, detail }),
    {
        IOError::Open { path, detail }
    }

    pub fn seek(path: String, detail: String) -> (r: Self)
        ensures
            r == (IOError::Seek { path, detail }),
    {
        IOError::Seek { path, detail }
    }

    pub fn create_dir(path: String, detail: String) -> (r: Self)
        ensures
            r == (IOError::CreateDir { path, detail }),
    {
        IOError::CreateDir { path, detail }
    }

    pub fn read_to_end(path: String, detail: String) -> (r: Self)
        ensures
            r == (IOError::ReadToEnd { path, detail }),
    {
        IOError::ReadToEnd { path, detail }
    }

    pub fn read_line(path: String, detail: String) -> (r: Self)
        ensures
            r == (IOError::ReadLine { path, detail }),
    {
        IOError::ReadLine { path, detail }
    }

    pub fn read_to_string(path: String, detail: String) -> (r: Self)
        ensures
            r == (IOError::ReadToString { path, detail }),
    {
        IOError::ReadToString { path, detail }
    }

    pub fn write_all(path: String, detail: String) -> (r: Self)
        ensures
            r == (IOError::WriteAll { path, detail }),
    {
        IOError::WriteAll { path, detail }
    }

    pub fn current_dir(detail: String) -> (r: Self)
        ensures
            r == (IOError::CurrentDir { detail }),
    {
        IOError::CurrentDir { detail }
    }

    pub fn read_dir(path: String, detail: String) -> (r: Self)
        ensures
            r == (IOError::ReadDir { path, detail }),
    {
        IOError::ReadDir { path, detail }
    }

    pub fn read_dir_entry(path: String, detail: String) -> (r: Self)
        ensures
            r == (IOError::ReadDirEntry { path, detail }),
    {
        IOError::ReadDirEntry { path, detail }
    }

    pub fn read_buffer(path: String, detail: String) -> (r: Self)
        ensures
            r == (IOError::ReadBuffer { path, detail }),
    {
        IOError::ReadBuffer { path, detail }
    }

    pub fn create_file(path: String, detail: String) -> (r: Self)
        ensures
            r == (IOError::CreateFile { path, detail }),
    {
        IOError::CreateFile { path, detail }
    }
}

/// Failure to process the deletion list; individual file removals that fail
/// are logged by the caller, never raised through this type.
#[derive(Clone, Debug, PartialEq, Eq)]
pub enum DeleteFileError {
    NotFound(String),
    Io(IOError),
}

/// Failure to load or apply a diff map.
#[derive(Clone, Debug, PartialEq, Eq)]
pub enum PatchError {
    Json,
    NotFound(String),
    Io(IOError),
}

/// Pre-patch integrity check failure: the file on disk does not match the
/// diff entry's declared pre-image.
#[derive(Clone, Debug, PartialEq, Eq)]
pub enum VerifyError {
    FileSizeMismatchError { expected: u64, got: u64, file_name: String },
    Md5MismatchError { expected: String, got: String, file_name: String },
    Io(IOError),
    Json,
}

/// Failure of the external archive tool.
#[derive(Clone, Debug, PartialEq, Eq)]
pub enum SevenZipError {
    CommandError(String),
    ExtractionFailed(String),
    EmbeddedExtractionFailed(String),
}

/// Top-level fatal errors that stop an update run.
#[derive(Clone, Debug, PartialEq, Eq)]
pub enum AppError {
    DeleteFileError(DeleteFileError),
    PatchError(PatchError),
    SevenError(SevenZipError),
    VerifyError(VerifyError),
    Io(IOError),
    GameNotFound(String),
    /// No archives and no legacy update markers in the install root.
    ArchiveNotFound,
    /// Both a chunk manifest and a diff map are present: ambiguous source.
    AmbiguousUpdateSource,
    /// No candidate package directly follows the client version.
    InvalidHdiffVersion(String, String),
    VersionParse,
}

/// The user-facing description of one I/O failure.
pub open spec fn spec_io_message(e: IOError) -> Seq<char> {
    match e {
        IOError::Open { path, detail } => "Failed to open file '"@ + path@ + "': "@ + detail@,
        IOError::Seek { path, detail } => "Failed to seek in file '"@ + path@ + "': "@ + detail@,
        IOError::CreateDir { path, detail } => "Failed to create directory '"@ + path@ + "': "@
            + detail@,
        IOError::ReadToEnd { path, detail } => "Failed to read entire file '"@ + path@ + "': "@
            + detail@,
        IOError::ReadLine { path, detail } => "Failed to read line from file '"@ + path@ + "': "@
            + detail@,
        IOError::ReadToString { path, detail } => "Failed to read file '"@ + path@
            + "' to string: "@ + detail@,
        IOError::WriteAll { path, detail } => "Failed to write to file '"@ + path@ + "': "@
            + detail@,
        IOError::CurrentDir { detail } => "Failed to get current directory: "@ + detail@,
        IOError::ReadDir { path, detail } => "Failed to read directory '"@ + path@ + "': "@
            + detail@,
        IOError::ReadDirEntry { path, detail } => "Failed to read directory entry in '"@ + path@
            + "': "@ + detail@,
        IOError::ReadBuffer { path, detail } => "Failed to read buffer from file '"@ + path@
            + "': "@ + detail@,
        IOError::CreateFile { path, detail } => "Failed to create file '"@ + path@ + "': "@
            + detail@,
    }
}

impl IOError {
    /// Renders the failure for the terminal.
    pub fn message(&self) -> (r: String)
        ensures
            r@ == spec_io_message(*self),
    {
        let mut s = String::new();
        match self {
            IOError::Open { path, detail } => {
                s.append("Failed to open file '");
                s.append(path.as_str());
                s.append("': ");
                s.append(detail.as_str());
            },
            IOError::Seek { path, detail } => {
                s.append("Failed to seek in file '");
                s.append(path.as_str());
                s.append("': ");
                s.append(detail.as_str());
            },
            IOError::CreateDir { path, detail } => {
                s.append("Failed to create directory '");
                s.append(path.as_str());
                s.append("': ");
                s.append(detail.as_str());
            },
            IOError::ReadToEnd { path, detail } => {
                s.append("Failed to read entire file '");
                s.append(path.as_str());
                s.append("': ");
                s.append(detail.as_str());
            },
            IOError::ReadLine { path, detail } => {
                s.append("Failed to read line from file '");
                s.append(path.as_str());
                s.append("': ");
                s.append(detail.as_str());
            },
            IOError::ReadToString { path, detail } => {
                s.append("Failed to read file '");
                s.append(path.as_str());
                s.append("' to string: ");
                s.append(detail.as_str());
            },
            IOError::WriteAll { path, detail } => {
                s.append("Failed to write to file '");
                s.append(path.as_str());
                s.append("': ");
                s.append(detail.as_str());
            },
            IOError::CurrentDir { detail } => {
                s.append("Failed to get current directory: ");
                s.append(detail.as_str());
            },
            IOError::ReadDir { path, detail } => {
                s.append("Failed to read directory '");
                s.append(path.as_str());
                s.append("': ");
                s.append(detail.as_str());
            },
            IOError::ReadDirEntry { path, detail } => {
                s.append("Failed to read directory entry in '");
                s.append(path.as_str());
                s.append("': ");
                s.append(detail.as_str());
            },
            IOError::ReadBuffer { path, detail } => {
                s.append("Failed to read buffer from file '");
                s.append(path.as_str());
                s.append("': ");
                s.append(detail.as_str());
            },
            IOError::CreateFile { path, detail } => {
                s.append("Failed to create file '");
                s.append(path.as_str());
                s.append("': ");
                s.append(detail.as_str());
            },
        }
        proof {
            assert(s@ =~= spec_io_message(*self));
        }
        s
    }
}

/// The user-facing description of one integrity failure, with the expected
/// and actual values and the file they belong to.
pub open spec fn spec_verify_message(e: VerifyError) -> Seq<char> {
    match e {
        VerifyError::FileSizeMismatchError { expected, got, file_name } => {
            "File size mismatch expected `"@ + spec_dec(expected as nat) + "` bytes got `"@
                + spec_dec(got as nat) + "` bytes in `"@ + file_name@
                + "`. Client might be corrupted or used incompatible hdiff"@
        },
        VerifyError::Md5MismatchError { expected, got, file_name } => {
            "MD5 mismatch expected `"@ + expected@ + "` got `"@ + got@ + "` in `"@ + file_name@
                + "`. Client might be corrupted or used incompatible hdiff"@
        },
        VerifyError::Io(io) => spec_io_message(io),
        VerifyError::Json => "hdiffmap.json structure changed!"@,
    }
}

impl VerifyError {
    /// Renders the failure for the terminal.
    pub fn message(&self) -> (r: String)
        ensures
            r@ == spec_verify_message(*self),
    {
        match self {
            VerifyError::FileSizeMismatchError { expected, got, file_name } => {
                let mut s = String::new();
                s.append("File size mismatch expected `");
                let e = crate::decimal::u64_to_string(*expected);
                s.append(e.as_str());
                s.append("` bytes got `");
                let g = crate::decimal::u64_to_string(*got);
                s.append(g.as_str());
                s.append("` bytes in `");
                s.append(file_name.as_str());
                s.append("`. Client might be corrupted or used incompatible hdiff");
                proof {
                    assert(s@ =~= spec_verify_message(*self));
                }
                s
            },
            VerifyError::Md5MismatchError { expected, got, file_name } => {
                let mut s = String::new();
                s.append("MD5 mismatch expected `");
                s.append(expected.as_str());
                s.append("` got `");
                s.append(got.as_str());
                s.append("` in `");
                s.append(file_name.as_str());
                s.append("`. Client might be corrupted or used incompatible hdiff");
                proof {
                    assert(s@ =~= spec_verify_message(*self));
                }
                s
            },
            VerifyError::Io(io) => io.message(),
            VerifyError::Json => {
                let mut s = String::new();
                s.append("hdiffmap.json structure changed!");
                proof {
                    assert(s@ =~= spec_verify_message(*self));
                }
                s
            },
        }
    }
}

/// The user-facing description of one diff-map failure.
pub open spec fn spec_patch_message(e: PatchError) -> Seq<char> {
    match e {
        PatchError::Json => "hdiffmap.json structure changed!"@,
        PatchError::NotFound(path) => path@ + " doesn't exist, skipping"@,
        PatchError::Io(io) => spec_io_message(io),
    }
}

impl PatchError {
    /// Renders the failure for the terminal.
    pub fn message(&self) -> (r: String)
        ensures
            r@ == spec_patch_message(*self),
    {
        match self {
            PatchError::Json => {
                let mut s = String::new();
                s.append("hdiffmap.json structure changed!");
                proof {
                    assert(s@ =~= spec_patch_message(*self));
                }
                s
            },
            PatchError::NotFound(path) => {
                let mut s = path.clone();
                s.append(" doesn't exist, skipping");
                proof {
                    assert(s@ =~= spec_patch_message(*self));
                }
                s
            },
            PatchError::Io(io) => io.message(),
        }
    }
}

/// The user-facing description of a top-level failure.
pub open spec fn spec_app_message(e: AppError) -> Seq<char> {
    match e {
        AppError::DeleteFileError(DeleteFileError::NotFound(path)) => path@
            + " doesn't exist, skipping"@,
        AppError::DeleteFileError(DeleteFileError::Io(io)) => spec_io_message(io),
        AppError::PatchError(p) => spec_patch_message(p),
        AppError::SevenError(SevenZipError::CommandError(d)) => "7-zip failed to run: "@ + d@,
        AppError::SevenError(SevenZipError::ExtractionFailed(d)) => "7-zip extraction failed: '"@
            + d@ + "'"@,
        AppError::SevenError(SevenZipError::EmbeddedExtractionFailed(d)) => {
            "7-zip tool extraction failed: "@ + d@
        },
        AppError::VerifyError(v) => spec_verify_message(v),
        AppError::Io(io) => spec_io_message(io),
        AppError::GameNotFound(path) => "StarRail.exe not found in: "@ + path@,
        AppError::ArchiveNotFound => "Update files/archives not found in the client directory!"@,
        AppError::AmbiguousUpdateSource => {
            "Detected hdiff and ldiff files in the same place cannot proceed!"@
        },
        AppError::InvalidHdiffVersion(from, to) => {
            "Incompatible hdiff version: cannot update client from "@ + from@ + " to "@ + to@
        },
        AppError::VersionParse => "Failed to parse the client version"@,
    }
}

impl AppError {
    /// Renders the failure for the terminal.
    pub fn message(&self) -> (r: String)
        ensures
            r@ == spec_app_message(*self),
    {
        match self {
            AppError::DeleteFileError(DeleteFileError::NotFound(path)) => {
                let mut s = path.clone();
                s.append(" doesn't exist, skipping");
                proof {
                    assert(s@ =~= spec_app_message(*self));
                }
                s
            },
            AppError::DeleteFileError(DeleteFileError::Io(io)) => io.message(),
            AppError::PatchError(p) => p.message(),
            AppError::SevenError(SevenZipError::CommandError(d)) => {
                let mut s = String::new();
                s.append("7-zip failed to run: ");
                s.append(d.as_str());
                proof {
                    assert(s@ =~= spec_app_message(*self));
                }
                s
            },
            AppError::SevenError(SevenZipError::ExtractionFailed(d)) => {
                let mut s = String::new();
                s.append("7-zip extraction failed: '");
                s.append(d.as_str());
                s.append("'");
                proof {
                    assert(s@ =~= spec_app_message(*self));
                }
                s
            },
            AppError::SevenError(SevenZipError::EmbeddedExtractionFailed(d)) => {
                let mut s = String::new();
                s.append("7-zip tool extraction failed: ");
                s.append(d.as_str());
                proof {
                    assert(s@ =~= spec_app_message(*self));
                }
                s
            },
            AppError::VerifyError(v) => v.message(),
            AppError::Io(io) => io.message(),
            AppError::GameNotFound(path) => {
                let mut s = String::new();
                s.append("StarRail.exe not found in: ");
                s.append(path.as_str());
                proof {
                    assert(s@ =~= spec_app_message(*self));
                }
                s
            },
            AppError::ArchiveNotFound => {
                let mut s = String::new();
                s.append("Update files/archives not found in the client directory!");
                proof {
                    assert(s@ =~= spec_app_message(*self));
                }
                s
            },
            AppError::AmbiguousUpdateSource => {
                let mut s = String::new();
                s.append("Detected hdiff and ldiff files in the same place cannot proceed!");
                proof {
                    assert(s@ =~= spec_app_message(*self));
                }
                s
            },
            AppError::InvalidHdiffVersion(from, to) => {
                let mut s = String::new();
                s.append("Incompatible hdiff version: cannot update client from ");
                s.append(from.as_str());
                s.append(" to ");
                s.append(to.as_str());
                proof {
                    assert(s@ =~= spec_app_message(*self));
                }
                s
            },
            AppError::VersionParse => {
                let mut s = String::new();
                s.append("Failed to parse the client version");
                proof {
                    assert(s@ =~= spec_app_message(*self));
                }
                s
            },
        }
    }
}

} // verus!
