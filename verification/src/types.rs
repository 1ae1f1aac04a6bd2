//! Data model of an analysis run: discovered photos, folders, similarity
//! groups, progress events, trash bookkeeping and the error taxonomy.

use vstd::prelude::*;
use vstd::string::StringExecFns;

verus! {

/// One discovered image file, assembled once during collection/extraction
/// and immutable thereafter.
#[derive(Debug)]
pub struct Photo {
    pub id: String,
    pub path: String,
    pub filename: String,
    pub size: u64,
    pub width: u32,
    pub height: u32,
    pub created_at: String,
    pub modified_at: String,
    pub thumbnail_path: Option<String>,
}

impl Clone for Photo {
    fn clone(&self) -> (res: Self)
        ensures
            res == *self,
    {
        Photo {
            id: self.id.clone(),
            path: self.path.clone(),
            filename: self.filename.clone(),
            size: self.size,
            width: self.width,
            height: self.height,
            created_at: self.created_at.clone(),
            modified_at: self.modified_at.clone(),
            thumbnail_path: match &self.thumbnail_path {
                Some(p) => Some(p.clone()),
                None => None,
            },
        }
    }
}

/// A photo together with its optional 64-bit perceptual fingerprint.
/// The fingerprint is absent when the image could not be decoded; such a
/// record can never join a similarity group.
#[derive(Debug)]
pub struct PhotoWithHash {
    pub photo: Photo,
    pub hash: Option<u64>,
}

/// A folder as reported to the caller of a plain scan.
#[derive(Debug)]
pub struct Folder {
    pub path: String,
    pub name: String,
    pub photo_count: Option<u32>,
    pub is_excluded: bool,
}

/// One cluster of mutually similar photos; always holds at least two
/// members. `similarity` is a representative score in permille of 1.0.
#[derive(Debug)]
pub struct SimilarityGroup {
    pub id: String,
    pub photos: Vec<Photo>,
    pub similarity: u32,
}

/// A photo moved to the trash, remembering where it came from.
#[derive(Debug)]
pub struct TrashItem {
    pub id: String,
    pub photo: Photo,
    pub deleted_at: String,
    pub original_path: String,
}

/// One progress event of a running analysis.
#[derive(Debug)]
pub struct AnalysisProgress {
    pub current: u32,
    pub total: u32,
    pub status: String,
    pub estimated_time_remaining: Option<u32>,
}

/// Aggregate size and count of the files held in the trash.
#[derive(Debug)]
pub struct TrashStats {
    pub freed_bytes: u64,
    pub count: u32,
}

/// The error taxonomy of the library. Per-item failures during traversal
/// or extraction are swallowed by the callers; only setup and validation
/// failures are ever surfaced through these variants.
#[derive(Debug)]
pub enum AppError {
    FileNotFound(String),
    PermissionDenied(String),
    AnalysisFailed(String),
    DatabaseError(String),
    SidecarError(String),
    InternalError(String),
}

/// The kinds of input/output failure the error taxonomy distinguishes.
/// The caller reads them off its platform error before handing over.
#[derive(Debug, Clone, Copy, PartialEq, Eq, Structural)]
pub enum IoKind {
    NotFound,
    PermissionDenied,
    Other,
}

/// Maps an input/output failure into the error taxonomy: a missing file
/// or path becomes `FileNotFound`, an unreadable one `PermissionDenied`,
/// and anything else is an internal error.
pub fn app_error_of_io(kind: IoKind, msg: String) -> (e: AppError)
    ensures
        e == (match kind {
            IoKind::NotFound => AppError::FileNotFound(msg),
            IoKind::PermissionDenied => AppError::PermissionDenied(msg),
            IoKind::Other => AppError::InternalError(msg),
        }),
{
    match kind {
        IoKind::NotFound => AppError::FileNotFound(msg),
        IoKind::PermissionDenied => AppError::PermissionDenied(msg),
        IoKind::Other => AppError::InternalError(msg),
    }
}

impl AppError {
    /// The human-readable text of this error.
    pub open spec fn spec_message(self) -> Seq<char> {
        match self {
            AppError::FileNotFound(s) => "File not found: "@ + s@,
            AppError::PermissionDenied(s) => "Permission denied: "@ + s@,
            AppError::AnalysisFailed(s) => "Analysis failed: "@ + s@,
            AppError::DatabaseError(s) => "Database error: "@ + s@,
            AppError::SidecarError(s) => "Sidecar error: "@ + s@,
            AppError::InternalError(s) => "Internal error: "@ + s@,
        }
    }

    pub fn message(&self) -> (m: String)
        ensures
            m@ == self.spec_message(),
    {
        match self {
            AppError::FileNotFound(s) => String::from_str("File not found: ").concat(s.as_str()),
            AppError::PermissionDenied(s) => String::from_str("Permission denied: ").concat(
                s.as_str(),
            ),
            AppError::AnalysisFailed(s) => String::from_str("Analysis failed: ").concat(s.as_str()),
            AppError::DatabaseError(s) => String::from_str("Database error: ").concat(s.as_str()),
            AppError::SidecarError(s) => String::from_str("Sidecar error: ").concat(s.as_str()),
            AppError::InternalError(s) => String::from_str("Internal error: ").concat(s.as_str()),
        }
    }
}

} // verus!
