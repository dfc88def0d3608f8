use vstd::prelude::*;
use crate::download::{CompletedDownload, DownloadError, DownloadFailure};
use crate::extract::{extraction_plan, extraction_fails, extraction_succeeds, ExtractError, FsAction};

verus! {

/// The first failure of a whole fetch-and-install operation.
#[derive(Clone, Copy, PartialEq, Eq, Structural, Debug)]
pub enum OperationError {
    /// The download failed; nothing was extracted.
    Download(DownloadError),
    /// The download completed but its buffer could not be extracted.
    Extract(ExtractError),
}

/// The decision the operation makes once the download is over: a failed
/// download fails the whole operation with its error and nothing is
/// extracted; a completed one hands its bytes to the extractor, whose outcome
/// is propagated rather than swallowed.
pub fn plan_installation(download: Result<CompletedDownload, DownloadFailure>) -> (r: Result<
    Vec<FsAction>,
    OperationError,
>)
    ensures
        match download {
            Ok(c) => match r {
                Ok(plan) => extraction_succeeds(c.bytes@, plan@),
                Err(err) => {
                    &&& err matches OperationError::Extract(e) && extraction_fails(c.bytes@, e)
                },
            },
            Err(f) => r == Err::<Vec<FsAction>, OperationError>(OperationError::Download(f.error)),
        },
{
    match download {
        Ok(c) => match extraction_plan(c.bytes) {
            Ok(plan) => Ok(plan),
            Err(e) => Err(OperationError::Extract(e)),
        },
        Err(f) => Err(OperationError::Download(f.error)),
    }
}

} // verus!
