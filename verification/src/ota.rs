//! Firmware-update decisions.
//!
//! Downloading and flashing the image belong to the runtime glue; this
//! module owns the decisions: whether a download response may be
//! streamed to the inactive firmware slot at all, and when the streamed
//! byte count completes the image. The glue sets the device status to
//! `Ota` for the duration and restores `Idle` on failure.

use vstd::prelude::*;

verus! {

/// Why a firmware image was refused.
#[derive(Clone, Copy, Debug, PartialEq, Eq, Structural)]
pub enum OtaError {
    /// The download did not answer with HTTP success.
    BadStatus,
    /// The advertised image is too small to be a firmware image.
    TooSmall,
    /// The advertised image exceeds the firmware slot.
    TooLarge,
}

/// The advertised image size: a missing content length counts as zero
/// (and is therefore refused as too small).
pub open spec fn spec_advertised_size(content_len: Option<u64>) -> u64 {
    match content_len {
        Some(n) => n,
        None => 0,
    }
}

/// Decides whether a download response may be flashed: the HTTP status
/// must be 200 and the advertised size must lie in `(min_size,
/// max_size]`. Returns the size to stream on success.
pub fn validate_image(status: u16, content_len: Option<u64>, min_size: u64, max_size: u64) -> (r:
    Result<u64, OtaError>)
    ensures
        status != 200 ==> r == Err::<u64, OtaError>(OtaError::BadStatus),
        status == 200 ==> ({
            let size = spec_advertised_size(content_len);
            if size <= min_size {
                r == Err::<u64, OtaError>(OtaError::TooSmall)
            } else if size > max_size {
                r == Err::<u64, OtaError>(OtaError::TooLarge)
            } else {
                r == Ok::<u64, OtaError>(size)
            }
        }),
{
    if status != 200 {
        return Err(OtaError::BadStatus);
    }
    let size = match content_len {
        Some(n) => n,
        None => 0,
    };
    if size <= min_size {
        Err(OtaError::TooSmall)
    } else if size > max_size {
        Err(OtaError::TooLarge)
    } else {
        Ok(size)
    }
}

/// Tracks one streamed firmware transfer: how much of the advertised
/// image has been written so far.
pub struct OtaTransfer {
    pub file_size: u64,
    pub total: u64,
}

impl OtaTransfer {
    /// The transfer is complete once the whole advertised size has been
    /// written.
    pub open spec fn spec_complete(self) -> bool {
        self.total >= self.file_size
    }

    /// Starts a transfer of an image of `file_size` bytes.
    pub fn begin(file_size: u64) -> (t: OtaTransfer)
        ensures
            t.file_size == file_size,
            t.total == 0,
    {
        OtaTransfer { file_size, total: 0 }
    }

    /// Accounts one written chunk of `n` bytes (saturating at the
    /// counter's range) and says whether the image is now complete.
    pub fn on_chunk(&mut self, n: u64) -> (done: bool)
        ensures
            final(self).file_size == old(self).file_size,
            final(self).total == (if old(self).total + n > u64::MAX {
                u64::MAX
            } else {
                (old(self).total + n) as u64
            }),
            done <==> final(self).spec_complete(),
    {
        self.total = self.total.saturating_add(n);
        self.total >= self.file_size
    }

    /// Whether the whole advertised image has been written; a transfer
    /// that ends before this point is truncated and must be aborted.
    pub fn is_complete(&self) -> (r: bool)
        ensures
            r == self.spec_complete(),
    {
        self.total >= self.file_size
    }

    /// How many bytes have been written so far.
    pub fn received(&self) -> (r: u64)
        ensures
            r == self.total,
    {
        self.total
    }
}

} // verus!
