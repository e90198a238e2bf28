//! Following a download: which requests are admitted, what a response must
//! declare, how far the transfer has come, and which failure ends it.
//!
//! The transfer itself is the caller's work. It hands in what the server
//! answered, whether the destination file could be created, and what
//! became of each chunk, and reports the position that comes back.

use vstd::prelude::*;
use vstd::string::*;

verus! {

/// A downloaded archive: where it came from, where it lies, and how long
/// the server declared it to be.
#[derive(Debug, Clone, PartialEq, Eq)]
pub struct DownloadArtifact {
    pub url: String,
    pub destination: String,
    pub length: u64,
}

/// The head of a response: its status, and the content length where the
/// response declares one.
#[derive(Debug, Clone, Copy, PartialEq, Eq)]
pub struct ResponseHead {
    pub status: u16,
    pub content_length: Option<u64>,
}

/// What became of one chunk of the response body.
#[derive(Debug, Clone, Copy, PartialEq, Eq)]
pub enum Chunk {
    /// A chunk of `len` bytes arrived and was written to the destination.
    Written { len: usize },
    /// The response broke off before the chunk arrived.
    Lost,
    /// The chunk arrived but could not be written to the destination.
    NotWritten,
}

/// Why a download failed.
#[derive(Debug, Clone, PartialEq, Eq)]
pub enum DownloadError {
    /// The address is not an `https` address.
    InsecureUrl { url: String },
    /// The request failed, or the server answered with a status that is
    /// no success.
    RequestFailed { url: String },
    /// The response declares no content length.
    MissingContentLength { url: String },
    /// The destination file could not be created.
    CannotCreateFile { path: String },
    /// The response broke off.
    StreamInterrupted,
    /// A chunk could not be written to the destination file.
    WriteFailed,
}

/// A download under way.
#[derive(Debug, Clone, PartialEq, Eq)]
pub struct Download {
    pub artifact: DownloadArtifact,
    /// The number of bytes reported as transferred; never more than the
    /// declared length.
    pub transferred: u64,
}

/// Whether `url` begins with the scheme `https://`, in any case of
/// letters.
pub open spec fn is_https(url: Seq<char>) -> bool {
    &&& url.len() >= 8
    &&& (url[0] == 'h' || url[0] == 'H')
    &&& (url[1] == 't' || url[1] == 'T')
    &&& (url[2] == 't' || url[2] == 'T')
    &&& (url[3] == 'p' || url[3] == 'P')
    &&& (url[4] == 's' || url[4] == 'S')
    &&& url[5] == ':'
    &&& url[6] == '/'
    &&& url[7] == '/'
}

/// Whether `url` may be requested: only `https` addresses are.
pub fn is_https_url(url: &str) -> (r: bool)
    ensures
        r == is_https(url@),
{
    if url.unicode_len() < 8 {
        return false;
    }
    let h = url.get_char(0);
    let t1 = url.get_char(1);
    let t2 = url.get_char(2);
    let p = url.get_char(3);
    let s = url.get_char(4);
    (h == 'h' || h == 'H') && (t1 == 't' || t1 == 'T') && (t2 == 't' || t2 == 'T') && (p == 'p'
        || p == 'P') && (s == 's' || s == 'S') && url.get_char(5) == ':' && url.get_char(6) == '/'
        && url.get_char(7) == '/'
}

/// A status that tells success: 200 to 299.
pub open spec fn is_success(status: u16) -> bool {
    200 <= status < 300
}

/// Whether `status` tells success.
pub fn status_is_success(status: u16) -> (r: bool)
    ensures
        r == is_success(status),
{
    200 <= status && status < 300
}

/// Whether a response is one whose body may be taken: it arrived, and
/// with a status that tells success.
pub open spec fn answered(response: Result<ResponseHead, String>) -> bool {
    response matches Ok(head) && is_success(head.status)
}

/// The position after a chunk of `chunk` bytes: the sum, held at the
/// declared length.
pub open spec fn advanced(transferred: int, chunk: int, length: int) -> int {
    if transferred + chunk <= length {
        transferred + chunk
    } else {
        length
    }
}

impl Download {
    /// The invariant of a download: the position is within the length.
    pub open spec fn well_formed(&self) -> bool {
        self.transferred <= self.artifact.length
    }

    /// Starts to follow the download of `url` into `destination`, once the
    /// request has been answered. `response` is the head of the response,
    /// or the reason why there is none.
    ///
    /// An address that is not `https` is refused. A request that failed,
    /// or was answered with a status that is no success, has failed: its
    /// body is never taken for the archive. A response without a length is
    /// refused, since progress cannot be told without one.
    pub fn begin(url: &str, destination: &str, response: Result<ResponseHead, String>) -> (r:
        Result<Download, DownloadError>)
        ensures
            r is Ok <==> is_https(url@) && answered(response) && response->Ok_0.content_length
                is Some,
            r matches Ok(d) ==> {
                &&& d.well_formed()
                &&& d.transferred == 0
                &&& d.artifact.url@ == url@
                &&& d.artifact.destination@ == destination@
                &&& Some(d.artifact.length) == response->Ok_0.content_length
            },
            r matches Err(e) ==> if !is_https(url@) {
                e matches DownloadError::InsecureUrl { url: u } && u@ == url@
            } else if !answered(response) {
                e matches DownloadError::RequestFailed { url: u } && u@ == url@
            } else {
                e matches DownloadError::MissingContentLength { url: u } && u@ == url@
            },
    {
        if !is_https_url(url) {
            return Err(DownloadError::InsecureUrl { url: url.to_owned() });
        }
        let head = match response {
            Err(_) => {
                return Err(DownloadError::RequestFailed { url: url.to_owned() });
            },
            Ok(head) => head,
        };
        if !status_is_success(head.status) {
            return Err(DownloadError::RequestFailed { url: url.to_owned() });
        }
        match head.content_length {
            None => Err(DownloadError::MissingContentLength { url: url.to_owned() }),
            Some(length) => Ok(
                Download {
                    artifact: DownloadArtifact {
                        url: url.to_owned(),
                        destination: destination.to_owned(),
                        length,
                    },
                    transferred: 0,
                },
            ),
        }
    }

    /// Tells whether the download can go on once the caller has tried to
    /// create the destination file: it has failed where the file could not
    /// be created.
    pub fn destination_opened(&self, created: bool) -> (r: Result<(), DownloadError>)
        ensures
            r is Ok <==> created,
            r matches Err(e) ==> e matches DownloadError::CannotCreateFile { path }
                && path@ == self.artifact.destination@,
    {
        if created {
            Ok(())
        } else {
            Err(DownloadError::CannotCreateFile { path: self.artifact.destination.clone() })
        }
    }

    /// Records what became of one chunk. For a chunk that was written the
    /// new position comes back: it never decreases and never passes the
    /// declared length. A chunk that was lost or not written ends the
    /// download, and the position stays.
    pub fn record_chunk(&mut self, chunk: Chunk) -> (r: Result<u64, DownloadError>)
        requires
            old(self).well_formed(),
        ensures
            final(self).well_formed(),
            final(self).artifact == old(self).artifact,
            final(self).transferred >= old(self).transferred,
            match chunk {
                Chunk::Written { len } => {
                    &&& r == Ok::<u64, DownloadError>(final(self).transferred)
                    &&& final(self).transferred == advanced(
                        old(self).transferred as int,
                        len as int,
                        old(self).artifact.length as int,
                    )
                },
                Chunk::Lost => {
                    &&& r == Err::<u64, DownloadError>(DownloadError::StreamInterrupted)
                    &&& final(self).transferred == old(self).transferred
                },
                Chunk::NotWritten => {
                    &&& r == Err::<u64, DownloadError>(DownloadError::WriteFailed)
                    &&& final(self).transferred == old(self).transferred
                },
            },
    {
        match chunk {
            Chunk::Lost => Err(DownloadError::StreamInterrupted),
            Chunk::NotWritten => Err(DownloadError::WriteFailed),
            Chunk::Written { len } => {
                let room: u64 = self.artifact.length - self.transferred;
                let size: u64 = len as u64;
                if size <= room {
                    self.transferred = self.transferred + size;
                } else {
                    self.transferred = self.artifact.length;
                }
                Ok(self.transferred)
            },
        }
    }

    /// Whether the whole declared length has been transferred.
    pub fn is_complete(&self) -> (r: bool)
        ensures
            r == (self.transferred == self.artifact.length),
    {
        self.transferred == self.artifact.length
    }

    /// Ends the download and hands out the artifact.
    pub fn finish(self) -> (artifact: DownloadArtifact)
        ensures
            artifact == self.artifact,
    {
        self.artifact
    }
}

impl DownloadError {
    /// The text of the message for this error.
    pub open spec fn message_text(self) -> Seq<char> {
        match self {
            DownloadError::InsecureUrl { url } => "Refused to GET from '"@ + url@
                + "': not an https address"@,
            DownloadError::RequestFailed { url } => "Failed to GET from '"@ + url@ + "'"@,
            DownloadError::MissingContentLength { url } => "Failed to get content length from '"@
                + url@ + "'"@,
            DownloadError::CannotCreateFile { path } => "Failed to create file '"@ + path@ + "'"@,
            DownloadError::StreamInterrupted => "Error while downloading file"@,
            DownloadError::WriteFailed => "Error while writing to file"@,
        }
    }

    /// A message for the user.
    pub fn message(&self) -> (r: String)
        ensures
            r@ == self.message_text(),
    {
        match self {
            DownloadError::InsecureUrl { url } => {
                "Refused to GET from '".to_owned().concat(url.as_str()).concat(
                    "': not an https address",
                )
            },
            DownloadError::RequestFailed { url } => {
                "Failed to GET from '".to_owned().concat(url.as_str()).concat("'")
            },
            DownloadError::MissingContentLength { url } => {
                "Failed to get content length from '".to_owned().concat(url.as_str()).concat("'")
            },
            DownloadError::CannotCreateFile { path } => {
                "Failed to create file '".to_owned().concat(path.as_str()).concat("'")
            },
            DownloadError::StreamInterrupted => "Error while downloading file".to_owned(),
            DownloadError::WriteFailed => "Error while writing to file".to_owned(),
        }
    }
}

} // verus!
