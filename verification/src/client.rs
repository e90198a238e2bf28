//! The update client: the context of one update run. It holds the two
//! directories of the run and how the host reads paths, the remote version
//! once it is known, and the top-level entries of the archive once it is
//! unpacked, and offers the stages of the run over them.

use vstd::prelude::*;
use vstd::string::*;
use crate::apply::{apply_steps, plan_apply};
use crate::backup::{plan_snapshot, snapshot_steps};
use crate::download::{
    answered, is_https, is_success, status_is_success, Download, DownloadError, ResponseHead,
};
use crate::extract::{
    all_enclosed, is_step_for, plan_extraction, top_level_names, ArchiveEntry, ExtractError,
    ExtractedEntry,
};
use crate::paths::{directory_of, directory_part, is_enclosed, PathStyle};
use crate::plan::{steps_view, Step};
use crate::text::{texts, trim_trailing_whitespace, trimmed};
use crate::version::{is_newer, is_numeric_version, needs_update, numbers_of, update_needed};

verus! {

/// What the version endpoint answered: the status of the response and its
/// body.
#[derive(Debug, Clone, PartialEq, Eq)]
pub struct RemoteAnswer {
    pub status: u16,
    pub body: String,
}

/// Why the check for an update failed.
#[derive(Debug, Clone, PartialEq, Eq)]
pub enum UpdateError {
    /// The version endpoint could not be reached; `cause` says why.
    RemoteVersionUnavailable { cause: String },
    /// The version endpoint answered with a status that is no success.
    RemoteVersionRefused { status: u16 },
}

impl UpdateError {
    /// The text of the message for this error.
    pub open spec fn message_text(self) -> Seq<char> {
        match self {
            UpdateError::RemoteVersionUnavailable { cause } => "Failed to get remote version - "@
                + cause@ + ". Aborting update"@,
            UpdateError::RemoteVersionRefused { status } => {
                "Failed to get remote version - the server answered with an error. Aborting update"@
            },
        }
    }

    /// A message for the user.
    pub fn message(&self) -> (r: String)
        ensures
            r@ == self.message_text(),
    {
        match self {
            UpdateError::RemoteVersionUnavailable { cause } => {
                "Failed to get remote version - ".to_owned().concat(cause.as_str()).concat(
                    ". Aborting update",
                )
            },
            UpdateError::RemoteVersionRefused { status } => {
                "Failed to get remote version - the server answered with an error. Aborting update"
                    .to_owned()
            },
        }
    }
}

/// The context of one update run.
#[derive(Debug, Clone, PartialEq, Eq)]
pub struct AmaxUpdateClient {
    /// The workspace: the directory that holds the downloaded archive and
    /// what is extracted from it.
    pub temp_path: String,
    /// The root of the installation.
    pub blur_path: String,
    /// How the host reads paths.
    pub path_style: PathStyle,
    /// The top-level entries of the archive that was unpacked last: what
    /// the apply moves into the installation.
    pub update_files: Vec<String>,
    /// The remote version, once it is known.
    pub remote_version: String,
}

/// The local version, where the version marker could be read.
pub open spec fn readable(local: Result<String, String>) -> Option<Seq<char>> {
    match local {
        Ok(l) => Some(l@),
        Err(_) => None,
    }
}

/// The directory in which an archive is unpacked: the one that holds it,
/// or the current directory where its path names none.
pub open spec fn unpack_base(archive_path: Seq<char>, style: PathStyle) -> Seq<char> {
    match directory_part(archive_path, style) {
        Some(dir) => dir,
        None => Seq::<char>::empty(),
    }
}

/// The directory in which the archive at `archive_path` is unpacked.
pub fn unpack_dir(archive_path: &str, style: PathStyle) -> (r: String)
    ensures
        r@ == unpack_base(archive_path@, style),
{
    match directory_of(archive_path, style) {
        Some(dir) => dir,
        None => String::new(),
    }
}

impl AmaxUpdateClient {
    /// The top-level entries of the archive that was unpacked last, in
    /// archive order.
    pub open spec fn top_level(&self) -> Seq<Seq<char>> {
        texts(self.update_files@)
    }

    /// The remote version recorded so far.
    pub open spec fn recorded_version(&self) -> Seq<char> {
        self.remote_version@
    }

    /// A client for the installation at `blur_path`, with `temp_path` as
    /// its workspace, on a host that reads paths as `path_style` says. No
    /// entry is recorded yet, and the remote version is the placeholder
    /// `0.0.0.0.`.
    pub fn new(blur_path: String, temp_path: String, path_style: PathStyle) -> (client: Self)
        ensures
            client.blur_path == blur_path,
            client.temp_path == temp_path,
            client.path_style == path_style,
            client.top_level() == Seq::<Seq<char>>::empty(),
            client.recorded_version() == "0.0.0.0."@,
    {
        let client = AmaxUpdateClient {
            temp_path,
            blur_path,
            path_style,
            update_files: Vec::new(),
            remote_version: "0.0.0.0.".to_owned(),
        };
        assert(texts(client.update_files@) =~= Seq::<Seq<char>>::empty());
        client
    }

    /// Decides whether an update is needed, from what the caller has
    /// fetched: `remote` is what the version endpoint answered, or the
    /// reason why it could not be reached; `local` is the content of the
    /// version marker, or the reason why it could not be read.
    ///
    /// An endpoint that cannot be reached, or that answers with a status
    /// that is no success, fails the check. A version marker that cannot
    /// be read does not: the installation then counts as having no local
    /// version. The remote version is the body without the white space at
    /// its end; it is recorded, and the answer is that of `needs_update`.
    pub fn perform_update(
        &mut self,
        remote: Result<RemoteAnswer, String>,
        local: Result<String, String>,
    ) -> (r: Result<bool, UpdateError>)
        ensures
            final(self).temp_path == old(self).temp_path,
            final(self).blur_path == old(self).blur_path,
            final(self).path_style == old(self).path_style,
            final(self).top_level() == old(self).top_level(),
            r is Ok <==> remote is Ok && is_success(remote->Ok_0.status),
            r is Err ==> final(self).recorded_version() == old(self).recorded_version(),
            remote matches Ok(answer) ==> (is_success(answer.status) ==> {
                &&& final(self).recorded_version() == trimmed(answer.body@)
                &&& r == Ok::<bool, UpdateError>(
                    update_needed(trimmed(answer.body@), readable(local)),
                )
                &&& local is Err ==> r == Ok::<bool, UpdateError>(true)
                &&& local matches Ok(l) ==> (l@ == trimmed(answer.body@) ==> r == Ok::<
                    bool,
                    UpdateError,
                >(false))
                &&& local matches Ok(l) ==> (is_numeric_version(trimmed(answer.body@))
                    && is_numeric_version(l@) ==> r == Ok::<bool, UpdateError>(
                    is_newer(numbers_of(trimmed(answer.body@)), numbers_of(l@)),
                ))
            }),
            remote matches Ok(answer) ==> (!is_success(answer.status) ==> r == Err::<
                bool,
                UpdateError,
            >(UpdateError::RemoteVersionRefused { status: answer.status })),
            remote matches Err(why) ==> {
                &&& r matches Err(UpdateError::RemoteVersionUnavailable { cause })
                &&& cause@ == why@
            },
    {
        match remote {
            Err(why) => Err(UpdateError::RemoteVersionUnavailable { cause: why }),
            Ok(answer) => {
                if !status_is_success(answer.status) {
                    return Err(UpdateError::RemoteVersionRefused { status: answer.status });
                }
                let version = trim_trailing_whitespace(answer.body.as_str());
                let needed = match &local {
                    Ok(l) => needs_update(version.as_str(), Some(l.as_str())),
                    Err(_) => needs_update(version.as_str(), None),
                };
                self.remote_version = version;
                Ok(needed)
            },
        }
    }

    /// Starts to follow the download of `url` into the file `path`, once
    /// the request has been answered. `response` is the head of the
    /// response, or the reason why there is none.
    pub fn download_file(
        &self,
        url: &str,
        path: &str,
        response: Result<ResponseHead, String>,
    ) -> (r: Result<Download, DownloadError>)
        ensures
            r is Ok <==> is_https(url@) && answered(response) && response->Ok_0.content_length
                is Some,
            r matches Ok(d) ==> {
                &&& d.well_formed()
                &&& d.transferred == 0
                &&& d.artifact.url@ == url@
                &&& d.artifact.destination@ == path@
                &&& Some(d.artifact.length) == response->Ok_0.content_length
            },
            r matches Err(e) ==> if !is_https(url@) {
                e matches DownloadError::InsecureUrl { url: u } && u@ == url@
            } else if !answered(response) {
                e matches DownloadError::RequestFailed { url: u } && u@ == url@
            } else {
                e matches DownloadError::MissingContentLength { url: u } && u@ == url@
            },
    {
        Download::begin(url, path, response)
    }

    /// Plans the unpacking of the archive at `path` into the directory
    /// that holds the archive, and records its top-level entries in place
    /// of those recorded before. `listing` is the directory of the
    /// archive, or the reason why it could not be read.
    ///
    /// An archive that cannot be read, or that holds a name that is not
    /// enclosed, is refused, and what was recorded before stays.
    pub fn unpack_update(&mut self, path: &str, listing: Result<Vec<ArchiveEntry>, String>) -> (r:
        Result<Vec<ExtractedEntry>, ExtractError>)
        ensures
            final(self).temp_path == old(self).temp_path,
            final(self).blur_path == old(self).blur_path,
            final(self).path_style == old(self).path_style,
            final(self).recorded_version() == old(self).recorded_version(),
            r is Ok <==> listing is Ok && all_enclosed(listing->Ok_0@, old(self).path_style),
            r is Err ==> final(self).top_level() == old(self).top_level(),
            r matches Ok(steps) ==> {
                &&& steps@.len() == listing->Ok_0@.len()
                &&& forall|i: int|
                    0 <= i < steps@.len() ==> is_step_for(
                        #[trigger] steps@[i],
                        listing->Ok_0@[i],
                        i,
                        unpack_base(path@, old(self).path_style),
                        old(self).path_style,
                    )
                &&& final(self).top_level() == top_level_names(
                    listing->Ok_0@,
                    old(self).path_style,
                )
            },
            r matches Err(e) ==> match listing {
                Err(why) => e matches ExtractError::CorruptArchive { cause } && cause@ == why@,
                Ok(entries) => {
                    &&& e matches ExtractError::UnsafePath { index, name }
                    &&& index < entries@.len()
                    &&& !is_enclosed(entries@[index as int].name@, old(self).path_style)
                    &&& name@ == entries@[index as int].name@
                    &&& all_enclosed(entries@.take(index as int), old(self).path_style)
                },
            },
    {
        let entries = match listing {
            Err(why) => {
                return Err(ExtractError::CorruptArchive { cause: why });
            },
            Ok(entries) => entries,
        };
        let base = unpack_dir(path, self.path_style);
        match plan_extraction(&entries, base.as_str(), self.path_style) {
            Err(e) => Err(e),
            Ok(set) => {
                self.update_files = set.top_level;
                Ok(set.entries)
            },
        }
    }

    /// Plans the unpacking of the archive at `path` into the directory
    /// that holds the archive, on a host of the given style. `listing` is
    /// the directory of the archive, or the reason why it could not be
    /// read.
    pub fn unpack_zip(
        path: &str,
        listing: Result<Vec<ArchiveEntry>, String>,
        style: PathStyle,
    ) -> (r: Result<Vec<ExtractedEntry>, ExtractError>)
        ensures
            r is Ok <==> listing is Ok && all_enclosed(listing->Ok_0@, style),
            r matches Ok(steps) ==> {
                &&& steps@.len() == listing->Ok_0@.len()
                &&& forall|i: int|
                    0 <= i < steps@.len() ==> is_step_for(
                        #[trigger] steps@[i],
                        listing->Ok_0@[i],
                        i,
                        unpack_base(path@, style),
                        style,
                    )
            },
            r matches Err(e) ==> match listing {
                Err(why) => e matches ExtractError::CorruptArchive { cause } && cause@ == why@,
                Ok(entries) => {
                    &&& e matches ExtractError::UnsafePath { index, name }
                    &&& index < entries@.len()
                    &&& !is_enclosed(entries@[index as int].name@, style)
                    &&& name@ == entries@[index as int].name@
                    &&& all_enclosed(entries@.take(index as int), style)
                },
            },
    {
        let entries = match listing {
            Err(why) => {
                return Err(ExtractError::CorruptArchive { cause: why });
            },
            Ok(entries) => entries,
        };
        let base = unpack_dir(path, style);
        match plan_extraction(&entries, base.as_str(), style) {
            Err(e) => Err(e),
            Ok(set) => Ok(set.entries),
        }
    }

    /// Plans the apply: the recorded top-level entries move from the
    /// workspace into the installation, and the recorded remote version is
    /// written to the version marker. `staged[k]` tells whether the
    /// workspace holds the recorded entry at position `k`: what is
    /// installed under the name of an entry is removed only where the
    /// entry is staged.
    pub fn apply_update(&self, staged: &Vec<bool>) -> (steps: Vec<Step>)
        ensures
            steps_view(steps@) == apply_steps(
                self.blur_path@,
                self.temp_path@,
                self.top_level(),
                staged@,
                self.recorded_version(),
                self.path_style,
            ),
    {
        plan_apply(
            self.blur_path.as_str(),
            self.temp_path.as_str(),
            &self.update_files,
            staged,
            self.remote_version.as_str(),
            self.path_style,
        )
    }

    /// Plans the backup of the installation. `managed_present` tells
    /// whether the managed directory exists there.
    pub fn create_backup(&self, managed_present: bool) -> (steps: Vec<Step>)
        ensures
            steps_view(steps@) == snapshot_steps(self.blur_path@, managed_present, self.path_style),
    {
        plan_snapshot(self.blur_path.as_str(), managed_present, self.path_style)
    }

    /// Does nothing: the files are moved by the steps of `apply_update`.
    pub fn move_update_files() {
    }
}

} // verus!
