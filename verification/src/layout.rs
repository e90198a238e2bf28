//! The layout of an installation: the managed directory, the version
//! marker inside it, the backup directory beside it, and the loader files
//! that lie in the installation root itself. And the layout of the update
//! server: where the remote version and the archive are found.

use vstd::prelude::*;
use vstd::string::*;
use crate::paths::{join_path, joined, PathStyle};
use crate::text::texts;

verus! {

/// The name of the managed directory, whose content every update replaces.
pub open spec fn managed_dir_name() -> Seq<char> {
    "amax"@
}

/// The name of the version marker inside the managed directory.
pub open spec fn marker_name() -> Seq<char> {
    "version"@
}

/// The name of the backup directory.
pub open spec fn backup_dir_name() -> Seq<char> {
    ".amax_bak"@
}

/// The names of the loader files, which belong to the managed set but lie
/// in the installation root.
pub open spec fn loader_file_names() -> Seq<Seq<char>> {
    seq!["d3d9.dll"@, "lua5.1.dll"@, "discord-rpc.dll"@]
}

/// The path of the managed directory below `root`.
pub open spec fn managed_dir_path(root: Seq<char>, style: PathStyle) -> Seq<char> {
    joined(root, managed_dir_name(), style)
}

/// The path of the version marker below `root`.
pub open spec fn marker_path(root: Seq<char>, style: PathStyle) -> Seq<char> {
    joined(managed_dir_path(root, style), marker_name(), style)
}

/// The path of the backup directory below `root`.
pub open spec fn backup_dir_path(root: Seq<char>, style: PathStyle) -> Seq<char> {
    joined(root, backup_dir_name(), style)
}

/// The managed directory of the installation at `root`.
pub fn managed_dir(root: &str, style: PathStyle) -> (r: String)
    ensures
        r@ == managed_dir_path(root@, style),
{
    join_path(root, "amax", style)
}

/// The version marker of the installation at `root`.
pub fn version_marker(root: &str, style: PathStyle) -> (r: String)
    ensures
        r@ == marker_path(root@, style),
{
    let dir = managed_dir(root, style);
    join_path(dir.as_str(), "version", style)
}

/// The backup directory of the installation at `root`.
pub fn backup_dir(root: &str, style: PathStyle) -> (r: String)
    ensures
        r@ == backup_dir_path(root@, style),
{
    join_path(root, ".amax_bak", style)
}

/// The loader files, in the order in which they are backed up.
pub fn loader_files() -> (r: Vec<String>)
    ensures
        texts(r@) == loader_file_names(),
{
    let mut names: Vec<String> = Vec::new();
    names.push("d3d9.dll".to_owned());
    names.push("lua5.1.dll".to_owned());
    names.push("discord-rpc.dll".to_owned());
    assert(texts(names@) =~= loader_file_names());
    names
}

/// The name of the file that holds the remote version, below the endpoint.
pub open spec fn version_file_name() -> Seq<char> {
    "version.txt"@
}

/// The name of the archive, below the endpoint and in the workspace.
pub open spec fn archive_file_name() -> Seq<char> {
    "amax_client_files.zip"@
}

/// The name of the archive.
pub fn archive_name() -> (r: String)
    ensures
        r@ == archive_file_name(),
{
    "amax_client_files.zip".to_owned()
}

/// The address of the remote version on the server at `endpoint`. An
/// address is joined with `/` on every host.
pub fn version_url(endpoint: &str) -> (r: String)
    ensures
        r@ == joined(endpoint@, version_file_name(), PathStyle::Unix),
{
    join_path(endpoint, "version.txt", PathStyle::Unix)
}

/// The address of the archive on the server at `endpoint`.
pub fn archive_url(endpoint: &str) -> (r: String)
    ensures
        r@ == joined(endpoint@, archive_file_name(), PathStyle::Unix),
{
    join_path(endpoint, "amax_client_files.zip", PathStyle::Unix)
}

/// The path of the downloaded archive in the workspace.
pub fn archive_path(workspace: &str, style: PathStyle) -> (r: String)
    ensures
        r@ == joined(workspace@, archive_file_name(), style),
{
    join_path(workspace, "amax_client_files.zip", style)
}

} // verus!
