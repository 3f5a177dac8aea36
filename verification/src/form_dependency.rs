//! Managed dependencies as the structured configuration editor holds them.

use vstd::prelude::*;

use crate::text::{copy_optional_text, copy_text_list, same_text};

verus! {

/// Optional check of a dependency's version.
#[derive(Clone, Debug)]
pub struct FormVerify {
    /// Program to run.
    pub command: Option<String>,
    /// Its arguments.
    pub args: Vec<String>,
    /// Text its output must contain.
    pub contains: Option<String>,
}

/// Download reliability and resource limits of a dependency.
#[derive(Clone, Debug)]
pub struct FormDependencyDownload {
    /// Retries after the first failure.
    pub retries: u8,
    /// Total timeout of one transfer, in milliseconds.
    pub timeout_ms: u64,
    /// Largest download, in bytes.
    pub max_bytes: u64,
    /// HTTP request headers, in key order.
    pub headers: Vec<(String, String)>,
}

/// Default number of retries.
pub const DEFAULT_RETRIES: u8 = 2;

/// Default transfer timeout, in milliseconds.
pub const DEFAULT_TIMEOUT_MS: u64 = 120_000;

/// Default largest download: two gibibytes.
pub const DEFAULT_MAX_BYTES: u64 = 2_147_483_648;

impl FormDependencyDownload {
    /// Whether the built-in download policy applies unchanged.
    pub open spec fn default_policy(&self) -> bool {
        &&& self.retries == DEFAULT_RETRIES
        &&& self.timeout_ms == DEFAULT_TIMEOUT_MS
        &&& self.max_bytes == DEFAULT_MAX_BYTES
        &&& self.headers@.len() == 0
    }

    /// Whether the built-in download policy applies unchanged.
    pub fn is_default(&self) -> (result: bool)
        ensures
            result == self.default_policy(),
    {
        self.retries == DEFAULT_RETRIES && self.timeout_ms == DEFAULT_TIMEOUT_MS && self.max_bytes
            == DEFAULT_MAX_BYTES && self.headers.len() == 0
    }
}

/// Explicit SSH files of a dependency.
#[derive(Clone, Debug)]
pub struct FormDependencySsh {
    /// OpenSSH private key.
    pub identity_file: Option<String>,
    /// OpenSSH `known_hosts` file.
    pub known_hosts_file: Option<String>,
}

impl FormDependencySsh {
    /// Whether no SSH file is declared.
    pub open spec fn nothing_declared(&self) -> bool {
        self.identity_file is None && self.known_hosts_file is None
    }

    /// Whether no SSH file is declared.
    pub fn is_empty(&self) -> (result: bool)
        ensures
            result == self.nothing_declared(),
    {
        self.identity_file.is_none() && self.known_hosts_file.is_none()
    }
}

/// A managed dependency of the form.
#[derive(Clone, Debug)]
pub struct FormDependency {
    /// Download or local source.
    pub source: String,
    /// Mirrors tried in turn when the source is unavailable.
    pub mirrors: Vec<String>,
    /// Pinned version.
    pub version: String,
    /// Optional SHA-256.
    pub checksum: Option<String>,
    /// Unpacking policy.
    pub unpack: String,
    /// Path inside the archive.
    pub path: Option<String>,
    /// Kind of the final content.
    pub kind: String,
    /// Optional version check.
    pub verify: Option<FormVerify>,
    /// Download policy.
    pub download: FormDependencyDownload,
    /// SSH files.
    pub ssh: FormDependencySsh,
}

impl FormDependency {
    /// Whether the dependency can be saved losslessly as its source text alone.
    pub open spec fn compact(&self) -> bool {
        &&& self.mirrors@.len() == 0
        &&& self.version@ == "source"@
        &&& self.checksum is None
        &&& self.unpack@ == "auto"@
        &&& self.path is None
        &&& self.kind@ == "auto"@
        &&& self.verify is None
        &&& self.download.default_policy()
        &&& self.ssh.nothing_declared()
    }

    /// Whether the dependency can be saved losslessly as its source text alone.
    pub fn is_compact(&self) -> (result: bool)
        ensures
            result == self.compact(),
    {
        self.mirrors.len() == 0 && same_text(&self.version, &"source".to_owned())
            && self.checksum.is_none() && same_text(&self.unpack, &"auto".to_owned())
            && self.path.is_none() && same_text(&self.kind, &"auto".to_owned())
            && self.verify.is_none() && self.download.is_default() && self.ssh.is_empty()
    }

    /// A new dependency: no source yet, automatic unpacking and kind, built-in download policy.
    pub fn default_value() -> (result: FormDependency)
        ensures
            result.source@ == Seq::<char>::empty(),
            result.mirrors@.len() == 0,
            result.version@ == Seq::<char>::empty(),
            result.checksum is None,
            result.unpack@ == "auto"@,
            result.path is None,
            result.kind@ == "auto"@,
            result.verify is None,
            result.download.default_policy(),
            result.ssh.nothing_declared(),
    {
        FormDependency {
            source: String::new(),
            mirrors: Vec::new(),
            version: String::new(),
            checksum: None,
            unpack: "auto".to_owned(),
            path: None,
            kind: "auto".to_owned(),
            verify: None,
            download: FormDependencyDownload {
                retries: DEFAULT_RETRIES,
                timeout_ms: DEFAULT_TIMEOUT_MS,
                max_bytes: DEFAULT_MAX_BYTES,
                headers: Vec::new(),
            },
            ssh: FormDependencySsh { identity_file: None, known_hosts_file: None },
        }
    }
}

/// A version check as a mathematical value: command, arguments, expected output.
pub type VerifyModel = (Option<Seq<char>>, Seq<Seq<char>>, Option<Seq<char>>);

impl DeepView for FormVerify {
    type V = VerifyModel;

    open spec fn deep_view(&self) -> VerifyModel {
        (self.command.deep_view(), self.args.deep_view(), self.contains.deep_view())
    }
}

/// A download policy as a mathematical value: retries, timeout, size limit, headers.
pub type DownloadModel = (u8, u64, u64, Seq<(Seq<char>, Seq<char>)>);

impl DeepView for FormDependencyDownload {
    type V = DownloadModel;

    open spec fn deep_view(&self) -> DownloadModel {
        (
            self.retries,
            self.timeout_ms,
            self.max_bytes,
            self.headers@.map_values(|entry: (String, String)| (entry.0@, entry.1@)),
        )
    }
}

/// SSH files as a mathematical value: identity file, known hosts file.
pub type SshModel = (Option<Seq<char>>, Option<Seq<char>>);

impl DeepView for FormDependencySsh {
    type V = SshModel;

    open spec fn deep_view(&self) -> SshModel {
        (self.identity_file.deep_view(), self.known_hosts_file.deep_view())
    }
}

/// A copy of a list of text pairs.
pub fn copy_pairs(entries: &Vec<(String, String)>) -> (result: Vec<(String, String)>)
    ensures
        result@.map_values(|entry: (String, String)| (entry.0@, entry.1@)) == entries@.map_values(
            |entry: (String, String)| (entry.0@, entry.1@),
        ),
{
    let mut result: Vec<(String, String)> = Vec::new();
    let mut index: usize = 0;
    while index < entries.len()
        invariant
            index <= entries@.len(),
            result@.len() == index,
            forall|k: int|
                0 <= k < index ==> #[trigger] result@[k].0@ == entries@[k].0@ && result@[k].1@
                    == entries@[k].1@,
        decreases entries@.len() - index,
    {
        result.push((entries[index].0.clone(), entries[index].1.clone()));
        index += 1;
    }
    assert(result@.map_values(|entry: (String, String)| (entry.0@, entry.1@)) =~= entries@.map_values(
        |entry: (String, String)| (entry.0@, entry.1@),
    ));
    result
}

/// A copy of a version check.
pub fn copy_verify(verify: &Option<FormVerify>) -> (result: Option<FormVerify>)
    ensures
        result.deep_view() == verify.deep_view(),
{
    match verify {
        Some(verify) => Some(
            FormVerify {
                command: copy_optional_text(&verify.command),
                args: copy_text_list(&verify.args),
                contains: copy_optional_text(&verify.contains),
            },
        ),
        None => None,
    }
}

/// A copy of a download policy.
pub fn copy_download(download: &FormDependencyDownload) -> (result: FormDependencyDownload)
    ensures
        result.deep_view() == download.deep_view(),
{
    FormDependencyDownload {
        retries: download.retries,
        timeout_ms: download.timeout_ms,
        max_bytes: download.max_bytes,
        headers: copy_pairs(&download.headers),
    }
}

/// A copy of the SSH files.
pub fn copy_ssh(ssh: &FormDependencySsh) -> (result: FormDependencySsh)
    ensures
        result.deep_view() == ssh.deep_view(),
{
    FormDependencySsh {
        identity_file: copy_optional_text(&ssh.identity_file),
        known_hosts_file: copy_optional_text(&ssh.known_hosts_file),
    }
}

} // verus!
