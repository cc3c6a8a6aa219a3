//! Transfers and what is remembered of them, in writing. Codes and places are never written out.
use vstd::prelude::*;
use crate::croc::CrocBackend;
use crate::ident::{hyphenated, id_text};
use crate::manifest::{FileEntry, FileModel, ManifestModel, TransferManifest};
use crate::progress::Progress;
use crate::resume::{ResumeCapabilities, ResumeModel, ResumeRequest, ResumeRequestModel, ResumeState};
use crate::session::{Role, SessionModel, TransferFailureKind, TransferSession};
use crate::text::{
    decimal, flag_name, flag_text, milliseconds_text, optional_decimal, optional_quoted,
    push_decimal, push_milliseconds, push_optional_decimal, quote, quote_optional, quoted,
};

verus! {

impl ResumeRequestModel {
    pub open spec fn text(self) -> Seq<char> {
        match self {
            ResumeRequestModel::Send { source_paths } =>
                "ResumeRequest::Send { source_count: "@ + decimal(source_paths.len()) + " }"@,
            ResumeRequestModel::Receive { .. } =>
                "ResumeRequest::Receive { output_directory_configured: true }"@,
        }
    }
}

impl ResumeRequest {
    pub fn description(&self) -> (text: String)
        ensures
            text@ == self@.text(),
    {
        match self {
            Self::Send { source_paths } => {
                let mut text = "ResumeRequest::Send { source_count: ".to_owned();
                push_decimal(&mut text, source_paths.len() as u64);
                text.append(" }");
                text
            },
            Self::Receive { .. } => {
                "ResumeRequest::Receive { output_directory_configured: true }".to_owned()
            },
        }
    }
}

pub open spec fn capabilities_text(capabilities: ResumeCapabilities) -> Seq<char> {
    "ResumeCapabilities { pause: "@ + flag_text(capabilities.pause) + ", resume: "@ + flag_text(
        capabilities.resume,
    ) + " }"@
}

impl ResumeModel {
    pub open spec fn text(self) -> Seq<char> {
        "ResumeState { schema_version: "@ + decimal(self.schema_version as nat) + ", transfer_id: "@
            + self.transfer_id.debug_text() + ", backend: "@ + quoted(self.backend)
            + ", backend_version: "@ + optional_quoted(self.backend_version) + ", capabilities: "@
            + capabilities_text(self.capabilities) + ", request: "@ + self.request.text()
            + ", manifest_configured: "@ + flag_text(self.manifest is Some) + ", file_id: "@
            + hyphenated(self.file_id) + ", chunk_size: "@ + decimal(self.chunk_size as nat)
            + ", file_size: "@ + decimal(self.file_size as nat) + ", completed_chunk_count: "@
            + decimal(self.completed_chunks.len()) + ", file_digest_configured: "@ + flag_text(
            self.file_digest is Some,
        ) + ", temp_file_configured: "@ + flag_text(self.temp_file_path is Some) + " }"@
    }
}

impl ResumeState {
    pub fn description(&self) -> (text: String)
        ensures
            text@ == self@.text(),
    {
        let mut text = "ResumeState { schema_version: ".to_owned();
        push_decimal(&mut text, self.schema_version as u64);
        text.append(", transfer_id: ");
        text.append(&self.transfer_id.description());
        text.append(", backend: ");
        text.append(&quote(self.backend.as_str()));
        text.append(", backend_version: ");
        text.append(&quote_optional(&self.backend_version));
        text.append(", capabilities: ");
        let mut capabilities = "ResumeCapabilities { pause: ".to_owned();
        capabilities.append(flag_name(self.capabilities.pause));
        capabilities.append(", resume: ");
        capabilities.append(flag_name(self.capabilities.resume));
        capabilities.append(" }");
        text.append(&capabilities);
        text.append(", request: ");
        text.append(&self.request.description());
        text.append(", manifest_configured: ");
        text.append(flag_name(self.manifest.is_some()));
        text.append(", file_id: ");
        text.append(&id_text(self.file_id));
        text.append(", chunk_size: ");
        push_decimal(&mut text, self.chunk_size);
        text.append(", file_size: ");
        push_decimal(&mut text, self.file_size);
        text.append(", completed_chunk_count: ");
        push_decimal(&mut text, self.completed_chunks.len() as u64);
        text.append(", file_digest_configured: ");
        text.append(flag_name(self.file_digest.is_some()));
        text.append(", temp_file_configured: ");
        text.append(flag_name(self.temp_file_path.is_some()));
        text.append(" }");
        text
    }
}

impl FileModel {
    pub open spec fn text(self) -> Seq<char> {
        "FileEntry { file_id: "@ + hyphenated(self.file_id) + ", relative_path: "@ + quoted(
            self.relative_path,
        ) + ", size: "@ + decimal(self.size as nat) + ", modified_at: "@ + optional_decimal(
            self.modified_at,
        ) + ", digest: "@ + optional_quoted(self.digest) + " }"@
    }
}

impl FileEntry {
    pub fn description(&self) -> (text: String)
        ensures
            text@ == self@.text(),
    {
        let mut text = "FileEntry { file_id: ".to_owned();
        text.append(&id_text(self.file_id));
        text.append(", relative_path: ");
        text.append(&quote(self.relative_path.as_str()));
        text.append(", size: ");
        push_decimal(&mut text, self.size);
        text.append(", modified_at: ");
        push_optional_decimal(&mut text, self.modified_at);
        text.append(", digest: ");
        text.append(&quote_optional(&self.digest));
        text.append(" }");
        text
    }
}

/// Files one after the other, with commas between them.
pub open spec fn files_text(files: Seq<FileModel>) -> Seq<char>
    decreases files.len(),
{
    if files.len() == 0 {
        Seq::empty()
    } else if files.len() == 1 {
        files[0].text()
    } else {
        files_text(files.drop_last()) + ", "@ + files.last().text()
    }
}

impl ManifestModel {
    pub open spec fn text(self) -> Seq<char> {
        "TransferManifest { transfer_id: "@ + self.transfer_id.debug_text() + ", files: ["@
            + files_text(self.files) + "], total_size: "@ + decimal(self.total_size as nat) + " }"@
    }
}

impl TransferManifest {
    pub fn description(&self) -> (text: String)
        ensures
            text@ == self@.text(),
    {
        let ghost models = self@.files;
        let mut files = "".to_owned();
        let mut i: usize = 0;
        proof {
            reveal_strlit("");
            assert(models.take(0) =~= Seq::empty());
        }
        assert(files@ =~= files_text(models.take(0)));
        while i < self.files.len()
            invariant
                i <= self.files@.len(),
                models == self@.files,
                files@ == files_text(models.take(i as int)),
            decreases self.files@.len() - i,
        {
            let ghost next = models.take(i as int + 1);
            assert(next.drop_last() =~= models.take(i as int));
            let file = self.files[i].description();
            assert(next.last().text() == file@);
            if i > 0 {
                files.append(", ");
            }
            files.append(&file);
            assert(files@ =~= files_text(next));
            i = i + 1;
        }
        assert(models.take(i as int) =~= models);
        let mut text = "TransferManifest { transfer_id: ".to_owned();
        text.append(&self.transfer_id.description());
        text.append(", files: [");
        text.append(&files);
        text.append("], total_size: ");
        push_decimal(&mut text, self.total_size);
        text.append(" }");
        text
    }
}

pub open spec fn optional_manifest_text(manifest: Option<ManifestModel>) -> Seq<char> {
    match manifest {
        None => "None"@,
        Some(manifest) => "Some("@ + manifest.text() + ")"@,
    }
}

fn describe_optional_manifest(manifest: &Option<TransferManifest>) -> (text: String)
    ensures
        text@ == optional_manifest_text(crate::resume::optional_manifest(*manifest)),
{
    match manifest {
        None => "None".to_owned(),
        Some(manifest) => {
            let mut text = "Some(".to_owned();
            text.append(&manifest.description());
            text.append(")");
            text
        },
    }
}

pub open spec fn progress_text(progress: Progress) -> Seq<char> {
    "Progress { transferred_bytes: "@ + decimal(progress.transferred_bytes as nat)
        + ", total_bytes: "@ + decimal(progress.total_bytes as nat) + ", speed_bps: "@ + decimal(
        progress.speed_bps as nat,
    ) + " }"@
}

fn describe_progress(progress: Progress) -> (text: String)
    ensures
        text@ == progress_text(progress),
{
    let mut text = "Progress { transferred_bytes: ".to_owned();
    push_decimal(&mut text, progress.transferred_bytes);
    text.append(", total_bytes: ");
    push_decimal(&mut text, progress.total_bytes);
    text.append(", speed_bps: ");
    push_decimal(&mut text, progress.speed_bps);
    text.append(" }");
    text
}

pub open spec fn role_text(role: Role) -> Seq<char> {
    match role {
        Role::Sender => "Sender"@,
        Role::Receiver => "Receiver"@,
    }
}

pub open spec fn failure_text(kind: Option<TransferFailureKind>) -> Seq<char> {
    match kind {
        None => "None"@,
        Some(TransferFailureKind::Network) => "Some(Network)"@,
        Some(TransferFailureKind::ProcessInterruption) => "Some(ProcessInterruption)"@,
        Some(TransferFailureKind::ProcessFailure) => "Some(ProcessFailure)"@,
        Some(TransferFailureKind::InvalidRequest) => "Some(InvalidRequest)"@,
        Some(TransferFailureKind::Filesystem) => "Some(Filesystem)"@,
        Some(TransferFailureKind::Security) => "Some(Security)"@,
        Some(TransferFailureKind::Integrity) => "Some(Integrity)"@,
        Some(TransferFailureKind::Unknown) => "Some(Unknown)"@,
    }
}

fn failure_name(kind: Option<TransferFailureKind>) -> (name: &'static str)
    ensures
        name@ == failure_text(kind),
{
    match kind {
        None => "None",
        Some(TransferFailureKind::Network) => "Some(Network)",
        Some(TransferFailureKind::ProcessInterruption) => "Some(ProcessInterruption)",
        Some(TransferFailureKind::ProcessFailure) => "Some(ProcessFailure)",
        Some(TransferFailureKind::InvalidRequest) => "Some(InvalidRequest)",
        Some(TransferFailureKind::Filesystem) => "Some(Filesystem)",
        Some(TransferFailureKind::Security) => "Some(Security)",
        Some(TransferFailureKind::Integrity) => "Some(Integrity)",
        Some(TransferFailureKind::Unknown) => "Some(Unknown)",
    }
}

impl SessionModel {
    /// A session in writing; of a code, only that there is one.
    pub open spec fn text(self) -> Seq<char> {
        "TransferSession { id: "@ + self.id.debug_text() + ", role: "@ + role_text(self.role)
            + ", state: "@ + self.state.label() + ", code: "@ + (if self.code is Some {
            "Some(\"[REDACTED]\")"@
        } else {
            "None"@
        }) + ", created_at: "@ + decimal(self.created_at as nat) + ", expires_at: "@
            + optional_decimal(self.expires_at) + ", manifest: "@ + optional_manifest_text(
            self.manifest,
        ) + ", progress: "@ + progress_text(self.progress) + ", backend: "@ + quoted(self.backend)
            + ", error: "@ + optional_quoted(self.error) + ", failure_kind: "@ + failure_text(
            self.failure_kind,
        ) + " }"@
    }
}

impl TransferSession {
    pub fn description(&self) -> (text: String)
        ensures
            text@ == self@.text(),
    {
        let mut text = "TransferSession { id: ".to_owned();
        text.append(&self.id.description());
        text.append(", role: ");
        match self.role {
            Role::Sender => text.append("Sender"),
            Role::Receiver => text.append("Receiver"),
        }
        text.append(", state: ");
        text.append(self.state.name());
        text.append(", code: ");
        if self.code.is_some() {
            text.append("Some(\"[REDACTED]\")");
        } else {
            text.append("None");
        }
        text.append(", created_at: ");
        push_decimal(&mut text, self.created_at);
        text.append(", expires_at: ");
        push_optional_decimal(&mut text, self.expires_at);
        text.append(", manifest: ");
        text.append(&describe_optional_manifest(&self.manifest));
        text.append(", progress: ");
        text.append(&describe_progress(self.progress));
        text.append(", backend: ");
        text.append(&quote(self.backend.as_str()));
        text.append(", error: ");
        text.append(&quote_optional(&self.error));
        text.append(", failure_kind: ");
        text.append(failure_name(self.failure_kind));
        text.append(" }");
        text
    }
}

impl CrocBackend {
    /// The backend in writing; of a relay, only whether there is one.
    pub open spec fn text(self) -> Seq<char> {
        "CrocBackend { executable: "@ + quoted(self.executable_spec()) + ", relay_configured: "@
            + flag_text(self.relay_spec() is Some) + ", timeout: "@ + milliseconds_text(
            self.timeout_spec(),
        ) + " }"@
    }

    pub fn description(&self) -> (text: String)
        ensures
            text@ == self.text(),
    {
        let mut text = "CrocBackend { executable: ".to_owned();
        text.append(&quote(self.executable().as_str()));
        text.append(", relay_configured: ");
        text.append(flag_name(self.relay_configured()));
        text.append(", timeout: ");
        push_milliseconds(&mut text, self.timeout_ms());
        text.append(" }");
        text
    }
}

/// A session in writing does not depend on its code.
pub proof fn law_session_text_hides_the_code(first: SessionModel, second: SessionModel)
    requires
        first == (SessionModel { code: first.code, ..second }),
        first.code is Some == second.code is Some,
    ensures
        first.text() == second.text(),
{
}

/// Remembered metadata in writing depends on no path.
pub proof fn law_resume_text_hides_paths(first: ResumeModel, second: ResumeModel)
    requires
        first == (ResumeModel {
            request: first.request,
            manifest: first.manifest,
            temp_file_path: first.temp_file_path,
            ..second
        }),
        first.manifest is Some == second.manifest is Some,
        first.temp_file_path is Some == second.temp_file_path is Some,
        match (first.request, second.request) {
            (
                ResumeRequestModel::Send { source_paths: a },
                ResumeRequestModel::Send { source_paths: b },
            ) => a.len() == b.len(),
            (ResumeRequestModel::Receive { .. }, ResumeRequestModel::Receive { .. }) => true,
            _ => false,
        },
    ensures
        first.text() == second.text(),
{
}

} // verus!
