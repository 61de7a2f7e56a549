use vstd::prelude::*;
use crate::errors::JobError;
use crate::request::{
    Args, normalize_request, valid_args, spec_width, spec_height, normalized_duration, Resolution,
};
use crate::supervisor::{
    EngineRun, PipelineOutcome, SupervisionReport, supervise, supervise_spec,
};
use crate::topology::{
    PipelineDescriptor, build_topology, descriptor_matches, MeshSize, ceil_div,
    MESH_DIVISOR_COARSE,
};

verus! {

/// How long a retrieval link stays valid.
pub const PRESIGN_VALIDITY_SECS: u64 = 24 * 60 * 60;

/// Mandatory external configuration, resolved once at process start and
/// passed into the orchestrator by reference; absence is a typed
/// construction error, not a per-request failure.
#[derive(Debug)]
pub struct JobConfig {
    pub output_bucket: String,
    pub presets_dir: String,
}

impl JobConfig {
    /// Build the configuration from the two values the environment may or
    /// may not provide; fails, with a configuration error, exactly when
    /// either is absent.
    pub fn new(output_bucket: Option<String>, presets_dir: Option<String>) -> (r: Result<
        JobConfig,
        JobError,
    >)
        ensures
            match r {
                Ok(c) => {
                    &&& output_bucket matches Some(b) && c.output_bucket == b
                    &&& presets_dir matches Some(p) && c.presets_dir == p
                },
                Err(e) => (output_bucket is None || presets_dir is None) && e is Config,
            },
    {
        match (output_bucket, presets_dir) {
            (Some(b), Some(p)) => Ok(JobConfig { output_bucket: b, presets_dir: p }),
            (None, _) => Err(
                JobError::Config { message: String::from_str("output storage location is required") },
            ),
            (_, None) => Err(
                JobError::Config { message: String::from_str("presets location is required") },
            ),
        }
    }
}

/// The storage key layout for one job's artifact: a fixed prefix, the UTC
/// date, a unique identifier, and a fixed file name.
pub open spec fn artifact_key_spec(date: Seq<char>, id: Seq<char>) -> Seq<char> {
    "render/"@ + date + "/"@ + id + "/projectM.mp4"@
}

/// Lay out the storage key from its date and identifier parts.
pub fn artifact_key(date: &str, id: &str) -> (k: String)
    ensures
        k@ == artifact_key_spec(date@, id@),
{
    let mut k = String::from_str("render/");
    k.append(date);
    k.append("/");
    k.append(id);
    k.append("/projectM.mp4");
    proof {
        assert(k@ =~= artifact_key_spec(date@, id@));
    }
    k
}

/// Relies on chrono's `Utc::now` and `DateTime::format` with `"%Y-%m-%d"`:
/// the current UTC calendar date, year first, zero-padded, hyphen-separated.
/// The value depends on the clock, so nothing more is claimed of it.
#[verifier::external_body]
fn current_utc_date() -> (d: String) {
    chrono::Utc::now().format("%Y-%m-%d").to_string()
}

/// Relies on uuid's `Uuid::new_v4` and its `Display` form: a fresh random
/// identifier, rendered in the hyphenated form of 36 ASCII characters. The
/// value depends on process randomness, so only its length is claimed.
#[verifier::external_body]
fn fresh_job_id() -> (id: String)
    ensures
        id@.len() == 36,
{
    uuid::Uuid::new_v4().to_string()
}

/// Compute a fresh storage key for one job's artifact. The identifier part
/// is fresh per call, so no two jobs share a storage location.
pub fn make_artifact_key() -> (k: String)
    ensures
        exists|date: Seq<char>, id: Seq<char>|
            k@ == artifact_key_spec(date, id) && id.len() == 36,
{
    let date = current_utc_date();
    let id = fresh_job_id();
    let k = artifact_key(date.as_str(), id.as_str());
    proof {
        assert(k@ == artifact_key_spec(date@, id@) && id@.len() == 36);
    }
    k
}

/// What the blob-transfer collaborator reported for one call.
#[derive(Debug)]
pub enum TransferReply {
    Done,
    TransferFailed { message: String },
}

/// What the link-issuing collaborator reported.
#[derive(Debug)]
pub enum PresignReply {
    Link { url: String },
    PresignFailed { message: String },
}

/// The caller-facing result of one job; always produced exactly once.
#[derive(Debug)]
pub struct LambdaResponse {
    pub message: String,
    pub output_video_url: Option<String>,
}

/// One external effect the orchestrator ordered, in order.
#[derive(Debug)]
pub enum ExternalStep {
    FetchInput,
    RunPipeline { descriptor: PipelineDescriptor },
    UploadArtifact { key: String },
    PresignArtifact { key: String },
}

/// Everything one job did: the caller-facing result, the external effects
/// in the order they were ordered, and the supervision record if a
/// pipeline ran.
#[derive(Debug)]
pub struct JobRun {
    pub result: Result<LambdaResponse, JobError>,
    pub steps: Vec<ExternalStep>,
    pub supervision: Option<SupervisionReport>,
}

pub open spec fn success_message() -> Seq<char> {
    "Visualization completed successfully"@
}

pub open spec fn incomplete_message() -> Seq<char> {
    "pipeline ended without reaching end of stream"@
}

pub open spec fn start_refused_message() -> Seq<char> {
    "unable to start the pipeline"@
}

/// The resolution a valid request denotes.
pub open spec fn spec_resolution(args: Args) -> Resolution {
    Resolution {
        width: spec_width(args.resolution@) as u32,
        height: spec_height(args.resolution@) as u32,
    }
}

/// The mesh granularity a valid request denotes, under the coarse divisor.
pub open spec fn spec_mesh(args: Args) -> MeshSize {
    MeshSize {
        x: ceil_div(spec_width(args.resolution@), MESH_DIVISOR_COARSE as int) as u32,
        y: ceil_div(spec_height(args.resolution@), MESH_DIVISOR_COARSE as int) as u32,
    }
}

/// One whole job, as a function of the request and of what each external
/// collaborator did.
///
/// The sequence: validate, fetch the input, build the topology and run the
/// supervised pipeline, then — regardless of the pipeline's outcome —
/// upload whatever output exists and request a retrieval link; only then is
/// the outcome turned into the caller-facing result. A validation failure
/// orders no external effect at all; a fetch failure ends the job before
/// any pipeline is built; an upload or link failure ends it with a
/// transport error; otherwise the pipeline's outcome decides between
/// success, its failure message, a refused start, and the distinct
/// incomplete exit.
pub fn run_job(
    args: &Args,
    config: &JobConfig,
    input_path: &str,
    output_path: &str,
    fetch: TransferReply,
    engine: EngineRun,
    upload: TransferReply,
    presign: PresignReply,
) -> (r: JobRun)
    ensures
        !valid_args(*args) ==> (r.result matches Err(e) && e is Validation && r.steps@.len() == 0
            && r.supervision is None),
        valid_args(*args) ==> r.steps@.len() >= 1 && r.steps@[0] is FetchInput,
        valid_args(*args) ==> (fetch matches TransferReply::TransferFailed { message } ==> (
        r.result matches Err(e) && e matches JobError::Transport { message: m } && m == message
            && r.steps@.len() == 1 && r.supervision is None)),
        valid_args(*args) && fetch is Done ==> {
            &&& r.steps@.len() >= 3
            &&& r.steps@[1] matches ExternalStep::RunPipeline { descriptor }
                && descriptor_matches(
                descriptor.stages@,
                input_path@,
                output_path@,
                config.presets_dir@,
                normalized_duration(args.preset_duration),
                spec_resolution(*args),
                spec_mesh(*args),
            )
            &&& r.supervision matches Some(rep) && rep.outcome == supervise_spec(
                engine.start_ok,
                engine.events@,
            ).0 && rep.commands@ == supervise_spec(engine.start_ok, engine.events@).1
                && rep.consumed as int == supervise_spec(engine.start_ok, engine.events@).2
            &&& r.steps@[2] matches ExternalStep::UploadArtifact { key } && (exists|
                date: Seq<char>,
                id: Seq<char>,
            |
                key@ == artifact_key_spec(date, id) && id.len() == 36)
        },
        valid_args(*args) && fetch is Done ==> (upload
            matches TransferReply::TransferFailed { message } ==> (r.result matches Err(e) && e
            matches JobError::Transport { message: m } && m == message && r.steps@.len() == 3)),
        valid_args(*args) && fetch is Done && upload is Done ==> r.steps@.len() == 4 && ({
            &&& r.steps@[3] matches ExternalStep::PresignArtifact { key: k2 } && r.steps@[2]
                matches ExternalStep::UploadArtifact { key: k1 } && k1@ == k2@
        }),
        valid_args(*args) && fetch is Done && upload is Done ==> (presign
            matches PresignReply::PresignFailed { message } ==> (r.result matches Err(e) && e
            matches JobError::Transport { message: m } && m == message)),
        valid_args(*args) && fetch is Done && upload is Done ==> (presign
            matches PresignReply::Link { url } ==> {
            let outcome = supervise_spec(engine.start_ok, engine.events@).0;
            &&& outcome is Success ==> (r.result matches Ok(resp) && resp.message@
                == success_message() && resp.output_video_url == Some(url))
            &&& outcome matches PipelineOutcome::Failed { message } ==> (r.result matches Err(e)
                && e matches JobError::Engine { message: m } && m == message)
            &&& outcome is Incomplete ==> (r.result matches Err(e) && e
                matches JobError::Engine { message: m } && m@ == incomplete_message())
            &&& outcome is StartRefused ==> (r.result matches Err(e) && e
                matches JobError::Engine { message: m } && m@ == start_refused_message())
        }),
{
    let jr = match normalize_request(args) {
        Ok(jr) => jr,
        Err(e) => {
            return JobRun { result: Err(e), steps: Vec::new(), supervision: None };
        },
    };
    let mut steps: Vec<ExternalStep> = Vec::new();
    steps.push(ExternalStep::FetchInput);
    match fetch {
        TransferReply::TransferFailed { message } => {
            return JobRun {
                result: Err(JobError::Transport { message }),
                steps,
                supervision: None,
            };
        },
        TransferReply::Done => {},
    }
    let descriptor = build_topology(
        input_path,
        output_path,
        config.presets_dir.as_str(),
        jr.preset_duration,
        &jr.resolution,
        MESH_DIVISOR_COARSE,
    );
    proof {
        assert(jr.resolution == spec_resolution(*args));
    }
    steps.push(ExternalStep::RunPipeline { descriptor });
    let report = supervise(engine.start_ok, engine.events);
    let key = make_artifact_key();
    steps.push(ExternalStep::UploadArtifact { key: key.clone() });
    match upload {
        TransferReply::TransferFailed { message } => {
            return JobRun {
                result: Err(JobError::Transport { message }),
                steps,
                supervision: Some(report),
            };
        },
        TransferReply::Done => {},
    }
    steps.push(ExternalStep::PresignArtifact { key });
    let url = match presign {
        PresignReply::PresignFailed { message } => {
            return JobRun {
                result: Err(JobError::Transport { message }),
                steps,
                supervision: Some(report),
            };
        },
        PresignReply::Link { url } => url,
    };
    let result = match &report.outcome {
        PipelineOutcome::Success => Ok(
            LambdaResponse {
                message: String::from_str("Visualization completed successfully"),
                output_video_url: Some(url),
            },
        ),
        PipelineOutcome::Failed { message } => Err(JobError::Engine { message: message.clone() }),
        PipelineOutcome::Incomplete => Err(
            JobError::Engine {
                message: String::from_str("pipeline ended without reaching end of stream"),
            },
        ),
        PipelineOutcome::StartRefused => Err(
            JobError::Engine { message: String::from_str("unable to start the pipeline") },
        ),
    };
    JobRun { result, steps, supervision: Some(report) }
}

} // verus!
