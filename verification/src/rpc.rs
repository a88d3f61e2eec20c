//! The JSON-RPC 2.0 endpoint: requests, jobs and responses.
use crate::error::{prefixed, AppError, PhonemizerError};
use crate::handlers;
use crate::inference::{InferenceInputs, Speed};
use crate::json;
use crate::phonemizer;
use crate::phonemizer::{Phonemizer, PhonemizerBackend};
use crate::single;
use crate::text;
use crate::voices;
use vstd::prelude::*;

verus! {

#[verifier::external_type_specification]
#[verifier::external_body]
pub struct ExValue(serde_json::Value);

/// The methods of the endpoint.
#[derive(Debug, Clone, Copy, PartialEq, Eq)]
pub enum RpcMethod {
    Submit,
    Status,
    Unknown,
}

/// A request.
#[derive(Debug)]
pub struct RpcRequest {
    pub jsonrpc: String,
    pub id: serde_json::Value,
    pub method: RpcMethod,
    pub params: serde_json::Value,
}

/// A response: a result or an error.
#[derive(Debug)]
pub struct RpcResponse {
    pub jsonrpc: &'static str,
    pub id: serde_json::Value,
    /// The result, as JSON.
    pub result: Option<String>,
    pub error: Option<RpcError>,
}

/// The error of a response.
#[derive(Debug, PartialEq, Eq)]
pub struct RpcError {
    pub code: i32,
    pub message: String,
}

pub const ERR_INVALID_REQUEST: i32 = -32600;

pub const ERR_METHOD_NOT_FOUND: i32 = -32601;

pub const ERR_INVALID_PARAMS: i32 = -32602;

pub const ERR_SYNTHESIS_FAILED: i32 = -32000;

pub const ERR_JOB_NOT_FOUND: i32 = -32001;

impl RpcResponse {
    /// A response to the request `id` with this result.
    pub open spec fn succeeds(self, id: serde_json::Value, result: Seq<char>) -> bool {
        &&& self.jsonrpc@ == "2.0"@
        &&& self.id == id
        &&& self.result matches Some(r) && r@ == result
        &&& self.error is None
    }

    /// A response to the request `id` with this error.
    pub open spec fn fails(self, id: serde_json::Value, code: i32, message: Seq<char>) -> bool {
        &&& self.jsonrpc@ == "2.0"@
        &&& self.id == id
        &&& self.result is None
        &&& self.error matches Some(e) && e.code == code && e.message@ == message
    }
}

/// The response with a result.
pub fn ok(id: serde_json::Value, result: String) -> (response: RpcResponse)
    ensures
        response.succeeds(id, result@),
{
    RpcResponse { jsonrpc: "2.0", id, result: Some(result), error: None }
}

/// The response with an error.
pub fn err(id: serde_json::Value, code: i32, message: String) -> (response: RpcResponse)
    ensures
        response.fails(id, code, message@),
{
    RpcResponse { jsonrpc: "2.0", id, result: None, error: Some(RpcError { code, message }) }
}

/// What to do about a request.
#[derive(Debug)]
pub enum RpcStep {
    Reply(RpcResponse),
    Submit { id: serde_json::Value, params: serde_json::Value },
    Status { id: serde_json::Value, params: serde_json::Value },
}

/// Checks the protocol version and dispatches on the method.
pub fn rpc_handler(req: RpcRequest) -> (step: RpcStep)
    ensures
        if req.jsonrpc@ != "2.0"@ {
            step matches RpcStep::Reply(r) && r.fails(
                req.id,
                ERR_INVALID_REQUEST,
                "jsonrpc must be \"2.0\""@,
            )
        } else {
            match req.method {
                RpcMethod::Submit => step == (RpcStep::Submit { id: req.id, params: req.params }),
                RpcMethod::Status => step == (RpcStep::Status { id: req.id, params: req.params }),
                RpcMethod::Unknown => step matches RpcStep::Reply(r) && r.fails(
                    req.id,
                    ERR_METHOD_NOT_FOUND,
                    "method not found"@,
                ),
            }
        },
{
    if !text::same_text(req.jsonrpc.as_str(), "2.0") {
        return RpcStep::Reply(
            err(req.id, ERR_INVALID_REQUEST, "jsonrpc must be \"2.0\"".to_owned()),
        );
    }
    match req.method {
        RpcMethod::Submit => RpcStep::Submit { id: req.id, params: req.params },
        RpcMethod::Status => RpcStep::Status { id: req.id, params: req.params },
        RpcMethod::Unknown => RpcStep::Reply(
            err(req.id, ERR_METHOD_NOT_FOUND, "method not found".to_owned()),
        ),
    }
}

/// The parameters of a submission.
#[derive(Debug)]
pub struct SubmitParams {
    pub text: String,
    pub voice: String,
    pub speed: Speed,
    pub s3_key: String,
}

/// The speed of a submission that names none: one.
pub fn default_speed() -> (speed: Speed)
    ensures
        single::single(speed.bits) == single::Single::Finite(single::one() as int),
        speed.text@ == "1"@,
{
    proof {
        single::one_is_encoded();
    }
    Speed { bits: 0x3f80_0000, text: "1".to_owned() }
}

/// A submission that was accepted, under its job identifier.
#[derive(Debug)]
pub struct Submission {
    pub id: serde_json::Value,
    pub job_id: String,
    pub instance_id: String,
    pub params: SubmitParams,
}

/// What to do about a submission.
#[derive(Debug)]
pub enum SubmitStep {
    Reply(RpcResponse),
    Enqueue(Submission),
}

/// The step that a submission calls for, given the job identifier that it would get. Parameters
/// that could not be read, a blank text and a speed out of range are answered at once.
pub open spec fn submits(
    step: SubmitStep,
    id: serde_json::Value,
    parsed: Result<SubmitParams, String>,
    machine: Option<String>,
    job_id: Seq<char>,
) -> bool {
    match parsed {
        Err(e) => step matches SubmitStep::Reply(r) && r.fails(
            id,
            ERR_INVALID_PARAMS,
            "invalid params: "@ + e@,
        ),
        Ok(params) => {
            let speed = single::single(params.speed.bits);
            if text::is_blank(params.text@) {
                step matches SubmitStep::Reply(r) && r.fails(
                    id,
                    ERR_INVALID_PARAMS,
                    "bad request: "@ + "text must not be empty"@,
                )
            } else if single::at_most_zero(speed) || single::above(speed, 4) {
                step matches SubmitStep::Reply(r) && r.fails(
                    id,
                    ERR_INVALID_PARAMS,
                    "bad request: "@ + "speed must be in (0, 4]"@,
                )
            } else {
                &&& step matches SubmitStep::Enqueue(s)
                &&& s.id == id
                &&& s.params == params
                &&& s.job_id@ == job_id
                &&& s.instance_id@ == match machine {
                    Some(m) => m@,
                    None => "local"@,
                }
            }
        },
    }
}

/// Checks a submission and accepts it under the given job identifier.
pub fn accept(
    id: serde_json::Value,
    parsed: Result<SubmitParams, String>,
    machine: Option<String>,
    job_id: String,
) -> (step: SubmitStep)
    ensures
        submits(step, id, parsed, machine, job_id@),
{
    let params = match parsed {
        Ok(params) => params,
        Err(e) => {
            return SubmitStep::Reply(
                err(id, ERR_INVALID_PARAMS, prefixed("invalid params: ", e.as_str())),
            );
        },
    };
    match handlers::validate_synth(params.text.as_str(), &params.speed) {
        Ok(_) => {},
        Err(e) => {
            return SubmitStep::Reply(err(id, ERR_INVALID_PARAMS, e.to_string()));
        },
    }
    let instance_id = match machine {
        Some(m) => m,
        None => "local".to_owned(),
    };
    SubmitStep::Enqueue(Submission { id, job_id, instance_id, params })
}

/// A lower-case hexadecimal digit.
pub open spec fn is_hex(c: char) -> bool {
    '0' <= c <= '9' || 'a' <= c <= 'f'
}

/// A random (version 4) UUID in its hyphenated lower-case form.
pub open spec fn is_job_id(text: Seq<char>) -> bool {
    &&& text.len() == 36
    &&& forall|i: int|
        0 <= i < 36 ==> if i == 8 || i == 13 || i == 18 || i == 23 {
            #[trigger] text[i] == '-'
        } else {
            is_hex(text[i])
        }
    &&& text[14] == '4'
    &&& text[19] == '8' || text[19] == '9' || text[19] == 'a' || text[19] == 'b'
}

/// A fresh job identifier.
///
/// Calls `uuid::Uuid::new_v4`. Claims the form of its text; which of the UUIDs it is, is random.
#[verifier::external_body]
fn new_job_id() -> (job_id: String)
    ensures
        is_job_id(job_id@),
{
    uuid::Uuid::new_v4().to_string()
}

/// Checks a submission and accepts it under a fresh job identifier.
pub fn submit(
    id: serde_json::Value,
    parsed: Result<SubmitParams, String>,
    machine: Option<String>,
) -> (step: SubmitStep)
    ensures
        exists|job_id: Seq<char>|
            #[trigger] is_job_id(job_id) && submits(step, id, parsed, machine, job_id),
{
    let job_id = new_job_id();
    let ghost fresh = job_id@;
    let step = accept(id, parsed, machine, job_id);
    assert(is_job_id(fresh) && submits(step, id, parsed, machine, fresh));
    step
}

/// The key that a job's state is stored under.
pub fn job_key(job_id: &str) -> (key: String)
    ensures
        key@ == "tts:job:"@ + job_id@,
{
    prefixed("tts:job:", job_id)
}

/// How many seconds a job's state is kept: two hours.
pub const JOB_TTL_SECONDS: u64 = 7200;

/// The state of a job.
#[derive(Debug, PartialEq, Eq)]
pub enum JobState {
    Processing,
    Done,
    Failed(String),
}

impl JobState {
    /// The members of the state's JSON object, in the order of their names.
    pub open spec fn members(self) -> Seq<(Seq<char>, Seq<char>)> {
        match self {
            JobState::Processing => seq![("status"@, "processing"@)],
            JobState::Done => seq![("status"@, "done"@)],
            JobState::Failed(message) => seq![("error"@, message@), ("status"@, "failed"@)],
        }
    }
}

/// The JSON that a job's state is stored as.
pub fn set_job_status(state: &JobState) -> (stored: String)
    ensures
        stored@ == json::object_text(state.members()),
        json::compact_json(stored@) == Ok::<Seq<char>, Seq<char>>(stored@),
{
    let mut members: Vec<(&str, &str)> = Vec::new();
    match state {
        JobState::Processing => {
            members.push(("status", "processing"));
        },
        JobState::Done => {
            members.push(("status", "done"));
        },
        JobState::Failed(message) => {
            members.push(("error", message.as_str()));
            members.push(("status", "failed"));
        },
    }
    proof {
        reveal_strlit("status");
        reveal_strlit("error");
        assert(json::member_texts(members@) =~= state.members());
    }
    json::object(&members)
}

/// Answers a submission once the state `processing` was stored, or was not. The job is to be
/// started exactly where its parameters are handed out.
pub fn start_job(submission: Submission, stored: Result<(), String>) -> (answer: (
    RpcResponse,
    Option<SubmitParams>,
))
    ensures
        match stored {
            Err(e) => answer.0.fails(
                submission.id,
                ERR_SYNTHESIS_FAILED,
                "redis error: "@ + e@,
            ) && answer.1 is None,
            Ok(_) => answer.0.succeeds(
                submission.id,
                json::object_text(
                    seq![
                        ("instance_id"@, submission.instance_id@),
                        ("job_id"@, submission.job_id@),
                    ],
                ),
            ) && answer.1 == Some(submission.params),
        },
{
    match stored {
        Err(e) => (
            err(submission.id, ERR_SYNTHESIS_FAILED, prefixed("redis error: ", e.as_str())),
            None,
        ),
        Ok(_) => {
            let mut members: Vec<(&str, &str)> = Vec::new();
            members.push(("instance_id", submission.instance_id.as_str()));
            members.push(("job_id", submission.job_id.as_str()));
            proof {
                reveal_strlit("instance_id");
                reveal_strlit("job_id");
                assert(json::member_texts(members@) =~= seq![
                    ("instance_id"@, submission.instance_id@),
                    ("job_id"@, submission.job_id@),
                ]);
            }
            let result = json::object(&members);
            (ok(submission.id, result), Some(submission.params))
        },
    }
}

/// What happened to a job.
#[derive(Debug)]
pub enum JobEvent {
    Synthesized(Result<Vec<u8>, AppError>),
    Uploaded(Result<(), String>),
}

/// What to do next about a job: upload its MP3 file, or store its last state.
#[derive(Debug)]
pub enum JobStep {
    Upload(Vec<u8>),
    Finish(JobState),
}

/// `step` follows on `event`: what was synthesized is uploaded, what was uploaded is done, and what
/// failed has failed for that reason.
pub open spec fn advances(event: JobEvent, step: JobStep) -> bool {
    match event {
        JobEvent::Synthesized(Ok(mp3)) => step == JobStep::Upload(mp3),
        JobEvent::Synthesized(Err(e)) => step matches JobStep::Finish(JobState::Failed(m)) && m@
            == e.message(),
        JobEvent::Uploaded(Ok(_)) => step == JobStep::Finish(JobState::Done),
        JobEvent::Uploaded(Err(e)) => step matches JobStep::Finish(JobState::Failed(m)) && m@ == e@,
    }
}

/// The next step of a job.
pub fn advance_job(event: JobEvent) -> (step: JobStep)
    ensures
        advances(event, step),
{
    match event {
        JobEvent::Synthesized(Ok(mp3)) => JobStep::Upload(mp3),
        JobEvent::Synthesized(Err(e)) => JobStep::Finish(JobState::Failed(e.to_string())),
        JobEvent::Uploaded(Ok(_)) => JobStep::Finish(JobState::Done),
        JobEvent::Uploaded(Err(e)) => JobStep::Finish(JobState::Failed(e)),
    }
}

/// The parameters of a status request.
#[derive(Debug)]
pub struct StatusParams {
    pub job_id: String,
}

/// What to do about a status request.
#[derive(Debug)]
pub enum StatusStep {
    Reply(RpcResponse),
    Lookup { id: serde_json::Value, key: String },
}

/// The key to look a job's state up under, or the answer where the parameters could not be read.
pub fn status(id: serde_json::Value, parsed: Result<StatusParams, String>) -> (step: StatusStep)
    ensures
        match parsed {
            Err(e) => step matches StatusStep::Reply(r) && r.fails(
                id,
                ERR_INVALID_PARAMS,
                "invalid params: "@ + e@,
            ),
            Ok(params) => step matches StatusStep::Lookup { id: i, key } && i == id && key@
                == "tts:job:"@ + params.job_id@,
        },
{
    match parsed {
        Err(e) => StatusStep::Reply(
            err(id, ERR_INVALID_PARAMS, prefixed("invalid params: ", e.as_str())),
        ),
        Ok(params) => StatusStep::Lookup { id, key: job_key(params.job_id.as_str()) },
    }
}

/// The response to a status request whose lookup gave `found`: the stored state; or that there is
/// none, that it could not be looked up, or that it is not JSON.
pub open spec fn reports(
    response: RpcResponse,
    id: serde_json::Value,
    found: Result<Option<Seq<char>>, Seq<char>>,
) -> bool {
    match found {
        Err(e) => response.fails(id, ERR_SYNTHESIS_FAILED, "redis error: "@ + e),
        Ok(None) => response.fails(id, ERR_JOB_NOT_FOUND, "job not found or expired"@),
        Ok(Some(raw)) => match json::compact_json(raw) {
            Err(e) => response.fails(id, ERR_SYNTHESIS_FAILED, "invalid stored state: "@ + e),
            Ok(state) => response.succeeds(id, state),
        },
    }
}

/// Answers a status request with what looking the state up gave.
pub fn report_status(id: serde_json::Value, found: Result<Option<String>, String>) -> (response:
    RpcResponse)
    ensures
        reports(
            response,
            id,
            match found {
                Ok(Some(raw)) => Ok(Some(raw@)),
                Ok(None) => Ok(None),
                Err(e) => Err(e@),
            },
        ),
{
    let raw = match found {
        Ok(Some(raw)) => raw,
        Ok(None) => {
            return err(id, ERR_JOB_NOT_FOUND, "job not found or expired".to_owned());
        },
        Err(e) => {
            return err(id, ERR_SYNTHESIS_FAILED, prefixed("redis error: ", e.as_str()));
        },
    };
    let parsed = json::compact(raw.as_str());
    report_stored(id, parsed)
}

/// Answers a status request with what reading the stored state gave.
pub fn report_stored(id: serde_json::Value, parsed: Result<String, String>) -> (response:
    RpcResponse)
    ensures
        match parsed {
            Ok(state) => response.succeeds(id, state@),
            Err(e) => response.fails(id, ERR_SYNTHESIS_FAILED, "invalid stored state: "@ + e@),
        },
{
    match parsed {
        Ok(state) => ok(id, state),
        Err(e) => err(id, ERR_SYNTHESIS_FAILED, prefixed("invalid stored state: ", e.as_str())),
    }
}

/// A response carries the protocol's version and the identifier of its request, and either a result
/// or an error.
pub proof fn response_is_complete(
    response: RpcResponse,
    id: serde_json::Value,
    result: Seq<char>,
    code: i32,
    message: Seq<char>,
)
    requires
        response.succeeds(id, result) || response.fails(id, code, message),
    ensures
        response.jsonrpc@ == "2.0"@,
        response.id == id,
        response.result is Some <==> response.error is None,
{
}

/// A job state that was stored is what a status request is answered with.
pub proof fn stored_state_is_reported(
    state: JobState,
    stored: String,
    id: serde_json::Value,
    response: RpcResponse,
)
    requires
        stored@ == json::object_text(state.members()),
        json::compact_json(stored@) == Ok::<Seq<char>, Seq<char>>(stored@),
        reports(response, id, Ok(Some(stored@))),
    ensures
        response.succeeds(id, json::object_text(state.members())),
{
}

/// Jobs do not share a key.
pub proof fn job_keys_differ(a: Seq<char>, b: Seq<char>)
    requires
        a != b,
    ensures
        "tts:job:"@ + a != "tts:job:"@ + b,
{
    let prefix = "tts:job:"@;
    if prefix + a == prefix + b {
        assert((prefix + a).skip(prefix.len() as int) =~= a);
        assert((prefix + b).skip(prefix.len() as int) =~= b);
    }
}

/// A job that ends has done so by an upload that succeeded, or it has failed. It never goes back to
/// processing.
pub proof fn job_is_done_by_its_upload(event: JobEvent, step: JobStep)
    requires
        advances(event, step),
    ensures
        step == JobStep::Finish(JobState::Done) <==> event matches JobEvent::Uploaded(Ok(_)),
        step is Upload <==> event matches JobEvent::Synthesized(Ok(_)),
        step != JobStep::Finish(JobState::Processing),
{
}

/// A submission that was accepted reaches the inference: where its text could be phonemized and the
/// voice that the request named has a style, there are inference inputs, with at most 512 tokens, 256
/// style elements and the speed of the request.
pub proof fn accepted_job_reaches_inference<B: PhonemizerBackend>(
    submission: Submission,
    parsed: Result<SubmitParams, String>,
    machine: Option<String>,
    phonemizer: Phonemizer<B>,
    ipa: String,
    token_ids: Result<Vec<i64>, PhonemizerError>,
    bank: Map<Seq<char>, Seq<u32>>,
    inputs: Result<InferenceInputs, AppError>,
)
    requires
        submits(
            SubmitStep::Enqueue(submission),
            submission.id,
            parsed,
            machine,
            submission.job_id@,
        ),
        phonemizer.tokenizes(Ok(ipa), token_ids),
        bank.contains_key(submission.params.voice@),
        bank[submission.params.voice@].len() >= 256,
        handlers::plans(
            token_ids,
            bank,
            submission.params.voice@,
            submission.params.speed,
            inputs,
        ),
    ensures
        inputs matches Ok(i) && 2 <= i.token_ids@.len() <= 512 && i.style@.len() == 256,
        parsed matches Ok(params) && submission.params == params && inputs->Ok_0.speed
            == params.speed.bits,
{
    phonemizer::tokens_are_framed(
        phonemizer.mapper.vocab(),
        phonemizer.mapper.bos_id,
        phonemizer.mapper.eos_id,
        ipa@,
    );
    voices::style_is_complete(bank[submission.params.voice@], token_ids->Ok_0@.len());
}

} // verus!
