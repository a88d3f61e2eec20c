//! Requests: what they are checked for, what they become and what they are answered.
use crate::error::{AppError, InferenceError, PhonemizerError, VoiceError};
use crate::handlers::{plan_synthesis, run_synthesis, validate_synth};
use crate::inference::{
    InferenceInputs, SessionFailure, Speed, TensorData, TensorSpec, TtsEngine,
};
use crate::json;
use crate::phonemizer::{Phonemizer, PhonemizerBackend};
use crate::rpc;
use crate::rpc::{
    accept, advance_job, default_speed, err, job_key, ok, report_status, report_stored, rpc_handler,
    set_job_status, start_job, status, submit, JobEvent, JobState, JobStep, RpcMethod, RpcRequest,
    RpcResponse, RpcStep, StatusParams, StatusStep, Submission, SubmitParams, SubmitStep,
};
use crate::single;
use crate::text::blank;
use crate::voices::VoiceBank;
use vstd::prelude::*;

verus! {

/// A request to synthesize is refused where its text is blank; then where its speed is zero, negative
/// or above four, by the patterns of these numbers. Every other request passes, also one whose speed
/// is not a number.
pub proof fn requests_are_checked(
    text: &str,
    speed: Speed,
    is_blank: bool,
    checked: Result<(), AppError>,
)
    requires
        call_ensures(validate_synth, (text, &speed), checked),
        call_ensures(blank, (text,), is_blank),
    ensures
        is_blank ==> (checked matches Err(AppError::Validation(m)) && m@
            == "text must not be empty"@),
        !is_blank && (speed.bits == 0 || 0x4080_0000 < speed.bits <= 0x7f80_0000 || 0x8000_0000
            <= speed.bits <= 0xff80_0000) ==> (checked matches Err(AppError::Validation(m)) && m@
            == "speed must be in (0, 4]"@),
        !is_blank && (0 < speed.bits <= 0x4080_0000 || 0x7f80_0000 < speed.bits < 0x8000_0000
            || 0xff80_0000 < speed.bits) ==> checked is Ok,
{
    single::patterns_are_ordered(speed.bits);
}

/// A submission whose parameters could be read is accepted exactly where a request with its text and
/// speed passes. It keeps its parameters as they are, its request's identifier, the job identifier
/// and the name of the machine; one that is not accepted is answered with the reason.
pub proof fn accepted_submissions_are_kept(
    id: serde_json::Value,
    params: SubmitParams,
    machine: Option<String>,
    job_id: String,
    step: SubmitStep,
    text: &str,
    checked: Result<(), AppError>,
)
    requires
        call_ensures(accept, (id, Ok(params), machine, job_id), step),
        text@ == params.text@,
        call_ensures(validate_synth, (text, &params.speed), checked),
    ensures
        match step {
            SubmitStep::Enqueue(s) => {
                &&& checked is Ok
                &&& s.params == params
                &&& s.id == id
                &&& s.job_id@ == job_id@
                &&& machine matches Some(m) ==> s.instance_id@ == m@
                &&& machine is None ==> s.instance_id@ == "local"@
            },
            SubmitStep::Reply(r) => {
                &&& checked matches Err(AppError::Validation(m)) && r.error matches Some(e)
                    && e.message@ == "bad request: "@ + m@
                &&& r.jsonrpc@ == "2.0"@ && r.id == id && r.result is None
                &&& r.error->Some_0.code == -32602
            },
        },
{
}

/// A submission whose parameters could not be read is answered with why.
pub proof fn unread_submissions_are_refused(
    id: serde_json::Value,
    reason: String,
    machine: Option<String>,
    job_id: String,
    step: SubmitStep,
)
    requires
        call_ensures(accept, (id, Err(reason), machine, job_id), step),
    ensures
        step matches SubmitStep::Reply(r) && r.jsonrpc@ == "2.0"@ && r.id == id && r.result is None
            && r.error is Some && r.error->Some_0.code == -32602 && r.error->Some_0.message@
            == "invalid params: "@ + reason@,
{
}

/// A submission gets a job identifier of its own: the lower-case text of a random UUID. Apart from
/// that it fares as one that comes with a job identifier.
pub proof fn submissions_get_an_identifier(
    id: serde_json::Value,
    parsed: Result<SubmitParams, String>,
    machine: Option<String>,
    step: SubmitStep,
)
    requires
        call_ensures(submit, (id, parsed, machine), step),
    ensures
        match step {
            SubmitStep::Enqueue(s) => {
                &&& parsed is Ok && s.params == parsed->Ok_0
                &&& s.id == id
                &&& machine matches Some(m) ==> s.instance_id@ == m@
                &&& machine is None ==> s.instance_id@ == "local"@
                &&& s.job_id@.len() == 36
                &&& s.job_id@[14] == '4'
                &&& forall|i: int|
                    0 <= i < 36 ==> if i == 8 || i == 13 || i == 18 || i == 23 {
                        #[trigger] s.job_id@[i] == '-'
                    } else {
                        '0' <= s.job_id@[i] <= '9' || 'a' <= s.job_id@[i] <= 'f'
                    }
            },
            SubmitStep::Reply(r) => {
                &&& r.jsonrpc@ == "2.0"@ && r.id == id && r.result is None && r.error is Some
                &&& r.error->Some_0.code == -32602
                &&& parsed matches Err(e) ==> r.error->Some_0.message@ == "invalid params: "@ + e@
            },
        },
        forall|text: &str, checked: Result<(), AppError>|
            parsed is Ok && text@ == parsed->Ok_0.text@ && #[trigger] call_ensures(
                validate_synth,
                (text, &parsed->Ok_0.speed),
                checked,
            ) ==> (step is Enqueue <==> checked is Ok),
{
    let job_id = choose|job_id: Seq<char>| #[trigger]
        rpc::is_job_id(job_id) && rpc::submits(step, id, parsed, machine, job_id);
    assert(rpc::is_job_id(job_id));
}

/// The speed of a submission that names none is the number one, reported as `1`.
pub proof fn default_speed_is_one(speed: Speed)
    requires
        call_ensures(default_speed, (), speed),
    ensures
        speed.bits == 0x3f80_0000,
        speed.text@ == "1"@,
{
    single::one_is_encoded();
    vstd::arithmetic::power2::lemma_pow2_pos(149);
    let bits = speed.bits as nat;
    if bits < 0x3f80_0000 {
        single::units_are_ordered(bits, 0x3f80_0000);
    } else if bits < 0x8000_0000 && bits > 0x3f80_0000 {
        single::units_are_ordered(0x3f80_0000, bits);
    }
}

/// A request of another version is refused, whatever its method; a submission and a status request are
/// passed on with their identifier and parameters; any other method is refused.
pub proof fn requests_are_dispatched(req: RpcRequest, step: RpcStep)
    requires
        call_ensures(rpc_handler, (req,), step),
    ensures
        match step {
            RpcStep::Submit { id, params } => req.jsonrpc@ == "2.0"@ && req.method
                == RpcMethod::Submit && id == req.id && params == req.params,
            RpcStep::Status { id, params } => req.jsonrpc@ == "2.0"@ && req.method
                == RpcMethod::Status && id == req.id && params == req.params,
            RpcStep::Reply(r) => {
                &&& r.jsonrpc@ == "2.0"@ && r.id == req.id && r.result is None && r.error is Some
                &&& req.jsonrpc@ != "2.0"@ ==> r.error->Some_0.code == -32600
                    && r.error->Some_0.message@ == "jsonrpc must be \"2.0\""@
                &&& req.jsonrpc@ == "2.0"@ ==> req.method == RpcMethod::Unknown
                    && r.error->Some_0.code == -32601 && r.error->Some_0.message@
                    == "method not found"@
            },
        },
{
}

/// A response has the version and the identifier, and either the result or the error.
pub proof fn responses_are_made(
    id: serde_json::Value,
    result: String,
    code: i32,
    message: String,
    success: RpcResponse,
    failure: RpcResponse,
)
    requires
        call_ensures(ok, (id, result), success),
        call_ensures(err, (id, code, message), failure),
    ensures
        success.jsonrpc@ == "2.0"@ && success.id == id && success.error is None,
        success.result is Some && success.result->Some_0@ == result@,
        failure.jsonrpc@ == "2.0"@ && failure.id == id && failure.result is None,
        failure.error is Some && failure.error->Some_0.code == code && failure.error->Some_0.message@
            == message@,
{
}

/// A job is looked up under the key that its state is stored under.
pub proof fn jobs_are_found_again(
    id: serde_json::Value,
    params: StatusParams,
    job_id: &str,
    key: String,
    step: StatusStep,
)
    requires
        call_ensures(job_key, (job_id,), key),
        call_ensures(status, (id, Ok(params)), step),
        params.job_id@ == job_id@,
    ensures
        key@ == "tts:job:"@ + job_id@,
        step matches StatusStep::Lookup { id: i, key: k } && i == id && k@ == key@,
{
}

/// Jobs with different identifiers are stored under different keys.
pub proof fn jobs_have_keys_of_their_own(a: &str, b: &str, a_key: String, b_key: String)
    requires
        call_ensures(job_key, (a,), a_key),
        call_ensures(job_key, (b,), b_key),
        a_key@ == b_key@,
    ensures
        a@ == b@,
{
    if a@ != b@ {
        rpc::job_keys_differ(a@, b@);
    }
}

/// A status request whose parameters could not be read is answered with why.
pub proof fn unread_status_requests_are_refused(
    id: serde_json::Value,
    reason: String,
    step: StatusStep,
)
    requires
        call_ensures(status, (id, Err(reason)), step),
    ensures
        step matches StatusStep::Reply(r) && r.jsonrpc@ == "2.0"@ && r.id == id && r.result is None
            && r.error is Some && r.error->Some_0.code == -32602 && r.error->Some_0.message@
            == "invalid params: "@ + reason@,
{
}

/// The state that was stored is reported as it was stored.
pub proof fn stored_states_come_back(
    state: JobState,
    stored: String,
    id: serde_json::Value,
    response: RpcResponse,
)
    requires
        call_ensures(set_job_status, (&state,), stored),
        call_ensures(report_status, (id, Ok(Some(stored))), response),
    ensures
        response.jsonrpc@ == "2.0"@ && response.id == id && response.error is None,
        response.result is Some && response.result->Some_0@ == stored@,
{
}

/// A lookup that failed, or found nothing, or found what is not JSON is answered with that; JSON that
/// was found is answered in compact form.
pub proof fn lookups_are_reported(
    id: serde_json::Value,
    found: Result<Option<String>, String>,
    response: RpcResponse,
)
    requires
        call_ensures(report_status, (id, found), response),
    ensures
        response.jsonrpc@ == "2.0"@ && response.id == id,
        match found {
            Err(reason) => response.result is None && response.error is Some
                && response.error->Some_0.code == -32000 && response.error->Some_0.message@
                == "redis error: "@ + reason@,
            Ok(None) => response.result is None && response.error is Some
                && response.error->Some_0.code == -32001 && response.error->Some_0.message@
                == "job not found or expired"@,
            Ok(Some(raw)) => match json::compact_json(raw@) {
                Ok(state) => response.error is None && response.result is Some
                    && response.result->Some_0@ == state,
                Err(reason) => response.result is None && response.error is Some
                    && response.error->Some_0.code == -32000 && response.error->Some_0.message@
                    == "invalid stored state: "@ + reason,
            },
        },
{
}

/// What reading a stored state gave is reported.
pub proof fn read_states_are_reported(
    id: serde_json::Value,
    parsed: Result<String, String>,
    response: RpcResponse,
)
    requires
        call_ensures(report_stored, (id, parsed), response),
    ensures
        response.jsonrpc@ == "2.0"@ && response.id == id,
        match parsed {
            Ok(state) => response.error is None && response.result is Some
                && response.result->Some_0@ == state@,
            Err(reason) => response.result is None && response.error is Some
                && response.error->Some_0.code == -32000 && response.error->Some_0.message@
                == "invalid stored state: "@ + reason@,
        },
{
}

/// What was synthesized is uploaded, all of it; what was uploaded is done; what failed has failed
/// with the text of its error.
pub proof fn jobs_advance(event: JobEvent, step: JobStep)
    requires
        call_ensures(advance_job, (event,), step),
    ensures
        match event {
            JobEvent::Synthesized(Ok(mp3)) => step matches JobStep::Upload(bytes) && bytes@ == mp3@,
            JobEvent::Synthesized(Err(e)) => step matches JobStep::Finish(JobState::Failed(m))
                && forall|text: String| #[trigger]
                call_ensures(AppError::to_string, (&e,), text) ==> m@ == text@,
            JobEvent::Uploaded(Ok(_)) => step == JobStep::Finish(JobState::Done),
            JobEvent::Uploaded(Err(e)) => step matches JobStep::Finish(JobState::Failed(m)) && m@
                == e@,
        },
{
}

/// A job is started exactly where its state could be stored: with the parameters of its submission,
/// as they are. Its submission is answered then, and refused where the state could not be stored.
pub proof fn jobs_start_once_stored(
    submission: Submission,
    stored: Result<(), String>,
    answer: (RpcResponse, Option<SubmitParams>),
)
    requires
        call_ensures(start_job, (submission, stored), answer),
    ensures
        answer.0.jsonrpc@ == "2.0"@ && answer.0.id == submission.id,
        match stored {
            Ok(_) => answer.1 == Some(submission.params) && answer.0.error is None
                && answer.0.result is Some,
            Err(reason) => answer.1 is None && answer.0.result is None && answer.0.error is Some
                && answer.0.error->Some_0.code == -32000 && answer.0.error->Some_0.message@
                == "redis error: "@ + reason@,
        },
{
}

/// There must be tokens, a style of 256 elements and a speed that is neither zero nor negative; then
/// the inputs of an inference are these, as they are.
pub proof fn inputs_are_checked(
    engine: TtsEngine,
    token_ids: &[i64],
    style: &[u32],
    speed: Speed,
    inputs: Result<InferenceInputs, InferenceError>,
)
    requires
        call_ensures(TtsEngine::synthesize, (&engine, token_ids, style, &speed), inputs),
    ensures
        match inputs {
            Ok(i) => {
                &&& i.token_ids@ == token_ids@ && i.style@ == style@ && i.speed == speed.bits
                &&& token_ids@.len() > 0 && style@.len() == 256
                &&& 0 < speed.bits < 0x8000_0000 || 0xff80_0000 < speed.bits
            },
            Err(InferenceError::EmptyTokenIds) => token_ids@.len() == 0,
            Err(InferenceError::StyleLength(n)) => token_ids@.len() > 0 && n == style@.len() && n
                != 256,
            Err(InferenceError::NonPositiveSpeed(s)) => {
                &&& token_ids@.len() > 0 && style@.len() == 256
                &&& speed.bits == 0 || 0x8000_0000 <= speed.bits <= 0xff80_0000
                &&& s.bits == speed.bits && s.text@ == speed.text@
            },
            Err(_) => false,
        },
{
    single::patterns_are_ordered(speed.bits);
}

/// The inputs of a synthesis are the tokens, the voice's style for their number, and the speed. What
/// fails first, of the phonemizer, the voice and the inputs, is reported.
pub proof fn synthesis_is_planned(
    token_ids: Result<Vec<i64>, PhonemizerError>,
    bank: VoiceBank,
    engine: TtsEngine,
    voice: &str,
    speed: Speed,
    inputs: Result<InferenceInputs, AppError>,
    style: Result<Vec<u32>, VoiceError>,
)
    requires
        call_ensures(plan_synthesis, (token_ids, &bank, &engine, voice, &speed), inputs),
        token_ids matches Ok(ids) ==> call_ensures(
            VoiceBank::get_style,
            (&bank, voice, ids.len()),
            style,
        ),
    ensures
        match token_ids {
            Err(e) => inputs == Err::<InferenceInputs, AppError>(AppError::Phonemizer(e)),
            Ok(ids) => match style {
                Err(e) => inputs matches Err(AppError::Voice(f)) && f@ == e@,
                Ok(row) => match inputs {
                    Ok(i) => {
                        &&& i.token_ids@ == ids@ && i.style@ == row@ && i.speed == speed.bits
                        &&& ids@.len() > 0
                        &&& 0 < speed.bits < 0x8000_0000 || 0xff80_0000 < speed.bits
                    },
                    Err(AppError::Inference(InferenceError::EmptyTokenIds)) => ids@.len() == 0,
                    Err(AppError::Inference(InferenceError::NonPositiveSpeed(s))) => {
                        &&& ids@.len() > 0
                        &&& speed.bits == 0 || 0x8000_0000 <= speed.bits <= 0xff80_0000
                        &&& s.bits == speed.bits && s.text@ == speed.text@
                    },
                    Err(_) => false,
                },
            },
        },
{
    single::patterns_are_ordered(speed.bits);
}

/// A text is synthesized from its own tokens: the inputs are planned as those of what phonemizing
/// the text gave.
pub proof fn synthesis_is_of_the_text<B: PhonemizerBackend>(
    phonemizer: Phonemizer<B>,
    bank: VoiceBank,
    engine: TtsEngine,
    text: &str,
    voice: &str,
    speed: Speed,
    inputs: Result<InferenceInputs, AppError>,
) -> (ipa: Result<String, PhonemizerError>)
    requires
        call_ensures(
            run_synthesis::<B>,
            (&phonemizer, &bank, &engine, text, voice, &speed),
            inputs,
        ),
    ensures
        phonemizer.backend.may_return(text@, ipa),
        forall|tokens: Result<Vec<i64>, PhonemizerError>, style: Result<Vec<u32>, VoiceError>|
            #[trigger] call_ensures(Phonemizer::<B>::tokens_of, (&phonemizer, ipa), tokens)
                && tokens is Ok && #[trigger] call_ensures(
                VoiceBank::get_style,
                (&bank, voice, tokens->Ok_0.len()),
                style,
            ) && inputs is Ok ==> style is Ok && inputs->Ok_0.token_ids@ == tokens->Ok_0@
                && inputs->Ok_0.style@ == style->Ok_0@,
        inputs matches Ok(i) ==> i.speed == speed.bits,
        ipa matches Err(e) ==> inputs == Err::<InferenceInputs, AppError>(AppError::Phonemizer(e)),
        ipa is Ok && bank@.contains_key(voice@) && bank@[voice@].len() >= 256 && (0 < speed.bits
            < 0x8000_0000 || 0xff80_0000 < speed.bits) ==> inputs is Ok,
        ipa is Ok && !bank@.contains_key(voice@) ==> (inputs matches Err(
            AppError::Voice(VoiceError::UnknownVoice { name }),
        ) && name@ == voice@),
        ipa is Ok && bank@.contains_key(voice@) && bank@[voice@].len() < 256 ==> (
        inputs matches Err(AppError::Voice(VoiceError::ZeroStyles { name })) && name@ == voice@),
        ipa is Ok && bank@.contains_key(voice@) && bank@[voice@].len() >= 256 && (speed.bits == 0
            || 0x8000_0000 <= speed.bits <= 0xff80_0000) ==> (inputs matches Err(
            AppError::Inference(InferenceError::NonPositiveSpeed(s)),
        ) && s.bits == speed.bits && s.text@ == speed.text@),
{
    single::patterns_are_ordered(speed.bits);
    let (ipa, token_ids) = choose|
        ipa: Result<String, PhonemizerError>,
        token_ids: Result<Vec<i64>, PhonemizerError>,
    |
        {
            &&& #[trigger] phonemizer.backend.may_return(text@, ipa)
            &&& #[trigger] phonemizer.tokenizes(ipa, token_ids)
            &&& crate::handlers::plans(token_ids, bank@, voice@, speed, inputs)
        };
    ipa
}

/// The model takes the tokens, the style and the speed, each under its name: one row of tokens, one
/// row of 256 style elements and one number.
pub proof fn tensors_hold_the_inputs(inputs: InferenceInputs, tensors: Vec<TensorSpec>)
    requires
        call_ensures(InferenceInputs::tensors, (inputs,), tensors),
    ensures
        tensors@.len() == 3,
        tensors@[0].name@ == "input_ids"@,
        tensors@[0].shape@ == seq![1usize, inputs.token_ids.len()],
        tensors@[0].data matches TensorData::Integers(ids) && ids@ == inputs.token_ids@,
        tensors@[1].name@ == "style"@,
        tensors@[1].shape@ == seq![1usize, 256usize],
        tensors@[1].data matches TensorData::Singles(style) && style@ == inputs.style@,
        tensors@[2].name@ == "speed"@,
        tensors@[2].shape@ == seq![1usize],
        tensors@[2].data matches TensorData::Singles(speed) && speed@ == seq![inputs.speed],
{
}

/// A pool is made where every session was; all of them are idle then. Else the first failure is
/// reported, with the path of the model where that could not be loaded.
pub proof fn pool_is_made_of_its_sessions(
    model_path: &str,
    pool_size: usize,
    attempts: Vec<Result<(), SessionFailure>>,
    engine: Result<TtsEngine, InferenceError>,
) -> (i: int)
    requires
        call_ensures(TtsEngine::load, (model_path, pool_size, attempts), engine),
        0 < pool_size,
        pool_size <= attempts@.len() || exists|j: int|
            0 <= j < attempts@.len() && #[trigger] attempts@[j] is Err,
    ensures
        0 <= i <= pool_size,
        forall|j: int| 0 <= j < i ==> #[trigger] attempts@[j] is Ok,
        i == pool_size ==> engine is Ok && engine->Ok_0.capacity() == pool_size && forall|s: usize|
            !#[trigger] engine->Ok_0.is_out(s),
        i < pool_size ==> i < attempts@.len() && match attempts@[i] {
            Ok(_) => false,
            Err(SessionFailure::Setup(reason)) => engine matches Err(InferenceError::OrtSetup(m))
                && m@ == reason@,
            Err(SessionFailure::Model(reason)) => engine matches Err(
                InferenceError::ModelLoad { path, message },
            ) && path@ == model_path@ && message@ == reason@,
        },
{
    let n = if pool_size <= attempts@.len() {
        pool_size as nat
    } else {
        attempts@.len()
    };
    let i = first_failed(attempts@, n);
    if i < n {
        failure_stands(attempts@, n, pool_size as nat);
    } else if n < pool_size {
        let j = choose|j: int| 0 <= j < attempts@.len() && #[trigger] attempts@[j] is Err;
        assert(attempts@[j] is Ok);
    }
    if i == pool_size {
        let idle = engine->Ok_0.idle();
        assert forall|s: usize| !#[trigger] engine->Ok_0.is_out(s) by {
            if s < pool_size {
                assert(idle[s as int] == s);
            }
        }
    }
    i
}

proof fn failure_stands(attempts: Seq<Result<(), SessionFailure>>, n: nat, m: nat)
    requires
        n <= m,
        crate::inference::first_failure(attempts, n) is Some,
    ensures
        crate::inference::first_failure(attempts, m) == crate::inference::first_failure(
            attempts,
            n,
        ),
    decreases m,
{
    if n < m {
        failure_stands(attempts, n, (m - 1) as nat);
    }
}

proof fn first_failed(attempts: Seq<Result<(), SessionFailure>>, n: nat) -> (i: int)
    requires
        n <= attempts.len(),
    ensures
        0 <= i <= n,
        forall|j: int| 0 <= j < i ==> #[trigger] attempts[j] is Ok,
        i < n ==> attempts[i] is Err && crate::inference::first_failure(attempts, n) == Some(
            attempts[i]->Err_0,
        ),
        i == n ==> crate::inference::first_failure(attempts, n) is None,
    decreases n,
{
    if n == 0 {
        0
    } else {
        let i = first_failed(attempts, (n - 1) as nat);
        if i < n - 1 {
            i
        } else if attempts[n - 1] is Ok {
            n as int
        } else {
            n - 1
        }
    }
}

/// A session is handed out where one is idle, and only then.
pub proof fn nobody_waits_for_an_idle_session(
    before: TtsEngine,
    after: TtsEngine,
    taken: Option<usize>,
    session: usize,
)
    requires
        before.wf(),
        before.checks_out(after, taken),
        session < before.capacity(),
    ensures
        taken is None ==> before.is_out(session) && after.is_out(session),
        taken matches Some(t) ==> t < before.capacity() && !before.is_out(t) && after.is_out(t),
        after.capacity() == before.capacity(),
{
    if let Some(t) = taken {
        crate::inference::checkout_takes_out(before, after, t);
    }
}

/// Sessions are handed out in turn: one that was given back is not handed out while another that was
/// idle before it still is.
pub proof fn sessions_take_turns(
    before: TtsEngine,
    between: TtsEngine,
    after: TtsEngine,
    given: usize,
    other: usize,
)
    requires
        before.wf(),
        before.is_out(given),
        before.gives_back(between, given),
        between.checks_out(after, Some(given)),
        other < before.capacity(),
    ensures
        before.is_out(other),
{
    if before.idle().len() > 0 {
        assert(before.idle().contains(before.idle()[0]));
        assert(between.idle()[0] == before.idle()[0]);
    }
}

/// Checking a session out takes one that was idle, if any was, and leaves the others as they were.
pub proof fn checkout_takes_an_idle_session(engine: &mut TtsEngine, taken: Option<usize>)
    requires
        old(engine).wf(),
        call_ensures(TtsEngine::checkout, (engine,), taken),
    ensures
        final(engine).capacity() == old(engine).capacity(),
        taken is None ==> forall|s: usize|
            s < old(engine).capacity() ==> #[trigger] old(engine).is_out(s) && final(engine).is_out(
                s,
            ),
        taken matches Some(t) ==> t < old(engine).capacity() && !old(engine).is_out(t)
            && final(engine).is_out(t) && forall|s: usize|
            s != t ==> #[trigger] final(engine).is_out(s) == old(engine).is_out(s),
{
    if let Some(t) = taken {
        crate::inference::checkout_takes_out(*old(engine), *final(engine), t);
    }
}

/// Giving a session back leaves it idle, and the others as they were.
pub proof fn giving_back_leaves_idle(engine: &mut TtsEngine, session: usize)
    requires
        call_ensures(TtsEngine::give_back, (engine, session), ()),
    ensures
        final(engine).capacity() == old(engine).capacity(),
        !final(engine).is_out(session),
        forall|s: usize|
            s != session ==> #[trigger] final(engine).is_out(s) == old(engine).is_out(s),
{
    crate::inference::give_back_returns(*old(engine), *final(engine), session);
}

/// A session that was given back is the next to be handed out only where every other one was out.
pub proof fn given_back_session_waits_its_turn(
    engine: &mut TtsEngine,
    later: &mut TtsEngine,
    session: usize,
    other: usize,
)
    requires
        old(engine).wf(),
        old(engine).is_out(session),
        call_ensures(TtsEngine::give_back, (engine, session), ()),
        *old(later) == *final(engine),
        call_ensures(TtsEngine::checkout, (later,), Some(session)),
        other < old(engine).capacity(),
    ensures
        old(engine).is_out(other),
{
    sessions_take_turns(*old(engine), *final(engine), *final(later), session, other);
}

/// A character of a JSON string stands for itself, but for quotation marks, backslashes and control
/// characters: these follow a backslash, by a letter or by their number in four digits.
pub proof fn special_characters_are_escaped(c: char)
    ensures
        ({
            let e = json::escaped(seq![c]);
            if c == '"' || c == '\\' {
                e == seq!['\\', c]
            } else if c == '\u{8}' {
                e == seq!['\\', 'b']
            } else if c == '\t' {
                e == seq!['\\', 't']
            } else if c == '\n' {
                e == seq!['\\', 'n']
            } else if c == '\u{c}' {
                e == seq!['\\', 'f']
            } else if c == '\r' {
                e == seq!['\\', 'r']
            } else if c <= '\u{1f}' {
                &&& e.len() == 6 && e.take(4) == seq!['\\', 'u', '0', '0']
                &&& e[4] == '0' || e[4] == '1'
                &&& '0' <= e[5] <= '9' || 'a' <= e[5] <= 'f'
                &&& c as int == 16 * (e[4] as int - '0' as int) + (if e[5] <= '9' {
                    e[5] as int - '0' as int
                } else {
                    e[5] as int - 'a' as int + 10
                })
            } else {
                e == seq![c]
            }
        }),
{
    assert(seq![c].drop_last() =~= Seq::empty());
    assert(json::escaped(seq![c].drop_last()) =~= Seq::empty());
    assert(json::escaped(seq![c]) =~= json::escaped_char(c));
    assert(json::escaped_char(c).take(4) =~= seq!['\\', 'u', '0', '0'] || json::escaped_char(c).len()
        < 6);
}

/// Texts behind one another are escaped one behind the other.
pub proof fn escapes_follow_the_text(head: Seq<char>, tail: Seq<char>)
    ensures
        json::escaped(head + tail) == json::escaped(head) + json::escaped(tail),
    decreases tail.len(),
{
    if tail.len() == 0 {
        assert(head + tail =~= head);
    } else {
        escapes_follow_the_text(head, tail.drop_last());
        assert((head + tail).drop_last() =~= head + tail.drop_last());
    }
    assert(json::escaped(head + tail) =~= json::escaped(head) + json::escaped(tail));
}

/// A text without quotation marks, backslashes and control characters is not changed.
pub proof fn plain_text_stays(text: Seq<char>)
    requires
        forall|i: int|
            0 <= i < text.len() ==> ' ' <= #[trigger] text[i] && text[i] != '"' && text[i] != '\\',
    ensures
        json::escaped(text) == text,
    decreases text.len(),
{
    if text.len() == 0 {
        assert(json::escaped(text) =~= text);
    } else {
        let head = text.drop_last();
        assert forall|i: int| 0 <= i < head.len() implies ' ' <= #[trigger] head[i] && head[i]
            != '"' && head[i] != '\\' by {
            assert(head[i] == text[i]);
        }
        plain_text_stays(head);
        assert(json::escaped(text) =~= text);
    }
}

proof fn names_stay()
    ensures
        json::escaped("status"@) == "status"@,
        json::escaped("error"@) == "error"@,
        json::escaped("instance_id"@) == "instance_id"@,
        json::escaped("job_id"@) == "job_id"@,
        json::escaped("processing"@) == "processing"@,
        json::escaped("done"@) == "done"@,
        json::escaped("failed"@) == "failed"@,
{
    reveal_strlit("status");
    reveal_strlit("error");
    reveal_strlit("instance_id");
    reveal_strlit("job_id");
    reveal_strlit("processing");
    reveal_strlit("done");
    reveal_strlit("failed");
    plain_text_stays("status"@);
    plain_text_stays("error"@);
    plain_text_stays("instance_id"@);
    plain_text_stays("job_id"@);
    plain_text_stays("processing"@);
    plain_text_stays("done"@);
    plain_text_stays("failed"@);
}

/// The text of an object with one member.
proof fn object_of_one(name: Seq<char>, text: Seq<char>)
    ensures
        json::members_text(seq![(name, text)]) == seq!['"'] + json::escaped(name) + seq!['"', ':', '"']
            + json::escaped(text) + seq!['"'],
{
    let members = seq![(name, text)];
    assert(members.last() == (name, text));
    assert(json::members_text(members) =~= seq!['"'] + json::escaped(name) + seq!['"', ':', '"']
        + json::escaped(text) + seq!['"']);
}

/// The text of an object with two members.
proof fn object_of_two(a: (Seq<char>, Seq<char>), b: (Seq<char>, Seq<char>))
    ensures
        json::members_text(seq![a, b]) == json::members_text(seq![a]) + seq![','] + json::members_text(
            seq![b],
        ),
{
    let members = seq![a, b];
    assert(members.drop_last() =~= seq![a]);
    object_of_one(b.0, b.1);
    assert(members.last() == b);
    assert(json::members_text(members) =~= json::members_text(seq![a]) + seq![',']
        + json::members_text(seq![b]));
}

/// A job's state is stored as an object with its status, and a failure also with its message.
pub proof fn states_are_stored(state: JobState, stored: String)
    requires
        call_ensures(set_job_status, (&state,), stored),
    ensures
        match state {
            JobState::Processing => stored@ == "{\"status\":\"processing\"}"@,
            JobState::Done => stored@ == "{\"status\":\"done\"}"@,
            JobState::Failed(message) => stored@ == "{\"error\":\""@ + json::escaped(message@)
                + "\",\"status\":\"failed\"}"@,
        },
{
    names_stay();
    match state {
        JobState::Processing => {
            reveal_strlit("status");
            reveal_strlit("processing");
            reveal_strlit("{\"status\":\"processing\"}");
            object_of_one("status"@, "processing"@);
            assert(stored@ =~= "{\"status\":\"processing\"}"@);
        },
        JobState::Done => {
            reveal_strlit("status");
            reveal_strlit("done");
            reveal_strlit("{\"status\":\"done\"}");
            object_of_one("status"@, "done"@);
            assert(stored@ =~= "{\"status\":\"done\"}"@);
        },
        JobState::Failed(message) => {
            reveal_strlit("status");
            reveal_strlit("error");
            reveal_strlit("failed");
            reveal_strlit("{\"error\":\"");
            reveal_strlit("\",\"status\":\"failed\"}");
            object_of_one("error"@, message@);
            object_of_one("status"@, "failed"@);
            object_of_two(("error"@, message@), ("status"@, "failed"@));
            assert(seq!['{', '"'] + "error"@ + seq!['"', ':', '"'] =~= "{\"error\":\""@);
            assert(seq!['"', ',', '"'] + "status"@ + seq!['"', ':', '"'] + "failed"@ + seq!['"', '}']
                =~= "\",\"status\":\"failed\"}"@);
            assert(stored@ =~= (seq!['{', '"'] + "error"@ + seq!['"', ':', '"']) + json::escaped(
                message@,
            ) + (seq!['"', ',', '"'] + "status"@ + seq!['"', ':', '"'] + "failed"@ + seq!['"', '}']));
        },
    }
}

/// A submission whose job was started is answered with the machine and the job identifier.
pub proof fn started_jobs_are_named(
    submission: Submission,
    answer: (RpcResponse, Option<SubmitParams>),
)
    requires
        call_ensures(start_job, (submission, Ok(())), answer),
    ensures
        answer.0.result matches Some(result) && result@ == "{\"instance_id\":\""@ + json::escaped(
            submission.instance_id@,
        ) + "\",\"job_id\":\""@ + json::escaped(submission.job_id@) + "\"}"@,
{
    names_stay();
    reveal_strlit("instance_id");
    reveal_strlit("job_id");
    reveal_strlit("{\"instance_id\":\"");
    reveal_strlit("\",\"job_id\":\"");
    reveal_strlit("\"}");
    let machine = submission.instance_id@;
    let job = submission.job_id@;
    object_of_one("instance_id"@, machine);
    object_of_one("job_id"@, job);
    object_of_two(("instance_id"@, machine), ("job_id"@, job));
    assert(seq!['{', '"'] + "instance_id"@ + seq!['"', ':', '"'] =~= "{\"instance_id\":\""@);
    assert(seq!['"', ',', '"'] + "job_id"@ + seq!['"', ':', '"'] =~= "\",\"job_id\":\""@);
    assert(seq!['"', '}'] =~= "\"}"@);
    assert(answer.0.result->Some_0@ =~= (seq!['{', '"'] + "instance_id"@ + seq!['"', ':', '"'])
        + json::escaped(machine) + (seq!['"', ',', '"'] + "job_id"@ + seq!['"', ':', '"'])
        + json::escaped(job) + seq!['"', '}']);
}

} // verus!
