use serde_json::Value;
use tts_rs::config::{api_key_gate, listen_port, model_dir, require_api_key};
use tts_rs::error::{AppError, InferenceError, PhonemizerError, VoiceError};
use tts_rs::handlers::{
    finish_synthesis, health, plan_synthesis, run_synthesis, validate_synth, voices,
};
use tts_rs::inference::{SessionRun, Speed, TtsEngine};
use tts_rs::phonemizer::{Phonemizer, PhonemizerBackend};
use tts_rs::rpc::{
    accept, advance_job, default_speed, job_key, report_status, report_stored, rpc_handler,
    set_job_status, start_job, status, submit, JobEvent, JobState, JobStep, RpcMethod, RpcRequest,
    RpcResponse, RpcStep, StatusParams, StatusStep, Submission, SubmitParams, SubmitStep,
    ERR_INVALID_PARAMS, ERR_INVALID_REQUEST, ERR_JOB_NOT_FOUND, ERR_METHOD_NOT_FOUND,
    ERR_SYNTHESIS_FAILED, JOB_TTL_SECONDS,
};
use tts_rs::voices::{VoiceBank, VoiceFile};

fn speed(value: f32) -> Speed {
    Speed { bits: value.to_bits(), text: value.to_string() }
}

fn bank(rows: usize) -> VoiceBank {
    let file = VoiceFile {
        path: "af_heart.bin".to_owned(),
        extension: Some("bin".to_owned()),
        stem: Some("af_heart".to_owned()),
        contents: Ok(vec![0; rows * 1024]),
    };
    VoiceBank::load("voices", Ok(vec![Ok(file)])).unwrap()
}

fn engine() -> TtsEngine {
    TtsEngine::load("model.onnx", 1, vec![Ok(())]).unwrap()
}

#[derive(Debug)]
struct Echo;
impl PhonemizerBackend for Echo {
    fn name(&self) -> &'static str {
        "echo"
    }
    fn text_to_ipa(&self, text: &str) -> Result<String, PhonemizerError> {
        if text == "?" {
            return Err(PhonemizerError::EspeakInit("no data".to_owned()));
        }
        Ok(text.to_owned())
    }
}

fn phonemizer() -> Phonemizer<Echo> {
    Phonemizer::load("v", Ok("{\"$\":0,\";\":1,\"h\":2}".to_owned()), Echo).unwrap()
}

fn check_error(response: &RpcResponse, id: i64, code: i32, message: &str) {
    assert_eq!(response.jsonrpc, "2.0");
    assert_eq!(response.id, Value::from(id));
    assert!(response.result.is_none());
    let error = response.error.as_ref().unwrap();
    assert_eq!(error.code, code);
    assert_eq!(error.message, message);
}

fn check_result(response: &RpcResponse, id: i64, result: &str) {
    assert_eq!(response.jsonrpc, "2.0");
    assert_eq!(response.id, Value::from(id));
    assert_eq!(response.result.as_deref(), Some(result));
    assert!(response.error.is_none());
}

fn params(text: &str, value: f32) -> SubmitParams {
    SubmitParams {
        text: text.to_owned(),
        voice: "af_heart".to_owned(),
        speed: speed(value),
        s3_key: "audio/0.mp3".to_owned(),
    }
}

#[test]
fn empty_key_allows_any() {
    assert!(api_key_gate("", "anything"));
    assert!(api_key_gate("", ""));
}

#[test]
fn correct_key_is_allowed() {
    assert!(api_key_gate("secret-key", "secret-key"));
}

#[test]
fn wrong_key_is_denied() {
    assert!(!api_key_gate("secret-key", "wrong-key"));
}

#[test]
fn missing_key_denied() {
    assert!(!api_key_gate("secret-key", ""));
}

#[test]
fn key_exact_match() {
    assert!(!api_key_gate("secret", "secret-extra"));
    assert!(!api_key_gate("secret-extra", "secret"));
}

#[test]
fn requests_are_let_through_by_their_key() {
    assert_eq!(require_api_key(None, None), Ok(()));
    assert_eq!(require_api_key(None, Some("x")), Ok(()));
    assert_eq!(require_api_key(Some("k"), Some("k")), Ok(()));
    assert_eq!(require_api_key(Some("k"), Some("K")), Err(401));
    assert_eq!(require_api_key(Some("k"), None), Err(401));
}

#[test]
fn settings_have_defaults() {
    assert_eq!(listen_port(None), Some(8080));
    assert_eq!(listen_port(Some("80")), Some(80));
    assert_eq!(listen_port(Some("65535")), Some(65535));
    assert_eq!(listen_port(Some("65536")), None);
    assert_eq!(listen_port(Some("http")), None);
    assert_eq!(model_dir(None), "./models");
    assert_eq!(model_dir(Some("/srv")), "/srv");
}

#[test]
fn synth_empty_text_err() {
    assert!(validate_synth("", &speed(1.0)).is_err());
}

#[test]
fn synth_whitespace_err() {
    assert!(validate_synth("   ", &speed(1.0)).is_err());
}

#[test]
fn synth_zero_speed_err() {
    assert!(validate_synth("hello", &speed(0.0)).is_err());
}

#[test]
fn synth_negative_speed_err() {
    assert!(validate_synth("hello", &speed(-1.0)).is_err());
}

#[test]
fn synth_speed_over_max() {
    assert!(validate_synth("hello", &speed(4.001)).is_err());
}

#[test]
fn synth_speed_at_max() {
    assert!(validate_synth("hello", &speed(4.0)).is_ok());
}

#[test]
fn synth_valid_request() {
    assert!(validate_synth("hello world", &speed(1.0)).is_ok());
}

#[test]
fn synth_empty_text_msg() {
    let err = validate_synth("", &speed(1.0)).unwrap_err();
    assert!(err.to_string().contains("empty"), "got: {err:?}");
}

#[test]
fn synth_bad_speed_msg() {
    let err = validate_synth("hi", &speed(0.0)).unwrap_err();
    assert!(err.to_string().contains("speed"), "got: {err:?}");
}

#[test]
fn speed_that_is_no_number_passes() {
    assert!(validate_synth("hi", &speed(f32::NAN)).is_ok());
    assert!(validate_synth("hi", &speed(f32::INFINITY)).is_err());
}

#[test]
fn health_needs_redis() {
    let voices = bank(1);
    let (code, body) = health(true, &voices);
    assert_eq!((code, body.status, body.redis, body.voices_loaded), (200, "ok", "ok", 1));
    let (code, body) = health(false, &voices);
    assert_eq!((code, body.status, body.redis, body.voices_loaded), (503, "degraded", "error", 1));
}

#[test]
fn voices_are_listed() {
    assert_eq!(voices(&bank(1)).voices, vec!["af_heart".to_owned()]);
}

#[test]
fn errors_have_their_statuses() {
    let unknown = VoiceError::UnknownVoice { name: "x".to_owned() };
    let cases = [
        (AppError::Validation("v".to_owned()), 400, "bad request: v"),
        (AppError::NotFound, 404, "not found"),
        (AppError::Conflict("c".to_owned()), 409, "conflict: c"),
        (AppError::from(unknown), 404, "unknown voice: 'x'"),
        (
            AppError::from(VoiceError::EmptyVoicesDir("d".to_owned())),
            500,
            "no .bin voice files found in `d`",
        ),
        (
            AppError::from(PhonemizerError::MissingBos),
            500,
            "BOS token '$' missing from vocab",
        ),
        (
            AppError::from(InferenceError::EmptyTokenIds),
            500,
            "token_ids must not be empty",
        ),
        (AppError::TaskPanic("p".to_owned()), 500, "task panicked: p"),
    ];
    for (error, code, text) in cases {
        assert_eq!(error.into_response(), (code, text.to_owned()));
    }
}

#[test]
fn synthesis_is_planned() {
    let (voices, engine, phonemizer) = (bank(3), engine(), phonemizer());
    let inputs =
        run_synthesis(&phonemizer, &voices, &engine, "h h", "af_heart", &speed(1.0)).unwrap();
    assert_eq!(inputs.token_ids, vec![0, 2, 2, 1]);
    assert_eq!(inputs.style.len(), 256);
    assert_eq!(inputs.speed, 1.0f32.to_bits());
    let err =
        run_synthesis(&phonemizer, &voices, &engine, "h", "nobody", &speed(1.0)).unwrap_err();
    assert!(matches!(err, AppError::Voice(VoiceError::UnknownVoice { .. })));
    let err = run_synthesis(&phonemizer, &voices, &engine, "?", "nobody", &speed(1.0)).unwrap_err();
    assert!(matches!(err, AppError::Phonemizer(PhonemizerError::EspeakInit(_))));
    let err =
        run_synthesis(&phonemizer, &bank(0), &engine, "h", "af_heart", &speed(1.0)).unwrap_err();
    assert!(matches!(err, AppError::Voice(VoiceError::ZeroStyles { .. })));
    let err =
        run_synthesis(&phonemizer, &voices, &engine, "h", "af_heart", &speed(-1.0)).unwrap_err();
    assert!(matches!(err, AppError::Inference(InferenceError::NonPositiveSpeed(_))));
    let err =
        plan_synthesis(Ok(vec![]), &voices, &engine, "af_heart", &speed(1.0)).unwrap_err();
    assert!(matches!(err, AppError::Inference(InferenceError::EmptyTokenIds)));
}

#[test]
fn synthesis_is_finished() {
    let tone: Vec<u32> = (0..2400).map(|i| (i as f32 * 0.1).sin().to_bits()).collect();
    let mp3 = finish_synthesis(SessionRun::Waveform(tone)).unwrap();
    assert_eq!(mp3[0], 0xff);
    let err = finish_synthesis(SessionRun::Failed("x".to_owned())).unwrap_err();
    assert_eq!(err.to_string(), "inference run: x");
}

#[test]
fn requests_are_dispatched() {
    let request = |version: &str, method: RpcMethod| RpcRequest {
        jsonrpc: version.to_owned(),
        id: Value::from(7),
        method,
        params: Value::from("p"),
    };
    match rpc_handler(request("1.0", RpcMethod::Submit)) {
        RpcStep::Reply(r) => check_error(&r, 7, ERR_INVALID_REQUEST, "jsonrpc must be \"2.0\""),
        step => panic!("got {step:?}"),
    }
    match rpc_handler(request("2.0", RpcMethod::Unknown)) {
        RpcStep::Reply(r) => check_error(&r, 7, ERR_METHOD_NOT_FOUND, "method not found"),
        step => panic!("got {step:?}"),
    }
    match rpc_handler(request("2.0", RpcMethod::Submit)) {
        RpcStep::Submit { id, params } => {
            assert_eq!(id, Value::from(7));
            assert_eq!(params, Value::from("p"));
        }
        step => panic!("got {step:?}"),
    }
    match rpc_handler(request("2.0", RpcMethod::Status)) {
        RpcStep::Status { id, params } => {
            assert_eq!(id, Value::from(7));
            assert_eq!(params, Value::from("p"));
        }
        step => panic!("got {step:?}"),
    }
}

#[test]
fn error_codes_are_those_of_the_protocol() {
    assert_eq!(ERR_INVALID_REQUEST, -32600);
    assert_eq!(ERR_METHOD_NOT_FOUND, -32601);
    assert_eq!(ERR_INVALID_PARAMS, -32602);
    assert_eq!(ERR_SYNTHESIS_FAILED, -32000);
    assert_eq!(ERR_JOB_NOT_FOUND, -32001);
    assert_eq!(JOB_TTL_SECONDS, 2 * 60 * 60);
}

#[test]
fn bad_submissions_are_answered_at_once() {
    let refused = |parsed: Result<SubmitParams, String>, message: &str| match submit(
        Value::from(1),
        parsed,
        None,
    ) {
        SubmitStep::Reply(r) => check_error(&r, 1, ERR_INVALID_PARAMS, message),
        step => panic!("got {step:?}"),
    };
    refused(Err("missing field `text`".to_owned()), "invalid params: missing field `text`");
    refused(Ok(params(" \n", 1.0)), "bad request: text must not be empty");
    refused(Ok(params("hi", 0.0)), "bad request: speed must be in (0, 4]");
    refused(Ok(params("hi", 4.5)), "bad request: speed must be in (0, 4]");
    refused(Ok(params("", 9.0)), "bad request: text must not be empty");
}

fn submission(machine: Option<&str>) -> Submission {
    match submit(Value::from(1), Ok(params("hi", 1.0)), machine.map(|m| m.to_owned())) {
        SubmitStep::Enqueue(submission) => submission,
        step => panic!("got {step:?}"),
    }
}

#[test]
fn job_identifiers_are_fresh_uuids() {
    let (a, b) = (submission(None).job_id, submission(None).job_id);
    assert_ne!(a, b);
    for id in [a, b] {
        let parsed = uuid::Uuid::parse_str(&id).unwrap();
        assert_eq!(parsed.get_version_num(), 4);
        assert_eq!(parsed.to_string(), id);
        assert_eq!(id.len(), 36);
    }
}

#[test]
fn good_submissions_are_enqueued() {
    let local = submission(None);
    assert_eq!(local.id, Value::from(1));
    assert_eq!(local.instance_id, "local");
    assert_eq!(local.params.text, "hi");
    assert_eq!(local.params.s3_key, "audio/0.mp3");
    assert_eq!(submission(Some("m1")).instance_id, "m1");
    match accept(Value::from(2), Ok(params("hi", 2.0)), None, "j".to_owned()) {
        SubmitStep::Enqueue(s) => assert_eq!(s.job_id, "j"),
        step => panic!("got {step:?}"),
    }
}

#[test]
fn jobs_start_once_their_state_is_stored() {
    let job = submission(Some("m1"));
    let job_id = job.job_id.clone();
    let (response, started) = start_job(job, Ok(()));
    let result: Value = serde_json::from_str(response.result.as_deref().unwrap()).unwrap();
    assert_eq!(result["job_id"], Value::from(job_id));
    assert_eq!(result["instance_id"], Value::from("m1"));
    assert_eq!(result.as_object().unwrap().len(), 2);
    assert_eq!(started.unwrap().voice, "af_heart");
    let (response, started) = start_job(submission(None), Err("down".to_owned()));
    check_error(&response, 1, ERR_SYNTHESIS_FAILED, "redis error: down");
    assert!(started.is_none());
}

#[test]
fn default_speed_is_one() {
    assert_eq!(default_speed(), speed(1.0));
}

#[test]
fn job_states_are_stored_as_json() {
    assert_eq!(set_job_status(&JobState::Processing), "{\"status\":\"processing\"}");
    assert_eq!(set_job_status(&JobState::Done), "{\"status\":\"done\"}");
    let stored = set_job_status(&JobState::Failed("a \"b\"\n".to_owned()));
    assert_eq!(stored, "{\"error\":\"a \\\"b\\\"\\n\",\"status\":\"failed\"}");
    let value: Value = serde_json::from_str(&stored).unwrap();
    assert_eq!(value["status"], Value::from("failed"));
    assert_eq!(value["error"], Value::from("a \"b\"\n"));
    assert_eq!(value.as_object().unwrap().len(), 2);
}

#[test]
fn every_character_of_a_message_is_kept() {
    let message: String = ('\0'..='\u{ff}').chain(['\u{2028}', '\u{1f3a4}']).collect();
    let stored = set_job_status(&JobState::Failed(message.clone()));
    assert!(stored.contains("\\u0000\\u0001"));
    assert!(stored.contains("\\u0007\\b\\t\\n\\u000b\\f\\r\\u000e"));
    assert!(stored.contains("\\u001f !\\\"#"));
    assert!(stored.contains("[\\\\]"));
    assert!(stored.contains("~\u{7f}\u{80}"));
    let value: Value = serde_json::from_str(&stored).unwrap();
    assert_eq!(value["error"], Value::from(message));
    check_result(&report_status(Value::from(3), Ok(Some(stored.clone()))), 3, &stored);
}

#[test]
fn stored_states_are_reported() {
    let states =
        [JobState::Processing, JobState::Done, JobState::Failed("no \u{1f3a4} \\".to_owned())];
    for state in states {
        let stored = set_job_status(&state);
        let response = report_status(Value::from(3), Ok(Some(stored.clone())));
        check_result(&response, 3, &stored);
    }
}

#[test]
fn stored_states_are_brought_into_compact_form() {
    let response = report_status(Value::from(3), Ok(Some("{ \"status\" :\n \"done\" }".to_owned())));
    check_result(&response, 3, "{\"status\":\"done\"}");
    check_result(&report_stored(Value::from(3), Ok("[]".to_owned())), 3, "[]");
}

#[test]
fn missing_states_are_reported() {
    let response = report_status(Value::from(3), Ok(None));
    check_error(&response, 3, ERR_JOB_NOT_FOUND, "job not found or expired");
    let response = report_status(Value::from(3), Err("down".to_owned()));
    check_error(&response, 3, ERR_SYNTHESIS_FAILED, "redis error: down");
    let response = report_status(Value::from(3), Ok(Some("oops".to_owned())));
    let error = serde_json::from_str::<Value>("oops").unwrap_err();
    check_error(
        &response,
        3,
        ERR_SYNTHESIS_FAILED,
        &format!("invalid stored state: {error}"),
    );
}

#[test]
fn states_are_looked_up_under_the_key_of_the_job() {
    assert_eq!(job_key("abc"), "tts:job:abc");
    assert_ne!(job_key("abc"), job_key("ab"));
    match status(Value::from(4), Ok(StatusParams { job_id: "abc".to_owned() })) {
        StatusStep::Lookup { id, key } => {
            assert_eq!(id, Value::from(4));
            assert_eq!(key, job_key("abc"));
        }
        step => panic!("got {step:?}"),
    }
    match status(Value::from(4), Err("missing field `job_id`".to_owned())) {
        StatusStep::Reply(r) => {
            check_error(&r, 4, ERR_INVALID_PARAMS, "invalid params: missing field `job_id`")
        }
        step => panic!("got {step:?}"),
    }
}

#[test]
fn jobs_advance_to_their_end() {
    match advance_job(JobEvent::Synthesized(Ok(vec![1, 2]))) {
        JobStep::Upload(mp3) => assert_eq!(mp3, vec![1, 2]),
        step => panic!("got {step:?}"),
    }
    let finished = |event: JobEvent, state: JobState| match advance_job(event) {
        JobStep::Finish(s) => assert_eq!(s, state),
        step => panic!("got {step:?}"),
    };
    finished(
        JobEvent::Synthesized(Err(AppError::NotFound)),
        JobState::Failed("not found".to_owned()),
    );
    finished(JobEvent::Uploaded(Ok(())), JobState::Done);
    finished(JobEvent::Uploaded(Err("s3".to_owned())), JobState::Failed("s3".to_owned()));
}
