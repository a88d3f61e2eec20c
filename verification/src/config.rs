//! Settings and access control of the server.
use crate::text;
use vstd::prelude::*;

verus! {

/// Whether a request that provides `provided` passes where `expected` is the configured key. An
/// empty key lets everything pass.
pub fn api_key_gate(expected: &str, provided: &str) -> (allowed: bool)
    ensures
        allowed == (expected@.len() == 0 || provided@ == expected@),
{
    expected.is_empty() || text::same_text(provided, expected)
}

/// The text of a setting or header, empty where there is none.
pub open spec fn text_or_empty(value: Option<Seq<char>>) -> Seq<char> {
    match value {
        Some(v) => v,
        None => Seq::empty(),
    }
}

/// Lets a request pass, or refuses it with status 401, by the configured key and the key that its
/// header provides.
pub fn require_api_key(expected: Option<&str>, provided: Option<&str>) -> (passed: Result<(), u16>)
    ensures
        ({
            let key = text_or_empty(
                match expected {
                    Some(k) => Some(k@),
                    None => None,
                },
            );
            let header = text_or_empty(
                match provided {
                    Some(k) => Some(k@),
                    None => None,
                },
            );
            passed == (if key.len() == 0 || header == key {
                Ok::<(), u16>(())
            } else {
                Err::<(), u16>(401)
            })
        }),
{
    proof {
        reveal_strlit("");
        assert(""@ =~= Seq::empty());
    }
    let key: &str = match expected {
        Some(k) => k,
        None => "",
    };
    let header: &str = match provided {
        Some(k) => k,
        None => "",
    };
    if api_key_gate(key, header) {
        Ok(())
    } else {
        Err(401)
    }
}

/// The value of a setting, or its default.
pub open spec fn text_or(value: Option<Seq<char>>, default: Seq<char>) -> Seq<char> {
    match value {
        Some(v) => v,
        None => default,
    }
}

/// The value of a setting, or its default.
pub fn setting_or(value: Option<&str>, default: &str) -> (setting: String)
    ensures
        setting@ == text_or(
            match value {
                Some(v) => Some(v@),
                None => None,
            },
            default@,
        ),
{
    match value {
        Some(v) => v.to_owned(),
        None => default.to_owned(),
    }
}

/// The directory of the model, the vocabulary and the voices.
pub fn model_dir(variable: Option<&str>) -> (dir: String)
    ensures
        dir@ == text_or(
            match variable {
                Some(v) => Some(v@),
                None => None,
            },
            "./models"@,
        ),
{
    setting_or(variable, "./models")
}

/// The model file in the model directory: the quantized one by default.
pub fn model_file(variable: Option<&str>) -> (file_name: String)
    ensures
        file_name@ == text_or(
            match variable {
                Some(v) => Some(v@),
                None => None,
            },
            "model_quantized.onnx"@,
        ),
{
    setting_or(variable, "model_quantized.onnx")
}

/// The port to listen on, 8080 by default, unless the setting is not a port number.
pub fn listen_port(variable: Option<&str>) -> (port: Option<u16>)
    ensures
        match variable {
            None => port == Some(8080u16),
            Some(v) => {
                &&& port is Some <==> text::is_number(v@) && text::digits_value(
                    text::number_digits(v@),
                ) <= 0xffff
                &&& port matches Some(p) ==> p == text::digits_value(text::number_digits(v@))
            },
        },
{
    match variable {
        None => Some(8080),
        Some(v) => match text::parse_number(v, 0xffff) {
            Some(n) => Some(n as u16),
            None => None,
        },
    }
}

} // verus!
