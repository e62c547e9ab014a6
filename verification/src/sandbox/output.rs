//! Captured guest stdio and JSON decoding of guest stdout.

use vstd::prelude::*;

use crate::text::push_str;

verus! {

#[verifier::external_type_specification]
#[verifier::external_body]
pub struct ExJsonValue(serde_json::Value);

/// Why `serde_json::from_slice` refuses `bytes` as one JSON document, as its
/// error's display text; `None` when `bytes` hold one.
pub uninterp spec fn json_refusal(bytes: Seq<u8>) -> Option<Seq<char>>;

/// The text of `bytes` with invalid UTF-8 replaced (`String::from_utf8_lossy`):
/// valid UTF-8 decodes exactly; the replacement for invalid bytes is not
/// stated.
#[verifier::external_body]
fn lossy_text(bytes: &[u8]) -> (r: String)
    ensures
        vstd::utf8::valid_utf8(bytes@) ==> r@ == vstd::utf8::decode_utf8(bytes@),
{
    String::from_utf8_lossy(bytes).into_owned()
}

/// The JSON document that `serde_json::from_slice::<serde_json::Value>`
/// reads from `bytes` (meaningful when [`json_refusal`] is `None`).
pub uninterp spec fn json_doc(bytes: Seq<u8>) -> serde_json::Value;

/// The JSON document in `bytes` (`serde_json::from_slice::<serde_json::Value>`),
/// or the parser's message.  Parsing is a function of `bytes` alone.
#[verifier::external_body]
fn parse_json(bytes: &[u8]) -> (r: Result<serde_json::Value, String>)
    ensures
        match r {
            Ok(v) => json_refusal(bytes@) is None && v == json_doc(bytes@),
            Err(why) => json_refusal(bytes@) == Some(why@),
        },
{
    serde_json::from_slice::<serde_json::Value>(bytes).map_err(|error| error.to_string())
}

/// Captured guest stdio after a run.
#[derive(Clone, Debug, PartialEq, Eq)]
pub struct GuestOutput {
    /// Bytes written to stdout.
    pub stdout: Vec<u8>,
    /// Bytes written to stderr.
    pub stderr: Vec<u8>,
    /// Whether the guest exited successfully.
    pub success: bool,
}

/// Why guest stdout cannot be decoded.
#[derive(Clone, Debug, PartialEq, Eq)]
pub enum GuestFailure {
    /// The guest exited with failure.
    Failed,
    /// The guest wrote nothing to stdout but something to stderr.
    NoStdout,
    /// Stdout is not JSON.
    NotJson,
}

/// Why the output of a run cannot be decoded, before parsing.
pub open spec fn output_failure(o: GuestOutput) -> Option<GuestFailure> {
    if !o.success {
        Some(GuestFailure::Failed)
    } else if o.stdout@.len() == 0 && o.stderr@.len() > 0 {
        Some(GuestFailure::NoStdout)
    } else {
        None
    }
}

/// Failure of [`decode_json`]: its kind and a message quoting the guest's
/// stdio.
#[derive(Clone, Debug)]
pub struct DecodeError {
    pub kind: GuestFailure,
    pub message: String,
    /// The JSON parser's reason for [`GuestFailure::NotJson`]; empty otherwise.
    pub cause: String,
}

/// Message for a failure of kind `k`, given the guest's stdout and stderr
/// as text.
pub open spec fn failure_text(k: GuestFailure, stdout: Seq<char>, stderr: Seq<char>) -> Seq<char> {
    match k {
        GuestFailure::Failed => "Wasmer guest failed; stderr: "@ + stderr + "; stdout: "@ + stdout,
        GuestFailure::NoStdout => "guest produced no stdout; stderr: "@ + stderr,
        GuestFailure::NotJson => "parse guest JSON from stdout `"@ + stdout + "` (stderr: "@ + stderr
            + ")"@,
    }
}

/// Both streams of `o` are valid UTF-8.
pub open spec fn utf8_stdio(o: GuestOutput) -> bool {
    vstd::utf8::valid_utf8(o.stdout@) && vstd::utf8::valid_utf8(o.stderr@)
}

fn failure_message(output: &GuestOutput, kind: &GuestFailure) -> (r: String)
    ensures
        utf8_stdio(*output) ==> r@ == failure_text(
            *kind,
            vstd::utf8::decode_utf8(output.stdout@),
            vstd::utf8::decode_utf8(output.stderr@),
        ),
{
    let stdout = lossy_text(output.stdout.as_slice());
    let stderr = lossy_text(output.stderr.as_slice());
    let mut m = String::new();
    match kind {
        GuestFailure::Failed => {
            push_str(&mut m, "Wasmer guest failed; stderr: ");
            push_str(&mut m, stderr.as_str());
            push_str(&mut m, "; stdout: ");
            push_str(&mut m, stdout.as_str());
        },
        GuestFailure::NoStdout => {
            push_str(&mut m, "guest produced no stdout; stderr: ");
            push_str(&mut m, stderr.as_str());
        },
        GuestFailure::NotJson => {
            push_str(&mut m, "parse guest JSON from stdout `");
            push_str(&mut m, stdout.as_str());
            push_str(&mut m, "` (stderr: ");
            push_str(&mut m, stderr.as_str());
            push_str(&mut m, ")");
        },
    }
    m
}

/// A run whose guest did not exit successfully is refused as
/// [`GuestFailure::Failed`], whatever its stdout and stderr hold; only a
/// successful run with JSON on stdout decodes.
pub proof fn lemma_failed_run_is_refused(o: GuestOutput)
    ensures
        !o.success ==> output_failure(o) == Some(GuestFailure::Failed),
        output_failure(o) is None ==> o.success,
{
}

/// JSON document on the stdout of a successful run: the document that
/// `serde_json` reads from stdout.  Fails when the guest failed, when it
/// wrote only to stderr, or when stdout is not JSON (the parser's reason in
/// [`DecodeError::cause`]); the message quotes the guest's stdio (stated
/// exactly for UTF-8 stdio).
pub fn decode_json(output: &GuestOutput) -> (r: Result<serde_json::Value, DecodeError>)
    ensures
        match output_failure(*output) {
            Some(k) => r matches Err(e) && e.kind == k && e.cause@ == Seq::<char>::empty() && (
            utf8_stdio(*output) ==> e.message@ == failure_text(
                k,
                vstd::utf8::decode_utf8(output.stdout@),
                vstd::utf8::decode_utf8(output.stderr@),
            )),
            None => match json_refusal(output.stdout@) {
                None => r == Ok::<serde_json::Value, DecodeError>(json_doc(output.stdout@)),
                Some(why) => r matches Err(e) && e.kind == GuestFailure::NotJson && e.cause@ == why
                    && (utf8_stdio(*output) ==> e.message@ == failure_text(
                    GuestFailure::NotJson,
                    vstd::utf8::decode_utf8(output.stdout@),
                    vstd::utf8::decode_utf8(output.stderr@),
                )),
            },
        },
        !output.success ==> (r matches Err(e) && e.kind == GuestFailure::Failed),
        r is Ok ==> output.success && json_refusal(output.stdout@) is None,
{
    proof {
        lemma_failed_run_is_refused(*output);
    }
    if !output.success {
        let message = failure_message(output, &GuestFailure::Failed);
        return Err(DecodeError { kind: GuestFailure::Failed, message, cause: String::new() });
    }
    if output.stdout.len() == 0 && output.stderr.len() > 0 {
        let message = failure_message(output, &GuestFailure::NoStdout);
        return Err(DecodeError { kind: GuestFailure::NoStdout, message, cause: String::new() });
    }
    match parse_json(output.stdout.as_slice()) {
        Ok(v) => Ok(v),
        Err(cause) => {
            let message = failure_message(output, &GuestFailure::NotJson);
            Err(DecodeError { kind: GuestFailure::NotJson, message, cause })
        },
    }
}

} // verus!
