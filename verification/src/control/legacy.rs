//! One-line JSON control requests: which parser a line is for, and what a descriptor may do.

use vstd::prelude::*;
use vstd::string::*;
use vstd::utf8::*;

use crate::text::prefixed;
use crate::text::utf8_text;
use super::model::bare_response;
use super::model::control_error;
use super::model::error_response;
use super::model::ControlEnvelope;
use super::model::ControlRequest;
use super::model::ControlResponse;
use super::model::ResponseState;

verus! {

/// A character with the Unicode property `White_Space`.
pub open spec fn is_white_space(c: char) -> bool {
    let code = c as u32;
    ||| 0x09 <= code <= 0x0d
    ||| code == 0x20
    ||| code == 0x85
    ||| code == 0xa0
    ||| code == 0x1680
    ||| 0x2000 <= code <= 0x200a
    ||| code == 0x2028
    ||| code == 0x2029
    ||| code == 0x202f
    ||| code == 0x205f
    ||| code == 0x3000
}

/// The text from `start` to `end` is what stays of `text` without the white space at its ends.
pub open spec fn is_trimmed_at(text: Seq<char>, start: int, end: int) -> bool {
    &&& 0 <= start <= end <= text.len()
    &&& forall|i: int| 0 <= i < start || end <= i < text.len() ==> is_white_space(#[trigger] text[i])
    &&& start < end ==> !is_white_space(text[start]) && !is_white_space(text[end - 1])
}

/// `rest` is `text` without the white space at its ends.
pub open spec fn is_trimmed(text: Seq<char>, rest: Seq<char>) -> bool {
    exists|start: int, end: int|
        #[trigger] is_trimmed_at(text, start, end) && rest == text.subrange(start, end)
}

/// `str::trim`: the text without leading and trailing white space, as the Unicode property
/// `White_Space` defines it.
#[verifier::external_body]
fn trim<'a>(text: &'a str) -> (rest: &'a str)
    ensures
        is_trimmed(text@, rest@),
{
    text.trim()
}

/// A text has one trimmed form.
pub proof fn trimming_is_unique(text: Seq<char>, one: Seq<char>, other: Seq<char>)
    requires
        is_trimmed(text, one),
        is_trimmed(text, other),
    ensures
        one == other,
{
    let (a, b) = choose|start: int, end: int|
        #[trigger] is_trimmed_at(text, start, end) && one == text.subrange(start, end);
    let (c, d) = choose|start: int, end: int|
        #[trigger] is_trimmed_at(text, start, end) && other == text.subrange(start, end);
    if a < b {
        assert(!is_white_space(text[a]));
        assert(!is_white_space(text[b - 1]));
        assert(c <= a < d);
        assert(c <= b - 1 < d);
    }
    if c < d {
        assert(!is_white_space(text[c]));
        assert(!is_white_space(text[d - 1]));
        assert(a <= c < b);
        assert(a <= d - 1 < b);
    }
    assert(one =~= other);
}

/// A parsed JSON value.
#[verifier::external_type_specification]
#[verifier::external_body]
pub struct ExJsonValue(serde_json::Value);

/// The keys of a JSON value. One that is no object has none.
pub uninterp spec fn json_keys(value: serde_json::Value) -> Set<Seq<char>>;

/// The keys of the value that a JSON text stands for, or why it is no JSON.
pub uninterp spec fn json_parsed(text: Seq<char>) -> Result<Set<Seq<char>>, Seq<char>>;

/// `serde_json::from_str` into a `Value`: the value, or the parser's message where the text is not
/// JSON. Which keys the value has, or which message it is, depends on the text alone.
#[verifier::external_body]
fn parse_json(text: &str) -> (parsed: Result<serde_json::Value, String>)
    ensures
        match parsed {
            Ok(value) => json_parsed(text@) == Ok::<Set<Seq<char>>, Seq<char>>(json_keys(value)),
            Err(message) => json_parsed(text@) == Err::<Set<Seq<char>>, Seq<char>>(message@),
        },
{
    match serde_json::from_str::<serde_json::Value>(text) {
        Ok(value) => Ok(value),
        Err(error) => Err(error.to_string()),
    }
}

/// `serde_json::Value::get` with a string: it finds something exactly where the value is an object
/// that has the key.
#[verifier::external_body]
fn has_key(value: &serde_json::Value, key: &str) -> (found: bool)
    ensures
        found == json_keys(*value).contains(key@),
{
    value.get(key).is_some()
}

/// The whole request line, from the byte that selected the parser and what was read behind it. A
/// lone line feed is a line already.
pub fn request_line(first: u8, rest: &Vec<u8>) -> (line: Vec<u8>)
    ensures
        line@ == if first == 10 {
            seq![first]
        } else {
            seq![first] + rest@
        },
{
    let mut line: Vec<u8> = Vec::new();
    line.push(first);
    if first != 10 {
        line.extend_from_slice(rest.as_slice());
    }
    assert(line@ =~= if first == 10 {
        seq![first]
    } else {
        seq![first] + rest@
    });
    line
}

/// The text of a request line, without the white space at its ends.
pub fn line_text(line: &[u8]) -> (text: Option<String>)
    ensures
        match text {
            Some(text) => valid_utf8(line@) && is_trimmed(decode_utf8(line@), text@),
            None => !valid_utf8(line@),
        },
{
    match utf8_text(line) {
        Some(text) => Some(String::from_str(trim(text))),
        None => None,
    }
}

/// Which parser a line is for.
pub enum LineRoute {
    /// A fenced request envelope.
    Envelope,
    /// A bare command.
    Command,
    /// Answer without parsing further.
    Refused(ControlResponse),
}

/// The route that a lookup of the envelope's version gives.
pub open spec fn is_route(lookup: Result<bool, Seq<char>>, route: LineRoute) -> bool {
    match lookup {
        Ok(true) => route is Envelope,
        Ok(false) => route is Command,
        Err(message) => route matches LineRoute::Refused(response) && response@ == error_response(
            "invalid_json"@,
            "invalid control request: "@ + message,
        ),
    }
}

/// The lookup as text.
pub open spec fn lookup_text(lookup: Result<bool, String>) -> Result<bool, Seq<char>> {
    match lookup {
        Ok(found) => Ok(found),
        Err(message) => Err(message@),
    }
}

/// Choose the parser for a line by whether it names a protocol version.
pub fn route_lookup(lookup: Result<bool, String>) -> (route: LineRoute)
    ensures
        is_route(lookup_text(lookup), route),
{
    match lookup {
        Ok(true) => LineRoute::Envelope,
        Ok(false) => LineRoute::Command,
        Err(message) => {
            let text = prefixed("invalid control request: ", message.as_str());
            LineRoute::Refused(control_error("invalid_json", text))
        },
    }
}

/// Choose the parser for a line.
pub fn route_line(line: &str) -> (route: LineRoute)
    ensures
        match json_parsed(line@) {
            Ok(keys) => is_route(Ok(keys.contains("protocol_version"@)), route),
            Err(message) => is_route(Err(message), route),
        },
{
    match parse_json(line) {
        Ok(value) => route_lookup(Ok(has_key(&value, "protocol_version"))),
        Err(message) => route_lookup(Err(message)),
    }
}

/// A refusal without a code.
pub open spec fn plain_refusal(message: Seq<char>) -> ResponseState {
    ResponseState { error: Some(message), ..bare_response(false) }
}

fn refuse(message: String) -> (response: ControlResponse)
    ensures
        response@ == plain_refusal(message@),
{
    let mut response = ControlResponse::bare(false);
    response.error = Some(message);
    response
}

/// The answer to a line that the runtime's queue has no room for.
pub fn busy_response() -> (response: ControlResponse)
    ensures
        response@ == plain_refusal("control runtime is busy"@),
{
    refuse(String::from_str("control runtime is busy"))
}

/// Take an envelope that was parsed. A descriptor belongs to a one-shot branch request, never to an
/// envelope.
pub fn accept_envelope<M>(parsed: Result<ControlEnvelope<M>, String>, carries_memory: bool) -> (result:
    Result<ControlEnvelope<M>, ControlResponse>)
    ensures
        match parsed {
            Ok(envelope) => if !carries_memory && !(envelope.command is BranchCreateMemfd) {
                result == Ok::<ControlEnvelope<M>, ControlResponse>(envelope)
            } else {
                result matches Err(response) && response@ == plain_refusal(
                    "descriptor handoff requires a one-shot branch request"@,
                )
            },
            Err(message) => result matches Err(response) && response@ == error_response(
                "invalid_envelope"@,
                "invalid control envelope: "@ + message@,
            ),
        },
{
    match parsed {
        Ok(envelope) => {
            let descriptor = match &envelope.command {
                ControlRequest::BranchCreateMemfd { .. } => true,
                _ => false,
            };
            if !carries_memory && !descriptor {
                Ok(envelope)
            } else {
                Err(
                    refuse(
                        String::from_str("descriptor handoff requires a one-shot branch request"),
                    ),
                )
            }
        },
        Err(message) => {
            let text = prefixed("invalid control envelope: ", message.as_str());
            Err(control_error("invalid_envelope", text))
        },
    }
}

/// A memory descriptor that came with a request, and whether it is fresh.
pub struct ReceivedMemory<M> {
    pub memory: M,
    /// Why the descriptor is not an empty memory of its own, if it is not.
    pub check: Result<(), String>,
}

/// A branch request with its memory.
pub open spec fn with_memory<M>(request: ControlRequest<M>, memory: M) -> ControlRequest<M> {
    match request {
        ControlRequest::BranchCreateMemfd {
            guest_flush,
            record_integrity,
            branch_id,
            child_name,
            memory_cache_dir,
            backing,
        } => ControlRequest::BranchCreateMemfd {
            guest_flush,
            record_integrity,
            branch_id,
            child_name,
            memory_cache_dir,
            backing: Some(memory),
        },
        other => other,
    }
}

/// Why a request and a descriptor do not go together, if they do not.
pub open spec fn descriptor_refusal<M>(
    request: ControlRequest<M>,
    memory: Option<ReceivedMemory<M>>,
    descriptors_supported: bool,
) -> Option<Seq<char>> {
    match (request is BranchCreateMemfd, memory) {
        (true, Some(received)) => if !descriptors_supported {
            Some("memory descriptors require Linux"@)
        } else {
            match received.check {
                Ok(_) => None,
                Err(message) => Some(message@),
            }
        },
        (true, None) => Some("missing branch memory descriptor"@),
        (false, Some(_)) => Some("unexpected control descriptor"@),
        (false, None) => None,
    }
}

/// Give a branch request the memory that the transport handed over.
pub fn attach_branch_memory<M>(
    request: ControlRequest<M>,
    memory: Option<ReceivedMemory<M>>,
    descriptors_supported: bool,
) -> (result: Result<ControlRequest<M>, String>)
    ensures
        match descriptor_refusal(request, memory, descriptors_supported) {
            Some(message) => result matches Err(text) && text@ == message,
            None => result == Ok::<ControlRequest<M>, String>(
                match memory {
                    Some(received) => with_memory(request, received.memory),
                    None => request,
                },
            ),
        },
{
    match request {
        ControlRequest::BranchCreateMemfd {
            guest_flush,
            record_integrity,
            branch_id,
            child_name,
            memory_cache_dir,
            ..
        } => {
            let received = match memory {
                Some(received) => received,
                None => {
                    return Err(String::from_str("missing branch memory descriptor"));
                },
            };
            if !descriptors_supported {
                return Err(String::from_str("memory descriptors require Linux"));
            }
            if let Err(message) = received.check {
                return Err(message);
            }
            Ok(
                ControlRequest::BranchCreateMemfd {
                    guest_flush,
                    record_integrity,
                    branch_id,
                    child_name,
                    memory_cache_dir,
                    backing: Some(received.memory),
                },
            )
        },
        other => {
            if memory.is_some() {
                return Err(String::from_str("unexpected control descriptor"));
            }
            Ok(other)
        },
    }
}

/// Take a bare command that was parsed, with the descriptor that came with it.
pub fn accept_command<M>(
    parsed: Result<ControlRequest<M>, String>,
    memory: Option<ReceivedMemory<M>>,
    descriptors_supported: bool,
) -> (result: Result<ControlRequest<M>, ControlResponse>)
    ensures
        match parsed {
            Ok(request) => match descriptor_refusal(request, memory, descriptors_supported) {
                Some(message) => result matches Err(response) && response@ == plain_refusal(
                    message,
                ),
                None => result == Ok::<ControlRequest<M>, ControlResponse>(
                    match memory {
                        Some(received) => with_memory(request, received.memory),
                        None => request,
                    },
                ),
            },
            Err(message) => result matches Err(response) && response@ == error_response(
                "invalid_request"@,
                "invalid control request: "@ + message@,
            ),
        },
{
    match parsed {
        Ok(request) => match attach_branch_memory(request, memory, descriptors_supported) {
            Ok(request) => Ok(request),
            Err(message) => Err(refuse(message)),
        },
        Err(message) => {
            let text = prefixed("invalid control request: ", message.as_str());
            Err(control_error("invalid_request", text))
        },
    }
}

/// A serialized response as one line.
pub fn response_line(payload: Vec<u8>) -> (line: Vec<u8>)
    ensures
        line@ == payload@.push(10),
{
    let mut line = payload;
    line.push(10);
    line
}

/// Only a branch request takes a descriptor, and it needs one.
pub proof fn descriptor_and_branch_go_together<M>(
    request: ControlRequest<M>,
    memory: Option<ReceivedMemory<M>>,
    descriptors_supported: bool,
)
    ensures
        descriptor_refusal(request, memory, descriptors_supported) is None ==> (
        request is BranchCreateMemfd <==> memory is Some),
{
}

/// A request and a descriptor go together exactly where there is neither a branch into memory nor a
/// descriptor, or both, on a host that can use it, and the descriptor is fresh. Anything else is
/// refused with its own reason.
pub proof fn descriptors_are_refused_with_their_reason<M>(
    request: ControlRequest<M>,
    memory: Option<ReceivedMemory<M>>,
    descriptors_supported: bool,
)
    ensures
        ({
            let branch = request is BranchCreateMemfd;
            let refused = descriptor_refusal(request, memory, descriptors_supported);
            &&& refused is None <==> (!branch && memory is None) || (branch && memory is Some
                && descriptors_supported && memory->0.check is Ok)
            &&& branch && memory is None ==> refused == Some("missing branch memory descriptor"@)
            &&& !branch && memory is Some ==> refused == Some("unexpected control descriptor"@)
            &&& branch && memory is Some && !descriptors_supported ==> refused == Some(
                "memory descriptors require Linux"@,
            )
            &&& branch && memory is Some && descriptors_supported && memory->0.check is Err
                ==> refused == Some((memory->0.check->Err_0)@)
        }),
{
}

/// A branch request gets its memory and keeps everything else that it says.
pub proof fn memory_is_all_that_a_request_gains<M>(request: ControlRequest<M>, memory: M)
    ensures
        !(request is BranchCreateMemfd) ==> with_memory(request, memory) == request,
        request is BranchCreateMemfd ==> {
            let gained = with_memory(request, memory);
            &&& gained is BranchCreateMemfd
            &&& gained->BranchCreateMemfd_backing == Some(memory)
            &&& gained->BranchCreateMemfd_guest_flush == request->BranchCreateMemfd_guest_flush
            &&& gained->BranchCreateMemfd_record_integrity
                == request->BranchCreateMemfd_record_integrity
            &&& gained->BranchCreateMemfd_branch_id == request->BranchCreateMemfd_branch_id
            &&& gained->BranchCreateMemfd_child_name == request->BranchCreateMemfd_child_name
            &&& gained->BranchCreateMemfd_memory_cache_dir
                == request->BranchCreateMemfd_memory_cache_dir
        },
{
}

/// A refusal says that it is one, and why, and nothing else.
pub proof fn refusals_carry_no_result(code: Seq<char>, message: Seq<char>)
    ensures
        ({
            let plain = plain_refusal(message);
            let coded = error_response(code, message);
            &&& !plain.ok && !coded.ok
            &&& plain.error == Some(message) && coded.error == Some(message)
            &&& plain.error_code is None && coded.error_code == Some(code)
            &&& plain.memory is None && plain.cpu is None && plain.checkpoint is None && plain.branch
                is None && plain.pause is None && plain.secret_result is None
            &&& coded.memory is None && coded.cpu is None && coded.checkpoint is None && coded.branch
                is None && coded.pause is None && coded.secret_result is None
                && coded.disk_checkpoint is None && coded.root_disk is None && coded.compaction
                is None && coded.capabilities is None
        }),
{
}

/// A line is parsed as an envelope exactly where it names a protocol version, and is refused as
/// invalid JSON, with the parser's message, exactly where it is none.
pub proof fn lines_with_a_version_are_envelopes(lookup: Result<bool, Seq<char>>, route: LineRoute)
    requires
        is_route(lookup, route),
    ensures
        route is Envelope <==> lookup == Ok::<bool, Seq<char>>(true),
        route is Command <==> lookup == Ok::<bool, Seq<char>>(false),
        route matches LineRoute::Refused(response) ==> {
            &&& lookup is Err
            &&& !response@.ok
            &&& response@.error_code == Some("invalid_json"@)
            &&& response@.error == Some("invalid control request: "@ + lookup->Err_0)
        },
{
}

} // verus!
