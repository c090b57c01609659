//! The notation for backends, and when a task calls for it.

use vstd::prelude::*;

use crate::outside;

verus! {

pub const BONESCRIPT_GUIDE: &'static str = "BoneScript Quick Reference:
- system: top-level container for the entire backend
- entity: data model with fields, constraints, state machine, auth
  owns: [field: type, ...]    (string, int, float, bool, uuid, timestamp, json)
  constraints: [field.unique, field.length in min..max, field.required]
  states: state1 -> state2 -> state3 (state machine transitions)
  auth: jwt | api_key | oauth2
- capability: operation with preconditions, effects, events
  requires: [preconditions]
  effects: [state changes, side effects]
  emits: EventName
  sync: transactional | eventual | fire_and_forget
- event: durable message between services
  payload: { field: type, ... }
  delivery: exactly_once | at_least_once | best_effort
- channel: WebSocket real-time channel
  ordering: fifo | causal | none
  persistence: durable | ephemeral
- policy: rate limiting, audit, encryption
  rate_limit: N per Xs/Xm/Xh
  audit: true | false
  encryption: aes256 | none
- store: database engine selection
  engine: postgres | sqlite | mysql
- flow: multi-step saga with compensation
  steps: [step1, step2, ...]
  on_failure: compensate | abort | retry
- extension_point: custom logic hooks (user code survives recompilation)

Compile: bone_compile <file.bone>
Check:   bone_check <file.bone>

Targets: express (default), nakama, prisma, sqlite";

/// The reference of the notation.
pub fn get_bonescript_guide() -> (r: &'static str)
    ensures
        r@ == BONESCRIPT_GUIDE@,
{
    BONESCRIPT_GUIDE
}

pub const EXPLICIT_PATTERN: &'static str = r"(?i)\b\.bone\b|\bbonescript\b";

pub const OTHER_LANGUAGE_PATTERN: &'static str =
    r"(?i)\b(python|django|fastapi|flask|go|golang|rust|actix|axum|ruby|rails|php|laravel|java|spring|c#|dotnet|asp\.net|elixir|phoenix)\b";

pub const BACKEND_FIRST_PATTERN: &'static str =
    r"(?i)\b(api|backend|server|rest|crud|auth|database|endpoint|express|fastify|node|typescript|ts)\b.*\b(create|build|make|implement|set up)\b";

pub const MAKE_FIRST_PATTERN: &'static str =
    r"(?i)\b(create|build|make)\b.*\b(api|backend|server|rest|crud|endpoint)\b";

pub const NODE_FIRST_PATTERN: &'static str =
    r"(?i)\b(node|typescript|ts|express|fastify)\b.*\b(api|backend|server|rest|crud)\b";

/// Whether a task calls for the notation: when it names it, or asks for a
/// backend and names no other language.
pub open spec fn calls_for_it(explicit: bool, other_language: bool, backend: bool) -> bool {
    explicit || (!other_language && backend)
}

/// Whether a message asks for a backend.
pub open spec fn asks_for_backend(message: Seq<char>) -> bool {
    ||| outside::regex_matches(BACKEND_FIRST_PATTERN@, message)
    ||| outside::regex_matches(MAKE_FIRST_PATTERN@, message)
    ||| outside::regex_matches(NODE_FIRST_PATTERN@, message)
}

/// Whether a task calls for the notation, by what its message says.
pub fn decide(explicit: bool, other_language: bool, backend: bool) -> (r: bool)
    ensures
        r == calls_for_it(explicit, other_language, backend),
{
    explicit || (!other_language && backend)
}

/// Whether a task calls for the notation.
pub fn should_use_bonescript(message: &str) -> (r: bool)
    ensures
        r == calls_for_it(
            outside::regex_matches(EXPLICIT_PATTERN@, message@),
            outside::regex_matches(OTHER_LANGUAGE_PATTERN@, message@),
            asks_for_backend(message@),
        ),
{
    let explicit = outside::regex_is_match(EXPLICIT_PATTERN, message);
    let other_language = outside::regex_is_match(OTHER_LANGUAGE_PATTERN, message);
    let backend = outside::regex_is_match(BACKEND_FIRST_PATTERN, message) || outside::regex_is_match(
        MAKE_FIRST_PATTERN,
        message,
    ) || outside::regex_is_match(NODE_FIRST_PATTERN, message);
    decide(explicit, other_language, backend)
}

/// Who asks for the language by its name gets it; another language that is named
/// rules it out; else it is for backends.
pub proof fn law_when_it_is_used(explicit: bool, other: bool, backend: bool)
    ensures
        calls_for_it(true, other, backend),
        calls_for_it(false, false, true),
        !calls_for_it(false, true, backend),
        !calls_for_it(false, other, false),
{
}

} // verus!
