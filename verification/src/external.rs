//! The calls this library makes into `rand` and `chrono`, with what each
//! contract claims of the outside code. Nothing here is proved: each item is
//! believed as its contract states it.

use vstd::prelude::*;
use rand::rngs::StdRng;
use rand::Rng;
use rand::SeedableRng;
use colored::Colorize;
use crate::text::contains_text;

verus! {

/// The seeded pseudo-random generator of `rand`, carried through the
/// library as an opaque value.
#[verifier::external_type_specification]
#[verifier::external_body]
pub struct ExStdRng(StdRng);

/// A moment, in whole seconds since the UNIX epoch and the nanoseconds
/// past that second.
#[derive(Clone, Copy, Debug, PartialEq, Eq)]
pub struct Timestamp {
    pub secs: i64,
    pub nanos: u32,
}

/// Calls `StdRng::seed_from_u64` (through `rand_core::SeedableRng`). The
/// generator that comes back is opaque here; the contract states nothing
/// of it.
#[verifier::external_body]
pub(crate) fn seeded_rng(seed: u64) -> StdRng {
    StdRng::seed_from_u64(seed)
}

/// Calls `Rng::gen::<u8>` on the generator. The byte depends on the
/// generator's hidden state, so the contract states nothing of it.
#[verifier::external_body]
pub(crate) fn next_byte(rng: &mut StdRng) -> u8 {
    rng.gen::<u8>()
}

/// Calls `rand::random::<u64>`, which draws from the thread-local
/// generator; nothing is stated of the value.
#[verifier::external_body]
pub(crate) fn random_seed() -> u64 {
    rand::random::<u64>()
}

/// Calls `Rng::gen_range(0..bound)` on the thread-local generator
/// (`rand::thread_rng`). The documentation promises a value in the range
/// and a panic when the range is empty, which `requires` rules out.
#[verifier::external_body]
pub(crate) fn random_below(bound: usize) -> (r: usize)
    requires
        bound > 0,
    ensures
        r < bound,
{
    rand::thread_rng().gen_range(0..bound)
}

/// Calls `chrono::Utc::now` and takes its `timestamp` and
/// `timestamp_subsec_nanos`. The moment depends on the clock, so nothing is
/// stated of it.
#[verifier::external_body]
pub(crate) fn utc_now() -> Timestamp {
    let now = chrono::Utc::now();
    Timestamp { secs: now.timestamp(), nanos: now.timestamp_subsec_nanos() }
}

/// What `chrono` renders for a UTC moment with a format string: `None`
/// where `DateTime::from_timestamp` refuses the moment.
pub uninterp spec fn utc_text(secs: i64, nanos: u32, format: Seq<char>) -> Option<Seq<char>>;

/// Calls `chrono::DateTime::from_timestamp(secs, nanos)` and, where that
/// gives a moment, renders it with `DateTime::format(format).to_string()`.
/// The result is named by `utc_text` of the same arguments. Rendering
/// panics on a malformed format string, so `requires` admits only the one
/// format this library uses.
#[verifier::external_body]
pub(crate) fn format_utc(secs: i64, nanos: u32, format: &str) -> (r: Option<String>)
    requires
        format@ == "%Y-%m-%d %H:%M:%S UTC"@,
    ensures
        match r {
            Some(s) => utc_text(secs, nanos, format@) == Some(s@),
            None => utc_text(secs, nanos, format@) is None,
        },
{
    match chrono::DateTime::from_timestamp(secs, nanos) {
        Some(d) => Some(d.format(format).to_string()),
        None => None,
    }
}

/// Whether `r` is one of the two renderings of `s` in bright blue that
/// `colored` can give: the text unchanged, where colours are off, or the
/// text between the escape `ESC[94m` and the reset `ESC[0m`. Where the text
/// holds resets of its own, colored repeats the escape after each of them;
/// only the opening and the closing are stated then.
pub open spec fn is_bright_blue(s: Seq<char>, r: Seq<char>) -> bool {
    r == s || {
        &&& r.len() >= 9
        &&& r.take(5) == "\u{1b}[94m"@
        &&& r.skip(r.len() - 4) == "\u{1b}[0m"@
        &&& !contains_text(s, "\u{1b}[0m"@) ==> r == "\u{1b}[94m"@ + s + "\u{1b}[0m"@
    }
}

/// Calls `colored::Colorize::bright_blue` on `s` and renders the result
/// with `to_string`. Whether colours are used depends on the environment
/// and the terminal (colored's `SHOULD_COLORIZE`), so the contract states
/// only what holds of both outcomes (`is_bright_blue`).
#[verifier::external_body]
pub(crate) fn bright_blue(s: &str) -> (r: String)
    ensures
        is_bright_blue(s@, r@),
{
    s.bright_blue().to_string()
}

} // verus!
