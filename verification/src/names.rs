//! Names under which messages are routed: short names derived from full
//! type paths, schema hashes of short names, and the names of the wrapper
//! messages.

use vstd::prelude::*;
use vstd::string::StrSliceExecFns;
use vstd::string::StringExecFns;
use std::hash::Hash;
use std::hash::Hasher;

verus! {

/// `s` holds the separator `::` at positions `i` and `i + 1`.
pub open spec fn separator_at(s: Seq<char>, i: int) -> bool {
    0 <= i && i + 1 < s.len() && s[i] == ':' && s[i + 1] == ':'
}

/// State of a scan over the first `k` characters of `s`: the nesting depth
/// of `<`/`>` and the index just after the last `::` seen at depth zero (0
/// when there is none).
pub open spec fn bracket_scan(s: Seq<char>, k: int) -> (int, int)
    decreases k,
{
    if k <= 0 {
        (0, 0)
    } else {
        let (depth, last) = bracket_scan(s, k - 1);
        let c = s[k - 1];
        if c == '<' {
            (depth + 1, last)
        } else if c == '>' {
            (depth - 1, last)
        } else if c == ':' && depth == 0 && k < s.len() && s[k] == ':' {
            (depth, k + 1)
        } else {
            (depth, last)
        }
    }
}

/// A separator `::` at position `i` that lies outside angle brackets
/// (the `<`/`>` before it are balanced).
pub open spec fn top_level_separator_at(s: Seq<char>, i: int) -> bool {
    separator_at(s, i) && bracket_scan(s, i).0 == 0
}

/// Where the short name of a type path starts: just after its last `::`
/// outside angle brackets, or 0.
pub open spec fn short_name_start(s: Seq<char>) -> int {
    bracket_scan(s, s.len() as int).1
}

/// The short name of a full type path: the type's own name (with its
/// generic arguments), without the module path. `::` inside generic
/// arguments does not count.
pub open spec fn spec_short_name(s: Seq<char>) -> Seq<char> {
    s.skip(short_name_start(s))
}

proof fn lemma_bracket_scan_bounds(s: Seq<char>, k: int)
    requires
        0 <= k <= s.len(),
    ensures
        -k <= bracket_scan(s, k).0 <= k,
        0 <= bracket_scan(s, k).1 <= s.len(),
    decreases k,
{
    if k > 0 {
        lemma_bracket_scan_bounds(s, k - 1);
    }
}

proof fn lemma_scan_last_separator(s: Seq<char>, k: int)
    requires
        0 <= k <= s.len(),
    ensures
        bracket_scan(s, k).1 == 0 || (2 <= bracket_scan(s, k).1 <= k + 1 && top_level_separator_at(
            s,
            bracket_scan(s, k).1 - 2,
        )),
        forall|j: int| 0 <= j < k && #[trigger] top_level_separator_at(s, j) ==> j + 2 <= bracket_scan(s, k).1,
    decreases k,
{
    if k > 0 {
        lemma_scan_last_separator(s, k - 1);
    }
}

/// The short name is what follows the last `::` outside angle brackets (the
/// whole path when there is none): it starts right after such a separator,
/// and no such separator lies further on.
pub proof fn law_short_name_is_last_segment(s: Seq<char>)
    ensures
        spec_short_name(s) == s.skip(short_name_start(s)),
        0 <= short_name_start(s) <= s.len(),
        short_name_start(s) == 0 || top_level_separator_at(s, short_name_start(s) - 2),
        forall|j: int| #[trigger] top_level_separator_at(s, j) ==> j + 2 <= short_name_start(s),
{
    lemma_bracket_scan_bounds(s, s.len() as int);
    lemma_scan_last_separator(s, s.len() as int);
}

/// Two paths with the same short name have the same schema hash: moving a
/// type to another module keeps its hash.
pub proof fn law_schema_hash_by_short_name(a: Seq<char>, b: Seq<char>)
    requires
        spec_short_name(a) == spec_short_name(b),
    ensures
        spec_schema_hash(a) == spec_schema_hash(b),
{
}

/// The short name of a full type path: the type's own name without its
/// module path, ignoring `::` inside generic arguments.
///
/// Examples: `my_crate::messages::PlayerPosition` gives `PlayerPosition`;
/// `app::Generic<alloc::string::String>` gives
/// `Generic<alloc::string::String>`.
pub fn short_name_of(full: &str) -> (r: &str)
    ensures
        r@ == spec_short_name(full@),
{
    let n = full.unicode_len();
    let mut depth: i128 = 0;
    let mut last: usize = 0;
    let mut k: usize = 0;
    while k < n
        invariant
            n == full@.len(),
            k <= n,
            (depth as int, last as int) == bracket_scan(full@, k as int),
        decreases n - k,
    {
        proof {
            lemma_bracket_scan_bounds(full@, k as int);
        }
        let c = full.get_char(k);
        if c == '<' {
            depth = depth + 1;
        } else if c == '>' {
            depth = depth - 1;
        } else if c == ':' && depth == 0 && k + 1 < n && full.get_char(k + 1) == ':' {
            last = k + 2;
        }
        k = k + 1;
    }
    proof {
        lemma_bracket_scan_bounds(full@, n as int);
    }
    full.substring_char(last, n)
}

/// The short type name used to match query types between server and
/// client; the same rule as [`short_name_of`].
///
/// Example: `alloc::vec::Vec<alloc::string::String>` gives
/// `Vec<alloc::string::String>`.
pub fn short_type_name_of(full: &str) -> (r: &str)
    ensures
        r@ == spec_short_name(full@),
{
    short_name_of(full)
}

/// The hash that the standard library's default hasher
/// (`DefaultHasher::new()`, SipHash with fixed keys) gives a string.
pub uninterp spec fn std_default_str_hash(s: Seq<char>) -> u64;

/// Hashes a string with `std::hash::DefaultHasher::new()`, `str::hash` and
/// `Hasher::finish`.
///
/// Claimed of the outside code: the result depends on the string alone (a
/// hasher made by `new` always starts from the same keys), and is given the
/// name `std_default_str_hash`. Nothing more is stated: the standard library
/// does not fix its algorithm.
#[verifier::external_body]
fn default_str_hash(s: &str) -> (h: u64)
    ensures
        h == std_default_str_hash(s@),
{
    let mut hasher = std::hash::DefaultHasher::new();
    s.hash(&mut hasher);
    hasher.finish()
}

/// The schema hash of a message type: the default hash of its short name.
pub open spec fn spec_schema_hash(full: Seq<char>) -> u64 {
    std_default_str_hash(spec_short_name(full))
}

/// The schema hash is the default hash of the whole short name: of every
/// character after the last `::` outside angle brackets, however long
/// that name is.
pub proof fn law_schema_hash_hashes_the_whole_short_name(full: Seq<char>)
    ensures
        spec_schema_hash(full) == std_default_str_hash(full.skip(short_name_start(full))),
        full.skip(short_name_start(full)).len() == full.len() - short_name_start(full),
{
    law_short_name_is_last_segment(full);
}

/// Computes the schema hash of a message type from its full type path: the
/// hash of the short name, so that the hash survives moving the type to
/// another module.
pub fn schema_hash_of(full: &str) -> (h: u64)
    ensures
        h == spec_schema_hash(full@),
        h == std_default_str_hash(spec_short_name(full@)),
{
    let short = short_name_of(full);
    default_str_hash(short)
}

/// `prefix` + `inner` + `)`.
fn wrapped_name(prefix: &str, inner: &str) -> (r: String)
    ensures
        r@ == prefix@ + inner@ + ")"@,
{
    let mut name = String::from_str(prefix);
    name.append(inner);
    name.append(")");
    name
}

/// The type name under which the response to a request is tracked, for a
/// response message with the full type path `inner`:
/// `ResponseInternal<inner>`.
pub fn response_type_name(inner: &str) -> (r: String)
    ensures
        r@ == "ResponseInternal<"@ + inner@ + ">"@,
{
    let mut name = String::from_str("ResponseInternal<");
    name.append(inner);
    name.append(">");
    name
}

/// The type path under which the server expects a request with the full
/// type path `inner`, wrapped with its correlation id.
pub fn request_type_path(inner: &str) -> (r: String)
    ensures
        r@ == "pl3xus::managers::network_request::RequestInternal<"@ + inner@ + ">"@,
{
    let mut name = String::from_str("pl3xus::managers::network_request::RequestInternal<");
    name.append(inner);
    name.append(">");
    name
}

/// A message addressed to a target (an entity, a node) by id.
pub struct TargetedMessage<T> {
    pub target_id: String,
    pub message: T,
}

impl<T> TargetedMessage<T> {
    /// The routing name of a targeted message whose inner message has the
    /// full type path `inner`: `Targeted(inner)`.
    pub fn name(inner: &str) -> (r: String)
        ensures
            r@ == "Targeted("@ + inner@ + ")"@,
    {
        wrapped_name("Targeted(", inner)
    }
}

/// A marker message that only carries the type of a previous message.
pub struct PreviousMessage<T> {
    pub marker: bool,
    pub phantom: core::marker::PhantomData<T>,
}

impl<T> PreviousMessage<T> {
    /// A new marker.
    pub fn new() -> (r: Self)
        ensures
            r.marker == false,
    {
        PreviousMessage { marker: false, phantom: core::marker::PhantomData }
    }

    /// The routing name of the marker for a message with the full type path
    /// `inner`: `PreviousMessage(inner)`.
    pub fn name(inner: &str) -> (r: String)
        ensures
            r@ == "PreviousMessage("@ + inner@ + ")"@,
    {
        wrapped_name("PreviousMessage(", inner)
    }
}

} // verus!
