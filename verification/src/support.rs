//! Trusted declarations of the standard-library items that the container reads:
//! type identities, string equality, the monotonic clock and console output.
use vstd::prelude::*;
use std::any::TypeId;
use std::io::Write;
use std::time::Instant;
use std::sync::Arc;

verus! {

#[verifier::external_type_specification]
#[verifier::external_body]
pub struct ExTypeId(TypeId);

#[verifier::external_type_specification]
#[verifier::external_body]
pub struct ExInstant(Instant);

/// `TypeId::of::<T>()` from std: the identity of a type. Nothing is claimed about which
/// value comes back.
pub assume_specification<T: ?Sized + 'static>[ TypeId::of::<T> ]() -> TypeId;

/// Equality of two `TypeId`s through std's `==`; `TypeId`'s equality is derived, so it
/// coincides with equality of the values.
#[verifier::external_body]
pub(crate) fn type_id_eq(a: &TypeId, b: &TypeId) -> (r: bool)
    ensures
        r == (*a == *b),
{
    a == b
}

/// Equality of two string slices through std's `==` for `str`, which compares the
/// characters.
#[verifier::external_body]
pub(crate) fn str_eq(a: &str, b: &str) -> (r: bool)
    ensures
        r == (a@ == b@),
{
    a == b
}

/// `Instant::now()` from std. The reading depends on the clock; nothing is claimed.
#[verifier::external_body]
pub(crate) fn instant_now() -> Instant {
    Instant::now()
}

/// Nanoseconds elapsed since `start`, read from std's `Instant::elapsed`. The reading
/// depends on the clock; nothing is claimed.
#[verifier::external_body]
pub(crate) fn nanos_since(start: &Instant) -> u128 {
    start.elapsed().as_nanos()
}

/// Writes one line to standard output (std's `writeln!` on `stdout`). Output only.
#[verifier::external_body]
pub(crate) fn write_stdout_line(line: &str) {
    let _ = writeln!(std::io::stdout(), "{}", line);
}

/// Writes one line to standard error (std's `writeln!` on `stderr`). Output only.
#[verifier::external_body]
pub(crate) fn write_stderr_line(line: &str) {
    let _ = writeln!(std::io::stderr(), "{}", line);
}

/// `Vec::into_boxed_slice` from std: the same elements, in a boxed slice.
#[verifier::external_body]
pub(crate) fn vec_into_boxed<T>(v: Vec<T>) -> (r: Box<[T]>)
    ensures
        r@ == v@,
{
    v.into_boxed_slice()
}

/// `Arc::clone` from std: another handle to the same allocation, hence the same value.
#[verifier::external_body]
pub(crate) fn arc_clone<T: ?Sized>(a: &Arc<T>) -> (r: Arc<T>)
    ensures
        r == *a,
{
    Arc::clone(a)
}

/// `Arc::ptr_eq` from std: whether two handles share one allocation; handles that do hold
/// the same value. Nothing is claimed when the answer is `false`.
#[verifier::external_body]
pub(crate) fn arc_ptr_eq<T: ?Sized>(a: &Arc<T>, b: &Arc<T>) -> (r: bool)
    ensures
        r ==> *a == *b,
{
    Arc::ptr_eq(a, b)
}

/// `String::leak` from std: the same characters, kept alive for the rest of the program.
#[verifier::external_body]
pub(crate) fn leak_string(s: String) -> (r: &'static str)
    ensures
        r@ == s@,
{
    s.leak()
}

/// The text std's `Debug` gives a `Duration` of `secs` seconds and `nanos` nanoseconds
/// (such as `1.5ms`); it depends on the two numbers alone.
pub uninterp spec fn duration_debug_text(secs: u64, nanos: u32) -> Seq<char>;

/// std's `Debug` formatting of `Duration::new(secs, nanos)`.
#[verifier::external_body]
pub(crate) fn duration_debug(secs: u64, nanos: u32) -> (r: String)
    requires
        nanos < 1_000_000_000,
    ensures
        r@ == duration_debug_text(secs, nanos),
{
    format!("{:?}", std::time::Duration::new(secs, nanos))
}

/// std's `Debug` formatting of an `Instant`; its text depends on the platform's clock
/// representation, so nothing is claimed.
#[verifier::external_body]
pub(crate) fn instant_debug(i: &Instant) -> String {
    format!("{:?}", i)
}

/// Nanoseconds since the Unix epoch by std's `SystemTime` (zero for a clock set before the
/// epoch). The reading depends on the clock; nothing is claimed.
#[verifier::external_body]
pub(crate) fn unix_time_nanos() -> u64 {
    std::time::SystemTime::now().duration_since(std::time::UNIX_EPOCH).map_or(0, |d| d.as_nanos() as u64)
}

/// std's `str::strip_prefix`: the rest of `s` after `prefix`, when `s` starts with it.
#[verifier::external_body]
pub(crate) fn strip_prefix<'a>(s: &'a str, prefix: &str) -> (r: Option<&'a str>)
    ensures
        r is Some <==> prefix@.is_prefix_of(s@),
        r matches Some(t) ==> s@ == prefix@ + t@,
{
    s.strip_prefix(prefix)
}

} // verus!
