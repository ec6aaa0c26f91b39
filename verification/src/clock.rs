//! Where time enters: reading the wall clock, finding the offset of the
//! machine's time zone, and rendering an instant with a pattern. All three
//! are delegated to `chrono`.

use crate::text::optional_text;
use chrono::TimeZone;
use vstd::prelude::*;

verus! {

/// The pattern of the timestamps written to sidecars and upload logs.
pub const TIMESTAMP_PATTERN: &'static str = "%Y-%m-%d %H:%M:%S";

/// An instant, counted from the Unix epoch.
#[derive(Debug, Clone, Copy, PartialEq, Eq, Structural)]
pub(crate) struct Moment {
    /// Whole seconds since the epoch.
    pub secs: i64,
    /// Nanoseconds since the last whole second.
    pub nanos: u32,
}

/// Whether `chrono` can represent the instant `nanos` nanoseconds after
/// second `secs` of the Unix epoch: the second lies between the first of
/// year -262143 and the last of year 262142, and the nanoseconds stay below
/// a second, or below two in the last second of a minute, where they stand
/// for a leap second.
pub open spec fn representable(secs: int, nanos: int) -> bool {
    &&& -8_334_601_228_800 <= secs <= 8_210_266_876_799
    &&& 0 <= nanos
    &&& (nanos < 1_000_000_000 || (nanos < 2_000_000_000 && secs % 60 == 59))
}

/// Whether `offset` is a difference in seconds between a local time and
/// universal time: less than a day either way.
pub open spec fn zone_offset(offset: int) -> bool {
    -86_400 < offset < 86_400
}

/// What `chrono` renders for the instant `nanos` nanoseconds after second
/// `secs` of the Unix epoch, seen `offset` seconds east of universal time,
/// with the pattern `pattern`; `None` where it renders nothing.
pub uninterp spec fn rendering(secs: int, nanos: int, offset: int, pattern: Seq<char>) -> Option<
    Seq<char>,
>;

/// Whether `pattern` can be rendered at all. Whether `chrono` renders a
/// pattern does not depend on the instant, so the epoch decides.
pub open spec fn renderable(pattern: Seq<char>) -> bool {
    rendering(0, 0, 0, pattern) is Some
}

/// Whether `text` is what `pattern` renders to at the given instant in some
/// time zone.
pub open spec fn local_rendering(secs: int, nanos: int, pattern: Seq<char>, text: Seq<char>)
    -> bool {
    exists|offset: int|
        zone_offset(offset) && #[trigger] rendering(secs, nanos, offset, pattern) == Some(text)
}

/// Whether `text` is what `pattern` renders to at some representable
/// instant in some time zone.
pub open spec fn clock_rendering(pattern: Seq<char>, text: Seq<char>) -> bool {
    exists|secs: int, nanos: int|
        representable(secs, nanos) && #[trigger] local_rendering(secs, nanos, pattern, text)
}

/// Reads the wall clock.
///
/// Calls `chrono::Local::now`, and `DateTime::timestamp` and
/// `DateTime::timestamp_subsec_nanos` on what it returns. The moment is
/// whatever the clock says; `chrono` builds it through
/// `DateTime::from_timestamp`, so it is one that `chrono` can represent.
/// `chrono` aborts if the system clock is set before 1970 or the zone data
/// of the machine yields no offset.
#[verifier::external_body]
pub(crate) fn current_moment() -> (r: Moment)
    ensures
        representable(r.secs as int, r.nanos as int),
{
    let now = chrono::Local::now();
    Moment { secs: now.timestamp(), nanos: now.timestamp_subsec_nanos() }
}

/// The offset of the machine's time zone at `moment`, in seconds east of
/// universal time.
///
/// Calls `TimeZone::timestamp_opt` on `chrono::Local`, and
/// `DateTime::offset` and `FixedOffset::local_minus_utc` on what it
/// returns. There is an offset exactly for the moments that
/// `DateTime::from_timestamp` accepts, and it is less than a day, as every
/// `FixedOffset` is. Which offset it is depends on the machine. `chrono`
/// aborts if the zone data of the machine yields no offset.
#[verifier::external_body]
pub(crate) fn local_offset(moment: &Moment) -> (r: Option<i32>)
    ensures
        r is Some <==> representable(moment.secs as int, moment.nanos as int),
        r matches Some(offset) ==> zone_offset(offset as int),
{
    match chrono::Local.timestamp_opt(moment.secs, moment.nanos) {
        chrono::LocalResult::Single(at) => Some(at.offset().local_minus_utc()),
        chrono::LocalResult::Ambiguous(_, _) => None,
        chrono::LocalResult::None => None,
    }
}

/// Renders `moment`, seen `offset` seconds east of universal time, with
/// `pattern`.
///
/// Calls `DateTime::from_timestamp`, `FixedOffset::east_opt`,
/// `DateTime::with_timezone`, `DateTime::format` and
/// `DelayedFormat::write_to`. The result is `rendering` of the arguments.
/// Nothing is rendered for a moment that `from_timestamp` rejects or an
/// offset that `east_opt` rejects. For the others, `write_to` fails only on
/// an item of the pattern that cannot be written for any date and time, so
/// whether something is rendered is up to the pattern alone; the timestamp
/// pattern holds numbers and literals only and is always rendered.
#[verifier::external_body]
pub(crate) fn render_at(moment: &Moment, offset: i32, pattern: &str) -> (r: Option<String>)
    ensures
        optional_text(r) == rendering(
            moment.secs as int,
            moment.nanos as int,
            offset as int,
            pattern@,
        ),
        representable(moment.secs as int, moment.nanos as int) && zone_offset(offset as int) ==> (r
            is Some <==> renderable(pattern@)),
        !(representable(moment.secs as int, moment.nanos as int) && zone_offset(offset as int))
            ==> r is None,
        representable(moment.secs as int, moment.nanos as int) && zone_offset(offset as int)
            && pattern@ == TIMESTAMP_PATTERN@ ==> r is Some,
{
    let at = chrono::DateTime::from_timestamp(moment.secs, moment.nanos)?;
    let zone = chrono::FixedOffset::east_opt(offset)?;
    let mut text = String::new();
    match at.with_timezone(&zone).format(pattern).write_to(&mut text) {
        Ok(()) => Some(text),
        Err(_) => None,
    }
}

/// Renders `moment` in the machine's local time with `pattern`.
pub(crate) fn local_text(moment: &Moment, pattern: &str) -> (r: Option<String>)
    ensures
        r is Some <==> representable(moment.secs as int, moment.nanos as int) && renderable(
            pattern@,
        ),
        r matches Some(text) ==> local_rendering(
            moment.secs as int,
            moment.nanos as int,
            pattern@,
            text@,
        ),
        representable(moment.secs as int, moment.nanos as int) && pattern@ == TIMESTAMP_PATTERN@
            ==> r is Some,
{
    match local_offset(moment) {
        Some(offset) => {
            let r = render_at(moment, offset, pattern);
            assert(r matches Some(text) ==> rendering(
                moment.secs as int,
                moment.nanos as int,
                offset as int,
                pattern@,
            ) == Some(text@));
            r
        },
        None => None,
    }
}

/// Renders the current local time with `pattern`.
pub(crate) fn local_now_text(pattern: &str) -> (r: Option<String>)
    ensures
        r is Some <==> renderable(pattern@),
        r matches Some(text) ==> clock_rendering(pattern@, text@),
        pattern@ == TIMESTAMP_PATTERN@ ==> r is Some,
{
    let now = current_moment();
    let r = local_text(&now, pattern);
    assert(r matches Some(text) ==> local_rendering(
        now.secs as int,
        now.nanos as int,
        pattern@,
        text@,
    ));
    r
}

/// Renders the instant `secs` seconds after the Unix epoch in the machine's
/// local time with `pattern`.
pub(crate) fn local_time_text(secs: i64, pattern: &str) -> (r: Option<String>)
    ensures
        r is Some <==> representable(secs as int, 0) && renderable(pattern@),
        r matches Some(text) ==> local_rendering(secs as int, 0, pattern@, text@),
        representable(secs as int, 0) && pattern@ == TIMESTAMP_PATTERN@ ==> r is Some,
{
    local_text(&Moment { secs, nanos: 0 }, pattern)
}

} // verus!
