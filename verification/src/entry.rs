//! Resolving a filesystem entry's metadata into a normalized record.
//!
//! The lookups themselves are filesystem work done by the caller; this
//! module takes their plain outcomes — a mode, a size, a modification
//! instant, or an error kind — and builds the record, falling back to the
//! link-aware lookup when the primary one failed.

use crate::permissions::{get_rwx_from_st_mode, rwx_of};
use chrono::TimeZone;
use vstd::prelude::*;

verus! {

/// The ways a single path can fail to resolve: the path does not exist,
/// its metadata is unreadable for lack of permission, or its name is not
/// representable as text.
#[derive(Clone, Copy, Debug, PartialEq, Eq, Structural)]
pub enum LsError {
    NotFound,
    AccessDenied,
    EncodingError,
}

/// The plain values one metadata lookup produced.
#[derive(Clone, Copy, Debug)]
pub struct RawMeta {
    /// OS-level permission/type bitfield.
    pub mode: u32,
    /// Byte count.
    pub size: u64,
    /// Modification instant as seconds since the Unix epoch, when the
    /// lookup exposed one.
    pub modified_secs: Option<i64>,
}

/// One resolved filesystem item. The name is always present; the other
/// fields are independently optional, and an absent one renders as a
/// placeholder rather than failing.
#[derive(Clone, Debug, PartialEq, Eq, Hash)]
pub struct LsFile {
    /// The final path component.
    pub filename: String,
    /// Nine-character access string, when metadata was readable.
    pub privileges: Option<String>,
    /// Modification instant rendered in the configured timezone, when
    /// available.
    pub last_edit_time: Option<String>,
    /// Byte count, when available.
    pub size: Option<u64>,
}

/// A well-formed record: the name is non-empty and the access string,
/// when present, has its nine characters.
pub open spec fn wf_entry(e: LsFile) -> bool {
    &&& e.filename@.len() > 0
    &&& (e.privileges matches Some(p) ==> p@.len() == 9)
}

/// The text the timestamp formatter produces for an instant, rendered in
/// the named timezone: a function of the two arguments alone.
pub uninterp spec fn local_time_text(secs: int, zone: Seq<char>) -> Seq<char>;

/// Relies on `chrono_tz::Tz`'s `FromStr` (a lookup in the compiled-in
/// timezone table), `chrono::DateTime::from_timestamp`, and chrono's
/// `format` with the `%d/%m/%Y %T` pattern: for a recognized zone name and
/// an in-range instant, the rendered text depends on the instant and the
/// zone name alone. `None` comes back for an unknown zone name or an
/// instant outside chrono's representable range.
#[verifier::external_body]
fn render_instant(secs: i64, zone: &str) -> (r: Option<String>)
    ensures
        r matches Some(s) ==> s@ == local_time_text(secs as int, zone@),
{
    let tz: chrono_tz::Tz = match zone.parse() {
        Ok(t) => t,
        Err(_) => return None,
    };
    let utc = match chrono::DateTime::from_timestamp(secs, 0) {
        Some(d) => d,
        None => return None,
    };
    Some(tz.from_utc_datetime(&utc.naive_utc()).format("%d/%m/%Y %T").to_string())
}

/// The lookup a resolution settles on: the primary (link-following) one
/// when it succeeded, else the link-aware fallback when one was made,
/// else the primary lookup's own error.
pub open spec fn chosen_meta(
    primary: Result<RawMeta, LsError>,
    fallback: Option<Result<RawMeta, LsError>>,
) -> Result<RawMeta, LsError> {
    if primary is Ok {
        primary
    } else {
        match fallback {
            Some(f) => f,
            None => primary,
        }
    }
}

/// What a record built from metadata `m` holds: the name, the decoded
/// access string, the size, and — exactly when the instant was available
/// and the formatter produced text — that text.
pub open spec fn entry_from_meta(e: LsFile, name: Seq<char>, m: RawMeta, zone: Seq<char>) -> bool {
    &&& e.filename@ == name
    &&& e.privileges matches Some(p) && p@ == rwx_of(m.mode as int)
    &&& e.size matches Some(s) && s == m.size
    &&& (e.last_edit_time matches Some(t) ==> m.modified_secs matches Some(secs) && t@
        == local_time_text(secs as int, zone))
    &&& (m.modified_secs is None ==> e.last_edit_time is None)
}

/// Builds the record for one path from the outcomes of its metadata
/// lookups: on the chosen lookup's success the record's fields come from
/// that metadata, and on failure the chosen lookup's error comes back.
pub fn resolve_entry(
    name: String,
    primary: Result<RawMeta, LsError>,
    fallback: Option<Result<RawMeta, LsError>>,
    zone: &str,
) -> (r: Result<LsFile, LsError>)
    requires
        name@.len() > 0,
    ensures
        match chosen_meta(primary, fallback) {
            Ok(m) => r matches Ok(e) && entry_from_meta(e, name@, m, zone@),
            Err(err) => r matches Err(e) && e == err,
        },
        r matches Ok(e) ==> wf_entry(e),
{
    let meta = match primary {
        Ok(m) => Ok(m),
        Err(e) => match fallback {
            Some(f) => f,
            None => Err(e),
        },
    };
    match meta {
        Ok(m) => {
            let last_edit_time = match m.modified_secs {
                Some(secs) => render_instant(secs, zone),
                None => None,
            };
            Ok(
                LsFile {
                    filename: name,
                    privileges: Some(get_rwx_from_st_mode(m.mode)),
                    last_edit_time,
                    size: Some(m.size),
                },
            )
        },
        Err(e) => Err(e),
    }
}

} // verus!
