//! The stored form of a process record in a document store.
//!
//! A row is keyed by the JSON text of the signal identifier (`id`) and of the
//! processor scope (`processorId`). `startedAt` and `completedAt` are numbers
//! of milliseconds since the epoch, `expiresOn` a number of seconds since the
//! epoch, and `memoized` the JSON text of the result. Numbers travel as
//! decimal text. Turning JSON text into values is left to the caller.
use vstd::prelude::*;
use vstd::string::StrSliceExecFns;

use crate::error::Error;
use crate::model::{Completion, Expiration, Process};
use crate::time::{Timestamp, NANOS_PER_MILLI, NANOS_PER_SEC};

verus! {

pub const ID_ATTRIBUTE: &'static str = "id";

pub const PROCESSOR_ID_ATTRIBUTE: &'static str = "processorId";

pub const STARTED_AT_ATTRIBUTE: &'static str = "startedAt";

pub const COMPLETED_AT_ATTRIBUTE: &'static str = "completedAt";

pub const EXPIRES_ON_ATTRIBUTE: &'static str = "expiresOn";

pub const MEMOIZED_ATTRIBUTE: &'static str = "memoized";

/// The conditional claim: set `startedAt` only where it is absent.
pub const CLAIM_EXPRESSION: &'static str = "SET startedAt = if_not_exists(startedAt, :value)";

pub const COMPLETE_EXPRESSION: &'static str = "SET completedAt = :completedAt, memoized = :memoized";

pub const COMPLETE_WITH_EXPIRY_EXPRESSION: &'static str =
    "SET completedAt = :completedAt, memoized = :memoized, expiresOn = :expiresOn";

/// A stored attribute value: a string, a number in decimal text, or any
/// other kind, which this format does not use.
#[derive(Debug, Clone, PartialEq, Eq)]
pub enum Attribute {
    S(String),
    N(String),
    Other,
}

// ---- decimal numbers ----

pub open spec fn is_digit(c: char) -> bool {
    '0' <= c && c <= '9'
}

pub open spec fn digit_value(c: char) -> int {
    c as int - '0' as int
}

pub open spec fn all_digits(s: Seq<char>) -> bool {
    forall|i: int| 0 <= i < s.len() ==> is_digit(#[trigger] s[i])
}

/// The value of a string of decimal digits.
pub open spec fn digits_value(s: Seq<char>) -> int
    decreases s.len(),
{
    if s.len() == 0 {
        0
    } else {
        10 * digits_value(s.drop_last()) + digit_value(s.last())
    }
}

pub open spec fn has_sign(s: Seq<char>) -> bool {
    s.len() > 0 && (s[0] == '+' || s[0] == '-')
}

/// An optional `+` or `-`, then one or more decimal digits, and nothing else.
pub open spec fn decimal_value(s: Seq<char>) -> Option<int> {
    let body = if has_sign(s) { s.drop_first() } else { s };
    if body.len() > 0 && all_digits(body) {
        if s[0] == '-' {
            Some(-digits_value(body))
        } else {
            Some(digits_value(body))
        }
    } else {
        None
    }
}

/// Decimal text read as an `i64`, as `str::parse::<i64>` reads it.
pub open spec fn parse_i64_spec(s: Seq<char>) -> Option<i64> {
    match decimal_value(s) {
        Some(v) => if i64::MIN <= v <= i64::MAX {
            Some(v as i64)
        } else {
            None
        },
        None => None,
    }
}

proof fn lemma_digits_prefix(s: Seq<char>, k: int)
    requires
        all_digits(s),
        0 <= k <= s.len(),
    ensures
        0 <= digits_value(s.subrange(0, k)) <= digits_value(s),
    decreases s.len(),
{
    if k == s.len() {
        assert(s.subrange(0, k) =~= s);
        if s.len() > 0 {
            lemma_digits_prefix(s.drop_last(), s.len() - 1);
            assert(s.drop_last().subrange(0, s.len() - 1) =~= s.drop_last());
        }
    } else {
        let d = s.drop_last();
        lemma_digits_prefix(d, k);
        assert(d.subrange(0, k) =~= s.subrange(0, k));
        lemma_digits_prefix(d, d.len() as int);
        assert(d.subrange(0, d.len() as int) =~= d);
    }
}

/// Reads decimal text as an `i64`: an optional sign, then digits only.
pub fn parse_i64(s: &str) -> (r: Option<i64>)
    ensures
        r == parse_i64_spec(s@),
{
    let len = s.unicode_len();
    if len == 0 {
        return None;
    }
    let first = s.get_char(0);
    let negative = first == '-';
    let start: usize = if first == '+' || first == '-' { 1 } else { 0 };
    if start == len {
        return None;
    }
    let ghost body = s@.subrange(start as int, len as int);
    assert(body =~= if has_sign(s@) { s@.drop_first() } else { s@ });
    // The magnitude may reach 2^63, the magnitude of i64::MIN.
    let limit: u64 = 0x8000_0000_0000_0000;
    assert(s@[0] == first);
    let mut acc: u64 = 0;
    let mut i: usize = start;
    while i < len
        invariant
            start <= i <= len,
            len == s@.len(),
            len > 0,
            limit == 0x8000_0000_0000_0000u64,
            negative == (s@[0] == '-'),
            body == (if has_sign(s@) { s@.drop_first() } else { s@ }),
            body == s@.subrange(start as int, len as int),
            all_digits(s@.subrange(start as int, i as int)),
            acc == digits_value(s@.subrange(start as int, i as int)),
            acc <= limit,
        decreases len - i,
    {
        let c = s.get_char(i);
        let ghost prefix = s@.subrange(start as int, i as int);
        let ghost next = s@.subrange(start as int, i + 1);
        assert(next.drop_last() =~= prefix);
        if !('0' <= c && c <= '9') {
            assert(!all_digits(body)) by {
                assert(body[i - start] == c);
            }
            return None;
        }
        let d: u64 = (c as u32 - '0' as u32) as u64;
        if acc > (limit - d) / 10 {
            proof {
                if all_digits(body) {
                    lemma_digits_prefix(body, i + 1 - start);
                    assert(body.subrange(0, i + 1 - start) =~= next);
                }
            }
            return None;
        }
        acc = acc * 10 + d;
        i = i + 1;
    }
    assert(s@.subrange(start as int, i as int) =~= body);
    if negative {
        if acc == limit {
            Some(i64::MIN)
        } else {
            Some(-(acc as i64))
        }
    } else {
        if acc == limit {
            None
        } else {
            Some(acc as i64)
        }
    }
}

// ---- instants ----

/// Milliseconds since the epoch as an instant, where representable and not
/// before the epoch.
pub open spec fn millis_instant(m: i64) -> Option<Timestamp> {
    if 0 <= m && m * NANOS_PER_MILLI <= i64::MAX {
        Some(Timestamp { nanos: (m * NANOS_PER_MILLI) as i64 })
    } else {
        None
    }
}

/// Seconds since the epoch as an instant, where representable and not before
/// the epoch.
pub open spec fn secs_instant(s: i64) -> Option<Timestamp> {
    if 0 <= s && s * NANOS_PER_SEC <= i64::MAX {
        Some(Timestamp { nanos: (s * NANOS_PER_SEC) as i64 })
    } else {
        None
    }
}

fn instant_from_millis(m: i64) -> (r: Option<Timestamp>)
    ensures
        r == millis_instant(m),
{
    if 0 <= m && m <= i64::MAX / NANOS_PER_MILLI as i64 {
        Some(Timestamp { nanos: m * NANOS_PER_MILLI as i64 })
    } else {
        None
    }
}

fn instant_from_secs(s: i64) -> (r: Option<Timestamp>)
    ensures
        r == secs_instant(s),
{
    if 0 <= s && s <= i64::MAX / NANOS_PER_SEC as i64 {
        Some(Timestamp { nanos: s * NANOS_PER_SEC as i64 })
    } else {
        None
    }
}

// ---- attribute lookup ----

/// The value of the first attribute named `name` at or after position `i`.
pub open spec fn lookup_from(attrs: Seq<(String, Attribute)>, name: Seq<char>, i: int) -> Option<Attribute>
    decreases attrs.len() - i,
{
    if i < 0 || i >= attrs.len() {
        None
    } else if attrs[i].0@ == name {
        Some(attrs[i].1)
    } else {
        lookup_from(attrs, name, i + 1)
    }
}

pub open spec fn lookup(attrs: Seq<(String, Attribute)>, name: Seq<char>) -> Option<Attribute> {
    lookup_from(attrs, name, 0)
}

pub open spec fn text_of(a: Option<Attribute>) -> Option<Seq<char>> {
    match a {
        Some(Attribute::S(s)) => Some(s@),
        _ => None,
    }
}

pub open spec fn number_of(a: Option<Attribute>) -> Option<i64> {
    match a {
        Some(Attribute::N(s)) => parse_i64_spec(s@),
        _ => None,
    }
}

fn find_attribute<'a>(attrs: &'a Vec<(String, Attribute)>, name: &str) -> (r: Option<&'a Attribute>)
    ensures
        match r {
            Some(a) => lookup(attrs@, name@) == Some(*a),
            None => lookup(attrs@, name@) is None,
        },
{
    let key = name.to_string();
    let mut i: usize = 0;
    while i < attrs.len()
        invariant
            i <= attrs@.len(),
            key@ == name@,
            lookup(attrs@, name@) == lookup_from(attrs@, name@, i as int),
        decreases attrs@.len() - i,
    {
        if attrs[i].0 == key {
            return Some(&attrs[i].1);
        }
        i = i + 1;
    }
    None
}

fn text_attribute(attrs: &Vec<(String, Attribute)>, name: &str) -> (r: Option<String>)
    ensures
        match r {
            Some(s) => text_of(lookup(attrs@, name@)) == Some(s@),
            None => text_of(lookup(attrs@, name@)) is None,
        },
{
    match find_attribute(attrs, name) {
        Some(Attribute::S(s)) => Some(s.clone()),
        _ => None,
    }
}

fn number_attribute(attrs: &Vec<(String, Attribute)>, name: &str) -> (r: Option<i64>)
    ensures
        r == number_of(lookup(attrs@, name@)),
{
    match find_attribute(attrs, name) {
        Some(Attribute::N(s)) => parse_i64(s.as_str()),
        _ => None,
    }
}

// ---- records ----

pub open spec fn text_view(o: Option<String>) -> Option<Seq<char>> {
    match o {
        Some(s) => Some(s@),
        None => None,
    }
}

/// An optional number of milliseconds as an optional instant; `Err` where the
/// number is there but no instant.
pub open spec fn optional_millis(n: Option<i64>) -> Result<Option<Timestamp>, ()> {
    match n {
        None => Ok(None),
        Some(m) => match millis_instant(m) {
            Some(t) => Ok(Some(t)),
            None => Err(()),
        },
    }
}

/// An optional number of seconds as an optional expiration; `Err` where the
/// number is there but no instant.
pub open spec fn optional_secs(n: Option<i64>) -> Result<Option<Expiration>, ()> {
    match n {
        None => Ok(None),
        Some(s) => match secs_instant(s) {
            Some(t) => Ok(Some(Expiration { instant: t })),
            None => Err(()),
        },
    }
}

/// Whether a stored row decodes: `id` and `processorId` are strings,
/// `startedAt` a number of milliseconds that is an instant, and
/// `completedAt` and `expiresOn`, where they are numbers, instants too.
pub open spec fn decodes(attrs: Seq<(String, Attribute)>) -> bool {
    &&& text_of(lookup(attrs, ID_ATTRIBUTE@)) is Some
    &&& text_of(lookup(attrs, PROCESSOR_ID_ATTRIBUTE@)) is Some
    &&& number_of(lookup(attrs, STARTED_AT_ATTRIBUTE@)) matches Some(m) && millis_instant(m) is Some
    &&& optional_millis(number_of(lookup(attrs, COMPLETED_AT_ATTRIBUTE@))) is Ok
    &&& optional_secs(number_of(lookup(attrs, EXPIRES_ON_ATTRIBUTE@))) is Ok
}

/// Decodes a stored row into a record whose identifiers and memoized value
/// are still JSON text. A missing or malformed `id`, `processorId` or
/// `startedAt` is a decoding error, and so is a `completedAt` or `expiresOn`
/// number that is no instant; one that is not a number is read as absent.
pub fn decode_process(attrs: &Vec<(String, Attribute)>) -> (r: Result<Process<String, String, String>, Error>)
    ensures
        r is Ok <==> decodes(attrs@),
        r matches Ok(p) ==> {
            &&& text_of(lookup(attrs@, ID_ATTRIBUTE@)) == Some(p.id@)
            &&& text_of(lookup(attrs@, PROCESSOR_ID_ATTRIBUTE@)) == Some(p.processor_id@)
            &&& millis_instant(number_of(lookup(attrs@, STARTED_AT_ATTRIBUTE@))->0) == Some(p.started_at)
            &&& optional_millis(number_of(lookup(attrs@, COMPLETED_AT_ATTRIBUTE@))) == Ok::<
                Option<Timestamp>,
                (),
            >(p.completed_at)
            &&& optional_secs(number_of(lookup(attrs@, EXPIRES_ON_ATTRIBUTE@))) == Ok::<
                Option<Expiration>,
                (),
            >(p.expires_on)
            &&& text_view(p.memoized) == text_of(lookup(attrs@, MEMOIZED_ATTRIBUTE@))
        },
        r matches Err(e) ==> e is Decoding,
{
    let id = match text_attribute(attrs, ID_ATTRIBUTE) {
        Some(s) => s,
        None => return Err(Error::Decoding("Missing 'id' field".to_string())),
    };
    let processor_id = match text_attribute(attrs, PROCESSOR_ID_ATTRIBUTE) {
        Some(s) => s,
        None => return Err(Error::Decoding("Missing 'processorId' field".to_string())),
    };
    let started_at = match number_attribute(attrs, STARTED_AT_ATTRIBUTE) {
        Some(m) => match instant_from_millis(m) {
            Some(t) => t,
            None => return Err(Error::Decoding("Missing or invalid 'startedAt' field".to_string())),
        },
        None => return Err(Error::Decoding("Missing or invalid 'startedAt' field".to_string())),
    };
    let completed_at = match number_attribute(attrs, COMPLETED_AT_ATTRIBUTE) {
        Some(m) => match instant_from_millis(m) {
            Some(t) => Some(t),
            None => return Err(Error::Decoding("Invalid 'completedAt' field".to_string())),
        },
        None => None,
    };
    let expires_on = match number_attribute(attrs, EXPIRES_ON_ATTRIBUTE) {
        Some(s) => match instant_from_secs(s) {
            Some(t) => Some(Expiration::new(t)),
            None => return Err(Error::Decoding("Invalid 'expiresOn' field".to_string())),
        },
        None => None,
    };
    let memoized = text_attribute(attrs, MEMOIZED_ATTRIBUTE);
    Ok(Process { id, processor_id, started_at, completed_at, expires_on, memoized })
}

// ---- writes ----

/// The numbers that a completion writes besides the memoized value.
#[derive(Debug, Clone, Copy, PartialEq, Eq, Structural)]
pub struct CompletionUpdate {
    /// `completedAt`, in milliseconds since the epoch
    pub completed_at_millis: i64,
    /// `expiresOn`, in seconds since the epoch, where the record has a time to live
    pub expires_on_secs: Option<i64>,
}

impl CompletionUpdate {
    /// The update expression that writes these attributes.
    pub fn expression(&self) -> (r: &'static str)
        ensures
            r@ == (if self.expires_on_secs is Some {
                COMPLETE_WITH_EXPIRY_EXPRESSION@
            } else {
                COMPLETE_EXPRESSION@
            }),
    {
        if self.expires_on_secs.is_some() {
            COMPLETE_WITH_EXPIRY_EXPRESSION
        } else {
            COMPLETE_EXPRESSION
        }
    }
}

/// The attributes that `completion` writes when its runner finishes at `now`;
/// an instant before the epoch is an internal error.
pub fn completion_update<Id, ProcessorId>(completion: &Completion<Id, ProcessorId>, now: Timestamp) -> (r: Result<
    CompletionUpdate,
    Error,
>)
    ensures
        r is Ok <==> now.nanos >= 0,
        r matches Ok(u) ==> {
            &&& u.completed_at_millis == now.nanos as int / NANOS_PER_MILLI as int
            &&& match completion.expiration_spec(now) {
                Some(e) => u.expires_on_secs == Some((e.instant.nanos as int / NANOS_PER_SEC as int) as i64),
                None => u.expires_on_secs is None,
            }
        },
        r matches Err(e) ==> e is Internal,
{
    let completed_at_millis = now.millis_since_epoch()?;
    let expires_on_secs = match completion.expiration_at(now) {
        Some(e) => Some(e.instant.secs_since_epoch()?),
        None => None,
    };
    Ok(CompletionUpdate { completed_at_millis, expires_on_secs })
}

} // verus!
