//! What each request is answered with. Every function here takes plain
//! values and the registry, and says what goes back to the visitor; the
//! web server around it reads the clock, holds the lock on the registry and
//! writes the response.

use vstd::prelude::*;
use vstd::string::StringExecFns;
use crate::code::{is_code_text, validate_code, CodeError};
use crate::registry::{after_lookup, after_store, live_code, Rooms};
use crate::text::{decimal_text, push_decimal, starts_with};

verus! {

/// Where the conferencing service lives.
pub const MEET_ORIGIN: &'static str = "https://meet.google.com";

/// What a meeting code is appended to for the address of its meeting.
pub const MEET_BASE: &'static str = "https://meet.google.com/";

/// Where a visitor of a room without a live code is sent.
pub const LANDING_PAGE: &'static str = "https://meet.google.com/landing";

/// The page that describes this service.
pub const PROJECT_PAGE: &'static str = "https://github.com/71/meet-url";

/// What is put between an address and the number of the account to use.
pub const AUTHUSER_QUERY: &'static str = "?authuser=";

/// The status of an answer that carries what was asked for.
pub const STATUS_OK: u16 = 200;

/// The status of an answer to a request for something unknown.
pub const STATUS_NOT_FOUND: u16 = 404;

/// How a redirect is announced to the browser.
#[derive(Clone, Copy, Debug, PartialEq, Eq, Structural)]
pub enum RedirectKind {
    /// The address has moved for good.
    Permanent,
    /// The address was found elsewhere, for now.
    Found,
    /// The answer is to be fetched from another address.
    SeeOther,
}

/// A redirect as a mathematical value.
pub struct Target {
    pub kind: RedirectKind,
    pub location: Seq<char>,
}

/// An answer that sends the visitor to another address.
#[derive(Debug)]
pub struct Redirect {
    pub kind: RedirectKind,
    pub location: String,
}

impl View for Redirect {
    type V = Target;

    open spec fn view(&self) -> Target {
        Target { kind: self.kind, location: self.location@ }
    }
}

/// Where a visitor of a room is sent, given the code that the lookup of
/// the room found: to the meeting of that code, or to the landing page.
pub open spec fn room_target(code: Option<Seq<char>>) -> Target {
    match code {
        Some(code) => Target { kind: RedirectKind::Found, location: MEET_BASE@ + code },
        None => Target { kind: RedirectKind::SeeOther, location: LANDING_PAGE@ },
    }
}

/// The address that a redirect to `location` is changed to when the
/// request names the account `user`: an address of the conferencing
/// service gets the account appended, any other address is left alone.
pub open spec fn authuser_target(location: Seq<char>, user: Option<u8>) -> Option<Seq<char>> {
    match user {
        Some(user) if MEET_ORIGIN@.is_prefix_of(location) => Some(
            location + AUTHUSER_QUERY@ + decimal_text(user as nat),
        ),
        _ => None,
    }
}

/// The answer to a request for the root: a permanent redirect to the page
/// of the project.
pub fn redirect_to_github() -> (redirect: Redirect)
    ensures
        redirect@ == (Target { kind: RedirectKind::Permanent, location: PROJECT_PAGE@ }),
{
    Redirect { kind: RedirectKind::Permanent, location: String::from_str(PROJECT_PAGE) }
}

/// The body of the answer to a request that matches no route.
pub fn not_found() -> (body: &'static str)
    ensures
        body@ == "not found"@,
{
    "not found"
}

/// The redirect for a visitor of a room, from what the lookup of the room
/// gave.
pub fn redirect_for(code: Option<String>) -> (redirect: Redirect)
    ensures
        redirect@ == room_target(crate::registry::text_of(code)),
{
    match code {
        Some(code) => {
            let mut location = String::from_str(MEET_BASE);
            location.append(code.as_str());
            Redirect { kind: RedirectKind::Found, location }
        },
        None => Redirect { kind: RedirectKind::SeeOther, location: String::from_str(LANDING_PAGE) },
    }
}

/// Answers a visit of `room` at time `now`: looks the room up, which evicts
/// its entry if that has expired, and redirects to the meeting if a live
/// code was found, to the landing page if not.
pub fn get_room(rooms: &mut Rooms, room: &str, now: u64) -> (redirect: Redirect)
    ensures
        redirect@ == room_target(live_code(old(rooms)@, room@, now)),
        final(rooms)@ == after_lookup(old(rooms)@, room@, now),
{
    redirect_for(rooms.lookup(room, now))
}

/// Answers a request for the code of `room` at time `now`: the live code
/// of the room, if it has one. The lookup is the one that `get_room`
/// makes, so the two never disagree on whether an entry has expired.
pub fn get_code(rooms: &mut Rooms, room: &str, now: u64) -> (code: Option<String>)
    ensures
        crate::registry::text_of(code) == live_code(old(rooms)@, room@, now),
        final(rooms)@ == after_lookup(old(rooms)@, room@, now),
{
    rooms.lookup(room, now)
}

/// Answers the submission of `code` for `room` at time `now`. A code of the
/// right shape is written to the registry and handed back; any other is
/// turned down before the registry is touched.
pub fn post_code(rooms: &mut Rooms, room: String, code: String, now: u64) -> (outcome: Result<
    String,
    CodeError,
>)
    ensures
        is_code_text(code@) ==> outcome is Ok && outcome->Ok_0@ == code@ && final(rooms)@
            == after_store(old(rooms)@, room@, code@, now),
        !is_code_text(code@) ==> outcome == Err::<String, CodeError>(CodeError::InvalidCodeShape)
            && final(rooms)@ == old(rooms)@,
{
    match validate_code(code.as_str()) {
        Ok(()) => {
            rooms.store(room, code.clone(), now);
            Ok(code)
        },
        Err(error) => Err(error),
    }
}

/// Whether an answer with `status` may be read by scripts of the
/// conferencing service: one that succeeded, or one that found nothing.
pub fn allows_cross_origin(status: u16) -> (allowed: bool)
    ensures
        allowed == (status == STATUS_OK || status == STATUS_NOT_FOUND),
{
    status == STATUS_OK || status == STATUS_NOT_FOUND
}

/// The address that replaces `location` in a redirect, where the request
/// named the account `user` and the redirect leads to the conferencing
/// service; `None` where the redirect stays as it is.
pub fn authuser_location(location: &str, user: Option<u8>) -> (changed: Option<String>)
    ensures
        crate::registry::text_of(changed) == authuser_target(location@, user),
{
    match user {
        Some(user) => {
            if starts_with(location, MEET_ORIGIN) {
                let mut changed = String::from_str(location);
                changed.append(AUTHUSER_QUERY);
                push_decimal(&mut changed, user);
                Some(changed)
            } else {
                None
            }
        },
        None => None,
    }
}

} // verus!
