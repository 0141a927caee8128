//! Service-manager notifications: the messages the daemon sends, where a
//! `NOTIFY_SOCKET` value says to send them, and when nothing is sent at all.
use vstd::prelude::*;
use vstd::string::*;
use crate::text::{push_char, chars_of, string_of_range};
use crate::models::{utf8_len, utf8_byte_len};

verus! {

/// Largest notification the service manager accepts, in bytes (8 MiB).
pub const NOTIFY_MAX: usize = 8388608;

/// Whether the character NUL occurs in `s`.
pub open spec fn has_nul(s: Seq<char>) -> bool {
    exists|i: int| 0 <= i < s.len() && s[i] == '\0'
}

/// Where a notification goes.
pub enum NotifyTarget {
    /// A socket in the abstract namespace, by its name (what follows `@`).
    Abstract(String),
    /// A socket bound to a filesystem path.
    Filesystem(String),
}

/// What a `NOTIFY_SOCKET` value `p` names: `None` for the empty value, for a
/// bare `@`, and for an abstract name that holds NUL.
pub open spec fn notify_address_ok(p: Seq<char>, t: NotifyTarget) -> bool {
    match t {
        NotifyTarget::Abstract(n) => p.len() > 0 && p[0] == '@' && n@ == p.drop_first()
            && n@.len() > 0 && !has_nul(n@),
        NotifyTarget::Filesystem(f) => p.len() > 0 && p[0] != '@' && f@ == p,
    }
}

/// The inputs on which no target is named.
pub open spec fn notify_address_rejected(p: Seq<char>) -> bool {
    p.len() == 0 || (p[0] == '@' && (p.len() == 1 || has_nul(p.drop_first())))
}

/// Reads a `NOTIFY_SOCKET` value: `@name` is an abstract socket, anything
/// else non-empty a filesystem path.
pub fn notify_address(socket_path: &str) -> (r: Option<NotifyTarget>)
    ensures
        r is None <==> notify_address_rejected(socket_path@),
        r matches Some(t) ==> notify_address_ok(socket_path@, t),
{
    let v = chars_of(socket_path);
    if v.len() == 0 {
        return None;
    }
    if v[0] == '@' {
        let mut i: usize = 1;
        while i < v.len()
            invariant
                v@ == socket_path@,
                1 <= i <= v@.len(),
                socket_path@[0] == '@',
                forall|j: int| 1 <= j < i ==> v@[j] != '\0',
            decreases v.len() - i,
        {
            if v[i] == '\0' {
                assert(socket_path@.drop_first()[i - 1] == socket_path@[i as int]);
                assert(has_nul(socket_path@.drop_first()));
                return None;
            }
            i = i + 1;
        }
        if v.len() == 1 {
            return None;
        }
        let name = string_of_range(&v, 1, v.len());
        assert(name@ =~= socket_path@.drop_first());
        assert(!has_nul(name@)) by {
            assert forall|j: int| 0 <= j < name@.len() implies name@[j] != '\0' by {
                assert(name@[j] == v@[j + 1]);
            }
        }
        Some(NotifyTarget::Abstract(name))
    } else {
        let path = string_of_range(&v, 0, v.len());
        assert(path@ =~= socket_path@);
        Some(NotifyTarget::Filesystem(path))
    }
}

/// `s` without its line feeds and carriage returns.
pub open spec fn strip_line_breaks(s: Seq<char>) -> Seq<char>
    decreases s.len(),
{
    if s.len() == 0 {
        s
    } else {
        let rest = strip_line_breaks(s.drop_last());
        if s.last() == '\n' || s.last() == '\r' {
            rest
        } else {
            rest.push(s.last())
        }
    }
}

/// Removes line feeds and carriage returns, so that a value cannot add
/// assignments of its own to a notification.
pub fn sanitize_value(s: &str) -> (r: String)
    ensures
        r@ == strip_line_breaks(s@),
{
    let v = chars_of(s);
    let mut r = String::new();
    let mut i: usize = 0;
    while i < v.len()
        invariant
            v@ == s@,
            i <= v@.len(),
            r@ == strip_line_breaks(s@.subrange(0, i as int)),
        decreases v.len() - i,
    {
        let ghost pre = s@.subrange(0, i as int);
        assert(s@.subrange(0, i + 1).drop_last() =~= pre);
        let c = v[i];
        if c != '\n' && c != '\r' {
            push_char(&mut r, c);
        }
        i = i + 1;
    }
    assert(s@.subrange(0, v@.len() as int) =~= s@);
    r
}

/// A sanitised value holds no line break.
pub proof fn lemma_stripped_has_no_line_break(s: Seq<char>)
    ensures
        forall|i: int|
            0 <= i < strip_line_breaks(s).len() ==> strip_line_breaks(s)[i] != '\n'
                && strip_line_breaks(s)[i] != '\r',
    decreases s.len(),
{
    if s.len() > 0 {
        lemma_stripped_has_no_line_break(s.drop_last());
        let rest = strip_line_breaks(s.drop_last());
        assert forall|i: int| 0 <= i < strip_line_breaks(s).len() implies strip_line_breaks(s)[i]
            != '\n' && strip_line_breaks(s)[i] != '\r' by {
            if i < rest.len() {
                assert(strip_line_breaks(s)[i] == rest[i]);
            }
        }
    }
}

/// The message that tells the service manager the daemon is ready.
pub fn notify_systemd_ready() -> (m: String)
    ensures
        m@ == "READY=1\nSTATUS=Router daemon active\n"@,
{
    String::from_str("READY=1\nSTATUS=Router daemon active\n")
}

/// The watchdog keep-alive message.
pub fn notify_systemd_watchdog() -> (m: String)
    ensures
        m@ == "WATCHDOG=1\n"@,
{
    String::from_str("WATCHDOG=1\n")
}

/// The message sent when the daemon begins to shut down.
pub fn notify_systemd_stopping() -> (m: String)
    ensures
        m@ == "STOPPING=1\nSTATUS=Shutting down cleanly\n"@,
{
    String::from_str("STOPPING=1\nSTATUS=Shutting down cleanly\n")
}

/// A `STATUS=` message carrying `status` without its line breaks.
pub fn notify_systemd_status(status: &str) -> (m: String)
    ensures
        m@ == "STATUS="@ + strip_line_breaks(status@) + "\n"@,
{
    proof {
        reveal_strlit("\n");
    }
    let mut m = String::from_str("STATUS=");
    let clean = sanitize_value(status);
    m.append(clean.as_str());
    push_char(&mut m, '\n');
    assert(m@ =~= "STATUS="@ + strip_line_breaks(status@) + "\n"@);
    m
}

/// What becomes of a notification.
pub enum NotifyPlan {
    /// The message is over the 8 MiB cap: refused, nothing is sent.
    TooLarge,
    /// `NOTIFY_SOCKET` is unset or empty: nothing to do, zero bytes sent.
    NotSupervised,
    /// `NOTIFY_SOCKET` names no usable socket: refused.
    InvalidTarget,
    /// Send the message to this socket.
    Send(NotifyTarget),
}

/// Decides what happens to the notification `state` given the value of
/// `NOTIFY_SOCKET` (`None` when unset). The size cap is checked first.
pub fn plan_notification(state: &str, notify_socket: Option<&str>) -> (p: NotifyPlan)
    ensures
        p is TooLarge <==> utf8_len(state@) > NOTIFY_MAX,
        p is NotSupervised <==> utf8_len(state@) <= NOTIFY_MAX && (notify_socket is None
            || notify_socket.unwrap()@.len() == 0),
        p is InvalidTarget <==> utf8_len(state@) <= NOTIFY_MAX && notify_socket is Some
            && notify_socket.unwrap()@.len() > 0 && notify_address_rejected(
            notify_socket.unwrap()@,
        ),
        p matches NotifyPlan::Send(t) ==> notify_socket is Some && notify_address_ok(
            notify_socket.unwrap()@,
            t,
        ),
{
    match utf8_byte_len(state) {
        None => {
            return NotifyPlan::TooLarge;
        },
        Some(n) => {
            if n > NOTIFY_MAX {
                return NotifyPlan::TooLarge;
            }
        },
    }
    match notify_socket {
        None => NotifyPlan::NotSupervised,
        Some(path) => {
            let v = chars_of(path);
            if v.len() == 0 {
                NotifyPlan::NotSupervised
            } else {
                match notify_address(path) {
                    None => NotifyPlan::InvalidTarget,
                    Some(t) => NotifyPlan::Send(t),
                }
            }
        },
    }
}

} // verus!
