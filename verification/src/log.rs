//! Log lines: the console messages and the route change journal.

use vstd::prelude::*;
use crate::text::{debug_quoted, debug_str, spec_trim, trim};

verus! {

/// The console line for a message: the time stamp, the level in brackets, a
/// space, then the message.
pub open spec fn log_text(stamp: Seq<char>, level: Seq<char>, msg: Seq<char>) -> Seq<char> {
    stamp + seq!['['] + level + seq![']', ' '] + msg
}

/// Builds the console line for `msg` at `level`, stamped with `stamp`.
pub fn log_line(stamp: &str, level: &str, msg: &str) -> (line: String)
    ensures
        line@ == log_text(stamp@, level@, msg@),
{
    let mut line = stamp.to_owned();
    line.push('[');
    line.append(level);
    line.push(']');
    line.push(' ');
    line.append(msg);
    assert(line@ =~= log_text(stamp@, level@, msg@));
    line
}

/// The console line for `msg` at level "info", stamped with `stamp`.
pub fn info(stamp: &str, msg: &str) -> (line: String)
    ensures
        line@ == log_text(stamp@, "info"@, msg@),
{
    log_line(stamp, "info", msg)
}

/// The console line for `msg` at level "warn", stamped with `stamp`.
pub fn warn(stamp: &str, msg: &str) -> (line: String)
    ensures
        line@ == log_text(stamp@, "warn"@, msg@),
{
    log_line(stamp, "warn", msg)
}

/// The console line for `msg` at level "error", stamped with `stamp`.
pub fn error(stamp: &str, msg: &str) -> (line: String)
    ensures
        line@ == log_text(stamp@, "error"@, msg@),
{
    log_line(stamp, "error", msg)
}

/// The reason part of a route change line: empty when there is no reason or
/// the reason is only white space, else " reason=" and the quoted reason.
pub open spec fn reason_text(reason: Option<Seq<char>>) -> Seq<char> {
    match reason {
        Some(r) => if spec_trim(r).len() > 0 {
            seq![' ', 'r', 'e', 'a', 's', 'o', 'n', '='] + debug_quoted(r)
        } else {
            Seq::empty()
        },
        None => Seq::empty(),
    }
}

/// The characters of an optional reason.
pub open spec fn reason_view(reason: Option<&str>) -> Option<Seq<char>> {
    match reason {
        Some(r) => Some(r@),
        None => None,
    }
}

/// One line of the route change journal from its parts, the names already
/// quoted, line break included.
pub open spec fn journal_text(
    stamp: Seq<char>,
    action: Seq<char>,
    quoted_map: Seq<char>,
    quoted_route: Seq<char>,
    quoted_slug: Seq<char>,
    reason_part: Seq<char>,
) -> Seq<char> {
    stamp + seq![' ', '['] + action + seq![']', ' ', 'm', 'a', 'p', '='] + quoted_map
        + seq![' ', 'r', 'o', 'u', 't', 'e', '='] + quoted_route
        + seq![' ', 's', 'l', 'u', 'g', '='] + quoted_slug + reason_part + seq!['\n']
}

/// One line of the route change journal, line break included.
pub open spec fn route_change_text(
    stamp: Seq<char>,
    action: Seq<char>,
    map_name: Seq<char>,
    route_name: Seq<char>,
    slug: Seq<char>,
    reason: Option<Seq<char>>,
) -> Seq<char> {
    journal_text(
        stamp,
        action,
        debug_quoted(map_name),
        debug_quoted(route_name),
        debug_quoted(slug),
        reason_text(reason),
    )
}

fn push_all(line: &mut String, text: &str)
    ensures
        final(line)@ == old(line)@ + text@,
{
    line.append(text);
}

/// Assembles a journal line from its parts: the quoted names and the reason
/// part, which is empty or starts with " reason=".
pub fn journal_line(
    stamp: &str,
    action: &str,
    quoted_map: &str,
    quoted_route: &str,
    quoted_slug: &str,
    reason_part: &str,
) -> (line: String)
    ensures
        line@ == journal_text(stamp@, action@, quoted_map@, quoted_route@, quoted_slug@, reason_part@),
{
    let mut line = stamp.to_owned();
    line.push(' ');
    line.push('[');
    push_all(&mut line, action);
    line.push(']');
    line.push(' ');
    line.push('m');
    line.push('a');
    line.push('p');
    line.push('=');
    push_all(&mut line, quoted_map);
    line.push(' ');
    line.push('r');
    line.push('o');
    line.push('u');
    line.push('t');
    line.push('e');
    line.push('=');
    push_all(&mut line, quoted_route);
    line.push(' ');
    line.push('s');
    line.push('l');
    line.push('u');
    line.push('g');
    line.push('=');
    push_all(&mut line, quoted_slug);
    push_all(&mut line, reason_part);
    line.push('\n');
    assert(line@ =~= journal_text(stamp@, action@, quoted_map@, quoted_route@, quoted_slug@, reason_part@));
    line
}

/// The reason part of a journal line for `reason`.
pub fn reason_part(reason: Option<&str>) -> (part: String)
    ensures
        part@ == reason_text(reason_view(reason)),
{
    let mut part = String::new();
    match reason {
        Some(r) => {
            if !trim(r).is_empty() {
                part.push(' ');
                part.push('r');
                part.push('e');
                part.push('a');
                part.push('s');
                part.push('o');
                part.push('n');
                part.push('=');
                let quoted = debug_str(r);
                push_all(&mut part, quoted.as_str());
            }
        },
        None => {},
    }
    assert(part@ =~= reason_text(reason_view(reason)));
    part
}

/// Builds the route change journal line for `stamp`.
pub fn route_change_line(
    stamp: &str,
    action: &str,
    map_name: &str,
    route_name: &str,
    slug: &str,
    reason: Option<&str>,
) -> (line: String)
    ensures
        line@ == route_change_text(stamp@, action@, map_name@, route_name@, slug@, reason_view(reason)),
{
    let quoted_map = debug_str(map_name);
    let quoted_route = debug_str(route_name);
    let quoted_slug = debug_str(slug);
    let part = reason_part(reason);
    journal_line(
        stamp,
        action,
        quoted_map.as_str(),
        quoted_route.as_str(),
        quoted_slug.as_str(),
        part.as_str(),
    )
}

/// A console line starts with the stamp, then the level in brackets, and ends
/// with the message.
pub proof fn law_log_line_parts(stamp: Seq<char>, level: Seq<char>, msg: Seq<char>)
    ensures
        log_text(stamp, level, msg).len() == stamp.len() + level.len() + msg.len() + 3,
        log_text(stamp, level, msg).take(stamp.len() as int) == stamp,
        log_text(stamp, level, msg)[stamp.len() as int] == '[',
        log_text(stamp, level, msg).subrange((stamp.len() + 1) as int, (stamp.len() + 1 + level.len()) as int) == level,
        log_text(stamp, level, msg).skip((stamp.len() + level.len() + 3) as int) == msg,
{
    let t = log_text(stamp, level, msg);
    assert(t.take(stamp.len() as int) =~= stamp);
    assert(t.subrange((stamp.len() + 1) as int, (stamp.len() + 1 + level.len()) as int) =~= level);
    assert(t.skip((stamp.len() + level.len() + 3) as int) =~= msg);
}

/// A journal line starts with the stamp and ends with a line break; a reason
/// that is only white space, or none, adds nothing to it.
pub proof fn law_journal_line_parts(
    stamp: Seq<char>,
    action: Seq<char>,
    map_name: Seq<char>,
    route_name: Seq<char>,
    slug: Seq<char>,
    reason: Option<Seq<char>>,
)
    ensures
        route_change_text(stamp, action, map_name, route_name, slug, reason).take(stamp.len() as int) == stamp,
        route_change_text(stamp, action, map_name, route_name, slug, reason).last() == '\n',
        (match reason {
            Some(r) => spec_trim(r).len() == 0,
            None => true,
        }) ==> route_change_text(stamp, action, map_name, route_name, slug, reason) == route_change_text(
            stamp,
            action,
            map_name,
            route_name,
            slug,
            None,
        ),
{
    let t = route_change_text(stamp, action, map_name, route_name, slug, reason);
    assert(t.take(stamp.len() as int) =~= stamp);
}

} // verus!
