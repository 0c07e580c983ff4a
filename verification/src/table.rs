//! Layout decisions of the routes table: upstream labels, column widths, and scrolling.

use vstd::prelude::*;
use vstd::utf8::*;
use vstd::string::StringSliceAdditionalSpecFns;
use crate::inspection::{ip_is_loopback, ip_of, parse_ip_address};
use crate::text::{
    chars_eq_ignore_ascii_case, eq_ignore_ascii_case, from_chars, last_index, lemma_last_index,
    parse_u16, parse_u16_chars, push_char, push_str, rfind_char, slice_chars, to_chars,
};

verus! {

/// A host without the brackets of an IPv6 literal.
pub open spec fn unbracketed(host: Seq<char>) -> Seq<char> {
    if host.len() >= 2 && host[0] == '[' && host.last() == ']' {
        host.subrange(1, host.len() - 1)
    } else {
        host
    }
}

/// The host of an upstream `host:port` whose port is a valid port number, without IPv6 brackets.
pub open spec fn upstream_host(upstream: Seq<char>) -> Option<Seq<char>> {
    match last_index(upstream, ':') {
        None => None,
        Some(k) => if parse_u16(upstream.subrange(k + 1, upstream.len() as int)) is Some {
            Some(unbracketed(upstream.subrange(0, k)))
        } else {
            None
        },
    }
}

/// How an upstream is shown, given whether its host is a loopback IP address literal: a
/// `host:port` whose host is `localhost` in any ASCII case, or a loopback IP literal, shows only
/// `:port`; anything else is shown as is.
pub open spec fn displayed_upstream(upstream: Seq<char>, host_is_loopback_ip: bool) -> Seq<char> {
    match upstream_host(upstream) {
        Some(host) => if eq_ignore_ascii_case(host, "localhost"@) || host_is_loopback_ip {
            let k = last_index(upstream, ':')->0;
            seq![':'] + upstream.subrange(k + 1, upstream.len() as int)
        } else {
            upstream
        },
        None => upstream,
    }
}

/// The host of an upstream whose port is valid, as the table classifies it.
pub fn upstream_host_of(upstream: &str) -> (r: Option<String>)
    ensures
        match upstream_host(upstream@) {
            Some(h) => r matches Some(s) && s@ == h,
            None => r is None,
        },
{
    let chars = to_chars(upstream);
    let colon = match rfind_char(&chars, ':') {
        Some(k) => k,
        None => {
            return None;
        },
    };
    proof {
        lemma_last_index(upstream@, ':');
    }
    let host = slice_chars(&chars, 0, colon);
    let port = slice_chars(&chars, colon + 1, chars.len());
    if parse_u16_chars(&port).is_none() {
        return None;
    }
    let inner = if host.len() >= 2 && host[0] == '[' && host[host.len() - 1] == ']' {
        slice_chars(&host, 1, host.len() - 1)
    } else {
        host
    };
    Some(from_chars(inner.as_slice()))
}

/// Whether a host text is a loopback IP address.
pub open spec fn host_is_loopback_literal(host: Seq<char>) -> bool {
    match ip_of(host) {
        Some(a) => ip_is_loopback(a),
        None => false,
    }
}

/// The label of an upstream in the routes table.
pub fn display_upstream(upstream: &str) -> (r: String)
    ensures
        r@ == displayed_upstream(
            upstream@,
            match upstream_host(upstream@) {
                Some(h) => host_is_loopback_literal(h),
                None => false,
            },
        ),
{
    let loopback = match upstream_host_of(upstream) {
        Some(host) => match parse_ip_address(host.as_str()) {
            Some(ip) => ip.is_loopback(),
            None => false,
        },
        None => false,
    };
    display_upstream_with(upstream, loopback)
}

/// The label of an upstream in the routes table, given whether its host (see
/// `upstream_host_of`) parses as a loopback IP address.
pub fn display_upstream_with(upstream: &str, host_is_loopback_ip: bool) -> (r: String)
    ensures
        r@ == displayed_upstream(upstream@, host_is_loopback_ip),
{
    let chars = to_chars(upstream);
    let colon = match rfind_char(&chars, ':') {
        Some(k) => k,
        None => {
            return upstream.to_owned();
        },
    };
    proof {
        lemma_last_index(upstream@, ':');
    }
    let host = slice_chars(&chars, 0, colon);
    let port = slice_chars(&chars, colon + 1, chars.len());
    if parse_u16_chars(&port).is_none() {
        return upstream.to_owned();
    }
    let inner = if host.len() >= 2 && host[0] == '[' && host[host.len() - 1] == ']' {
        slice_chars(&host, 1, host.len() - 1)
    } else {
        host
    };
    let localhost = to_chars("localhost");
    if chars_eq_ignore_ascii_case(&inner, &localhost) || host_is_loopback_ip {
        let mut label = String::new();
        push_char(&mut label, ':');
        let port_text = from_chars(port.as_slice());
        push_str(&mut label, port_text.as_str());
        assert(label@ =~= seq![':'] + port@);
        label
    } else {
        upstream.to_owned()
    }
}

/// The width of the trailing column: the content width, limited by the available width.
pub fn fit_trailing_column_width(content_width: usize, available_width: u16) -> (r: u16)
    ensures
        r as int == if content_width < available_width {
            content_width as int
        } else {
            available_width as int
        },
{
    if content_width < available_width as usize {
        content_width as u16
    } else {
        available_width
    }
}

/// The selection and the first visible row of a scrolling table.
#[derive(Debug, Clone, Copy, PartialEq, Eq, Structural, Default)]
pub struct TableScroll {
    pub selected: Option<usize>,
    pub offset: usize,
}

pub open spec fn min_int(a: int, b: int) -> int {
    if a < b {
        a
    } else {
        b
    }
}

pub open spec fn sat_sub(a: int, b: int) -> int {
    if a > b {
        a - b
    } else {
        0
    }
}

/// The first visible row after keeping a margin of up to two rows around the selection.
pub open spec fn scrolled_offset(selected: int, offset: int, len: int, viewport: int) -> int {
    let margin = min_int(2, sat_sub(viewport, 1));
    let max_offset = sat_sub(len, viewport);
    let start = min_int(offset, max_offset);
    if selected < start + margin {
        sat_sub(selected, margin)
    } else if selected + margin >= start + viewport {
        min_int(sat_sub(selected + margin + 1, viewport), max_offset)
    } else {
        start
    }
}

/// Scrolling never hides the selection: for a selected row of a table taller than a
/// non-empty viewport, the first visible row stays within the scrollable range and the
/// selected row lies inside the viewport.
pub proof fn lemma_scroll_margin_keeps_selection_visible(selected: int, offset: int, len: int, viewport: int)
    requires
        0 <= selected < len,
        0 <= offset,
        1 <= viewport < len,
    ensures
        0 <= scrolled_offset(selected, offset, len, viewport) <= len - viewport,
        scrolled_offset(selected, offset, len, viewport) <= selected < scrolled_offset(
            selected,
            offset,
            len,
            viewport,
        ) + viewport,
{
}

/// The selection plus its margin fits a `usize` wherever scrolling down adds them: for a
/// selection at or past the first visible row plus the margin of a table taller than the
/// viewport.
pub open spec fn margin_fits(selected: Option<usize>, offset: int, len: int, viewport: int) -> bool {
    match selected {
        Some(s) => {
            let margin = min_int(2, sat_sub(viewport, 1));
            (len > viewport && s >= min_int(offset, sat_sub(len, viewport)) + margin) ==> s + margin <= usize::MAX
        },
        None => true,
    }
}

/// Keeps the selected row away from the viewport edges while the table scrolls.
pub fn apply_scroll_margin(state: &mut TableScroll, len: usize, viewport: usize)
    requires
        margin_fits(old(state).selected, old(state).offset as int, len as int, viewport as int),
    ensures
        final(state).selected == old(state).selected,
        old(state).selected is None ==> final(state).offset == old(state).offset,
        old(state).selected matches Some(s) ==> final(state).offset == if len <= viewport {
            0
        } else {
            scrolled_offset(s as int, old(state).offset as int, len as int, viewport as int)
        },
{
    let selected = match state.selected {
        Some(s) => s,
        None => {
            return ;
        },
    };
    if len <= viewport {
        state.offset = 0;
        return ;
    }
    let below = if viewport > 1 {
        viewport - 1
    } else {
        0
    };
    let margin = if below < 2 {
        below
    } else {
        2
    };
    let max_offset = len - viewport;
    let mut offset = if state.offset < max_offset {
        state.offset
    } else {
        max_offset
    };
    if selected < offset + margin {
        offset = if selected > margin {
            selected - margin
        } else {
            0
        };
    } else if selected + margin >= offset + viewport {
        let reach = if selected + margin < usize::MAX {
            selected + margin + 1
        } else {
            usize::MAX
        };
        let candidate = if reach > viewport {
            reach - viewport
        } else {
            0
        };
        offset = if candidate < max_offset {
            candidate
        } else {
            max_offset
        };
    }
    state.offset = offset;
}

/// Splits a project path at its emphasis start: a start beyond the path, or inside a character,
/// emphasizes the whole path.
pub fn split_project_path(path: &str, emphasis_start: usize) -> (r: (String, String))
    requires
        path.spec_bytes().len() <= usize::MAX,
    ensures
        ({
            let bytes = path.spec_bytes();
            let clamped = if emphasis_start < bytes.len() {
                emphasis_start as int
            } else {
                bytes.len() as int
            };
            let at = if is_char_boundary(bytes, clamped) {
                clamped
            } else {
                0
            };
            encode_utf8(r.0@) == bytes.subrange(0, at) && encode_utf8(r.1@) == bytes.subrange(
                at,
                bytes.len() as int,
            )
        }),
{
    proof {
        encode_utf8_valid_utf8(path@);
    }
    let length = path.len();
    let clamped = if emphasis_start < length {
        emphasis_start
    } else {
        length
    };
    let at = if path.is_char_boundary(clamped) {
        clamped
    } else {
        0
    };
    proof {
        vstd::utf8::is_char_boundary_start_end_of_seq(path.spec_bytes());
    }
    let (prefix, emphasized) = path.split_at(at);
    let first = prefix.to_owned();
    let second = emphasized.to_owned();
    (first, second)
}

} // verus!
