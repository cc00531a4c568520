//! The timeline of a session as HTML table rows.
use vstd::prelude::*;

use crate::domain::correlation::TimelineItem;
use crate::text::{
    char_len_utf8, chars_of, escape_html, escape_html_spec, opt_view, push_str, string_from_chars,
    string_of, utf8_len,
};
use crate::utils::time::{format_unix_ms, unix_ms_text};

verus! {

broadcast use vstd::seq_lib::group_seq_properties;

/// The most bytes of a raw event that a row shows.
pub const MAX_RAW_EVENT_BYTES: usize = 1200;

proof fn lemma_utf8_take_step(s: Seq<char>, i: int)
    requires
        0 <= i < s.len(),
    ensures
        utf8_len(s.take(i + 1)) == utf8_len(s.take(i)) + crate::text::char_utf8_len(s[i]),
{
    assert(s.take(i + 1).drop_last() =~= s.take(i));
}

/// The UTF-8 length of prefixes grows strictly with the prefix.
pub proof fn lemma_utf8_take_strict(s: Seq<char>, i: int, j: int)
    requires
        0 <= i < j <= s.len(),
    ensures
        utf8_len(s.take(i)) < utf8_len(s.take(j)),
    decreases j - i,
{
    lemma_utf8_take_step(s, j - 1);
    if i < j - 1 {
        lemma_utf8_take_strict(s, i, j - 1);
    }
}

/// `s` can be cut at byte `MAX_RAW_EVENT_BYTES`: it is no longer than that,
/// or some prefix of it is exactly that long (the cut falls between characters).
pub open spec fn raw_event_cuttable(s: Seq<char>) -> bool {
    utf8_len(s) <= MAX_RAW_EVENT_BYTES || exists|k: int|
        0 <= k <= s.len() && utf8_len(#[trigger] s.take(k)) == MAX_RAW_EVENT_BYTES
}

/// The number of characters whose UTF-8 encoding is `MAX_RAW_EVENT_BYTES` long.
pub open spec fn cut_point(s: Seq<char>) -> int {
    choose|k: int| 0 <= k <= s.len() && utf8_len(#[trigger] s.take(k)) == MAX_RAW_EVENT_BYTES
}

/// The text shown of a raw event: `-` when there is none; its first
/// `MAX_RAW_EVENT_BYTES` bytes and `…` when it is longer; else all of it.
pub open spec fn raw_event_text(raw: Option<Seq<char>>) -> Seq<char> {
    match raw {
        None => "-"@,
        Some(s) => if utf8_len(s) <= MAX_RAW_EVENT_BYTES {
            s
        } else {
            s.take(cut_point(s)) + "…"@
        },
    }
}

/// The text shown of a raw event (see `raw_event_text`).
pub fn format_raw_event(raw_event: Option<&String>) -> (r: String)
    requires
        raw_event matches Some(s) ==> raw_event_cuttable(s@),
    ensures
        r@ == raw_event_text(
            match raw_event {
                Some(s) => Some(s@),
                None => None,
            },
        ),
{
    let raw = match raw_event {
        Some(s) => s,
        None => {
            return string_of("-");
        },
    };
    assert(raw_event == Some(raw));
    let v = chars_of(raw.as_str());
    let mut total: usize = 0;
    let mut i: usize = 0;
    while i < v.len()
        invariant
            raw_event == Some(raw),
            v@ == raw@,
            i <= v.len(),
            total == utf8_len(v@.take(i as int)),
            total <= MAX_RAW_EVENT_BYTES,
            raw_event_cuttable(raw@),
        decreases v.len() - i,
    {
        proof {
            lemma_utf8_take_step(v@, i as int);
        }
        let next = total + char_len_utf8(v[i]);
        if next > MAX_RAW_EVENT_BYTES {
            proof {
                lemma_cut_point_is(v@, i as int);
            }
            let mut cut: Vec<char> = Vec::new();
            for j in 0..i
                invariant
                    i <= v.len(),
                    cut@ == v@.take(j as int),
            {
                cut.push(v[j]);
                assert(v@.take(j as int).push(v@[j as int]) =~= v@.take(j + 1));
            }
            let mut r = string_from_chars(&cut);
            push_str(&mut r, "…");
            return r;
        }
        total = next;
        i = i + 1;
    }
    assert(v@.take(v.len() as int) =~= v@);
    raw.clone()
}

/// Where the running UTF-8 length first passes the limit, a cuttable text
/// is longer than the limit and is cut exactly there.
proof fn lemma_cut_point_is(s: Seq<char>, i: int)
    requires
        0 <= i < s.len(),
        utf8_len(s.take(i)) <= MAX_RAW_EVENT_BYTES,
        utf8_len(s.take(i + 1)) > MAX_RAW_EVENT_BYTES,
        raw_event_cuttable(s),
    ensures
        utf8_len(s) > MAX_RAW_EVENT_BYTES,
        cut_point(s) == i,
{
    if i + 1 < s.len() {
        lemma_utf8_take_strict(s, i + 1, s.len() as int);
    }
    assert(s.take(s.len() as int) =~= s);
    let k = cut_point(s);
    assert(0 <= k <= s.len() && utf8_len(s.take(k)) == MAX_RAW_EVENT_BYTES);
    if k < i {
        lemma_utf8_take_strict(s, k, i);
    } else if k > i + 1 {
        lemma_utf8_take_strict(s, i + 1, k);
    }
}

/// A table cell holding `text` as it is.
pub open spec fn cell(text: Seq<char>) -> Seq<char> {
    "<td>"@ + text + "</td>"@
}

/// The text of an optional value, `-` when absent.
pub open spec fn or_dash(o: Option<Seq<char>>) -> Seq<char> {
    match o {
        Some(s) => s,
        None => "-"@,
    }
}

/// The row of one timeline item: time, event type, route, action, request,
/// description and the raw event, all escaped but the time.
pub open spec fn timeline_row(item: TimelineItem) -> Seq<char> {
    "<tr>"@ + cell(unix_ms_text(item.ts_unix_ms)) + cell(escape_html_spec(item.event_type@)) + cell(
        escape_html_spec(or_dash(opt_view(item.route))),
    ) + cell(escape_html_spec(or_dash(opt_view(item.action_id)))) + cell(
        escape_html_spec(or_dash(opt_view(item.request_id))),
    ) + cell(escape_html_spec(item.description@)) + "<td><code>"@ + escape_html_spec(
        raw_event_text(opt_view(item.raw_event)),
    ) + "</code></td>"@ + "</tr>"@
}

pub open spec fn timeline_rows_spec(items: Seq<TimelineItem>) -> Seq<char>
    decreases items.len(),
{
    if items.len() == 0 {
        seq![]
    } else {
        timeline_rows_spec(items.drop_last()) + timeline_row(items.last())
    }
}

/// Every raw event of the items can be cut at the limit.
pub open spec fn raw_events_cuttable(items: Seq<TimelineItem>) -> bool {
    forall|i: int|
        0 <= i < items.len() && (#[trigger] items[i]).raw_event is Some ==> raw_event_cuttable(
            items[i].raw_event->0@,
        )
}

fn push_cell(rows: &mut String, text: &str)
    ensures
        final(rows)@ == old(rows)@ + cell(text@),
{
    push_str(rows, "<td>");
    push_str(rows, text);
    push_str(rows, "</td>");
}

fn push_escaped_cell(rows: &mut String, text: &str)
    ensures
        final(rows)@ == old(rows)@ + cell(escape_html_spec(text@)),
{
    let escaped = escape_html(text);
    push_cell(rows, escaped.as_str());
}

fn push_optional_cell(rows: &mut String, value: &Option<String>)
    ensures
        final(rows)@ == old(rows)@ + cell(escape_html_spec(or_dash(opt_view(*value)))),
{
    match value {
        Some(s) => push_escaped_cell(rows, s.as_str()),
        None => push_escaped_cell(rows, "-"),
    }
}

fn push_timeline_row(rows: &mut String, item: &TimelineItem)
    requires
        item.raw_event is Some ==> raw_event_cuttable(item.raw_event->0@),
    ensures
        final(rows)@ == old(rows)@ + timeline_row(*item),
{
    let ghost start = rows@;
    push_str(rows, "<tr>");
    let ts = format_unix_ms(item.ts_unix_ms);
    push_cell(rows, ts.as_str());
    push_escaped_cell(rows, item.event_type.as_str());
    let ghost s1 = rows@;
    assert(s1 =~= start + "<tr>"@ + cell(unix_ms_text(item.ts_unix_ms)) + cell(
        escape_html_spec(item.event_type@),
    ));
    push_optional_cell(rows, &item.route);
    push_optional_cell(rows, &item.action_id);
    push_optional_cell(rows, &item.request_id);
    let ghost s2 = rows@;
    assert(s2 =~= s1 + cell(escape_html_spec(or_dash(opt_view(item.route)))) + cell(
        escape_html_spec(or_dash(opt_view(item.action_id))),
    ) + cell(escape_html_spec(or_dash(opt_view(item.request_id)))));
    push_escaped_cell(rows, item.description.as_str());
    let raw = format_raw_event(item.raw_event.as_ref());
    push_str(rows, "<td><code>");
    let escaped = escape_html(raw.as_str());
    push_str(rows, escaped.as_str());
    push_str(rows, "</code></td>");
    push_str(rows, "</tr>");
    let ghost s3 = rows@;
    assert(s3 =~= s2 + cell(escape_html_spec(item.description@)) + "<td><code>"@
        + escape_html_spec(raw_event_text(opt_view(item.raw_event))) + "</code></td>"@ + "</tr>"@);
    assert(rows@ =~= start + timeline_row(*item));
}

/// One HTML table row per timeline item.
pub fn render_timeline_rows(items: &[TimelineItem]) -> (rows: String)
    requires
        raw_events_cuttable(items@),
    ensures
        rows@ == timeline_rows_spec(items@),
{
    let mut rows = String::new();
    for i in 0..items.len()
        invariant
            raw_events_cuttable(items@),
            rows@ == timeline_rows_spec(items@.take(i as int)),
    {
        let item = &items[i];
        assert(item.raw_event is Some ==> raw_event_cuttable(item.raw_event->0@));
        push_timeline_row(&mut rows, item);
        proof {
            assert(items@.take(i + 1).drop_last() =~= items@.take(i as int));
        }
    }
    assert(items@.take(items@.len() as int) =~= items@);
    rows
}

/// The text shown of a raw event: `-` when there is none; the event itself
/// when its UTF-8 encoding is at most 1200 bytes; otherwise a prefix of it
/// whose encoding is exactly 1200 bytes, followed by `…`.
pub proof fn lemma_raw_event_text_shape(raw: Option<Seq<char>>)
    requires
        raw matches Some(s) ==> raw_event_cuttable(s),
    ensures
        raw is None ==> raw_event_text(raw) == "-"@,
        raw matches Some(s) ==> (utf8_len(s) <= 1200 ==> raw_event_text(raw) == s),
        raw matches Some(s) ==> (utf8_len(s) > 1200 ==> exists|k: int|
            0 <= k <= s.len() && utf8_len(#[trigger] s.take(k)) == 1200 && raw_event_text(raw)
                == s.take(k) + "…"@),
{
    match raw {
        Some(s) => {
            if utf8_len(s) > 1200 {
                let k = cut_point(s);
                assert(utf8_len(s.take(k)) == 1200);
            }
        },
        None => {},
    }
}

/// Rendering one more timeline item appends one table row: the item's time
/// as UTC calendar text, then its event type, route, action, request (each
/// `-` when absent) and description, HTML-escaped, then its raw event text in
/// a code cell.
pub proof fn lemma_timeline_row_of_item(items: Seq<TimelineItem>, item: TimelineItem)
    ensures
        timeline_rows_spec(items.push(item)) == timeline_rows_spec(items) + ("<tr>"@ + ("<td>"@
            + unix_ms_text(item.ts_unix_ms) + "</td>"@) + ("<td>"@ + escape_html_spec(
            item.event_type@,
        ) + "</td>"@) + ("<td>"@ + escape_html_spec(
            match item.route {
                Some(r) => r@,
                None => "-"@,
            },
        ) + "</td>"@) + ("<td>"@ + escape_html_spec(
            match item.action_id {
                Some(a) => a@,
                None => "-"@,
            },
        ) + "</td>"@) + ("<td>"@ + escape_html_spec(
            match item.request_id {
                Some(r) => r@,
                None => "-"@,
            },
        ) + "</td>"@) + ("<td>"@ + escape_html_spec(item.description@) + "</td>"@)
            + "<td><code>"@ + escape_html_spec(raw_event_text(opt_view(item.raw_event)))
            + "</code></td>"@ + "</tr>"@),
{
    assert(items.push(item).drop_last() =~= items);
    assert(opt_view(item.route) == match item.route {
        Some(r) => Some(r@),
        None => None::<Seq<char>>,
    });
}

} // verus!
