//! The event log as a whole: a sequence of writes and the text they produce.
//!
//! Every emitted event becomes exactly one line of the log file.  The laws
//! here pin that down: an encoded event holds no interior line terminator,
//! and the text produced by a sequence of writes splits back into exactly
//! one well-formed line per event, in the order the writes were issued.

use crate::event::spec_event_json;
use crate::event::spec_event_line;
use crate::event::spec_flags_json;
use crate::event::spec_quoted;
use crate::event::Ipv4Address;
use crate::event::PacketInfoView;
use crate::event::Protocol;
use crate::text::lemma_dec_no_newline;
use crate::text::lemma_escape_no_newline;
use crate::text::lemma_index_of_properties;
use crate::text::lemma_no_newline_concat;
use crate::text::spec_index_of;
use crate::text::spec_no_newline;
use vstd::prelude::*;

verus! {

/// The text a writer produces for a sequence of events, first write first.
pub open spec fn spec_log(events: Seq<PacketInfoView>) -> Seq<char>
    decreases events.len(),
{
    if events.len() == 0 {
        Seq::empty()
    } else {
        spec_event_line(events[0]) + spec_log(events.drop_first())
    }
}

/// The lines of `s`: maximal runs of characters between line terminators.
/// A final run without a terminator still counts as a line.
pub open spec fn spec_lines(s: Seq<char>) -> Seq<Seq<char>>
    decreases s.len(),
{
    if s.len() == 0 {
        Seq::empty()
    } else {
        let k = spec_index_of(s, '\n');
        if 0 <= k < s.len() {
            seq![s.subrange(0, k)] + spec_lines(s.skip(k + 1))
        } else {
            seq![s]
        }
    }
}

/// A dotted-quad address holds no line terminator.
proof fn lemma_dotted_no_newline(ip: Ipv4Address)
    ensures
        spec_no_newline(ip.spec_dotted()),
{
    lemma_dec_no_newline(ip.o0 as int);
    lemma_dec_no_newline(ip.o1 as int);
    lemma_dec_no_newline(ip.o2 as int);
    lemma_dec_no_newline(ip.o3 as int);
    let dot = seq!['.'];
    assert(spec_no_newline(dot));
    lemma_no_newline_concat(crate::text::spec_dec(ip.o0 as int), dot);
    let s1 = crate::text::spec_dec(ip.o0 as int) + dot;
    lemma_no_newline_concat(s1, crate::text::spec_dec(ip.o1 as int));
    let s2 = s1 + crate::text::spec_dec(ip.o1 as int);
    lemma_no_newline_concat(s2, dot);
    let s3 = s2 + dot;
    lemma_no_newline_concat(s3, crate::text::spec_dec(ip.o2 as int));
    let s4 = s3 + crate::text::spec_dec(ip.o2 as int);
    lemma_no_newline_concat(s4, dot);
    let s5 = s4 + dot;
    lemma_no_newline_concat(s5, crate::text::spec_dec(ip.o3 as int));
}

/// A quoted flag name holds no line terminator.
proof fn lemma_quoted_no_newline(s: Seq<char>)
    ensures
        spec_no_newline(spec_quoted(s)),
{
    lemma_escape_no_newline(s);
    let q = seq!['"'];
    assert(spec_no_newline(q));
    lemma_no_newline_concat(q, crate::text::spec_escape(s));
    lemma_no_newline_concat(q + crate::text::spec_escape(s), q);
}

/// The flags array body holds no line terminator.
proof fn lemma_flags_json_no_newline(flags: Seq<Seq<char>>)
    ensures
        spec_no_newline(spec_flags_json(flags)),
    decreases flags.len(),
{
    if flags.len() == 0 {
    } else if flags.len() == 1 {
        lemma_quoted_no_newline(flags[0]);
    } else {
        lemma_flags_json_no_newline(flags.drop_last());
        lemma_quoted_no_newline(flags.last());
        let comma = seq![','];
        assert(spec_no_newline(comma));
        lemma_no_newline_concat(spec_flags_json(flags.drop_last()), comma);
        lemma_no_newline_concat(
            spec_flags_json(flags.drop_last()) + comma,
            spec_quoted(flags.last()),
        );
    }
}

/// A protocol name holds no line terminator.
proof fn lemma_protocol_no_newline(p: Protocol)
    ensures
        spec_no_newline(p.spec_name()),
{
    reveal_strlit("tcp");
    reveal_strlit("udp");
}

/// The JSON text of an event holds no line terminator: each event occupies
/// exactly one line of the log.
pub proof fn lemma_event_json_no_newline(v: PacketInfoView)
    ensures
        spec_no_newline(spec_event_json(v)),
{
    reveal_strlit("{\"listener_ip\":\"");
    reveal_strlit("\",\"network_tag\":\"");
    reveal_strlit("\",\"source_ip\":\"");
    reveal_strlit("\",\"source_port\":");
    reveal_strlit(",\"target_port\":");
    reveal_strlit(",\"protocol\":\"");
    reveal_strlit("\",\"flags\":[");
    reveal_strlit("],\"timestamp\":");
    reveal_strlit("}");
    lemma_dotted_no_newline(v.listener_ip);
    lemma_dotted_no_newline(v.source_ip);
    lemma_escape_no_newline(v.network_tag);
    lemma_dec_no_newline(v.source_port as int);
    lemma_dec_no_newline(v.target_port as int);
    lemma_dec_no_newline(v.timestamp as int);
    lemma_protocol_no_newline(v.protocol);
    lemma_flags_json_no_newline(v.flags);
    let s1 = "{\"listener_ip\":\""@ + v.listener_ip.spec_dotted();
    lemma_no_newline_concat("{\"listener_ip\":\""@, v.listener_ip.spec_dotted());
    let s2 = s1 + "\",\"network_tag\":\""@;
    lemma_no_newline_concat(s1, "\",\"network_tag\":\""@);
    let s3 = s2 + crate::text::spec_escape(v.network_tag);
    lemma_no_newline_concat(s2, crate::text::spec_escape(v.network_tag));
    let s4 = s3 + "\",\"source_ip\":\""@;
    lemma_no_newline_concat(s3, "\",\"source_ip\":\""@);
    let s5 = s4 + v.source_ip.spec_dotted();
    lemma_no_newline_concat(s4, v.source_ip.spec_dotted());
    let s6 = s5 + "\",\"source_port\":"@;
    lemma_no_newline_concat(s5, "\",\"source_port\":"@);
    let s7 = s6 + crate::text::spec_dec(v.source_port as int);
    lemma_no_newline_concat(s6, crate::text::spec_dec(v.source_port as int));
    let s8 = s7 + ",\"target_port\":"@;
    lemma_no_newline_concat(s7, ",\"target_port\":"@);
    let s9 = s8 + crate::text::spec_dec(v.target_port as int);
    lemma_no_newline_concat(s8, crate::text::spec_dec(v.target_port as int));
    let s10 = s9 + ",\"protocol\":\""@;
    lemma_no_newline_concat(s9, ",\"protocol\":\""@);
    let s11 = s10 + v.protocol.spec_name();
    lemma_no_newline_concat(s10, v.protocol.spec_name());
    let s12 = s11 + "\",\"flags\":["@;
    lemma_no_newline_concat(s11, "\",\"flags\":["@);
    let s13 = s12 + spec_flags_json(v.flags);
    lemma_no_newline_concat(s12, spec_flags_json(v.flags));
    let s14 = s13 + "],\"timestamp\":"@;
    lemma_no_newline_concat(s13, "],\"timestamp\":"@);
    let s15 = s14 + crate::text::spec_dec(v.timestamp as int);
    lemma_no_newline_concat(s14, crate::text::spec_dec(v.timestamp as int));
    lemma_no_newline_concat(s15, "}"@);
    assert(spec_event_json(v) == s15 + "}"@);
}

/// In text that starts with terminator-free `a`, then a terminator, then
/// `rest`, the first terminator sits exactly after `a`.
proof fn lemma_index_first_newline(a: Seq<char>, rest: Seq<char>)
    requires
        spec_no_newline(a),
    ensures
        spec_index_of(a + seq!['\n'] + rest, '\n') == a.len(),
    decreases a.len(),
{
    let s = a + seq!['\n'] + rest;
    if a.len() == 0 {
        assert(s[0] == '\n');
    } else {
        assert(s[0] == a[0]);
        lemma_index_first_newline(a.skip(1), rest);
        assert(s.skip(1) =~= a.skip(1) + seq!['\n'] + rest);
    }
}

/// Splitting off the first line: a terminator-free line followed by a
/// terminator and the rest of the text.
proof fn lemma_lines_prepend(a: Seq<char>, rest: Seq<char>)
    requires
        spec_no_newline(a),
    ensures
        spec_lines(a + seq!['\n'] + rest) =~= seq![a] + spec_lines(rest),
{
    let s = a + seq!['\n'] + rest;
    lemma_index_first_newline(a, rest);
    let k = spec_index_of(s, '\n');
    assert(k == a.len());
    assert(s.subrange(0, k) =~= a);
    assert(s.skip(k + 1) =~= rest);
}

/// A writer that emits one encoded line per event produces text that splits
/// back into exactly one line per event, in the order the writes were
/// issued, each line the event's JSON object.
pub proof fn lemma_log_lines(events: Seq<PacketInfoView>)
    ensures
        spec_lines(spec_log(events)) =~= Seq::new(
            events.len(),
            |i: int| spec_event_json(events[i]),
        ),
    decreases events.len(),
{
    if events.len() > 0 {
        let v = events[0];
        let rest = events.drop_first();
        lemma_log_lines(rest);
        lemma_event_json_no_newline(v);
        assert(spec_log(events) =~= spec_event_json(v) + seq!['\n'] + spec_log(rest));
        lemma_lines_prepend(spec_event_json(v), spec_log(rest));
    }
}

} // verus!
