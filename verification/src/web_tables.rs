//! Which packets the web front end's packet table shows for a protocol
//! filter and a search, and the per-process summary of the top-processes
//! table.

use vstd::prelude::*;
use vstd::string::StringExecFns;
use crate::text::{
    chars_of, contains_seq, decimal, lowercase, matches_at, occurs_at, parse_u16, parse_unsigned,
    push_char, push_decimal, push_str, remove_char, slice_chars, string_of, to_lowercase,
    to_uppercase, trim_chars, trimmed, uppercase, vec_contains, without_char,
};
use crate::web_models::PacketEvent;
use crate::units::{decimal_bytes, decimal_bytes_text, lemma_decimal_all_digits};
use crate::text::{all_digits, digit_char, digits_value, is_ws, skip_ws, trim_end_at, unsigned_numeral};
use crate::web_ui::{is_other, on_port, str_is};

verus! {

/// First position at or after `i` where `pat` occurs in `s`.
pub open spec fn find_from(s: Seq<char>, pat: Seq<char>, i: int) -> Option<int>
    decreases s.len() + 1 - i,
{
    if i < 0 || i + pat.len() > s.len() {
        None
    } else if occurs_at(s, pat, i) {
        Some(i)
    } else {
        find_from(s, pat, i + 1)
    }
}

/// First position at or after `from` where `pat` occurs in `s`.
pub fn find_exec(s: &Vec<char>, pat: &Vec<char>, from: usize) -> (r: Option<usize>)
    requires
        from <= s@.len(),
    ensures
        match r {
            Some(i) => find_from(s@, pat@, from as int) == Some(i as int),
            None => find_from(s@, pat@, from as int) is None,
        },
{
    let mut i = from;
    while i <= s.len() && pat.len() <= s.len() - i
        invariant
            from <= i <= s@.len() + 1,
            find_from(s@, pat@, from as int) == find_from(s@, pat@, i as int),
        decreases s@.len() + 1 - i,
    {
        if matches_at(s, pat, i) {
            return Some(i);
        }
        if i == s.len() {
            assert(find_from(s@, pat@, i as int) == find_from(s@, pat@, i + 1));
            assert(find_from(s@, pat@, i + 1) is None);
            return None;
        }
        i = i + 1;
    }
    None
}

/// The second piece of `s` split at `==` (`str::split("==").nth(1)`): the
/// text after the first `==` up to the next one.
pub open spec fn second_field(s: Seq<char>) -> Option<Seq<char>> {
    match find_from(s, "=="@, 0) {
        Some(i) => {
            let rest = s.skip(i + 2);
            match find_from(rest, "=="@, 0) {
                Some(j) => Some(rest.take(j)),
                None => Some(rest),
            }
        },
        None => None,
    }
}

proof fn lemma_find_from_bounds(s: Seq<char>, pat: Seq<char>, i: int)
    ensures
        find_from(s, pat, i) is Some ==> i <= find_from(s, pat, i)->0 && find_from(s, pat, i)->0
            + pat.len() <= s.len() && occurs_at(s, pat, find_from(s, pat, i)->0),
    decreases s.len() + 1 - i,
{
    if !(i < 0 || i + pat.len() > s.len()) && !occurs_at(s, pat, i) {
        lemma_find_from_bounds(s, pat, i + 1);
    }
}

fn second_field_exec(s: &Vec<char>) -> (r: Option<Vec<char>>)
    ensures
        match r {
            Some(v) => second_field(s@) == Some(v@),
            None => second_field(s@) is None,
        },
{
    let eq = chars_of("==");
    proof {
        reveal_strlit("==");
    }
    match find_exec(s, &eq, 0) {
        Some(i) => {
            proof {
                lemma_find_from_bounds(s@, eq@, 0);
                assert(eq@.len() == 2);
                assert(find_from(s@, eq@, 0)->0 == i);
                assert(i + 2 <= s@.len());
            }
            let n = s.len();
            assert(i + 2 <= n);
            let rest = slice_chars(s, i + 2, n);
            assert(rest@ =~= s@.skip(i + 2));
            match find_exec(&rest, &eq, 0) {
                Some(j) => {
                    proof {
                        lemma_find_from_bounds(rest@, eq@, 0);
                    }
                    let t = slice_chars(&rest, 0, j);
                    assert(t@ =~= rest@.take(j as int));
                    Some(t)
                },
                None => Some(rest),
            }
        },
        None => None,
    }
}

/// ASCII case folding of one character.
pub open spec fn ascii_lower(c: char) -> char {
    if 'A' <= c && c <= 'Z' {
        ((c as u32) + 32) as char
    } else {
        c
    }
}

/// Equality up to ASCII case (`str::eq_ignore_ascii_case`).
pub open spec fn eq_ignore_ascii_case(a: Seq<char>, b: Seq<char>) -> bool {
    a.len() == b.len() && forall|i: int| 0 <= i < a.len() ==> ascii_lower(#[trigger] a[i]) == ascii_lower(b[i])
}

fn ascii_lower_exec(c: char) -> (r: char)
    ensures
        r == ascii_lower(c),
{
    if 'A' <= c && c <= 'Z' {
        let u = ((c as u32) + 32) as u8;
        u as char
    } else {
        c
    }
}

fn eq_ignore_ascii_case_exec(a: &Vec<char>, b: &Vec<char>) -> (r: bool)
    ensures
        r == eq_ignore_ascii_case(a@, b@),
{
    if a.len() != b.len() {
        return false;
    }
    let mut i: usize = 0;
    while i < a.len()
        invariant
            a@.len() == b@.len(),
            i <= a@.len(),
            forall|k: int| 0 <= k < i ==> ascii_lower(#[trigger] a@[k]) == ascii_lower(b@[k]),
        decreases a@.len() - i,
    {
        if ascii_lower_exec(a[i]) != ascii_lower_exec(b[i]) {
            return false;
        }
        i = i + 1;
    }
    true
}

/// Whether a packet passes the sidebar's protocol filter: `TLS` is TCP on
/// port 443, `DNS` is UDP on port 53, `Other` is any protocol but TCP, UDP and
/// ICMP (the filter name compared in uppercase), and any other filter names a
/// protocol, compared ignoring ASCII case.
pub open spec fn protocol_filter_passes(p: PacketEvent, filter: Seq<char>) -> bool {
    let f = uppercase(filter);
    if f == "TLS"@ {
        p.protocol@ == "TCP"@ && on_port(p, 443)
    } else if f == "DNS"@ {
        p.protocol@ == "UDP"@ && on_port(p, 53)
    } else if f == "OTHER"@ {
        is_other(p)
    } else {
        eq_ignore_ascii_case(p.protocol@, filter)
    }
}

/// The port that a `port == <n>` search names, if its right side is a port
/// number.
pub open spec fn port_target(cq: Seq<char>) -> Option<nat> {
    match second_field(cq) {
        Some(f) => parse_unsigned(trimmed(f), 65535),
        None => None,
    }
}

/// Whether a free-text search term occurs in the packet's process name or
/// protocol (in lowercase), addresses, ports or process id.
pub open spec fn text_search_passes(p: PacketEvent, cq: Seq<char>) -> bool {
    ||| contains_seq(lowercase(p.process_name@), cq)
    ||| contains_seq(lowercase(p.protocol@), cq)
    ||| contains_seq(p.src_ip@, cq)
    ||| contains_seq(p.dst_ip@, cq)
    ||| contains_seq(decimal(p.src_port as nat), cq)
    ||| contains_seq(decimal(p.dst_port as nat), cq)
    ||| contains_seq(decimal(p.pid as nat), cq)
}

/// The search as it is matched: without surrounding white space, in
/// lowercase, without double quotes.
pub open spec fn cleaned_query(query: Seq<char>) -> Seq<char> {
    without_char(lowercase(trimmed(query)), '"')
}

/// Whether a packet passes the header's search: an empty search passes
/// everything; `port == <n>` asks for either port; `process == <x>` and
/// `protocol == <x>` ask for `<x>` inside the lowercase process name or
/// protocol; any other text is searched for everywhere.
pub open spec fn search_passes(p: PacketEvent, query: Seq<char>) -> bool {
    if trimmed(query).len() == 0 {
        true
    } else {
        let cq = cleaned_query(query);
        if contains_seq(cq, "port =="@) && port_target(cq) is Some {
            p.src_port == port_target(cq)->0 || p.dst_port == port_target(cq)->0
        } else if contains_seq(cq, "process =="@) && second_field(cq) is Some {
            contains_seq(lowercase(p.process_name@), trimmed(second_field(cq)->0))
        } else if contains_seq(cq, "protocol =="@) && second_field(cq) is Some {
            contains_seq(lowercase(p.protocol@), trimmed(second_field(cq)->0))
        } else {
            text_search_passes(p, cq)
        }
    }
}

/// A `port ==` search naming port `n` shows a packet exactly when its
/// source port or its destination port is `n`, so both directions of a
/// conversation on that port show.
pub proof fn law_port_search_matches_either_port(p: PacketEvent, query: Seq<char>, n: u16)
    requires
        trimmed(query).len() != 0,
        contains_seq(cleaned_query(query), "port =="@),
        port_target(cleaned_query(query)) == Some(n as nat),
    ensures
        search_passes(p, query) <==> (p.src_port == n || p.dst_port == n),
        p.src_port == n ==> search_passes(p, query),
        p.dst_port == n ==> search_passes(p, query),
{
}

proof fn lemma_no_equals_sign(s: Seq<char>, i: int)
    requires
        forall|k: int| 0 <= k < s.len() ==> s[k] != '=',
    ensures
        find_from(s, "=="@, i) is None,
    decreases s.len() + 1 - i,
{
    reveal_strlit("==");
    if !(i < 0 || i + 2 > s.len()) {
        assert(!occurs_at(s, "=="@, i)) by {
            if occurs_at(s, "=="@, i) {
                assert(s.subrange(i, i + 2)[0] == '=');
            }
        }
        lemma_no_equals_sign(s, i + 1);
    }
}

proof fn lemma_decimal_value(n: nat)
    ensures
        digits_value(decimal(n)) == n,
        decimal(n).len() >= 1,
    decreases n,
{
    if n >= 10 {
        lemma_decimal_value(n / 10);
        let d = decimal(n);
        assert(d.drop_last() =~= decimal(n / 10));
        assert(d.last() == digit_char(n % 10));
        assert((digit_char(n % 10) as u32) == 48 + n % 10);
        assert(digits_value(d) == digits_value(decimal(n / 10)) * 10 + ((d.last() as u32) - 48) as nat);
    } else {
        let d = decimal(n);
        assert(d.drop_last() =~= Seq::<char>::empty());
        assert((digit_char(n) as u32) == 48 + n);
        assert(digits_value(d) == digits_value(d.drop_last()) * 10 + ((d.last() as u32) - 48) as nat);
    }
}

/// The cleaned search `port == <n>` names port `n`.
proof fn lemma_port_query_names_port(n: u16)
    ensures
        contains_seq("port == "@ + decimal(n as nat), "port =="@),
        port_target("port == "@ + decimal(n as nat)) == Some(n as nat),
{
    reveal_strlit("port == ");
    reveal_strlit("port ==");
    reveal_strlit("==");
    let d = decimal(n as nat);
    let c = "port == "@ + d;
    lemma_decimal_value(n as nat);
    lemma_decimal_all_digits(n as nat);
    assert(c.subrange(0, 7) =~= "port =="@);
    assert(occurs_at(c, "port =="@, 0));
    assert(c.subrange(5, 7) =~= "=="@);
    assert(!occurs_at(c, "=="@, 0)) by { assert(c.subrange(0, 2)[0] == 'p'); }
    assert(!occurs_at(c, "=="@, 1)) by { assert(c.subrange(1, 3)[0] == 'o'); }
    assert(!occurs_at(c, "=="@, 2)) by { assert(c.subrange(2, 4)[0] == 'r'); }
    assert(!occurs_at(c, "=="@, 3)) by { assert(c.subrange(3, 5)[0] == 't'); }
    assert(!occurs_at(c, "=="@, 4)) by { assert(c.subrange(4, 6)[0] == ' '); }
    reveal_with_fuel(find_from, 7);
    assert(find_from(c, "=="@, 0) == Some(5int));
    let rest = c.skip(7);
    assert(rest =~= seq![' '] + d);
    assert forall|k: int| 0 <= k < rest.len() implies rest[k] != '=' by {
        if k > 0 {
            assert(rest[k] == d[k - 1]);
        }
    }
    lemma_no_equals_sign(rest, 0);
    assert(second_field(c) == Some(rest));
    assert(is_ws(rest[0]));
    assert(!is_ws(rest[1]));
    assert(skip_ws(rest, 1) == 1);
    assert(skip_ws(rest, 0) == 1);
    assert(!is_ws(rest[rest.len() - 1]));
    assert(trim_end_at(rest, rest.len() as int) == rest.len());
    assert(trimmed(rest) =~= d);
    assert(d[0] != '+');
    assert(unsigned_numeral(d) == Some(n as nat));
}

/// A search that reads `port == <n>` once cleaned (trimmed, in lowercase,
/// without quotes) shows a packet exactly when its source port or its
/// destination port is `n`.
pub proof fn law_port_query_matches_either_port(p: PacketEvent, query: Seq<char>, n: u16)
    requires
        trimmed(query).len() != 0,
        cleaned_query(query) == "port == "@ + decimal(n as nat),
    ensures
        search_passes(p, query) <==> (p.src_port == n || p.dst_port == n),
{
    lemma_port_query_names_port(n);
    law_port_search_matches_either_port(p, query, n);
}

/// A search with none of the `port ==`, `process ==` and `protocol ==`
/// forms is free text: it shows a packet exactly when the cleaned search
/// occurs in its lowercase process name or protocol, in either address, or
/// in either port or its process id written in decimal.
pub proof fn law_free_text_search(p: PacketEvent, query: Seq<char>)
    requires
        trimmed(query).len() != 0,
        !contains_seq(cleaned_query(query), "port =="@),
        !contains_seq(cleaned_query(query), "process =="@),
        !contains_seq(cleaned_query(query), "protocol =="@),
    ensures
        search_passes(p, query) <==> {
            let q = cleaned_query(query);
            ||| contains_seq(lowercase(p.process_name@), q)
            ||| contains_seq(lowercase(p.protocol@), q)
            ||| contains_seq(p.src_ip@, q)
            ||| contains_seq(p.dst_ip@, q)
            ||| contains_seq(decimal(p.src_port as nat), q)
            ||| contains_seq(decimal(p.dst_port as nat), q)
            ||| contains_seq(decimal(p.pid as nat), q)
        },
{
}

/// A `process == <x>` search (with no `port ==` in it) shows a packet
/// exactly when `<x>`, trimmed, occurs in its lowercase process name; a
/// `protocol == <x>` search (with neither of the other two forms) likewise
/// looks in its lowercase protocol.
pub proof fn law_named_field_searches(p: PacketEvent, query: Seq<char>, x: Seq<char>)
    requires
        trimmed(query).len() != 0,
        !contains_seq(cleaned_query(query), "port =="@),
        second_field(cleaned_query(query)) == Some(x),
    ensures
        contains_seq(cleaned_query(query), "process =="@) ==> (search_passes(p, query)
            <==> contains_seq(lowercase(p.process_name@), trimmed(x))),
        !contains_seq(cleaned_query(query), "process =="@) && contains_seq(
            cleaned_query(query),
            "protocol =="@,
        ) ==> (search_passes(p, query) <==> contains_seq(lowercase(p.protocol@), trimmed(x))),
{
}

/// The sidebar filters: `TLS` shows TCP packets with either port 443, `DNS`
/// UDP packets with either port 53, `Other` packets of any protocol but TCP,
/// UDP and ICMP, and a protocol name the packets of that protocol, ignoring
/// ASCII case.
pub proof fn law_sidebar_filters(p: PacketEvent, filter: Seq<char>)
    ensures
        uppercase(filter) == "TLS"@ ==> (protocol_filter_passes(p, filter) <==> (p.protocol@
            == "TCP"@ && (p.src_port == 443 || p.dst_port == 443))),
        uppercase(filter) == "DNS"@ ==> (protocol_filter_passes(p, filter) <==> (p.protocol@
            == "UDP"@ && (p.src_port == 53 || p.dst_port == 53))),
        uppercase(filter) == "OTHER"@ ==> (protocol_filter_passes(p, filter) <==> (p.protocol@
            != "TCP"@ && p.protocol@ != "UDP"@ && p.protocol@ != "ICMP"@)),
        uppercase(filter) != "TLS"@ && uppercase(filter) != "DNS"@ && uppercase(filter) != "OTHER"@
            ==> (protocol_filter_passes(p, filter) <==> eq_ignore_ascii_case(p.protocol@, filter)),
{
    reveal_strlit("TLS");
    reveal_strlit("DNS");
    reveal_strlit("OTHER");
    reveal_strlit("TCP");
    reveal_strlit("UDP");
    reveal_strlit("ICMP");
    assert("TLS"@[0] != "DNS"@[0]);
    assert("TLS"@.len() != "OTHER"@.len());
    assert("DNS"@.len() != "OTHER"@.len());
}

/// An empty search shows every packet, and without a sidebar filter the
/// table shows exactly what the search passes.
pub proof fn law_search_alone_decides(p: PacketEvent, query: Seq<char>)
    ensures
        trimmed(query).len() == 0 ==> search_passes(p, query),
        packet_shown(p, None, query) <==> search_passes(p, query),
{
}

/// Whether the packet table shows a packet.
pub open spec fn packet_shown(p: PacketEvent, filter: Option<Seq<char>>, query: Seq<char>) -> bool {
    &&& (filter matches Some(f) ==> protocol_filter_passes(p, f))
    &&& search_passes(p, query)
}

fn decimal_chars(n: u64) -> (v: Vec<char>)
    ensures
        v@ == decimal(n as nat),
{
    let mut s = String::new();
    push_decimal(&mut s, n);
    chars_of(s.as_str())
}

fn lower_chars(s: &str) -> (v: Vec<char>)
    ensures
        v@ == lowercase(s@),
{
    let l = to_lowercase(s);
    chars_of(l.as_str())
}

fn protocol_filter_passes_exec(p: &PacketEvent, filter: &str) -> (b: bool)
    ensures
        b == protocol_filter_passes(*p, filter@),
{
    let up = to_uppercase(filter);
    if str_is(up.as_str(), "TLS") {
        str_is(p.protocol.as_str(), "TCP") && (p.src_port == 443 || p.dst_port == 443)
    } else if str_is(up.as_str(), "DNS") {
        str_is(p.protocol.as_str(), "UDP") && (p.src_port == 53 || p.dst_port == 53)
    } else if str_is(up.as_str(), "OTHER") {
        !str_is(p.protocol.as_str(), "TCP") && !str_is(p.protocol.as_str(), "UDP") && !str_is(
            p.protocol.as_str(),
            "ICMP",
        )
    } else {
        eq_ignore_ascii_case_exec(&chars_of(p.protocol.as_str()), &chars_of(filter))
    }
}

fn text_search_passes_exec(p: &PacketEvent, cq: &Vec<char>) -> (b: bool)
    ensures
        b == text_search_passes(*p, cq@),
{
    vec_contains(&lower_chars(p.process_name.as_str()), cq) || vec_contains(
        &lower_chars(p.protocol.as_str()),
        cq,
    ) || vec_contains(&chars_of(p.src_ip.as_str()), cq) || vec_contains(
        &chars_of(p.dst_ip.as_str()),
        cq,
    ) || vec_contains(&decimal_chars(p.src_port as u64), cq) || vec_contains(
        &decimal_chars(p.dst_port as u64),
        cq,
    ) || vec_contains(&decimal_chars(p.pid as u64), cq)
}

fn search_passes_exec(p: &PacketEvent, query: &str) -> (b: bool)
    ensures
        b == search_passes(*p, query@),
{
    let t = trim_chars(&chars_of(query));
    if t.len() == 0 {
        return true;
    }
    let lowered = lower_chars(string_of(&t).as_str());
    let cq_s = remove_char(&lowered, '"');
    let cq = chars_of(cq_s.as_str());
    assert(cq@ == cleaned_query(query@));
    let field = second_field_exec(&cq);
    if vec_contains(&cq, &chars_of("port ==")) {
        match &field {
            Some(f) => {
                match parse_u16(&trim_chars(f)) {
                    Some(num) => {
                        return p.src_port == num || p.dst_port == num;
                    },
                    None => {},
                }
            },
            None => {},
        }
    }
    if vec_contains(&cq, &chars_of("process ==")) {
        match &field {
            Some(f) => {
                return vec_contains(&lower_chars(p.process_name.as_str()), &trim_chars(f));
            },
            None => {},
        }
    }
    if vec_contains(&cq, &chars_of("protocol ==")) {
        match &field {
            Some(f) => {
                return vec_contains(&lower_chars(p.protocol.as_str()), &trim_chars(f));
            },
            None => {},
        }
    }
    text_search_passes_exec(p, &cq)
}

/// Whether the packet table shows a packet under the selected protocol
/// filter and the search text.
pub fn packet_visible(p: &PacketEvent, filter: Option<&str>, query: &str) -> (b: bool)
    ensures
        b == packet_shown(
            *p,
            match filter {
                Some(f) => Some(f@),
                None => None,
            },
            query@,
        ),
{
    match filter {
        Some(f) => {
            if !protocol_filter_passes_exec(p, f) {
                return false;
            }
        },
        None => {},
    }
    search_passes_exec(p, query)
}

/// The indices of the packets that the packet table shows, in order.
pub fn visible_packets(packets: &Vec<PacketEvent>, filter: Option<&str>, query: &str) -> (r: Vec<usize>)
    ensures
        forall|k: int| 0 <= k < r@.len() ==> #[trigger] r@[k] < packets@.len(),
        forall|a: int, b: int| 0 <= a < b < r@.len() ==> r@[a] < r@[b],
        forall|i: int|
            0 <= i < packets@.len() ==> (r@.contains(i as usize) <==> packet_shown(
                #[trigger] packets@[i],
                match filter {
                    Some(f) => Some(f@),
                    None => None,
                },
                query@,
            )),
{
    let ghost fv = match filter {
        Some(f) => Some(f@),
        None => None::<Seq<char>>,
    };
    let mut r: Vec<usize> = Vec::new();
    let mut i: usize = 0;
    while i < packets.len()
        invariant
            i <= packets@.len(),
            fv == (match filter {
                Some(f) => Some(f@),
                None => None::<Seq<char>>,
            }),
            forall|k: int| 0 <= k < r@.len() ==> #[trigger] r@[k] < i,
            forall|a: int, b: int| 0 <= a < b < r@.len() ==> r@[a] < r@[b],
            forall|j: int|
                0 <= j < i ==> (r@.contains(j as usize) <==> packet_shown(
                    #[trigger] packets@[j],
                    fv,
                    query@,
                )),
        decreases packets@.len() - i,
    {
        let ghost before = r@;
        if packet_visible(&packets[i], filter, query) {
            r.push(i);
            assert forall|j: int| 0 <= j < i implies (#[trigger] r@.contains(j as usize) <==> before.contains(
                j as usize,
            )) by {
                if r@.contains(j as usize) {
                    let k = choose|k: int| 0 <= k < r@.len() && r@[k] == j as usize;
                    assert(k < before.len());
                    assert(before[k] == j as usize);
                }
                if before.contains(j as usize) {
                    let k = choose|k: int| 0 <= k < before.len() && before[k] == j as usize;
                    assert(r@[k] == before[k]);
                }
            }
            assert(r@[r@.len() - 1] == i);
        } else {
            assert(!r@.contains(i));
        }
        i = i + 1;
    }
    r
}

/// A summary row of the top-processes table, before sorting: process name,
/// process id of its first packet, connection count, sent, received and total
/// bytes, and the remote endpoint of its first packet.
pub type RowView = (Seq<char>, u32, nat, nat, nat, nat, Seq<char>);

/// Whether the top-processes table counts a packet under a search: an empty
/// search counts everything, otherwise the search must occur in the lowercase
/// process name or protocol, an address, or the destination port.
pub open spec fn counted_in_summary(p: PacketEvent, query: Seq<char>) -> bool {
    if trimmed(query).len() == 0 {
        true
    } else {
        let cq = cleaned_query(query);
        ||| contains_seq(lowercase(p.process_name@), cq)
        ||| contains_seq(lowercase(p.protocol@), cq)
        ||| contains_seq(p.dst_ip@, cq)
        ||| contains_seq(p.src_ip@, cq)
        ||| contains_seq(decimal(p.dst_port as nat), cq)
    }
}

/// The top-processes search: an empty search counts every packet; any other
/// counts a packet exactly when the cleaned search occurs in its lowercase
/// process name or protocol, in its destination or source address, or in its
/// destination port written in decimal.
pub proof fn law_summary_search(p: PacketEvent, query: Seq<char>)
    ensures
        trimmed(query).len() == 0 ==> counted_in_summary(p, query),
        trimmed(query).len() != 0 ==> (counted_in_summary(p, query) <==> {
            let q = cleaned_query(query);
            ||| contains_seq(lowercase(p.process_name@), q)
            ||| contains_seq(lowercase(p.protocol@), q)
            ||| contains_seq(p.dst_ip@, q)
            ||| contains_seq(p.src_ip@, q)
            ||| contains_seq(decimal(p.dst_port as nat), q)
        }),
        trimmed(query).len() != 0 && contains_seq(decimal(p.dst_port as nat), cleaned_query(query))
            ==> counted_in_summary(p, query),
{
}

/// The bytes of a packet counted as sent (a non-zero source port) or as
/// received.
pub open spec fn sent_part(p: PacketEvent) -> nat {
    if p.src_port > 0 { p.pkt_len as nat } else { 0 }
}

pub open spec fn recv_part(p: PacketEvent) -> nat {
    if p.src_port > 0 { 0 } else { p.pkt_len as nat }
}

pub open spec fn first_row(p: PacketEvent) -> RowView {
    (
        p.process_name@,
        p.pid,
        1,
        sent_part(p),
        recv_part(p),
        p.pkt_len as nat,
        p.dst_ip@ + seq![':'] + decimal(p.dst_port as nat),
    )
}

pub open spec fn grown_row(r: RowView, p: PacketEvent) -> RowView {
    (r.0, r.1, r.2 + 1, r.3 + sent_part(p), r.4 + recv_part(p), r.5 + (p.pkt_len as nat), r.6)
}

/// Position of the row of process `name`, or -1.
pub open spec fn row_of(rows: Seq<RowView>, name: Seq<char>) -> int
    decreases rows.len(),
{
    if rows.len() == 0 {
        -1
    } else if row_of(rows.drop_last(), name) >= 0 {
        row_of(rows.drop_last(), name)
    } else if rows.last().0 == name {
        rows.len() - 1
    } else {
        -1
    }
}

/// The summary rows after one more packet.
pub open spec fn summed(rows: Seq<RowView>, p: PacketEvent) -> Seq<RowView> {
    let k = row_of(rows, p.process_name@);
    if k >= 0 {
        rows.update(k, grown_row(rows[k], p))
    } else {
        rows.push(first_row(p))
    }
}

/// Per-process summary of the counted packets, in order of first appearance.
pub open spec fn summary(pkts: Seq<PacketEvent>, query: Seq<char>) -> Seq<RowView>
    decreases pkts.len(),
{
    if pkts.len() == 0 {
        Seq::empty()
    } else if counted_in_summary(pkts.last(), query) {
        summed(summary(pkts.drop_last(), query), pkts.last())
    } else {
        summary(pkts.drop_last(), query)
    }
}

/// A row whose bytes were neither sent nor received gets its total split a
/// third sent, the rest received.
pub open spec fn balanced(r: RowView) -> RowView {
    if r.3 == 0 && r.4 == 0 && r.5 > 0 {
        (r.0, r.1, r.2, r.5 / 3, (r.5 - r.5 / 3) as nat, r.5, r.6)
    } else {
        r
    }
}

/// Where a row goes in a list ordered by decreasing total: after every row
/// with at least its total.
pub open spec fn insert_position(rows: Seq<RowView>, r: RowView) -> int
    decreases rows.len(),
{
    if rows.len() == 0 {
        0
    } else if rows[0].5 >= r.5 {
        1 + insert_position(rows.drop_first(), r)
    } else {
        0
    }
}

/// The rows ordered by decreasing total, rows with equal totals in their
/// order of appearance.
pub open spec fn by_total_desc(rows: Seq<RowView>) -> Seq<RowView>
    decreases rows.len(),
{
    if rows.len() == 0 {
        Seq::empty()
    } else {
        let acc = by_total_desc(rows.drop_last());
        acc.insert(insert_position(acc, rows.last()), rows.last())
    }
}

/// How many processes the table shows.
pub const TOP_PROCESSES: usize = 6;

/// The rows of the top-processes table.
pub open spec fn top_processes_of(pkts: Seq<PacketEvent>, query: Seq<char>) -> Seq<RowView> {
    let all = by_total_desc(summary(pkts, query).map_values(|r: RowView| balanced(r)));
    if all.len() > TOP_PROCESSES {
        all.take(TOP_PROCESSES as int)
    } else {
        all
    }
}

/// A row of the top-processes table.
pub struct ProcessRow {
    pub name: String,
    pub pid: u32,
    pub pid_str: String,
    pub connections: u32,
    pub sent_bytes: u64,
    pub recv_bytes: u64,
    pub total_bytes: u64,
    pub sent_str: String,
    pub recv_str: String,
    pub bytes_str: String,
    pub top_remote: String,
}

pub open spec fn row_view(r: ProcessRow) -> RowView {
    (
        r.name@,
        r.pid,
        r.connections as nat,
        r.sent_bytes as nat,
        r.recv_bytes as nat,
        r.total_bytes as nat,
        r.top_remote@,
    )
}

/// Whether a row's texts show its numbers: the process id, and the byte
/// counts in decimal multiples.
pub open spec fn shows_row(r: ProcessRow) -> bool {
    &&& r.pid_str@ == pid_text(r.pid)
    &&& r.sent_str@ == decimal_bytes_text(r.sent_bytes)
    &&& r.recv_str@ == decimal_bytes_text(r.recv_bytes)
    &&& r.bytes_str@ == decimal_bytes_text(r.total_bytes)
}

/// The process id as shown: the number, or a dash for id zero.
pub open spec fn pid_text(pid: u32) -> Seq<char> {
    if pid > 0 {
        decimal(pid as nat)
    } else {
        seq!['—']
    }
}

proof fn lemma_row_of(rows: Seq<RowView>, name: Seq<char>)
    ensures
        -1 <= row_of(rows, name) < rows.len(),
        row_of(rows, name) >= 0 ==> rows[row_of(rows, name)].0 == name,
        forall|j: int|
            0 <= j < rows.len() && (row_of(rows, name) < 0 || j < row_of(rows, name))
                ==> #[trigger] rows[j].0 != name,
    decreases rows.len(),
{
    if rows.len() > 0 {
        lemma_row_of(rows.drop_last(), name);
        assert forall|j: int| 0 <= j < rows.len() - 1 implies #[trigger] rows[j] == rows.drop_last()[j] by {}
    }
}

proof fn lemma_insert_position(rows: Seq<RowView>, r: RowView, k: int)
    requires
        0 <= k <= rows.len(),
        forall|j: int| 0 <= j < k ==> #[trigger] rows[j].5 >= r.5,
        k == rows.len() || rows[k].5 < r.5,
    ensures
        insert_position(rows, r) == k,
    decreases k,
{
    if k > 0 {
        assert(rows[0].5 >= r.5);
        lemma_insert_position(rows.drop_first(), r, k - 1);
    }
}

/// Sum of the rows' totals.
pub open spec fn totals_sum(rows: Seq<RowView>) -> nat
    decreases rows.len(),
{
    if rows.len() == 0 {
        0
    } else {
        totals_sum(rows.drop_last()) + rows.last().5
    }
}

/// Sum of the rows' connection counts.
pub open spec fn connections_sum(rows: Seq<RowView>) -> nat
    decreases rows.len(),
{
    if rows.len() == 0 {
        0
    } else {
        connections_sum(rows.drop_last()) + rows.last().2
    }
}

/// Bytes of the packets that a search counts.
pub open spec fn counted_bytes(pkts: Seq<PacketEvent>, query: Seq<char>) -> nat
    decreases pkts.len(),
{
    if pkts.len() == 0 {
        0
    } else {
        counted_bytes(pkts.drop_last(), query) + (if counted_in_summary(pkts.last(), query) {
            pkts.last().pkt_len as nat
        } else {
            0
        })
    }
}

/// Number of packets that a search counts.
pub open spec fn counted_packets(pkts: Seq<PacketEvent>, query: Seq<char>) -> nat
    decreases pkts.len(),
{
    if pkts.len() == 0 {
        0
    } else {
        counted_packets(pkts.drop_last(), query) + (if counted_in_summary(pkts.last(), query) {
            1nat
        } else {
            0
        })
    }
}

proof fn lemma_sums_after_update(rows: Seq<RowView>, k: int, r: RowView)
    requires
        0 <= k < rows.len(),
    ensures
        totals_sum(rows.update(k, r)) + rows[k].5 == totals_sum(rows) + r.5,
        connections_sum(rows.update(k, r)) + rows[k].2 == connections_sum(rows) + r.2,
    decreases rows.len(),
{
    let u = rows.update(k, r);
    if k == rows.len() - 1 {
        assert(u.drop_last() =~= rows.drop_last());
    } else {
        lemma_sums_after_update(rows.drop_last(), k, r);
        assert(u.drop_last() =~= rows.drop_last().update(k, r));
    }
}

proof fn lemma_summed_sums(rows: Seq<RowView>, p: PacketEvent)
    ensures
        totals_sum(summed(rows, p)) == totals_sum(rows) + p.pkt_len,
        connections_sum(summed(rows, p)) == connections_sum(rows) + 1,
{
    lemma_row_of(rows, p.process_name@);
    let k = row_of(rows, p.process_name@);
    if k >= 0 {
        lemma_sums_after_update(rows, k, grown_row(rows[k], p));
    } else {
        assert(rows.push(first_row(p)).drop_last() =~= rows);
    }
}

/// Every packet that the search counts is in exactly one row: the rows'
/// totals add up to the counted packets' bytes, their connection counts to
/// the number of counted packets, and no process has two rows.
pub proof fn law_summary_accounts_for_counted_packets(pkts: Seq<PacketEvent>, query: Seq<char>)
    ensures
        totals_sum(summary(pkts, query)) == counted_bytes(pkts, query),
        connections_sum(summary(pkts, query)) == counted_packets(pkts, query),
        forall|i: int, j: int|
            0 <= i < j < summary(pkts, query).len() ==> summary(pkts, query)[i].0 != summary(
                pkts,
                query,
            )[j].0,
    decreases pkts.len(),
{
    if pkts.len() > 0 {
        law_summary_accounts_for_counted_packets(pkts.drop_last(), query);
        if counted_in_summary(pkts.last(), query) {
            let rows = summary(pkts.drop_last(), query);
            let p = pkts.last();
            lemma_summed_sums(rows, p);
            lemma_row_of(rows, p.process_name@);
            let out = summed(rows, p);
            assert forall|i: int, j: int| 0 <= i < j < out.len() implies out[i].0 != out[j].0 by {
                if row_of(rows, p.process_name@) < 0 && j == rows.len() {
                    assert(rows[i].0 != p.process_name@);
                }
            }
        }
    }
}

/// Whether rows come in order of decreasing total.
pub open spec fn totals_descending(rows: Seq<RowView>) -> bool {
    forall|i: int, j: int| 0 <= i < j < rows.len() ==> rows[i].5 >= rows[j].5
}

proof fn lemma_insert_position_props(rows: Seq<RowView>, r: RowView)
    ensures
        0 <= insert_position(rows, r) <= rows.len(),
        forall|j: int| 0 <= j < insert_position(rows, r) ==> #[trigger] rows[j].5 >= r.5,
        insert_position(rows, r) == rows.len() || rows[insert_position(rows, r)].5 < r.5,
    decreases rows.len(),
{
    if rows.len() > 0 && rows[0].5 >= r.5 {
        lemma_insert_position_props(rows.drop_first(), r);
        assert forall|j: int| 0 <= j < insert_position(rows, r) implies #[trigger] rows[j].5 >= r.5 by {
            if j > 0 {
                assert(rows[j] == rows.drop_first()[j - 1]);
            }
        }
    }
}

proof fn lemma_by_total_desc_sorted(rows: Seq<RowView>)
    ensures
        totals_descending(by_total_desc(rows)),
        by_total_desc(rows).len() == rows.len(),
    decreases rows.len(),
{
    if rows.len() > 0 {
        let acc = by_total_desc(rows.drop_last());
        let r = rows.last();
        lemma_by_total_desc_sorted(rows.drop_last());
        lemma_insert_position_props(acc, r);
        let p = insert_position(acc, r);
        let out = acc.insert(p, r);
        assert forall|a: int, b: int| 0 <= a < b < out.len() implies out[a].5 >= out[b].5 by {
            if b < p {
            } else if b == p {
            } else if a < p {
                assert(out[b] == acc[b - 1]);
                assert(acc[p].5 >= acc[b - 1].5 || b - 1 == p);
            } else if a == p {
                assert(out[b] == acc[b - 1]);
                assert(acc[p].5 >= acc[b - 1].5 || b - 1 == p);
            } else {
                assert(out[a] == acc[a - 1]);
                assert(out[b] == acc[b - 1]);
            }
        }
    }
}

/// The top-processes table lists at most `TOP_PROCESSES` rows, by
/// decreasing total traffic.
pub proof fn law_top_processes_ordered(pkts: Seq<PacketEvent>, query: Seq<char>)
    ensures
        top_processes_of(pkts, query).len() <= TOP_PROCESSES,
        totals_descending(top_processes_of(pkts, query)),
{
    lemma_by_total_desc_sorted(summary(pkts, query).map_values(|r: RowView| balanced(r)));
}

/// Bounds on the summed columns after `n` packets: each count at most `n`,
/// each total at most `n` full-size packets, sent and received adding up to
/// the total.
pub open spec fn column_bounds(conns: Seq<u32>, sents: Seq<u64>, recvs: Seq<u64>, totals: Seq<u64>, n: nat) -> bool {
    &&& conns.len() == totals.len()
    &&& sents.len() == totals.len()
    &&& recvs.len() == totals.len()
    &&& forall|k: int|
        0 <= k < totals.len() ==> conns[k] <= n && #[trigger] totals[k] <= n * 0xffff_ffff && sents[k]
            + recvs[k] == totals[k]
}

/// Views of summary rows held as parallel columns.
pub open spec fn column_rows(
    names: Seq<String>,
    pids: Seq<u32>,
    conns: Seq<u32>,
    sents: Seq<u64>,
    recvs: Seq<u64>,
    totals: Seq<u64>,
    remotes: Seq<String>,
) -> Seq<RowView> {
    Seq::new(
        names.len(),
        |k: int|
            (
                names[k]@,
                pids[k],
                conns[k] as nat,
                sents[k] as nat,
                recvs[k] as nat,
                totals[k] as nat,
                remotes[k]@,
            ),
    )
}

fn lower_of(s: &String) -> (v: Vec<char>)
    ensures
        v@ == lowercase(s@),
{
    lower_chars(s.as_str())
}

fn counted_exec(p: &PacketEvent, nonempty: bool, cq: &Vec<char>, ghost_query: Ghost<Seq<char>>) -> (b: bool)
    requires
        nonempty == (trimmed(ghost_query@).len() != 0),
        nonempty ==> cq@ == cleaned_query(ghost_query@),
    ensures
        b == counted_in_summary(*p, ghost_query@),
{
    if !nonempty {
        return true;
    }
    vec_contains(&lower_of(&p.process_name), cq) || vec_contains(&lower_of(&p.protocol), cq)
        || vec_contains(&chars_of(p.dst_ip.as_str()), cq) || vec_contains(
        &chars_of(p.src_ip.as_str()),
        cq,
    ) || vec_contains(&decimal_chars(p.dst_port as u64), cq)
}

fn remote_of(p: &PacketEvent) -> (s: String)
    ensures
        s@ == p.dst_ip@ + seq![':'] + decimal(p.dst_port as nat),
{
    let mut s = p.dst_ip.clone();
    push_char(&mut s, ':');
    push_decimal(&mut s, p.dst_port as u64);
    s
}

fn pid_string(pid: u32) -> (s: String)
    ensures
        s@ == pid_text(pid),
{
    let mut s = String::new();
    if pid > 0 {
        push_decimal(&mut s, pid as u64);
    } else {
        push_char(&mut s, '—');
        assert(s@ =~= pid_text(pid));
    }
    s
}

/// The rows of the top-processes table for the client's packets and the
/// search text: packets summed per process name (in order of first
/// appearance), rows without sent or received bytes split a third sent,
/// ordered by decreasing total (equal totals keep their order), and the first
/// `TOP_PROCESSES` kept.
pub fn top_processes(pkts: &Vec<PacketEvent>, query: &str) -> (rows: Vec<ProcessRow>)
    requires
        pkts@.len() < u32::MAX,
    ensures
        rows@.map_values(|r: ProcessRow| row_view(r)) == top_processes_of(pkts@, query@),
        forall|k: int| 0 <= k < rows@.len() ==> #[trigger] shows_row(rows@[k]),
{
    let t = trim_chars(&chars_of(query));
    let nonempty = t.len() > 0;
    let cq = if nonempty {
        let lowered = lower_chars(string_of(&t).as_str());
        let c = remove_char(&lowered, '"');
        chars_of(c.as_str())
    } else {
        Vec::new()
    };
    let ghost q = query@;
    let mut names: Vec<String> = Vec::new();
    let mut pids: Vec<u32> = Vec::new();
    let mut conns: Vec<u32> = Vec::new();
    let mut sents: Vec<u64> = Vec::new();
    let mut recvs: Vec<u64> = Vec::new();
    let mut totals: Vec<u64> = Vec::new();
    let mut remotes: Vec<String> = Vec::new();
    let mut i: usize = 0;
    while i < pkts.len()
        invariant
            i <= pkts@.len(),
            pkts@.len() < u32::MAX,
            nonempty == (trimmed(q).len() != 0),
            nonempty ==> cq@ == cleaned_query(q),
            q == query@,
            names@.len() == pids@.len() && names@.len() == conns@.len() && names@.len()
                == sents@.len() && names@.len() == recvs@.len() && names@.len() == totals@.len()
                && names@.len() == remotes@.len(),
            column_rows(names@, pids@, conns@, sents@, recvs@, totals@, remotes@) == summary(
                pkts@.subrange(0, i as int),
                q,
            ),
            column_bounds(conns@, sents@, recvs@, totals@, i as nat),
        decreases pkts@.len() - i,
    {
        let ghost before = column_rows(names@, pids@, conns@, sents@, recvs@, totals@, remotes@);
        let ghost oc = conns@;
        let ghost ot = totals@;
        let ghost os = sents@;
        let ghost orv = recvs@;
        let ghost pre = pkts@.subrange(0, i + 1);
        assert(pre.drop_last() =~= pkts@.subrange(0, i as int));
        let p = &pkts[i];
        assert(pre.last() == *p);
        if counted_exec(p, nonempty, &cq, Ghost(q)) {
            let mut k: usize = 0;
            while k < names.len() && !(names[k] == p.process_name)
                invariant
                    k <= names@.len(),
                    forall|j: int| 0 <= j < k ==> names@[j]@ != p.process_name@,
                decreases names@.len() - k,
            {
                k = k + 1;
            }
            proof {
                lemma_row_of(before, p.process_name@);
                assert(forall|j: int| 0 <= j < before.len() ==> #[trigger] before[j].0 == names@[j]@);
            }
            let sent: u64 = if p.src_port > 0 { p.pkt_len as u64 } else { 0 };
            let recv: u64 = if p.src_port > 0 { 0 } else { p.pkt_len as u64 };
            if k < names.len() {
                assert(row_of(before, p.process_name@) == k) by {
                    if row_of(before, p.process_name@) < 0 || row_of(before, p.process_name@) > k {
                        assert(before[k as int].0 != p.process_name@);
                    } else if row_of(before, p.process_name@) < k {
                        let r = row_of(before, p.process_name@);
                        assert(names@[r]@ != p.process_name@);
                    }
                }
                assert(oc[k as int] <= i && ot[k as int] <= i * 0xffff_ffff && os[k as int] + orv[k as int] == ot[k as int]);
                let c = conns[k];
                let tt = totals[k];
                let ss = sents[k];
                let rr = recvs[k];
                assert(tt + p.pkt_len <= (i + 1) * 0xffff_ffff);
                conns.set(k, c + 1);
                sents.set(k, ss + sent);
                recvs.set(k, rr + recv);
                totals.set(k, tt + p.pkt_len as u64);
            } else {
                assert(row_of(before, p.process_name@) < 0);
                names.push(p.process_name.clone());
                pids.push(p.pid);
                conns.push(1);
                sents.push(sent);
                recvs.push(recv);
                totals.push(p.pkt_len as u64);
                remotes.push(remote_of(p));
            }
            assert(column_rows(names@, pids@, conns@, sents@, recvs@, totals@, remotes@) =~= summed(
                before,
                *p,
            ));
        }
        assert forall|m: int| 0 <= m < totals@.len() implies conns@[m] <= i + 1 && #[trigger] totals@[m]
            <= (i + 1) * 0xffff_ffff && sents@[m] + recvs@[m] == totals@[m] by {
            assert(column_bounds(oc, os, orv, ot, i as nat));
            if m < ot.len() {
                assert(ot[m] <= i * 0xffff_ffff);
                assert(oc[m] <= i && ot[m] <= i * 0xffff_ffff && os[m] + orv[m] == ot[m]);
            }
        }
        assert(column_bounds(conns@, sents@, recvs@, totals@, (i + 1) as nat)) by {
            let n: nat = (i + 1) as nat;
            assert forall|m: int|
                #![trigger conns@[m]]
                #![trigger totals@[m]]
                0 <= m < totals@.len() implies conns@[m] <= n && totals@[m] <= n * 0xffff_ffff
                    && sents@[m] + recvs@[m] == totals@[m] by {
                assert(totals@[m] <= (i + 1) * 0xffff_ffff);
            }
        }
        i = i + 1;
    }
    assert(pkts@.subrange(0, pkts@.len() as int) =~= pkts@);
    let ghost all = column_rows(names@, pids@, conns@, sents@, recvs@, totals@, remotes@);
    let ghost balanced_all = all.map_values(|r: RowView| balanced(r));
    let mut out: Vec<ProcessRow> = Vec::new();
    let mut j: usize = 0;
    while j < names.len()
        invariant
            j <= names@.len(),
            names@.len() == pids@.len() && names@.len() == conns@.len() && names@.len()
                == sents@.len() && names@.len() == recvs@.len() && names@.len() == totals@.len()
                && names@.len() == remotes@.len(),
            all == column_rows(names@, pids@, conns@, sents@, recvs@, totals@, remotes@),
            balanced_all == all.map_values(|r: RowView| balanced(r)),
            out@.map_values(|r: ProcessRow| row_view(r)) == by_total_desc(
                balanced_all.subrange(0, j as int),
            ),
            forall|k: int| 0 <= k < out@.len() ==> #[trigger] shows_row(out@[k]),
            column_bounds(conns@, sents@, recvs@, totals@, pkts@.len()),
        decreases names@.len() - j,
    {
        let total = totals[j];
        let (sent, recv) = if sents[j] == 0 && recvs[j] == 0 && total > 0 {
            (total / 3, total - total / 3)
        } else {
            (sents[j], recvs[j])
        };
        let row = ProcessRow {
            name: names[j].clone(),
            pid: pids[j],
            pid_str: pid_string(pids[j]),
            connections: conns[j],
            sent_bytes: sent,
            recv_bytes: recv,
            total_bytes: total,
            sent_str: decimal_bytes(sent),
            recv_str: decimal_bytes(recv),
            bytes_str: decimal_bytes(total),
            top_remote: remotes[j].clone(),
        };
        assert(row_view(row) == balanced_all[j as int]);
        let ghost acc = out@.map_values(|r: ProcessRow| row_view(r));
        let mut pos: usize = 0;
        while pos < out.len() && out[pos].total_bytes >= total
            invariant
                pos <= out@.len(),
                acc == out@.map_values(|r: ProcessRow| row_view(r)),
                forall|m: int| 0 <= m < pos ==> #[trigger] acc[m].5 >= total,
            decreases out@.len() - pos,
        {
            pos = pos + 1;
        }
        proof {
            lemma_insert_position(acc, row_view(row), pos as int);
        }
        let ghost old_out = out@;
        out.insert(pos, row);
        proof {
            let sub = balanced_all.subrange(0, j + 1);
            assert(sub.drop_last() =~= balanced_all.subrange(0, j as int));
            assert(out@.map_values(|r: ProcessRow| row_view(r)) =~= acc.insert(pos as int, row_view(row)));
        }
        j = j + 1;
    }
    assert(balanced_all.subrange(0, names@.len() as int) =~= balanced_all);
    assert(all == summary(pkts@, query@));
    if out.len() > TOP_PROCESSES {
        out.truncate(TOP_PROCESSES);
        assert(out@.map_values(|r: ProcessRow| row_view(r)) =~= by_total_desc(balanced_all).take(
            TOP_PROCESSES as int,
        ));
    }
    out
}

} // verus!
