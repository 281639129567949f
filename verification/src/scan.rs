//! Port-scan planning and bookkeeping.
//!
//! A scan reads a target file of `network_tag,listener_ip` lines, skips
//! malformed lines, and probes each target's ports with bounded
//! concurrency: a counting admission gate caps the number of sockets open
//! at once, and shared counters track progress.  Delegation to an external
//! scan engine is planned here too: the engine's argument list and output
//! file name are functions of the target and the scan kind.

use crate::event::Protocol;
use crate::text::chars_to_string;
use crate::text::push_str_chars;
use crate::text::spec_contains;
use crate::text::str_contains;
use crate::text::str_to_chars;
use vstd::prelude::*;
use vstd::string::StringExecFns;

verus! {

/// The ceiling on simultaneously open scanner sockets, matched to a
/// typical default file-descriptor budget.
pub const MAX_SOCKETS: u64 = 1024;

/// Which probe kinds a scan dispatches.
#[derive(Clone, Copy, PartialEq, Eq, Structural, Debug)]
pub enum ScanProtocol {
    TCP,
    UDP,
    BOTH,
}

/// The mathematical value of one scan target.
pub ghost struct TargetView {
    pub network_tag: Seq<char>,
    pub listener_ip: Seq<char>,
}

/// One line of the target file: a segment label and the listener's address.
#[derive(Debug)]
pub struct Target {
    pub network_tag: String,
    pub listener_ip: String,
}

impl View for Target {
    type V = TargetView;

    open spec fn view(&self) -> TargetView {
        TargetView { network_tag: self.network_tag@, listener_ip: self.listener_ip@ }
    }
}

impl DeepView for Target {
    type V = TargetView;

    open spec fn deep_view(&self) -> TargetView {
        self.view()
    }
}

/// What one target line parses to: the text before and after the comma
/// when the line holds exactly one comma, and nothing otherwise.
pub open spec fn spec_parse_target(s: Seq<char>) -> Option<TargetView> {
    if crate::text::spec_count_char(s, ',') == 1 {
        let k = crate::text::spec_index_of(s, ',');
        Some(
            TargetView {
                network_tag: s.subrange(0, k),
                listener_ip: s.subrange(k + 1, s.len() as int),
            },
        )
    } else {
        None
    }
}

/// The targets of a whole file: each line with exactly one comma, in order;
/// malformed lines are skipped.
pub open spec fn spec_parse_targets(lines: Seq<Seq<char>>) -> Seq<TargetView>
    decreases lines.len(),
{
    if lines.len() == 0 {
        Seq::empty()
    } else {
        let rest = spec_parse_targets(lines.drop_first());
        match spec_parse_target(lines[0]) {
            Some(t) => seq![t] + rest,
            None => rest,
        }
    }
}

/// The characters of `v` between `a` and `b`.
fn subvec(v: &Vec<char>, a: usize, b: usize) -> (r: Vec<char>)
    requires
        a <= b <= v@.len(),
    ensures
        r@ == v@.subrange(a as int, b as int),
{
    let mut r: Vec<char> = Vec::new();
    let mut i: usize = a;
    while i < b
        invariant
            a <= i <= b <= v@.len(),
            r@ == v@.subrange(a as int, i as int),
        decreases b - i,
    {
        r.push(v[i]);
        i = i + 1;
        proof {
            assert(r@ =~= v@.subrange(a as int, i as int));
        }
    }
    r
}

/// Parses one target-file line: the label and address around the line's
/// single comma, or nothing when the line is malformed.
pub fn parse_target_line(line: &str) -> (r: Option<Target>)
    ensures
        r.is_some() == spec_parse_target(line@).is_some(),
        r.is_some() ==> r.unwrap()@ == spec_parse_target(line@).unwrap(),
{
    let cs = str_to_chars(line);
    let n = cs.len();
    let mut count: usize = 0;
    let mut first: usize = n;
    let mut i: usize = 0;
    while i < n
        invariant
            n == cs@.len(),
            i <= n,
            count <= i,
            count == crate::text::spec_count_char(cs@.subrange(0, i as int), ','),
            first == if crate::text::spec_count_char(cs@.subrange(0, i as int), ',') == 0 {
                n as int
            } else {
                crate::text::spec_index_of(cs@, ',')
            },
            first <= n,
            count > 0 ==> first < n,
            count == 0 ==> crate::text::spec_index_of(cs@.subrange(0, i as int), ',') == i,
        decreases n - i,
    {
        let ghost pre = cs@.subrange(0, i as int);
        if cs[i] == ',' {
            if count == 0 {
                first = i;
                proof {
                    lemma_index_of_extend_hit(cs@, i as int);
                }
            }
            count = count + 1;
        }
        i = i + 1;
        proof {
            let cur = cs@.subrange(0, i as int);
            assert(cur.drop_last() =~= pre);
            assert(cur.last() == cs@[i - 1]);
            if count == 0 {
                lemma_index_of_miss_extend(cur);
            }
        }
    }
    proof {
        assert(cs@.subrange(0, n as int) =~= cs@);
    }
    if count == 1 {
        let tag = subvec(&cs, 0, first);
        let ip = subvec(&cs, first + 1, n);
        Some(Target { network_tag: chars_to_string(&tag), listener_ip: chars_to_string(&ip) })
    } else {
        None
    }
}

/// A sequence whose last character is its only comma has its
/// first-occurrence index at that character.
proof fn lemma_index_of_extend_hit(s: Seq<char>, i: int)
    requires
        0 <= i < s.len(),
        s[i] == ',',
        crate::text::spec_count_char(s.subrange(0, i), ',') == 0,
        crate::text::spec_index_of(s.subrange(0, i), ',') == i,
    ensures
        crate::text::spec_index_of(s, ',') == i,
{
    crate::text::lemma_index_of_properties(s, ',');
    let k = crate::text::spec_index_of(s, ',');
    lemma_count_zero_no_char(s.subrange(0, i));
    assert forall|j: int| 0 <= j < i implies s[j] != ',' by {
        assert(s.subrange(0, i)[j] == s[j]);
    }
    if k < i {
        assert(s[k] == ',');
    }
    if k > i {
        assert(s[i] != ',');
    }
}

/// A prefix without the character keeps its first-occurrence index at its
/// own length as it grows by a non-matching character.
proof fn lemma_index_of_miss_extend(s: Seq<char>)
    requires
        s.len() > 0,
        crate::text::spec_count_char(s, ',') == 0,
    ensures
        crate::text::spec_index_of(s, ',') == s.len(),
{
    lemma_count_zero_no_char(s);
    crate::text::lemma_index_of_properties(s, ',');
    let k = crate::text::spec_index_of(s, ',');
    if k < s.len() {
        assert(s[k] == ',');
    }
}

/// A sequence with zero occurrences of `c` holds no `c`.
proof fn lemma_count_zero_no_char(s: Seq<char>)
    requires
        crate::text::spec_count_char(s, ',') == 0,
    ensures
        forall|j: int| 0 <= j < s.len() ==> s[j] != ',',
    decreases s.len(),
{
    if s.len() > 0 {
        lemma_count_zero_no_char(s.drop_last());
        assert forall|j: int| 0 <= j < s.len() implies s[j] != ',' by {
            if j < s.len() - 1 {
                assert(s.drop_last()[j] == s[j]);
            }
        }
    }
}

/// Parses a whole target file: the well-formed lines, in order, and how
/// many lines were skipped as malformed.
pub fn parse_targets(lines: &Vec<String>) -> (r: (Vec<Target>, usize))
    ensures
        r.0.deep_view() == spec_parse_targets(lines.deep_view()),
        r.1 + r.0@.len() == lines@.len(),
{
    let n = lines.len();
    let mut targets: Vec<Target> = Vec::new();
    let mut skipped: usize = 0;
    let mut i: usize = 0;
    proof {
        assert(lines.deep_view().skip(0) =~= lines.deep_view());
    }
    while i < n
        invariant
            n == lines@.len(),
            lines.deep_view().len() == n,
            i <= n,
            skipped + targets@.len() == i,
            spec_parse_targets(lines.deep_view()) == targets.deep_view() + spec_parse_targets(
                lines.deep_view().skip(i as int),
            ),
        decreases n - i,
    {
        let ghost rest = lines.deep_view().skip(i as int);
        proof {
            assert(rest[0] == lines.deep_view()[i as int]);
            assert(rest.drop_first() =~= lines.deep_view().skip(i as int + 1));
            assert(lines.deep_view()[i as int] == lines@[i as int]@);
        }
        let ghost before = targets.deep_view();
        match parse_target_line(lines[i].as_str()) {
            Some(t) => {
                targets.push(t);
                proof {
                    assert(targets.deep_view() =~= before.push(t@));
                }
            },
            None => {
                skipped = skipped + 1;
            },
        }
        i = i + 1;
        proof {
            assert(spec_parse_targets(lines.deep_view()) =~= targets.deep_view()
                + spec_parse_targets(lines.deep_view().skip(i as int)));
        }
    }
    proof {
        assert(lines.deep_view().skip(n as int) =~= Seq::<Seq<char>>::empty());
        assert(spec_parse_targets(lines.deep_view()) =~= targets.deep_view());
    }
    (targets, skipped)
}

/// Shared progress counters of one scan run, updated by every probe task
/// under a single exclusive-access holder.
#[derive(Clone, Copy, PartialEq, Eq, Structural, Debug)]
pub struct ScanStats {
    pub networks_scanned: u64,
    pub hosts_scanned: u64,
    pub open_ports_found: u64,
}

impl ScanStats {
    /// Fresh counters: nothing scanned yet.
    pub fn new() -> (r: Self)
        ensures
            r == (ScanStats { networks_scanned: 0, hosts_scanned: 0, open_ports_found: 0 }),
    {
        ScanStats { networks_scanned: 0, hosts_scanned: 0, open_ports_found: 0 }
    }

    /// Counts one more network, saturating at the counter's ceiling.
    pub fn record_network(&mut self)
        ensures
            final(self).networks_scanned == if old(self).networks_scanned < u64::MAX {
                old(self).networks_scanned + 1
            } else {
                old(self).networks_scanned as int
            },
            final(self).hosts_scanned == old(self).hosts_scanned,
            final(self).open_ports_found == old(self).open_ports_found,
    {
        if self.networks_scanned < u64::MAX {
            self.networks_scanned = self.networks_scanned + 1;
        }
    }

    /// Counts one more host, saturating at the counter's ceiling.
    pub fn record_host(&mut self)
        ensures
            final(self).hosts_scanned == if old(self).hosts_scanned < u64::MAX {
                old(self).hosts_scanned + 1
            } else {
                old(self).hosts_scanned as int
            },
            final(self).networks_scanned == old(self).networks_scanned,
            final(self).open_ports_found == old(self).open_ports_found,
    {
        if self.hosts_scanned < u64::MAX {
            self.hosts_scanned = self.hosts_scanned + 1;
        }
    }

    /// Counts one more open port, saturating at the counter's ceiling.
    pub fn record_open_port(&mut self)
        ensures
            final(self).open_ports_found == if old(self).open_ports_found < u64::MAX {
                old(self).open_ports_found + 1
            } else {
                old(self).open_ports_found as int
            },
            final(self).networks_scanned == old(self).networks_scanned,
            final(self).hosts_scanned == old(self).hosts_scanned,
    {
        if self.open_ports_found < u64::MAX {
            self.open_ports_found = self.open_ports_found + 1;
        }
    }
}

/// A counting admission gate: a probe task takes one slot before opening a
/// socket and gives it back on every exit path, so the number of open
/// scanner sockets never exceeds its capacity.
#[derive(Clone, Copy, PartialEq, Eq, Structural, Debug)]
pub struct AdmissionGate {
    pub capacity: u64,
    pub in_use: u64,
}

impl AdmissionGate {
    /// The invariant: the slots in use never exceed the capacity.
    pub open spec fn wf(self) -> bool {
        self.in_use <= self.capacity
    }

    /// A fresh gate with all `capacity` slots free.
    pub fn new(capacity: u64) -> (r: Self)
        ensures
            r == (AdmissionGate { capacity, in_use: 0 }),
            r.wf(),
    {
        AdmissionGate { capacity, in_use: 0 }
    }

    /// Takes one slot when one is free; a full gate admits nobody.
    pub fn try_acquire(&mut self) -> (granted: bool)
        requires
            old(self).wf(),
        ensures
            final(self).wf(),
            final(self).capacity == old(self).capacity,
            granted == (old(self).in_use < old(self).capacity),
            granted ==> final(self).in_use == old(self).in_use + 1,
            !granted ==> final(self).in_use == old(self).in_use,
    {
        if self.in_use < self.capacity {
            self.in_use = self.in_use + 1;
            true
        } else {
            false
        }
    }

    /// Gives one slot back.
    pub fn release(&mut self)
        requires
            old(self).wf(),
            old(self).in_use > 0,
        ensures
            final(self).wf(),
            final(self).capacity == old(self).capacity,
            final(self).in_use == old(self).in_use - 1,
    {
        self.in_use = self.in_use - 1;
    }
}

/// One scan of one target: the host to probe, the admission gate its probe
/// tasks share, and the per-probe timeout.
#[derive(Debug)]
pub struct Scanner {
    pub target: String,
    pub gate: AdmissionGate,
    pub timeout_ms: u64,
}

impl Scanner {
    /// A scanner for `target` with every admission slot free.
    pub fn new(target: String, timeout_ms: u64) -> (r: Self)
        ensures
            r.target@ == target@,
            r.timeout_ms == timeout_ms,
            r.gate == (AdmissionGate { capacity: MAX_SOCKETS, in_use: 0 }),
            r.gate.wf(),
    {
        Scanner { target, gate: AdmissionGate::new(MAX_SOCKETS), timeout_ms }
    }
}

/// One admission step a probe task takes.
#[derive(Clone, Copy, PartialEq, Eq, Structural, Debug)]
pub enum GateOp {
    Acquire,
    Release,
}

/// The slots in use after a sequence of gate operations, starting from an
/// empty gate: an acquire on a full gate admits nobody, a release on an
/// empty gate frees nothing.
pub open spec fn spec_gate_run(capacity: u64, ops: Seq<GateOp>) -> int
    decreases ops.len(),
{
    if ops.len() == 0 {
        0
    } else {
        let prev = spec_gate_run(capacity, ops.drop_last());
        match ops.last() {
            GateOp::Acquire => if prev < capacity {
                prev + 1
            } else {
                prev
            },
            GateOp::Release => if prev > 0 {
                prev - 1
            } else {
                prev
            },
        }
    }
}

/// However a scan's probe tasks interleave their acquires and releases,
/// the number of slots in use never exceeds the configured capacity.
pub proof fn lemma_gate_bounded(capacity: u64, ops: Seq<GateOp>)
    ensures
        0 <= spec_gate_run(capacity, ops) <= capacity,
    decreases ops.len(),
{
    if ops.len() > 0 {
        lemma_gate_bounded(capacity, ops.drop_last());
    }
}

/// The probes one port receives: one task per probe kind dispatched by the
/// scan, TCP before UDP.
pub open spec fn spec_port_probes(port: u16, kind: ScanProtocol) -> Seq<(u16, Protocol)> {
    match kind {
        ScanProtocol::TCP => seq![(port, Protocol::Tcp)],
        ScanProtocol::UDP => seq![(port, Protocol::Udp)],
        ScanProtocol::BOTH => seq![(port, Protocol::Tcp), (port, Protocol::Udp)],
    }
}

/// Every probe of a scan of the ports `lower..=upper`, in port order.
pub open spec fn spec_probe_plan(lower: u16, upper: u16, kind: ScanProtocol) -> Seq<
    (u16, Protocol),
>
    decreases upper - lower,
{
    if lower > upper {
        Seq::empty()
    } else if lower == upper {
        spec_port_probes(lower, kind)
    } else {
        spec_port_probes(lower, kind) + spec_probe_plan((lower + 1) as u16, upper, kind)
    }
}

/// The probe tasks a scan of `lower..=upper` dispatches, in order.
pub fn probe_plan(lower: u16, upper: u16, kind: ScanProtocol) -> (r: Vec<(u16, Protocol)>)
    ensures
        r@ == spec_probe_plan(lower, upper, kind),
{
    let mut r: Vec<(u16, Protocol)> = Vec::new();
    if lower > upper {
        return r;
    }
    let mut p: u32 = lower as u32;
    while p <= upper as u32
        invariant
            lower <= upper,
            lower as u32 <= p <= upper as u32 + 1,
            spec_probe_plan(lower, upper, kind) == r@ + if p <= upper {
                spec_probe_plan(p as u16, upper, kind)
            } else {
                Seq::<(u16, Protocol)>::empty()
            },
        decreases upper as u32 + 1 - p,
    {
        let port = p as u16;
        match kind {
            ScanProtocol::TCP => {
                r.push((port, Protocol::Tcp));
            },
            ScanProtocol::UDP => {
                r.push((port, Protocol::Udp));
            },
            ScanProtocol::BOTH => {
                r.push((port, Protocol::Tcp));
                r.push((port, Protocol::Udp));
            },
        }
        p = p + 1;
        proof {
            if p <= upper {
                assert(spec_probe_plan(lower, upper, kind) =~= r@ + spec_probe_plan(
                    p as u16,
                    upper,
                    kind,
                ));
            } else {
                assert(spec_probe_plan(lower, upper, kind) =~= r@
                    + Seq::<(u16, Protocol)>::empty());
            }
        }
    }
    r
}

/// The suffix the scan kind adds to the engine's output file name.
pub open spec fn spec_scan_suffix(kind: ScanProtocol) -> Seq<char> {
    match kind {
        ScanProtocol::TCP => "_tcp"@,
        ScanProtocol::UDP => "_udp"@,
        ScanProtocol::BOTH => "_both"@,
    }
}

/// The output file name of one engine run: the base name and the kind's
/// suffix.
pub fn scan_output_name(base: &str, kind: ScanProtocol) -> (r: String)
    ensures
        r@ == base@ + spec_scan_suffix(kind),
{
    let mut out: Vec<char> = Vec::new();
    push_str_chars(&mut out, base);
    match kind {
        ScanProtocol::TCP => push_str_chars(&mut out, "_tcp"),
        ScanProtocol::UDP => push_str_chars(&mut out, "_udp"),
        ScanProtocol::BOTH => push_str_chars(&mut out, "_both"),
    }
    chars_to_string(&out)
}

/// The scan-kind selector arguments handed to the external engine.
pub open spec fn spec_scan_kind_args(kind: ScanProtocol) -> Seq<Seq<char>> {
    match kind {
        ScanProtocol::TCP => seq!["-sT"@],
        ScanProtocol::UDP => seq!["-sU"@],
        ScanProtocol::BOTH => seq!["-sT"@, "-sU"@],
    }
}

/// The full argument list of one external scan-engine run: the whole port
/// range, the kind's probe selectors, the target, periodic progress
/// reporting, and the suffixed output file.
pub open spec fn spec_nmap_args(listener_ip: Seq<char>, output_file: Seq<char>, kind: ScanProtocol) -> Seq<
    Seq<char>,
> {
    seq!["-p"@, "1-65535"@] + spec_scan_kind_args(kind) + seq![
        listener_ip,
        "--stats-every"@,
        "10s"@,
        "-oN"@,
        output_file + spec_scan_suffix(kind),
    ]
}

/// Builds the argument list of one external scan-engine run.
pub fn nmap_args(listener_ip: &str, output_file: &str, kind: ScanProtocol) -> (r: Vec<String>)
    ensures
        r.deep_view() == spec_nmap_args(listener_ip@, output_file@, kind),
{
    let mut r: Vec<String> = Vec::new();
    r.push(String::from_str("-p"));
    r.push(String::from_str("1-65535"));
    match kind {
        ScanProtocol::TCP => {
            r.push(String::from_str("-sT"));
        },
        ScanProtocol::UDP => {
            r.push(String::from_str("-sU"));
        },
        ScanProtocol::BOTH => {
            r.push(String::from_str("-sT"));
            r.push(String::from_str("-sU"));
        },
    }
    r.push(String::from_str(listener_ip));
    r.push(String::from_str("--stats-every"));
    r.push(String::from_str("10s"));
    r.push(String::from_str("-oN"));
    r.push(scan_output_name(output_file, kind));
    proof {
        assert(r.deep_view() =~~= spec_nmap_args(listener_ip@, output_file@, kind));
    }
    r
}

/// The base output name for one target: the engine writes its report next
/// to the scan under the target's segment label.
pub fn scan_output_base(network_tag: &str) -> (r: String)
    ensures
        r@ == "scan_"@ + network_tag@,
{
    let mut out: Vec<char> = Vec::new();
    push_str_chars(&mut out, "scan_");
    push_str_chars(&mut out, network_tag);
    chars_to_string(&out)
}

/// Reads one relayed engine progress line for the two report markers the
/// scan's counters follow: a mention of an open port, and a mention of a
/// finished host.  A best-effort heuristic over the engine's free text.
pub fn progress_line_flags(line: &str) -> (r: (bool, bool))
    ensures
        r.0 == spec_contains(line@, "open"@),
        r.1 == spec_contains(line@, "scanned"@),
{
    (str_contains(line, "open"), str_contains(line, "scanned"))
}

/// The connect address of one probe: the target and the port.
pub fn probe_address(target: &str, port: u16) -> (r: String)
    ensures
        r@ == target@ + ":"@ + crate::text::spec_dec(port as int),
{
    let mut out: Vec<char> = Vec::new();
    push_str_chars(&mut out, target);
    push_str_chars(&mut out, ":");
    crate::text::push_decimal_u16(&mut out, port);
    chars_to_string(&out)
}

/// The report line printed for a port found open: protocol, connect
/// address, and port.
pub fn probe_report_line(protocol: Protocol, address: &str, port: u16) -> (r: String)
    ensures
        r@ == protocol.spec_name() + "/"@ + address@ + "/"@ + crate::text::spec_dec(port as int),
{
    let mut out: Vec<char> = Vec::new();
    push_str_chars(&mut out, protocol.name());
    push_str_chars(&mut out, "/");
    push_str_chars(&mut out, address);
    push_str_chars(&mut out, "/");
    crate::text::push_decimal_u16(&mut out, port);
    chars_to_string(&out)
}

} // verus!
