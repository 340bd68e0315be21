use vstd::prelude::*;

use crate::address::push_new;
use crate::text::{chars_of, eq_str, join, join_with, seqs, string_from, trim, trim_chars};
use crate::xml::{tok_views, tokenize, xml_tokens, Tok, XmlToken};

verus! {

/// What is known of the `disk` element being read.
pub struct DiskAcc {
    pub is_disk: bool,
    pub target: Option<Seq<char>>,
    /// The value of the best-ranked source attribute seen so far.
    pub source: Option<Seq<char>>,
    /// The rank of that attribute (see `source_rank`).
    pub source_rank: nat,
}

/// The state of the walk over a descriptor's tokens.
pub struct SummaryState {
    /// Local names of the open elements, outermost first.
    pub stack: Seq<Seq<char>>,
    pub emulator: Option<Seq<char>>,
    pub networks: Seq<Seq<char>>,
    pub interfaces: Seq<Seq<char>>,
    pub disks: Seq<Seq<char>>,
    pub disk: Option<DiskAcc>,
    /// The fields of the `interface` element being read.
    pub iface: Option<Seq<Seq<char>>>,
}

pub open spec fn initial_state() -> SummaryState {
    SummaryState {
        stack: seq![],
        emulator: None,
        networks: seq![],
        interfaces: seq![],
        disks: seq![],
        disk: None,
        iface: None,
    }
}

pub open spec fn step_start(st: SummaryState, name: Seq<char>) -> SummaryState {
    SummaryState {
        stack: st.stack.push(name),
        disk: if name == "disk"@ {
            Some(DiskAcc { is_disk: false, target: None, source: None, source_rank: 5 })
        } else {
            st.disk
        },
        iface: if name != "disk"@ && name == "interface"@ {
            Some(seq![])
        } else {
            st.iface
        },
        ..st
    }
}

/// The priority of a disk source attribute: `file` first, then `dev`,
/// `name`, `volume`, `path`; 5 for any other attribute.
pub open spec fn source_rank(local: Seq<char>) -> nat {
    if local == "file"@ {
        0
    } else if local == "dev"@ {
        1
    } else if local == "name"@ {
        2
    } else if local == "volume"@ {
        3
    } else if local == "path"@ {
        4
    } else {
        5
    }
}

/// The element below the innermost open one is `name`.
pub open spec fn parent_is(stack: Seq<Seq<char>>, name: Seq<char>) -> bool {
    stack.len() >= 2 && stack[stack.len() - 2] == name
}

pub open spec fn is_address_noise(local: Seq<char>) -> bool {
    local == "type"@ || local == "domain"@ || local == "bus"@ || local == "slot"@ || local
        == "function"@
}

pub open spec fn is_network_attr(local: Seq<char>) -> bool {
    local == "network"@ || local == "bridge"@ || local == "dev"@
}

/// An attribute of the innermost open element (`stack.last()`) seen while
/// a `disk` element is open. The target and the source are read from direct
/// children of the `disk` element only; of the source's attributes the one
/// of best rank wins, whatever their order in the text.
pub open spec fn disk_attr(d: DiskAcc, stack: Seq<Seq<char>>, local: Seq<char>, value: Seq<char>) -> DiskAcc {
    let elem = stack.last();
    if elem == "disk"@ && local == "device"@ && value == "disk"@ {
        DiskAcc { is_disk: true, ..d }
    } else if elem == "target"@ && parent_is(stack, "disk"@) && local == "dev"@ {
        DiskAcc { target: Some(value), ..d }
    } else if elem == "source"@ && parent_is(stack, "disk"@) && source_rank(local) < 5
        && source_rank(local) < d.source_rank {
        DiskAcc { source: Some(value), source_rank: source_rank(local), ..d }
    } else {
        d
    }
}

/// The descriptor of an attribute inside an `interface` element.
pub open spec fn iface_field(elem: Seq<char>, local: Seq<char>, value: Seq<char>) -> Seq<char> {
    if elem == "interface"@ {
        local + "="@ + value
    } else {
        elem + "."@ + local + "="@ + value
    }
}

pub open spec fn step_attr(st: SummaryState, local: Seq<char>, value: Seq<char>) -> SummaryState {
    if st.stack.len() == 0 {
        st
    } else {
        let elem = st.stack.last();
        SummaryState {
            disk: match st.disk {
                Some(d) => Some(disk_attr(d, st.stack, local, value)),
                None => None,
            },
            iface: match st.iface {
                Some(f) => if elem == "address"@ && is_address_noise(local) {
                    Some(f)
                } else {
                    Some(push_new(f, iface_field(elem, local, value)))
                },
                None => None,
            },
            networks: if elem == "source"@ && parent_is(st.stack, "interface"@) && is_network_attr(
                local,
            ) {
                push_new(st.networks, value)
            } else {
                st.networks
            },
            ..st
        }
    }
}

pub open spec fn step_text(st: SummaryState, text: Seq<char>) -> SummaryState {
    let v = trim(text);
    if v.len() == 0 || st.stack.len() == 0 {
        st
    } else {
        let elem = st.stack.last();
        SummaryState {
            emulator: if elem == "emulator"@ && st.emulator is None {
                Some(v)
            } else {
                st.emulator
            },
            iface: match st.iface {
                Some(f) => if parent_is(st.stack, "interface"@) {
                    Some(push_new(f, elem + "="@ + v))
                } else {
                    Some(f)
                },
                None => None,
            },
            ..st
        }
    }
}

pub open spec fn or_unknown(o: Option<Seq<char>>) -> Seq<char> {
    match o {
        Some(s) => s,
        None => "unknown"@,
    }
}

/// The entry of a qualifying disk: `<target>: <source>`.
pub open spec fn disk_entry(d: DiskAcc) -> Seq<char> {
    or_unknown(d.target) + ": "@ + or_unknown(d.source)
}

/// The items joined by ", ", or "N/A" when there are none.
pub open spec fn list_text(xs: Seq<Seq<char>>) -> Seq<char> {
    if xs.len() == 0 {
        "N/A"@
    } else {
        join(xs, ", "@)
    }
}

pub open spec fn step_end(st: SummaryState) -> SummaryState {
    if st.stack.len() == 0 {
        st
    } else {
        let closed = st.stack.last();
        let popped = SummaryState { stack: st.stack.drop_last(), ..st };
        if closed == "interface"@ && st.iface is Some {
            SummaryState {
                interfaces: st.interfaces.push(list_text(st.iface->0)),
                iface: None,
                ..popped
            }
        } else if closed == "disk"@ && st.disk is Some {
            SummaryState {
                disks: if st.disk->0.is_disk {
                    st.disks.push(disk_entry(st.disk->0))
                } else {
                    st.disks
                },
                disk: None,
                ..popped
            }
        } else {
            popped
        }
    }
}

pub open spec fn step(st: SummaryState, t: Tok) -> SummaryState {
    match t {
        Tok::Start(name) => step_start(st, name),
        Tok::Attr(local, value) => step_attr(st, local, value),
        Tok::Text(text) => step_text(st, text),
        Tok::TagEnd => step_end(st),
        _ => st,
    }
}

/// The state after reading the tokens in order.
pub open spec fn walk(ts: Seq<Tok>) -> SummaryState
    decreases ts.len(),
{
    if ts.len() == 0 {
        initial_state()
    } else {
        step(walk(ts.drop_last()), ts.last())
    }
}

/// The four labelled lines of a summary.
pub open spec fn summary_text(st: SummaryState) -> Seq<char> {
    "Network: "@ + list_text(st.networks) + "\nInterfaces: "@ + list_text(st.interfaces)
        + "\nEmulator: "@ + match st.emulator {
        Some(e) => e,
        None => "N/A"@,
    } + "\nDisks: "@ + list_text(st.disks)
}

struct DiskInfo {
    is_disk: bool,
    target: Option<Vec<char>>,
    source: Option<Vec<char>>,
    source_rank: u8,
}

pub open spec fn opt_view(o: Option<Vec<char>>) -> Option<Seq<char>> {
    match o {
        Some(v) => Some(v@),
        None => None,
    }
}

impl View for DiskInfo {
    type V = DiskAcc;

    closed spec fn view(&self) -> DiskAcc {
        DiskAcc {
            is_disk: self.is_disk,
            target: opt_view(self.target),
            source: opt_view(self.source),
            source_rank: self.source_rank as nat,
        }
    }
}

/// The walk's state, as the executable code holds it.
struct SummaryWalk {
    stack: Vec<Vec<char>>,
    emulator: Option<Vec<char>>,
    networks: Vec<Vec<char>>,
    interfaces: Vec<Vec<char>>,
    disks: Vec<Vec<char>>,
    disk: Option<DiskInfo>,
    iface: Option<Vec<Vec<char>>>,
}

impl View for SummaryWalk {
    type V = SummaryState;

    closed spec fn view(&self) -> SummaryState {
        SummaryState {
            stack: seqs(self.stack@),
            emulator: opt_view(self.emulator),
            networks: seqs(self.networks@),
            interfaces: seqs(self.interfaces@),
            disks: seqs(self.disks@),
            disk: match self.disk {
                Some(d) => Some(d@),
                None => None,
            },
            iface: match self.iface {
                Some(f) => Some(seqs(f@)),
                None => None,
            },
        }
    }
}

/// Appends `x` to `xs` unless `xs` already holds it.
fn push_new_chars(xs: &mut Vec<Vec<char>>, x: Vec<char>)
    ensures
        seqs(final(xs)@) == push_new(seqs(old(xs)@), x@),
{
    let ghost before = seqs(xs@);
    let mut i: usize = 0;
    while i < xs.len()
        invariant
            xs@ == old(xs)@,
            before == seqs(xs@),
            i <= xs@.len(),
            forall|k: int| 0 <= k < i ==> xs@[k]@ != x@,
        decreases xs@.len() - i,
    {
        if crate::text::chars_eq(xs[i].as_slice(), x.as_slice()) {
            assert(before[i as int] == x@);
            return;
        }
        i = i + 1;
    }
    assert(!before.contains(x@));
    xs.push(x);
    assert(seqs(xs@) =~= before.push(x@));
}

fn source_rank_of(local: &[char]) -> (r: u8)
    ensures
        r as nat == source_rank(local@),
{
    if eq_str(local, "file") {
        0
    } else if eq_str(local, "dev") {
        1
    } else if eq_str(local, "name") {
        2
    } else if eq_str(local, "volume") {
        3
    } else if eq_str(local, "path") {
        4
    } else {
        5
    }
}

fn concat3(a: &[char], b: &str, c: &[char]) -> (r: Vec<char>)
    ensures
        r@ == a@ + b@ + c@,
{
    let mut out: Vec<char> = Vec::new();
    out.extend_from_slice(a);
    let bc = chars_of(b);
    out.extend_from_slice(bc.as_slice());
    out.extend_from_slice(c);
    out
}

fn list_text_exec(xs: &Vec<Vec<char>>) -> (r: Vec<char>)
    ensures
        r@ == list_text(seqs(xs@)),
{
    if xs.len() == 0 {
        chars_of("N/A")
    } else {
        join_with(xs, chars_of(", ").as_slice())
    }
}

fn or_unknown_exec(o: Option<Vec<char>>) -> (r: Vec<char>)
    ensures
        r@ == or_unknown(opt_view(o)),
{
    match o {
        Some(v) => v,
        None => chars_of("unknown"),
    }
}

impl SummaryWalk {
    fn new() -> (r: SummaryWalk)
        ensures
            r@ == initial_state(),
    {
        let r = SummaryWalk {
            stack: Vec::new(),
            emulator: None,
            networks: Vec::new(),
            interfaces: Vec::new(),
            disks: Vec::new(),
            disk: None,
            iface: None,
        };
        assert(r@.stack =~= seq![]);
        assert(r@.networks =~= seq![]);
        assert(r@.interfaces =~= seq![]);
        assert(r@.disks =~= seq![]);
        r
    }

    fn start(&mut self, name: Vec<char>)
        ensures
            final(self)@ == step_start(old(self)@, name@),
    {
        if eq_str(name.as_slice(), "disk") {
            self.disk = Some(DiskInfo { is_disk: false, target: None, source: None, source_rank: 5 });
        } else if eq_str(name.as_slice(), "interface") {
            let fields: Vec<Vec<char>> = Vec::new();
            assert(seqs(fields@) =~= seq![]);
            self.iface = Some(fields);
        }
        let ghost before = seqs(self.stack@);
        self.stack.push(name);
        assert(seqs(self.stack@) =~= before.push(name@));
    }

    fn attr(&mut self, local: Vec<char>, value: Vec<char>)
        ensures
            final(self)@ == step_attr(old(self)@, local@, value@),
    {
        let n = self.stack.len();
        if n == 0 {
            return;
        }
        let elem = self.stack[n - 1].clone();
        assert(elem@ == old(self)@.stack.last());
        let in_disk = n >= 2 && eq_str(self.stack[n - 2].as_slice(), "disk");
        let in_iface = n >= 2 && eq_str(self.stack[n - 2].as_slice(), "interface");
        let rank = source_rank_of(local.as_slice());
        match self.disk.take() {
            Some(d) => {
                let mut d = d;
                if eq_str(elem.as_slice(), "disk") && eq_str(local.as_slice(), "device") && eq_str(
                    value.as_slice(),
                    "disk",
                ) {
                    d.is_disk = true;
                } else if eq_str(elem.as_slice(), "target") && in_disk && eq_str(
                    local.as_slice(),
                    "dev",
                ) {
                    d.target = Some(value.clone());
                } else if eq_str(elem.as_slice(), "source") && in_disk && rank < 5 && rank
                    < d.source_rank {
                    d.source = Some(value.clone());
                    d.source_rank = rank;
                }
                self.disk = Some(d);
            },
            None => {},
        }
        match self.iface.take() {
            Some(f) => {
                let mut f = f;
                let noise = eq_str(elem.as_slice(), "address") && (eq_str(local.as_slice(), "type")
                    || eq_str(local.as_slice(), "domain") || eq_str(local.as_slice(), "bus")
                    || eq_str(local.as_slice(), "slot") || eq_str(local.as_slice(), "function"));
                if !noise {
                    let field = if eq_str(elem.as_slice(), "interface") {
                        concat3(local.as_slice(), "=", value.as_slice())
                    } else {
                        let head = concat3(elem.as_slice(), ".", local.as_slice());
                        concat3(head.as_slice(), "=", value.as_slice())
                    };
                    push_new_chars(&mut f, field);
                }
                self.iface = Some(f);
            },
            None => {},
        }
        if eq_str(elem.as_slice(), "source") && in_iface && (eq_str(local.as_slice(), "network") || eq_str(local.as_slice(), "bridge")
            || eq_str(local.as_slice(), "dev")) {
            push_new_chars(&mut self.networks, value);
        }
    }

    fn text(&mut self, text: Vec<char>)
        ensures
            final(self)@ == step_text(old(self)@, text@),
    {
        let v = trim_chars(text.as_slice());
        let n = self.stack.len();
        if v.len() == 0 || n == 0 {
            return;
        }
        let elem = self.stack[n - 1].clone();
        if eq_str(elem.as_slice(), "emulator") && self.emulator.is_none() {
            self.emulator = Some(v.clone());
        }
        let in_iface = n >= 2 && eq_str(self.stack[n - 2].as_slice(), "interface");
        match self.iface.take() {
            Some(f) => {
                let mut f = f;
                if in_iface {
                    push_new_chars(&mut f, concat3(elem.as_slice(), "=", v.as_slice()));
                }
                self.iface = Some(f);
            },
            None => {},
        }
    }

    fn end(&mut self)
        ensures
            final(self)@ == step_end(old(self)@),
    {
        let ghost before = seqs(self.stack@);
        let closed = match self.stack.pop() {
            Some(c) => c,
            None => {
                return;
            },
        };
        assert(seqs(self.stack@) =~= before.drop_last());
        if eq_str(closed.as_slice(), "interface") && self.iface.is_some() {
            let f = self.iface.take().unwrap();
            let entry = list_text_exec(&f);
            let ghost prev = seqs(self.interfaces@);
            self.interfaces.push(entry);
            assert(seqs(self.interfaces@) =~= prev.push(entry@));
        } else if eq_str(closed.as_slice(), "disk") && self.disk.is_some() {
            let d = self.disk.take().unwrap();
            if d.is_disk {
                let target = or_unknown_exec(d.target);
                let source = or_unknown_exec(d.source);
                let entry = concat3(target.as_slice(), ": ", source.as_slice());
                let ghost prev = seqs(self.disks@);
                self.disks.push(entry);
                assert(seqs(self.disks@) =~= prev.push(entry@));
            }
        }
    }
}

/// Why a descriptor could not be summarised.
pub enum SummaryError {
    /// The descriptor is not well-formed XML.
    Malformed,
}

/// The summary of a descriptor given as its tokens.
pub fn summarize_tokens(tokens: &Vec<XmlToken>) -> (r: String)
    ensures
        r@ == summary_text(walk(tok_views(tokens@))),
{
    let ghost ts = tok_views(tokens@);
    let mut w = SummaryWalk::new();
    let mut i: usize = 0;
    while i < tokens.len()
        invariant
            i <= tokens@.len(),
            ts == tok_views(tokens@),
            w@ == walk(ts.take(i as int)),
        decreases tokens@.len() - i,
    {
        assert(ts.take(i as int + 1).drop_last() =~= ts.take(i as int));
        match &tokens[i] {
            XmlToken::ElementStart(name) => w.start(chars_of(name.as_str())),
            XmlToken::Attribute(local, value) => w.attr(
                chars_of(local.as_str()),
                chars_of(value.as_str()),
            ),
            XmlToken::Text(text) => w.text(chars_of(text.as_str())),
            XmlToken::TagEnd => w.end(),
            _ => {},
        }
        i = i + 1;
    }
    assert(ts.take(tokens@.len() as int) =~= ts);
    let mut out = chars_of("Network: ");
    out.extend_from_slice(list_text_exec(&w.networks).as_slice());
    out.extend_from_slice(chars_of("\nInterfaces: ").as_slice());
    out.extend_from_slice(list_text_exec(&w.interfaces).as_slice());
    out.extend_from_slice(chars_of("\nEmulator: ").as_slice());
    match &w.emulator {
        Some(e) => out.extend_from_slice(e.as_slice()),
        None => out.extend_from_slice(chars_of("N/A").as_slice()),
    }
    out.extend_from_slice(chars_of("\nDisks: ").as_slice());
    out.extend_from_slice(list_text_exec(&w.disks).as_slice());
    string_from(out.as_slice())
}

/// The summary of a domain descriptor: networks, interfaces, emulator and
/// disks, one labelled line each; an error when the text is not XML.
pub fn summarize_dumpxml(xml: &str) -> (r: Result<String, SummaryError>)
    ensures
        match xml_tokens(xml@) {
            Some(ts) => r is Ok && r->Ok_0@ == summary_text(walk(ts)),
            None => r is Err,
        },
{
    match tokenize(xml) {
        Ok(tokens) => Ok(summarize_tokens(&tokens)),
        Err(_) => Err(SummaryError::Malformed),
    }
}

/// The disk list grows only when a `disk` element closes whose `device`
/// attribute was read as `disk`: each step either keeps the list, or
/// closes such an element; and a disk is marked as qualifying only by that
/// attribute on the `disk` element itself.
pub proof fn lemma_disks_only_from_disk_devices(st: SummaryState, t: Tok)
    ensures
        step(st, t).disks != st.disks ==> t == Tok::TagEnd && st.stack.len() > 0
            && st.stack.last() == "disk"@ && st.disk is Some && st.disk->0.is_disk,
        (step(st, t).disk is Some && step(st, t).disk->0.is_disk) ==> (st.disk is Some
            && st.disk->0.is_disk && t != Tok::Start("disk"@)) || (st.disk is Some
            && t == Tok::Attr("device"@, "disk"@) && st.stack.last() == "disk"@),
{
}

/// How a descriptor query went.
pub enum DumpOutcome {
    /// The command succeeded with this output.
    Output(String),
    /// The command ran and failed, with this error output.
    Failed(String),
    /// The command could not be started, for this reason.
    NotRun(String),
}

/// The text shown for a descriptor query on the machine `name`: the
/// summary when the output is XML, else a placeholder that says what went
/// wrong.
pub fn dumpxml_summary(name: &str, outcome: &DumpOutcome) -> (r: String)
    ensures
        match outcome {
            DumpOutcome::Output(xml) => match xml_tokens(xml@) {
                Some(ts) => r@ == summary_text(walk(ts)),
                None => r@ == "(unable to parse dumpxml for '"@ + name@ + "')"@,
            },
            DumpOutcome::Failed(err) => r@ == "(dumpxml failed for '"@ + name@ + "': "@ + err@
                + ")"@,
            DumpOutcome::NotRun(err) => r@ == "(unable to run dumpxml for '"@ + name@ + "': "@
                + err@ + ")"@,
        },
{
    let mut out: Vec<char>;
    match outcome {
        DumpOutcome::Output(xml) => {
            match summarize_dumpxml(xml.as_str()) {
                Ok(text) => {
                    return text;
                },
                Err(_) => {
                    out = chars_of("(unable to parse dumpxml for '");
                    out.extend_from_slice(chars_of(name).as_slice());
                    out.extend_from_slice(chars_of("')").as_slice());
                },
            }
        },
        DumpOutcome::Failed(err) => {
            out = chars_of("(dumpxml failed for '");
            out.extend_from_slice(chars_of(name).as_slice());
            out.extend_from_slice(chars_of("': ").as_slice());
            out.extend_from_slice(chars_of(err.as_str()).as_slice());
            out.extend_from_slice(chars_of(")").as_slice());
        },
        DumpOutcome::NotRun(err) => {
            out = chars_of("(unable to run dumpxml for '");
            out.extend_from_slice(chars_of(name).as_slice());
            out.extend_from_slice(chars_of("': ").as_slice());
            out.extend_from_slice(chars_of(err.as_str()).as_slice());
            out.extend_from_slice(chars_of(")").as_slice());
        },
    }
    string_from(out.as_slice())
}

/// The detail text of a machine: its addresses (joined by ", ", or "N/A")
/// on a first line, then the descriptor summary.
pub fn vm_info_text(ips: &Vec<String>, summary: &str) -> (r: String)
    ensures
        r@ == "IPs: "@ + list_text(ips@.map_values(|s: String| s@)) + "\n"@ + summary@,
{
    let mut parts: Vec<Vec<char>> = Vec::new();
    let mut i: usize = 0;
    while i < ips.len()
        invariant
            i <= ips@.len(),
            seqs(parts@) == ips@.take(i as int).map_values(|s: String| s@),
        decreases ips@.len() - i,
    {
        let ghost prev = seqs(parts@);
        let c = chars_of(ips[i].as_str());
        parts.push(c);
        assert(seqs(parts@) =~= prev.push(ips@[i as int]@));
        assert(ips@.take(i as int + 1).map_values(|s: String| s@) =~= ips@.take(i as int).map_values(
            |s: String| s@,
        ).push(ips@[i as int]@));
        i = i + 1;
    }
    assert(ips@.take(ips@.len() as int) =~= ips@);
    let mut out = chars_of("IPs: ");
    out.extend_from_slice(list_text_exec(&parts).as_slice());
    out.extend_from_slice(chars_of("\n").as_slice());
    out.extend_from_slice(chars_of(summary).as_slice());
    string_from(out.as_slice())
}

} // verus!
