use vstd::prelude::*;

use crate::list::{not_available, not_available_string, Vm};
use crate::memory::{convert_memory_to_mib, memory_mib, opt_string_view};
use crate::summary::{opt_view, SummaryError};
use crate::text::{chars_of, eq_str, seqs, string_from, trim, trim_chars};
use crate::xml::{tok_views, tokenize, xml_tokens, Tok, XmlToken};

verus! {

/// The state of the walk that reads a descriptor's resources.
pub struct ResourceState {
    /// Local names of the open elements, outermost first.
    pub stack: Seq<Seq<char>>,
    pub vcpu: Option<Seq<char>>,
    pub memory: Option<Seq<char>>,
    /// The `unit` of the `memory` element whose text became `memory`.
    pub memory_unit: Option<Seq<char>>,
    /// The `unit` of the `memory` element opened last.
    pub open_unit: Option<Seq<char>>,
}

pub open spec fn resource_start() -> ResourceState {
    ResourceState { stack: seq![], vcpu: None, memory: None, memory_unit: None, open_unit: None }
}

pub open spec fn top_is(stack: Seq<Seq<char>>, name: Seq<char>) -> bool {
    stack.len() > 0 && stack.last() == name
}

pub open spec fn resource_step(st: ResourceState, t: Tok) -> ResourceState {
    match t {
        Tok::Start(name) => ResourceState {
            stack: st.stack.push(name),
            open_unit: if name == "memory"@ {
                None
            } else {
                st.open_unit
            },
            ..st
        },
        Tok::Attr(local, value) => if top_is(st.stack, "memory"@) && local == "unit"@ {
            ResourceState { open_unit: Some(value), ..st }
        } else {
            st
        },
        Tok::Text(text) => {
            let v = trim(text);
            if v.len() > 0 && st.vcpu is None && top_is(st.stack, "vcpu"@) {
                ResourceState { vcpu: Some(v), ..st }
            } else if v.len() > 0 && st.memory is None && top_is(st.stack, "memory"@) {
                ResourceState { memory: Some(v), memory_unit: st.open_unit, ..st }
            } else {
                st
            }
        },
        Tok::TagEnd => if st.stack.len() > 0 {
            ResourceState { stack: st.stack.drop_last(), ..st }
        } else {
            st
        },
        _ => st,
    }
}

/// The state after reading the tokens in order.
pub open spec fn resource_walk(ts: Seq<Tok>) -> ResourceState
    decreases ts.len(),
{
    if ts.len() == 0 {
        resource_start()
    } else {
        resource_step(resource_walk(ts.drop_last()), ts.last())
    }
}

/// The memory of a walked descriptor in MiB, when it has one that can be
/// read.
pub open spec fn resource_memory(st: ResourceState) -> Option<Seq<char>> {
    match st.memory {
        Some(m) => memory_mib(m, st.memory_unit),
        None => None,
    }
}

pub open spec fn or_not_available(o: Option<Seq<char>>) -> Seq<char> {
    match o {
        Some(s) => s,
        None => not_available(),
    }
}

struct ResourceWalk {
    stack: Vec<Vec<char>>,
    vcpu: Option<Vec<char>>,
    memory: Option<Vec<char>>,
    memory_unit: Option<Vec<char>>,
    open_unit: Option<Vec<char>>,
}

impl View for ResourceWalk {
    type V = ResourceState;

    closed spec fn view(&self) -> ResourceState {
        ResourceState {
            stack: seqs(self.stack@),
            vcpu: opt_view(self.vcpu),
            memory: opt_view(self.memory),
            memory_unit: opt_view(self.memory_unit),
            open_unit: opt_view(self.open_unit),
        }
    }
}

fn top_is_exec(stack: &Vec<Vec<char>>, name: &str) -> (r: bool)
    ensures
        r == top_is(seqs(stack@), name@),
{
    stack.len() > 0 && eq_str(stack[stack.len() - 1].as_slice(), name)
}

fn opt_string(o: &Option<Vec<char>>) -> (r: Option<String>)
    ensures
        opt_string_view(r) == opt_view(*o),
{
    match o {
        Some(v) => Some(string_from(v.as_slice())),
        None => None,
    }
}

/// The virtual CPU count and the memory in MiB of a descriptor given as its
/// tokens: the first non-blank text of a `vcpu` element, and of a `memory`
/// element read in the unit of that element.
pub fn resources_from_tokens(tokens: &Vec<XmlToken>) -> (r: (Option<String>, Option<String>))
    ensures
        opt_string_view(r.0) == resource_walk(tok_views(tokens@)).vcpu,
        opt_string_view(r.1) == resource_memory(resource_walk(tok_views(tokens@))),
{
    let ghost ts = tok_views(tokens@);
    let mut w = ResourceWalk {
        stack: Vec::new(),
        vcpu: None,
        memory: None,
        memory_unit: None,
        open_unit: None,
    };
    assert(w@.stack =~= seq![]);
    let mut i: usize = 0;
    while i < tokens.len()
        invariant
            i <= tokens@.len(),
            ts == tok_views(tokens@),
            w@ == resource_walk(ts.take(i as int)),
        decreases tokens@.len() - i,
    {
        assert(ts.take(i as int + 1).drop_last() =~= ts.take(i as int));
        let ghost before = seqs(w.stack@);
        match &tokens[i] {
            XmlToken::ElementStart(name) => {
                let n = chars_of(name.as_str());
                if eq_str(n.as_slice(), "memory") {
                    w.open_unit = None;
                }
                w.stack.push(n);
                assert(seqs(w.stack@) =~= before.push(name@));
            },
            XmlToken::Attribute(local, value) => {
                if top_is_exec(&w.stack, "memory") && eq_str(
                    chars_of(local.as_str()).as_slice(),
                    "unit",
                ) {
                    w.open_unit = Some(chars_of(value.as_str()));
                }
            },
            XmlToken::Text(text) => {
                let v = trim_chars(chars_of(text.as_str()).as_slice());
                if v.len() > 0 && w.vcpu.is_none() && top_is_exec(&w.stack, "vcpu") {
                    w.vcpu = Some(v);
                } else if v.len() > 0 && w.memory.is_none() && top_is_exec(&w.stack, "memory") {
                    w.memory = Some(v);
                    w.memory_unit = w.open_unit.clone();
                }
            },
            XmlToken::TagEnd => {
                if w.stack.len() > 0 {
                    w.stack.pop();
                    assert(seqs(w.stack@) =~= before.drop_last());
                }
            },
            _ => {},
        }
        i = i + 1;
    }
    assert(ts.take(tokens@.len() as int) =~= ts);
    let vcpu = opt_string(&w.vcpu);
    let memory = match &w.memory {
        Some(m) => {
            let ms = string_from(m.as_slice());
            match &w.memory_unit {
                Some(u) => {
                    let us = string_from(u.as_slice());
                    convert_memory_to_mib(ms.as_str(), Some(us.as_str()))
                },
                None => convert_memory_to_mib(ms.as_str(), None),
            }
        },
        None => None,
    };
    (vcpu, memory)
}

/// The virtual CPU count and memory in MiB of a domain descriptor; an error
/// when the text is not XML.
pub fn parse_dumpxml_resources(xml: &str) -> (r: Result<(Option<String>, Option<String>), SummaryError>)
    ensures
        match xml_tokens(xml@) {
            Some(ts) => match r {
                Ok((v, m)) => opt_string_view(v) == resource_walk(ts).vcpu && opt_string_view(m)
                    == resource_memory(resource_walk(ts)),
                Err(_) => false,
            },
            None => r is Err,
        },
{
    match tokenize(xml) {
        Ok(tokens) => Ok(resources_from_tokens(&tokens)),
        Err(_) => Err(SummaryError::Malformed),
    }
}

/// The virtual CPU count and memory texts of a domain descriptor, "N/A"
/// for each that it does not give; `None` when the text is not XML.
pub fn vm_resources(xml: &str) -> (r: Option<(String, String)>)
    ensures
        match xml_tokens(xml@) {
            Some(ts) => match r {
                Some((v, m)) => v@ == or_not_available(resource_walk(ts).vcpu) && m@
                    == or_not_available(resource_memory(resource_walk(ts))),
                None => false,
            },
            None => r is None,
        },
{
    match parse_dumpxml_resources(xml) {
        Ok((vcpu, memory)) => {
            let v = match vcpu {
                Some(v) => v,
                None => not_available_string(),
            };
            let m = match memory {
                Some(m) => m,
                None => not_available_string(),
            };
            Some((v, m))
        },
        Err(_) => None,
    }
}

/// Puts the resources read for a record into it; with `None` (the
/// descriptor could not be had or read) the record keeps its "N/A" fields.
pub fn apply_resources(vm: &mut Vm, resources: Option<(String, String)>)
    ensures
        match resources {
            Some((v, m)) => final(vm)@ == (crate::list::VmView {
                vcpus: v@,
                memory: m@,
                ..old(vm)@
            }),
            None => final(vm)@ == old(vm)@,
        },
{
    match resources {
        Some((v, m)) => {
            vm.vcpus = v;
            vm.memory = m;
        },
        None => {},
    }
}

} // verus!
