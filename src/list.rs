use vstd::prelude::*;

use crate::text::{chars_of, join, join_with, lines, split_lines, split_words, string_from, words};

verus! {

/// One virtual machine as listed by the hypervisor tool.
pub struct Vm {
    pub id: String,
    pub name: String,
    pub vcpus: String,
    pub memory: String,
    pub state: String,
}

/// What a `Vm` holds, as character sequences.
pub struct VmView {
    pub id: Seq<char>,
    pub name: Seq<char>,
    pub vcpus: Seq<char>,
    pub memory: Seq<char>,
    pub state: Seq<char>,
}

impl View for Vm {
    type V = VmView;

    open spec fn view(&self) -> VmView {
        VmView {
            id: self.id@,
            name: self.name@,
            vcpus: self.vcpus@,
            memory: self.memory@,
            state: self.state@,
        }
    }
}

pub open spec fn not_available() -> Seq<char> {
    seq!['N', '/', 'A']
}

pub(crate) fn not_available_string() -> (r: String)
    ensures
        r@ == not_available(),
{
    string_from(&['N', '/', 'A'])
}

/// The record for one row split into words: id, name, and the rest of the
/// words joined by single spaces as the state; resources not yet known.
pub open spec fn row_of(w: Seq<Seq<char>>) -> VmView {
    VmView {
        id: w[0],
        name: w[1],
        vcpus: not_available(),
        memory: not_available(),
        state: join(w.subrange(2, w.len() as int), seq![' ']),
    }
}

/// The records for the given lines: each line with at least three words
/// gives one record, in order; other lines (blank ones, separators made of
/// a single run of dashes, malformed rows) give none.
pub open spec fn rows_of(ls: Seq<Seq<char>>) -> Seq<VmView>
    decreases ls.len(),
{
    if ls.len() == 0 {
        seq![]
    } else if words(ls.last()).len() >= 3 {
        rows_of(ls.drop_last()).push(row_of(words(ls.last())))
    } else {
        rows_of(ls.drop_last())
    }
}

/// The records of a list output: the first two lines (header and separator)
/// are skipped, the others read by `rows_of`.
pub open spec fn list_rows(out: Seq<char>) -> Seq<VmView> {
    if lines(out).len() <= 2 {
        seq![]
    } else {
        rows_of(lines(out).subrange(2, lines(out).len() as int))
    }
}

/// Reads the tabular output of the list command into records, with the
/// resource fields left at "N/A".
pub fn parse_virsh_output(output: &str) -> (r: Vec<Vm>)
    ensures
        r@.map_values(|v: Vm| v@) == list_rows(output@),
{
    let chars = chars_of(output);
    let ls = split_lines(chars.as_slice());
    let ghost all = lines(output@);
    let mut vms: Vec<Vm> = Vec::new();
    if ls.len() <= 2 {
        assert(vms@.map_values(|v: Vm| v@) =~= seq![]);
        return vms;
    }
    let ghost rest = all.subrange(2, all.len() as int);
    let mut i: usize = 2;
    while i < ls.len()
        invariant
            2 <= i <= ls@.len(),
            ls@.len() == all.len(),
            all == lines(output@),
            rest == all.subrange(2, all.len() as int),
            forall|k: int| 0 <= k < ls@.len() ==> #[trigger] ls@[k]@ == all[k],
            vms@.map_values(|v: Vm| v@) == rows_of(rest.take(i - 2)),
        decreases ls@.len() - i,
    {
        assert(rest.take(i - 2 + 1).drop_last() =~= rest.take(i - 2));
        assert(rest.take(i - 2 + 1).last() == ls@[i as int]@);
        let w = split_words(ls[i].as_slice());
        if w.len() >= 3 {
            let mut tail: Vec<Vec<char>> = Vec::new();
            let mut j: usize = 2;
            while j < w.len()
                invariant
                    2 <= j <= w@.len(),
                    tail@.len() == j - 2,
                    forall|k: int| 0 <= k < tail@.len() ==> #[trigger] tail@[k]@ == w@[k + 2]@,
                decreases w@.len() - j,
            {
                tail.push(w[j].clone());
                j = j + 1;
            }
            let ghost wv = words(ls@[i as int]@);
            assert(tail@.map_values(|p: Vec<char>| p@) =~= wv.subrange(2, wv.len() as int));
            let state = join_with(&tail, &[' ']);
            proof {
                assert(seq![' '] =~= [' ']@);
            }
            let vm = Vm {
                id: string_from(w[0].as_slice()),
                name: string_from(w[1].as_slice()),
                vcpus: not_available_string(),
                memory: not_available_string(),
                state: string_from(state.as_slice()),
            };
            vms.push(vm);
            assert(vms@.map_values(|v: Vm| v@) =~= rows_of(rest.take(i - 2)).push(row_of(wv)));
        } else {
            assert(vms@.map_values(|v: Vm| v@) =~= rows_of(rest.take(i - 2 + 1)));
        }
        i = i + 1;
    }
    assert(rest.take(i - 2) =~= rest);
    vms
}

} // verus!
