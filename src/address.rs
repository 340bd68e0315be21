use vstd::prelude::*;

use crate::text::{
    chars_eq, chars_of, find_char, lines, prefix_before, split_lines, split_words, string_from,
    take_chars, words,
};

verus! {

/// `xs` with `x` appended, unless it already holds `x`.
pub open spec fn push_new(xs: Seq<Seq<char>>, x: Seq<char>) -> Seq<Seq<char>> {
    if xs.contains(x) {
        xs
    } else {
        xs.push(x)
    }
}

/// `xs` with each of `ys` appended in turn by `push_new`.
pub open spec fn push_all_new(xs: Seq<Seq<char>>, ys: Seq<Seq<char>>) -> Seq<Seq<char>>
    decreases ys.len(),
{
    if ys.len() == 0 {
        xs
    } else {
        push_new(push_all_new(xs, ys.drop_last()), ys.last())
    }
}

pub open spec fn ipv4_marker() -> Seq<char> {
    seq!['i', 'p', 'v', '4']
}

/// The addresses that the given rows of an address table report, in order,
/// without repeats: from each row with at least four words whose third is
/// `ipv4`, the fourth word up to its prefix length.
pub open spec fn addresses_of(ls: Seq<Seq<char>>) -> Seq<Seq<char>>
    decreases ls.len(),
{
    if ls.len() == 0 {
        seq![]
    } else {
        let w = words(ls.last());
        if w.len() >= 4 && w[2] == ipv4_marker() {
            push_new(addresses_of(ls.drop_last()), prefix_before(w[3], '/'))
        } else {
            addresses_of(ls.drop_last())
        }
    }
}

/// The addresses that an address query's output reports: its first two
/// lines (header and separator) are skipped.
pub open spec fn domifaddr_addresses(out: Seq<char>) -> Seq<Seq<char>> {
    if lines(out).len() <= 2 {
        seq![]
    } else {
        addresses_of(lines(out).subrange(2, lines(out).len() as int))
    }
}

pub open spec fn no_repeats(xs: Seq<Seq<char>>) -> bool {
    forall|i: int, j: int| 0 <= i < j < xs.len() ==> xs[i] != xs[j]
}

pub open spec fn string_views(v: Seq<String>) -> Seq<Seq<char>> {
    v.map_values(|s: String| s@)
}

/// The part of a word before its first `/`.
fn strip_prefix_length(w: &[char]) -> (r: Vec<char>)
    ensures
        r@ == prefix_before(w@, '/'),
{
    let i = find_char(w, '/');
    take_chars(w, i)
}

/// Appends `x` to `xs` unless `xs` already holds it.
fn push_if_new(xs: &mut Vec<String>, x: String)
    ensures
        string_views(final(xs)@) == push_new(string_views(old(xs)@), x@),
{
    let ghost before = string_views(xs@);
    let mut i: usize = 0;
    while i < xs.len()
        invariant
            xs@ == old(xs)@,
            before == string_views(xs@),
            i <= xs@.len(),
            forall|k: int| 0 <= k < i ==> xs@[k]@ != x@,
        decreases xs@.len() - i,
    {
        if xs[i] == x {
            assert(before[i as int] == x@);
            return;
        }
        i = i + 1;
    }
    assert(!before.contains(x@));
    xs.push(x);
    assert(string_views(xs@) =~= before.push(x@));
}

/// The IPv4 addresses that one address query reports, in order of
/// appearance, each once, without its prefix length.
pub fn parse_domifaddr_output(output: &str) -> (r: Vec<String>)
    ensures
        string_views(r@) == domifaddr_addresses(output@),
{
    let chars = chars_of(output);
    let ls = split_lines(chars.as_slice());
    let ghost all = lines(output@);
    let mut ips: Vec<String> = Vec::new();
    if ls.len() <= 2 {
        assert(string_views(ips@) =~= seq![]);
        return ips;
    }
    let ghost rest = all.subrange(2, all.len() as int);
    let marker = ['i', 'p', 'v', '4'];
    assert(marker@ =~= ipv4_marker());
    let mut i: usize = 2;
    while i < ls.len()
        invariant
            2 <= i <= ls@.len(),
            ls@.len() == all.len(),
            all == lines(output@),
            rest == all.subrange(2, all.len() as int),
            marker@ == ipv4_marker(),
            forall|k: int| 0 <= k < ls@.len() ==> #[trigger] ls@[k]@ == all[k],
            string_views(ips@) == addresses_of(rest.take(i - 2)),
        decreases ls@.len() - i,
    {
        assert(rest.take(i - 2 + 1).drop_last() =~= rest.take(i - 2));
        assert(rest.take(i - 2 + 1).last() == ls@[i as int]@);
        let w = split_words(ls[i].as_slice());
        if w.len() >= 4 && chars_eq(w[2].as_slice(), marker.as_slice()) {
            let ip = strip_prefix_length(w[3].as_slice());
            push_if_new(&mut ips, string_from(ip.as_slice()));
        }
        i = i + 1;
    }
    assert(rest.take(i - 2) =~= rest);
    ips
}

/// Adds to `ips` the addresses of `found` that it does not hold yet, in
/// the order of `found`: the addresses already there keep their places.
pub fn merge_addresses(ips: &mut Vec<String>, found: &Vec<String>)
    ensures
        string_views(final(ips)@) == push_all_new(string_views(old(ips)@), string_views(found@)),
{
    let ghost start = string_views(ips@);
    let ghost fv = string_views(found@);
    let mut i: usize = 0;
    while i < found.len()
        invariant
            i <= found@.len(),
            start == string_views(old(ips)@),
            fv == string_views(found@),
            string_views(ips@) == push_all_new(start, fv.take(i as int)),
        decreases found@.len() - i,
    {
        assert(fv.take(i as int + 1).drop_last() =~= fv.take(i as int));
        push_if_new(ips, found[i].clone());
        i = i + 1;
    }
    assert(fv.take(found@.len() as int) =~= fv);
}

proof fn lemma_push_new(xs: Seq<Seq<char>>, x: Seq<char>)
    requires
        no_repeats(xs),
    ensures
        no_repeats(push_new(xs, x)),
        push_new(xs, x).take(xs.len() as int) == xs,
        forall|y: Seq<char>| push_new(xs, x).contains(y) <==> (xs.contains(y) || y == x),
{
    if !xs.contains(x) {
        assert(xs.push(x).take(xs.len() as int) =~= xs);
        assert forall|y: Seq<char>| xs.push(x).contains(y) <==> (xs.contains(y) || y == x) by {
            if xs.push(x).contains(y) {
                let k = choose|k: int| 0 <= k < xs.len() + 1 && xs.push(x)[k] == y;
                if k < xs.len() {
                    assert(xs[k] == y);
                }
            }
            if y == x {
                assert(xs.push(x)[xs.len() as int] == y);
            }
            if xs.contains(y) {
                let k = choose|k: int| 0 <= k < xs.len() && xs[k] == y;
                assert(xs.push(x)[k] == y);
            }
        }
    } else {
        assert(xs.take(xs.len() as int) =~= xs);
    }
}

/// Merging the addresses of one source into those found so far keeps what
/// was found in its place, adds what is new once each, and loses nothing:
/// an address that two sources report appears once, where it was first
/// found.
pub proof fn lemma_merge_deduplicates(found: Seq<Seq<char>>, more: Seq<Seq<char>>)
    requires
        no_repeats(found),
    ensures
        no_repeats(push_all_new(found, more)),
        push_all_new(found, more).len() >= found.len(),
        push_all_new(found, more).take(found.len() as int) == found,
        forall|y: Seq<char>|
            push_all_new(found, more).contains(y) <==> (found.contains(y) || more.contains(y)),
    decreases more.len(),
{
    if more.len() == 0 {
        assert(found.take(found.len() as int) =~= found);
    } else {
        let prev = push_all_new(found, more.drop_last());
        lemma_merge_deduplicates(found, more.drop_last());
        lemma_push_new(prev, more.last());
        assert(push_new(prev, more.last()).take(found.len() as int) =~= prev.take(
            found.len() as int,
        ));
        assert forall|y: Seq<char>|
            push_all_new(found, more).contains(y) <==> (found.contains(y) || more.contains(
                y,
            )) by {
            if more.drop_last().contains(y) {
                let k = choose|k: int| 0 <= k < more.len() - 1 && more.drop_last()[k] == y;
                assert(more[k] == y);
            }
            if more.contains(y) && y != more.last() {
                let k = choose|k: int| 0 <= k < more.len() && more[k] == y;
                assert(k != more.len() - 1);
                assert(more.drop_last()[k] == y);
            }
            if y == more.last() {
                assert(more[more.len() - 1] == y);
            }
        }
    }
}

/// The addresses read from one query's output hold no repeats.
pub proof fn lemma_domifaddr_no_repeats(out: Seq<char>)
    ensures
        no_repeats(domifaddr_addresses(out)),
{
    if lines(out).len() > 2 {
        lemma_addresses_no_repeats(lines(out).subrange(2, lines(out).len() as int));
    }
}

proof fn lemma_addresses_no_repeats(ls: Seq<Seq<char>>)
    ensures
        no_repeats(addresses_of(ls)),
    decreases ls.len(),
{
    if ls.len() > 0 {
        lemma_addresses_no_repeats(ls.drop_last());
        let w = words(ls.last());
        if w.len() >= 4 && w[2] == ipv4_marker() {
            lemma_push_new(addresses_of(ls.drop_last()), prefix_before(w[3], '/'));
        }
    }
}

/// The sources that addresses are asked from, in order of priority: the
/// DHCP leases of managed networks, the neighbour table, the guest agent.
/// Every source is asked, and their results merged by `merge_addresses`.
pub fn address_sources() -> (r: Vec<&'static str>)
    ensures
        r@.len() == 3,
        r@[0]@ == "lease"@,
        r@[1]@ == "arp"@,
        r@[2]@ == "agent"@,
{
    vec!["lease", "arp", "agent"]
}

/// An address that both the addresses found so far and a further source
/// report is in the merged list once: at the place where it was first
/// found, and nowhere after.
pub proof fn lemma_shared_address_once(found: Seq<Seq<char>>, more: Seq<Seq<char>>, x: Seq<char>)
    requires
        no_repeats(found),
        found.contains(x),
        more.contains(x),
    ensures
        push_all_new(found, more).contains(x),
        forall|i: int|
            0 <= i < push_all_new(found, more).len() && push_all_new(found, more)[i] == x ==> i
                < found.len() && found[i] == x,
{
    lemma_merge_deduplicates(found, more);
    let m = push_all_new(found, more);
    let j = choose|j: int| 0 <= j < found.len() && found[j] == x;
    assert(m.take(found.len() as int)[j] == found[j]);
    assert forall|i: int| 0 <= i < m.len() && m[i] == x implies i < found.len() && found[i] == x by {
        if i >= found.len() {
            assert(m[j] == x);
            assert(m[j] != m[i]);
        } else {
            assert(m.take(found.len() as int)[i] == found[i]);
        }
    }
}

} // verus!
