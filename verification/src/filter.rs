//! The traffic filter: a polarity (allow or deny) together with an ordered,
//! duplicate-free list of string patterns, and the classification rule that
//! decides whether a request URI is blocked.

use vstd::prelude::*;
use crate::text::{contains_substring, is_substring};

verus! {

/// The polarity of the filter list.
///
/// `Allow`: only URIs matching a listed pattern may pass, all others are
/// blocked. `Deny`: URIs matching a listed pattern are blocked, all others
/// pass.
#[derive(Clone, Copy, Debug, PartialEq, Eq, Structural)]
pub enum TrafficFilterType {
    Allow,
    Deny,
}

/// `v` occurs in `ps`.
pub open spec fn spec_present(ps: Seq<Seq<char>>, v: Seq<char>) -> bool {
    exists|i: int| 0 <= i < ps.len() && ps[i] == v
}

/// No value occurs twice in `ps`.
pub open spec fn no_dups(ps: Seq<Seq<char>>) -> bool {
    forall|i: int, j: int| 0 <= i < j < ps.len() ==> ps[i] != ps[j]
}

/// The first index at or after `from` where `v` occurs (`ps.len()` if none).
pub open spec fn first_eq(ps: Seq<Seq<char>>, v: Seq<char>, from: int) -> int
    decreases ps.len() - from,
{
    if from >= ps.len() {
        ps.len() as int
    } else if ps[from] == v {
        from
    } else {
        first_eq(ps, v, from + 1)
    }
}

pub proof fn lemma_first_eq(ps: Seq<Seq<char>>, v: Seq<char>, from: int)
    requires
        0 <= from <= ps.len(),
    ensures
        from <= first_eq(ps, v, from) <= ps.len(),
        first_eq(ps, v, from) < ps.len() ==> ps[first_eq(ps, v, from)] == v,
        forall|j: int| from <= j < first_eq(ps, v, from) ==> ps[j] != v,
    decreases ps.len() - from,
{
    if from < ps.len() && ps[from] != v {
        lemma_first_eq(ps, v, from + 1);
    }
}

pub proof fn lemma_first_eq_is(ps: Seq<Seq<char>>, v: Seq<char>, from: int, i: int)
    requires
        0 <= from <= i <= ps.len(),
        forall|j: int| from <= j < i ==> ps[j] != v,
        i < ps.len() ==> ps[i] == v,
    ensures
        first_eq(ps, v, from) == i,
    decreases i - from,
{
    if from < i {
        lemma_first_eq_is(ps, v, from + 1, i);
    }
}

/// Occurrence is decided by the first-occurrence index.
pub proof fn lemma_first_eq_present(ps: Seq<Seq<char>>, v: Seq<char>)
    ensures
        spec_present(ps, v) <==> first_eq(ps, v, 0) < ps.len(),
{
    lemma_first_eq(ps, v, 0);
    if first_eq(ps, v, 0) < ps.len() {
        assert(ps[first_eq(ps, v, 0)] == v);
    }
}

pub proof fn lemma_present_push(ps: Seq<Seq<char>>, x: Seq<char>, w: Seq<char>)
    ensures
        spec_present(ps.push(x), w) <==> (spec_present(ps, w) || w == x),
{
    if spec_present(ps, w) {
        let i = choose|i: int| 0 <= i < ps.len() && ps[i] == w;
        assert(ps.push(x)[i] == w);
    }
    if w == x {
        assert(ps.push(x)[ps.len() as int] == w);
    }
    if spec_present(ps.push(x), w) && w != x {
        let i = choose|i: int| 0 <= i < ps.push(x).len() && ps.push(x)[i] == w;
        assert(ps[i] == w);
    }
}

/// Removing the sole occurrence of `v` from a duplicate-free sequence
/// removes exactly `v` from the membership.
pub proof fn lemma_present_remove(ps: Seq<Seq<char>>, k: int, w: Seq<char>)
    requires
        no_dups(ps),
        0 <= k < ps.len(),
    ensures
        spec_present(ps.remove(k), w) <==> (spec_present(ps, w) && w != ps[k]),
{
    ps.remove_ensures(k);
    if spec_present(ps.remove(k), w) {
        let i = choose|i: int| 0 <= i < ps.remove(k).len() && ps.remove(k)[i] == w;
        if i < k {
            assert(ps[i] == w);
        } else {
            assert(ps[i + 1] == w);
        }
    }
    if spec_present(ps, w) && w != ps[k] {
        let i = choose|i: int| 0 <= i < ps.len() && ps[i] == w;
        if i < k {
            assert(ps.remove(k)[i] == w);
        } else {
            assert(ps.remove(k)[i - 1] == w);
        }
    }
}

/// Removing never introduces duplicates.
pub proof fn lemma_no_dups_remove(ps: Seq<Seq<char>>, k: int)
    requires
        no_dups(ps),
        0 <= k < ps.len(),
    ensures
        no_dups(ps.remove(k)),
{
    ps.remove_ensures(k);
    assert forall|i: int, j: int| 0 <= i < j < ps.remove(k).len() implies ps.remove(k)[i]
        != ps.remove(k)[j] by {
        let pi: int = if i < k { i } else { i + 1 };
        let pj: int = if j < k { j } else { j + 1 };
        assert(ps.remove(k)[i] == ps[pi]);
        assert(ps.remove(k)[j] == ps[pj]);
    }
}

/// The membership toggle: the first occurrence of `v` is removed if there is
/// one, otherwise `v` is appended.
pub open spec fn spec_toggle(ps: Seq<Seq<char>>, v: Seq<char>) -> Seq<Seq<char>> {
    let k = first_eq(ps, v, 0);
    if k < ps.len() {
        ps.remove(k)
    } else {
        ps.push(v)
    }
}

/// The toggle keeps a duplicate-free list duplicate-free.
pub proof fn lemma_toggle_no_dups(ps: Seq<Seq<char>>, v: Seq<char>)
    requires
        no_dups(ps),
    ensures
        no_dups(spec_toggle(ps, v)),
{
    lemma_first_eq(ps, v, 0);
    let k = first_eq(ps, v, 0);
    if k < ps.len() {
        lemma_no_dups_remove(ps, k);
    } else {
        lemma_first_eq_present(ps, v);
        assert forall|i: int, j: int| 0 <= i < j < ps.push(v).len() implies ps.push(v)[i]
            != ps.push(v)[j] by {
            if j < ps.len() {
                assert(ps.push(v)[i] == ps[i] && ps.push(v)[j] == ps[j]);
            } else {
                assert(ps.push(v)[j] == v);
                assert(ps.push(v)[i] == ps[i]);
                assert(!spec_present(ps, v));
            }
        }
    }
}

/// Toggling the same value twice restores the prior membership: every
/// value is present afterwards exactly when it was present before.
pub proof fn lemma_toggle_involution(ps: Seq<Seq<char>>, v: Seq<char>, w: Seq<char>)
    requires
        no_dups(ps),
    ensures
        spec_present(spec_toggle(spec_toggle(ps, v), v), w) <==> spec_present(ps, w),
{
    lemma_first_eq(ps, v, 0);
    lemma_first_eq_present(ps, v);
    let k = first_eq(ps, v, 0);
    if k < ps.len() {
        // v was present: the toggle removes it, the second toggle appends it.
        let t1 = ps.remove(k);
        lemma_present_remove(ps, k, v);
        lemma_first_eq_present(t1, v);
        let t2 = spec_toggle(t1, v);
        assert(t2 == t1.push(v));
        lemma_present_push(t1, v, w);
        lemma_present_remove(ps, k, w);
    } else {
        // v was absent: the toggle appends it, the second toggle removes it.
        let t1 = ps.push(v);
        assert(forall|j: int| 0 <= j < ps.len() ==> ps[j] != v);
        assert forall|j: int| 0 <= j < ps.len() implies t1[j] != v by {
            assert(t1[j] == ps[j]);
        }
        assert(t1[ps.len() as int] == v);
        lemma_first_eq_is(t1, v, 0, ps.len() as int);
        let t2 = spec_toggle(t1, v);
        assert(t2 == t1.remove(ps.len() as int));
        assert(t2 =~= ps) by {
            t1.remove_ensures(ps.len() as int);
        }
    }
}

/// Keep-first deduplication.
pub open spec fn spec_dedup(ps: Seq<Seq<char>>) -> Seq<Seq<char>>
    decreases ps.len(),
{
    if ps.len() == 0 {
        Seq::empty()
    } else {
        let front = spec_dedup(ps.drop_last());
        if spec_present(ps.drop_last(), ps.last()) {
            front
        } else {
            front.push(ps.last())
        }
    }
}

/// Deduplication preserves membership.
pub proof fn lemma_dedup_present(ps: Seq<Seq<char>>, w: Seq<char>)
    ensures
        spec_present(spec_dedup(ps), w) <==> spec_present(ps, w),
    decreases ps.len(),
{
    if ps.len() > 0 {
        lemma_dedup_present(ps.drop_last(), w);
        lemma_present_push(ps.drop_last(), ps.last(), w);
        assert(ps =~= ps.drop_last().push(ps.last()));
        if !spec_present(ps.drop_last(), ps.last()) {
            lemma_present_push(spec_dedup(ps.drop_last()), ps.last(), w);
        } else {
            if w == ps.last() {
                lemma_dedup_present(ps.drop_last(), ps.last());
            }
        }
    }
}

/// Deduplication leaves no duplicates.
pub proof fn lemma_dedup_no_dups(ps: Seq<Seq<char>>)
    ensures
        no_dups(spec_dedup(ps)),
    decreases ps.len(),
{
    if ps.len() > 0 {
        lemma_dedup_no_dups(ps.drop_last());
        let front = spec_dedup(ps.drop_last());
        if !spec_present(ps.drop_last(), ps.last()) {
            lemma_dedup_present(ps.drop_last(), ps.last());
            assert forall|i: int, j: int| 0 <= i < j < front.push(ps.last()).len() implies front
                .push(ps.last())[i] != front.push(ps.last())[j] by {
                if j < front.len() {
                    assert(front.push(ps.last())[i] == front[i]);
                    assert(front.push(ps.last())[j] == front[j]);
                } else {
                    assert(front.push(ps.last())[j] == ps.last());
                    assert(front.push(ps.last())[i] == front[i]);
                    assert(!spec_present(front, ps.last()));
                }
            }
        }
    }
}

/// Some pattern of `ps` is a substring of `uri`.
pub open spec fn spec_matched(ps: Seq<Seq<char>>, uri: Seq<char>) -> bool {
    exists|i: int| 0 <= i < ps.len() && is_substring(ps[i], uri)
}

/// The traffic filter configuration.
pub struct TrafficFilter {
    /// Whether classification happens at all.
    pub enabled: bool,
    /// Whether the list allows or denies what it matches.
    pub filter_type: TrafficFilterType,
    /// The ordered, duplicate-free pattern list.
    pub filter_list: Vec<String>,
}

/// A request URI is blocked when the filter denies a match, or allows
/// only matches and there is none.
pub open spec fn spec_blocked(f: TrafficFilter, uri: Seq<char>) -> bool {
    (f.filter_type is Deny && spec_matched(f.patterns(), uri)) || (f.filter_type is Allow
        && !spec_matched(f.patterns(), uri))
}

impl TrafficFilter {
    /// The pattern list as a sequence of character sequences.
    pub open spec fn patterns(self) -> Seq<Seq<char>> {
        self.filter_list.deep_view()
    }

    /// Well-formed: the pattern list holds no value twice.
    pub open spec fn wf(self) -> bool {
        no_dups(self.patterns())
    }

    pub fn get_enabled(&self) -> (r: bool)
        ensures
            r == self.enabled,
    {
        self.enabled
    }

    pub fn set_enabled(&mut self, enabled: bool)
        ensures
            final(self).enabled == enabled,
            final(self).filter_type == old(self).filter_type,
            final(self).filter_list == old(self).filter_list,
    {
        self.enabled = enabled;
    }

    /// True when traffic is blocked unless listed, i.e. the list is an
    /// allowlist.
    pub fn is_blocking(&self) -> (r: bool)
        ensures
            r == (self.filter_type is Allow),
    {
        match self.filter_type {
            TrafficFilterType::Allow => true,
            TrafficFilterType::Deny => false,
        }
    }

    /// The polarity the filter does not currently have.
    pub fn get_opposing_filter_type(&self) -> (r: TrafficFilterType)
        ensures
            self.filter_type is Allow ==> r is Deny,
            self.filter_type is Deny ==> r is Allow,
    {
        match self.filter_type {
            TrafficFilterType::Allow => TrafficFilterType::Deny,
            TrafficFilterType::Deny => TrafficFilterType::Allow,
        }
    }

    pub fn set_filter_type(&mut self, filter_type: TrafficFilterType)
        ensures
            final(self).filter_type == filter_type,
            final(self).enabled == old(self).enabled,
            final(self).filter_list == old(self).filter_list,
    {
        self.filter_type = filter_type;
    }

    /// A snapshot of the pattern list.
    pub fn get_filter_list(&self) -> (r: Vec<String>)
        ensures
            r@ == self.filter_list@,
    {
        let mut out: Vec<String> = Vec::new();
        let mut i: usize = 0;
        while i < self.filter_list.len()
            invariant
                i <= self.filter_list.len(),
                out@.len() == i,
                forall|k: int| 0 <= k < i ==> out@[k] == self.filter_list@[k],
            decreases self.filter_list.len() - i,
        {
            out.push(self.filter_list[i].clone());
            i += 1;
        }
        proof {
            assert(out@ =~= self.filter_list@);
        }
        out
    }

    /// Whether some pattern of the list is a substring of `uri`.
    pub fn in_filter_list(&self, uri: &str) -> (r: bool)
        ensures
            r == spec_matched(self.patterns(), uri@),
    {
        let mut i: usize = 0;
        while i < self.filter_list.len()
            invariant
                i <= self.filter_list.len(),
                forall|k: int| 0 <= k < i ==> !is_substring(self.patterns()[k], uri@),
            decreases self.filter_list.len() - i,
        {
            proof {
                assert(self.patterns()[i as int] == self.filter_list@[i as int]@);
            }
            if contains_substring(uri, self.filter_list[i].as_str()) {
                return true;
            }
            i += 1;
        }
        false
    }

    /// The first index of `value` in the list (its length if absent).
    fn find_value(&self, value: &String) -> (r: usize)
        ensures
            r as int == first_eq(self.patterns(), value@, 0),
            r <= self.filter_list.len(),
    {
        let n = self.filter_list.len();
        let mut i: usize = 0;
        while i < n
            invariant
                i <= n,
                n == self.filter_list.len(),
                forall|k: int| 0 <= k < i ==> self.patterns()[k] != value@,
            decreases n - i,
        {
            proof {
                assert(self.patterns()[i as int] == self.filter_list@[i as int]@);
            }
            if value.eq(&self.filter_list[i]) {
                proof {
                    lemma_first_eq_is(self.patterns(), value@, 0, i as int);
                }
                return i;
            }
            i += 1;
        }
        proof {
            lemma_first_eq_is(self.patterns(), value@, 0, n as int);
        }
        n
    }

    /// Toggles membership of `value`: removes it when present, appends it
    /// when absent.
    pub fn update_filter_list(&mut self, value: String)
        requires
            old(self).wf(),
        ensures
            final(self).patterns() == spec_toggle(old(self).patterns(), value@),
            final(self).wf(),
            final(self).enabled == old(self).enabled,
            final(self).filter_type == old(self).filter_type,
    {
        proof {
            lemma_toggle_no_dups(self.patterns(), value@);
        }
        let idx = self.find_value(&value);
        if idx < self.filter_list.len() {
            self.filter_list.remove(idx);
            proof {
                old(self).patterns().remove_ensures(idx as int);
                assert(self.patterns() =~= old(self).patterns().remove(idx as int));
            }
        } else {
            self.filter_list.push(value);
            proof {
                assert(self.patterns() =~= old(self).patterns().push(value@));
            }
        }
    }

    /// Replaces the pattern at `index` with `value`.
    ///
    /// Leaves the list unchanged when `index` is out of range, or when
    /// `value` already stands at another position (which would create a
    /// duplicate).
    pub fn update_filter_list_item(&mut self, index: usize, value: String)
        requires
            old(self).wf(),
        ensures
            final(self).wf(),
            final(self).enabled == old(self).enabled,
            final(self).filter_type == old(self).filter_type,
            ({
                let k = first_eq(old(self).patterns(), value@, 0);
                if index < old(self).filter_list.len() && (k == index as int
                    || k == old(self).patterns().len()) {
                    final(self).patterns() == old(self).patterns().update(index as int, value@)
                } else {
                    final(self).patterns() == old(self).patterns()
                }
            }),
    {
        proof {
            lemma_first_eq(self.patterns(), value@, 0);
        }
        if index >= self.filter_list.len() {
            return;
        }
        let k = self.find_value(&value);
        if k < self.filter_list.len() && k != index {
            return;
        }
        self.filter_list.set(index, value);
        proof {
            assert(self.patterns() =~= old(self).patterns().update(
                index as int,
                value@,
            ));
            lemma_first_eq_present(old(self).patterns(), value@);
            assert forall|i: int, j: int| 0 <= i < j < self.patterns().len() implies self.patterns()[i]
                != self.patterns()[j] by {
                let ops = old(self).patterns();
                let fps = self.patterns();
                if i != index && j != index {
                    assert(fps[i] == ops[i] && fps[j] == ops[j]);
                } else if i == index {
                    assert(fps[i] == value@ && fps[j] == ops[j]);
                    if ops[j] == value@ {
                        assert(spec_present(ops, value@));
                    }
                } else {
                    assert(fps[j] == value@ && fps[i] == ops[i]);
                    if ops[i] == value@ {
                        assert(spec_present(ops, value@));
                    }
                }
            }
        }
    }

    /// Replaces the whole list, deduplicating (first occurrences kept).
    pub fn set_filter_list(&mut self, list: Vec<String>)
        ensures
            final(self).patterns() == spec_dedup(list.deep_view()),
            final(self).wf(),
            final(self).enabled == old(self).enabled,
            final(self).filter_type == old(self).filter_type,
    {
        proof {
            lemma_dedup_no_dups(list.deep_view());
        }
        let n = list.len();
        let mut out: Vec<String> = Vec::new();
        let mut i: usize = 0;
        while i < n
            invariant
                i <= n,
                n == list.len(),
                out.deep_view() == spec_dedup(list.deep_view().take(i as int)),
            decreases n - i,
        {
            proof {
                let dv = list.deep_view();
                assert(dv.take(i + 1).drop_last() =~= dv.take(i as int));
                assert(dv.take(i + 1).last() == dv[i as int]);
                lemma_dedup_present(dv.take(i as int), dv[i as int]);
            }
            if !list_contains(&out, &list[i]) {
                out.push(list[i].clone());
                proof {
                    assert(out.deep_view() =~= spec_dedup(list.deep_view().take(i + 1)));
                }
            } else {
                proof {
                    assert(out.deep_view() =~= spec_dedup(list.deep_view().take(i + 1)));
                }
            }
            i += 1;
        }
        proof {
            assert(list.deep_view().take(n as int) =~= list.deep_view());
        }
        self.filter_list = out;
    }

}

/// Whether `value` occurs in `list`.
fn list_contains(list: &Vec<String>, value: &String) -> (r: bool)
    ensures
        r == spec_present(list.deep_view(), value@),
{
    let n = list.len();
    let mut i: usize = 0;
    while i < n
        invariant
            i <= n,
            n == list.len(),
            forall|k: int| 0 <= k < i ==> list.deep_view()[k] != value@,
        decreases n - i,
    {
        proof {
            assert(list.deep_view()[i as int] == list@[i as int]@);
        }
        if value.eq(&list[i]) {
            return true;
        }
        i += 1;
    }
    false
}

impl Clone for TrafficFilter {
    /// A deep copy: same flag, polarity, and pattern list.
    fn clone(&self) -> (res: Self)
        ensures
            res.enabled == self.enabled,
            res.filter_type == self.filter_type,
            res.filter_list@ == self.filter_list@,
    {
        TrafficFilter {
            enabled: self.enabled,
            filter_type: self.filter_type,
            filter_list: self.get_filter_list(),
        }
    }
}

impl Default for TrafficFilter {
    /// A disabled deny-list filter with no patterns.
    fn default() -> (res: Self)
        ensures
            !res.enabled,
            res.filter_type is Deny,
            res.filter_list@.len() == 0,
            res.wf(),
    {
        TrafficFilter { enabled: false, filter_type: TrafficFilterType::Deny, filter_list: Vec::new() }
    }
}

} // verus!
