//! The rule table: queries in the order they were added, each with the
//! transform that answers a frame meeting it.

use crate::hdr::{ArpQuery, EthQuery, IPv4Query};
use crate::pdu::Pdu;
use crate::proto::Proto;
use vstd::prelude::*;

verus! {

/// A query for one kind of header.
#[derive(Debug, Clone, Copy)]
pub enum QueryHdr {
    IPv4(IPv4Query),
    Eth(EthQuery),
    Arp(ArpQuery),
}

impl QueryHdr {
    /// Whether the frame meets the query: the header of the query's kind
    /// stands at its layer and meets the query.
    pub open spec fn matches_frame(&self, headers: Map<u8, Proto>) -> bool {
        match self {
            QueryHdr::IPv4(q) => q.matches_frame(headers),
            QueryHdr::Eth(q) => q.matches_frame(headers),
            QueryHdr::Arp(q) => q.matches_frame(headers),
        }
    }

    /// Whether two queries are of one kind and want the same of every
    /// field.
    pub open spec fn same(&self, other: &QueryHdr) -> bool {
        match (self, other) {
            (QueryHdr::IPv4(a), QueryHdr::IPv4(b)) => a.same(b),
            (QueryHdr::Eth(a), QueryHdr::Eth(b)) => a.same(b),
            (QueryHdr::Arp(a), QueryHdr::Arp(b)) => a.same(b),
            _ => false,
        }
    }

    /// Whether the frame meets the query.
    pub fn matches_pdu(&self, pdu: &Pdu) -> (r: bool)
        ensures
            r == self.matches_frame(pdu.headers@),
    {
        match self {
            QueryHdr::IPv4(q) => q.matches_pdu(pdu),
            QueryHdr::Eth(q) => q.matches_pdu(pdu),
            QueryHdr::Arp(q) => q.matches_pdu(pdu),
        }
    }
}

impl PartialEq for QueryHdr {
    fn eq(&self, other: &QueryHdr) -> (r: bool) {
        match (self, other) {
            (QueryHdr::IPv4(a), QueryHdr::IPv4(b)) => *a == *b,
            (QueryHdr::Eth(a), QueryHdr::Eth(b)) => *a == *b,
            (QueryHdr::Arp(a), QueryHdr::Arp(b)) => *a == *b,
            _ => false,
        }
    }
}

impl vstd::std_specs::cmp::PartialEqSpecImpl for QueryHdr {
    open spec fn obeys_eq_spec() -> bool {
        true
    }

    open spec fn eq_spec(&self, other: &QueryHdr) -> bool {
        self.same(other)
    }
}

/// The place of the first query that `wanted` holds of, if it holds of any.
pub open spec fn first_where(queries: Seq<QueryHdr>, wanted: spec_fn(QueryHdr) -> bool) -> Option<
    int,
>
    decreases queries.len(),
{
    if queries.len() == 0 {
        None
    } else {
        match first_where(queries.drop_last(), wanted) {
            Some(i) => Some(i),
            None => if wanted(queries.last()) {
                Some(queries.len() - 1)
            } else {
                None
            },
        }
    }
}

/// `first_where` finds a place where `wanted` holds, with none before it,
/// and finds nothing only where `wanted` holds nowhere.
pub proof fn lemma_first_where(queries: Seq<QueryHdr>, wanted: spec_fn(QueryHdr) -> bool)
    ensures
        match first_where(queries, wanted) {
            Some(i) => 0 <= i < queries.len() && wanted(queries[i]) && forall|j: int|
                0 <= j < i ==> !wanted(queries[j]),
            None => forall|j: int| 0 <= j < queries.len() ==> !wanted(queries[j]),
        },
    decreases queries.len(),
{
    if queries.len() > 0 {
        let front = queries.drop_last();
        lemma_first_where(front, wanted);
        assert(forall|j: int| 0 <= j < front.len() ==> front[j] == queries[j]);
        match first_where(front, wanted) {
            Some(i) => {
                assert forall|j: int| 0 <= j < i implies !wanted(queries[j]) by {
                    assert(!wanted(front[j]));
                }
            },
            None => {
                assert forall|j: int| 0 <= j < front.len() implies !wanted(queries[j]) by {
                    assert(!wanted(front[j]));
                }
            },
        }
    }
}

/// The rule table.
///
/// A query stands in it once: adding a query that is the same as one in
/// the table gives that rule a new transform and leaves its place.
pub struct Rules<F> {
    rules: Vec<(QueryHdr, F)>,
}

impl<F> View for Rules<F> {
    type V = Seq<(QueryHdr, F)>;

    closed spec fn view(&self) -> Seq<(QueryHdr, F)> {
        self.rules@
    }
}

/// The queries of a table, in order.
pub open spec fn queries_of<F>(rules: Seq<(QueryHdr, F)>) -> Seq<QueryHdr> {
    Seq::new(rules.len(), |i: int| rules[i].0)
}

/// Whether no query of a table is the same as one that stands before it.
pub open spec fn distinct(queries: Seq<QueryHdr>) -> bool {
    forall|i: int, j: int| 0 <= i < j < queries.len() ==> !queries[i].same(&queries[j])
}

impl<F> Rules<F> {
    /// The queries, in the order in which they are tried.
    pub open spec fn queries(&self) -> Seq<QueryHdr> {
        queries_of(self@)
    }

    /// The invariant of the table: no query stands in it twice. The empty
    /// table has it and `add_rule` keeps it.
    pub open spec fn wf(&self) -> bool {
        distinct(self.queries())
    }

    /// The place of the rule whose query is the same as `query`, if there
    /// is one.
    pub open spec fn place_of(&self, query: QueryHdr) -> Option<int> {
        first_where(self.queries(), |q: QueryHdr| q.same(&query))
    }

    /// The place of the first rule that the frame meets, if it meets one.
    pub open spec fn first_match(&self, headers: Map<u8, Proto>) -> Option<int> {
        first_where(self.queries(), |q: QueryHdr| q.matches_frame(headers))
    }

    /// The empty table.
    pub fn new() -> (t: Self)
        ensures
            t@ == Seq::<(QueryHdr, F)>::empty(),
            t.wf(),
    {
        Self { rules: Vec::new() }
    }

    /// The number of rules.
    pub fn len(&self) -> (n: usize)
        ensures
            n == self@.len(),
    {
        self.rules.len()
    }

    /// The query of the rule at place `i`.
    pub fn query(&self, i: usize) -> (q: &QueryHdr)
        requires
            i < self@.len(),
        ensures
            *q == self@[i as int].0,
    {
        &self.rules[i].0
    }

    /// The transform of the rule at place `i`.
    pub fn callback(&self, i: usize) -> (f: &F)
        requires
            i < self@.len(),
        ensures
            *f == self@[i as int].1,
    {
        &self.rules[i].1
    }

    /// Adds the rule that answers frames meeting `query` with `callback`.
    ///
    /// Where a rule with the same query stands in the table, that rule
    /// keeps its place and its query and gets `callback`; otherwise the new
    /// rule goes behind all others.
    pub fn add_rule(&mut self, query: QueryHdr, callback: F)
        ensures
            final(self)@ == match old(self).place_of(query) {
                Some(i) => old(self)@.update(i, (old(self)@[i].0, callback)),
                None => old(self)@.push((query, callback)),
            },
            old(self).wf() ==> final(self).wf(),
    {
        let ghost before = self.queries();
        let ghost wanted = |q: QueryHdr| q.same(&query);
        let mut i: usize = 0;
        while i < self.rules.len()
            invariant
                i <= self.rules@.len(),
                self.rules@ == old(self).rules@,
                before == queries_of(self.rules@),
                wanted == (|q: QueryHdr| q.same(&query)),
                first_where(before.subrange(0, i as int), wanted) is None,
            decreases self.rules@.len() - i,
        {
            assert(before.subrange(0, i + 1).drop_last() =~= before.subrange(0, i as int));
            if self.rules[i].0 == query {
                proof {
                    Self::lemma_found(before, wanted, i as int);
                }
                let kept = self.rules[i].0;
                let ghost replaced = self.rules@.update(i as int, (kept, callback));
                assert(queries_of(replaced) =~= before);
                self.rules[i] = (kept, callback);
                return ;
            }
            i += 1;
        }
        proof {
            assert(before.subrange(0, i as int) =~= before);
            lemma_first_where(before, wanted);
            let added = self.rules@.push((query, callback));
            assert(queries_of(added) =~= before.push(query));
        }
        self.rules.push((query, callback));
    }

    /// Where `wanted` holds at place `i` and nowhere before it, `i` is the
    /// place that `first_where` finds.
    pub proof fn lemma_found(queries: Seq<QueryHdr>, wanted: spec_fn(QueryHdr) -> bool, i: int)
        requires
            0 <= i < queries.len(),
            wanted(queries[i]),
            first_where(queries.subrange(0, i), wanted) is None,
        ensures
            first_where(queries, wanted) == Some(i),
        decreases queries.len(),
    {
        if i == queries.len() - 1 {
            assert(queries.drop_last() =~= queries.subrange(0, i));
        } else {
            assert(queries.drop_last().subrange(0, i) =~= queries.subrange(0, i));
            Self::lemma_found(queries.drop_last(), wanted, i);
        }
    }

    /// The place of the first rule that the frame meets, if it meets one.
    pub fn find(&self, pdu: &Pdu) -> (r: Option<usize>)
        ensures
            r is Some <==> self.first_match(pdu.headers@) is Some,
            r matches Some(i) ==> self.first_match(pdu.headers@) == Some(i as int) && i
                < self@.len(),
    {
        let ghost queries = self.queries();
        let ghost wanted = |q: QueryHdr| q.matches_frame(pdu.headers@);
        let mut i: usize = 0;
        while i < self.rules.len()
            invariant
                i <= self.rules@.len(),
                queries == queries_of(self.rules@),
                wanted == (|q: QueryHdr| q.matches_frame(pdu.headers@)),
                first_where(queries.subrange(0, i as int), wanted) is None,
            decreases self.rules@.len() - i,
        {
            assert(queries.subrange(0, i + 1).drop_last() =~= queries.subrange(0, i as int));
            if self.rules[i].0.matches_pdu(pdu) {
                proof {
                    Self::lemma_found(queries, wanted, i as int);
                }
                return Some(i);
            }
            i += 1;
        }
        assert(queries.subrange(0, i as int) =~= queries);
        None
    }
}

} // verus!
