//! The live filter: which records a query keeps.
//!
//! Matching ignores case and looks for the query anywhere inside a field. The
//! scan is linear in the number of records; the book is small and held in
//! memory, so no index is kept.

use crate::record::{Customer, CustomerView, Identifier, IdentifierView};
use crate::text::{chars_of, contains, is_infix, lowercase, to_lowercase};
use vstd::prelude::*;

verus! {

impl CustomerView {
    /// The fields that a search looks at: the name, the company, or both, and
    /// then the phone number.
    pub open spec fn searchable(self) -> Seq<Seq<char>> {
        match self.identifier {
            IdentifierView::Name(name) => seq![name, self.phone],
            IdentifierView::Company(company) => seq![company, self.phone],
            IdentifierView::Both(company, name) => seq![name, company, self.phone],
        }
    }

    /// Whether a query that was already lower-cased occurs in the lower-cased
    /// text of one of the searchable fields.
    pub open spec fn matches_folded(self, folded_query: Seq<char>) -> bool {
        exists|i: int|
            0 <= i < self.searchable().len() && is_infix(
                folded_query,
                lowercase(#[trigger] self.searchable()[i]),
            )
    }

    /// Whether the record matches the query: the empty query matches every
    /// record, any other query must occur in a field, ignoring case.
    pub open spec fn matches(self, query: Seq<char>) -> bool {
        query.len() == 0 || self.matches_folded(lowercase(query))
    }
}

/// The records that a query keeps, in the order of the book.
pub open spec fn filter_spec(records: Seq<Customer>, query: Seq<char>) -> Seq<Customer> {
    records.filter(|c: Customer| c@.matches(query))
}

/// The records that a list of references points to.
pub open spec fn pointed(found: Seq<&Customer>) -> Seq<Customer> {
    found.map_values(|c: &Customer| *c)
}

/// Whether the lower-cased text of `field` contains `folded_query`.
fn field_matches(field: &str, folded_query: &Vec<char>) -> (b: bool)
    ensures
        b == is_infix(folded_query@, lowercase(field@)),
{
    let folded = to_lowercase(field);
    let hay = chars_of(folded.as_str());
    contains(&hay, folded_query)
}

/// Whether a query that was already lower-cased occurs in one of the
/// searchable fields of `customer`, ignoring the case of the field.
pub fn customer_matches(customer: &Customer, folded_query: &Vec<char>) -> (b: bool)
    ensures
        b == customer@.matches_folded(folded_query@),
{
    let ghost fields = customer@.searchable();
    let in_identifier = match &customer.identifier {
        Identifier::Name(name) => {
            assert(fields[0] == name@);
            field_matches(name.as_str(), folded_query)
        },
        Identifier::Company(company) => {
            assert(fields[0] == company@);
            field_matches(company.as_str(), folded_query)
        },
        Identifier::Both(company, name) => {
            assert(fields[0] == name@ && fields[1] == company@);
            field_matches(name.as_str(), folded_query) || field_matches(
                company.as_str(),
                folded_query,
            )
        },
    };
    if in_identifier {
        return true;
    }
    assert(fields[fields.len() - 1] == customer.phone@);
    field_matches(customer.phone.as_str(), folded_query)
}

/// Keeps the records that match `query`, in the order of the book.
pub fn filter_customers<'a>(customers: &'a Vec<Customer>, query: &str) -> (found: Vec<
    &'a Customer,
>)
    ensures
        pointed(found@) == filter_spec(customers@, query@),
{
    let all = query.is_empty();
    let folded = to_lowercase(query);
    let folded_query = chars_of(folded.as_str());
    let ghost keep = |c: Customer| c@.matches(query@);
    let mut found: Vec<&'a Customer> = Vec::new();
    let mut i: usize = 0;
    assert(customers@.take(0) =~= Seq::<Customer>::empty());
    assert(pointed(found@) =~= customers@.take(0).filter(keep)) by {
        reveal(Seq::filter);
    }
    while i < customers.len()
        invariant
            i <= customers.len(),
            all == (query@.len() == 0),
            folded_query@ == lowercase(query@),
            keep == (|c: Customer| c@.matches(query@)),
            pointed(found@) == customers@.take(i as int).filter(keep),
        decreases customers.len() - i,
    {
        let customer = &customers[i];
        let ghost before = pointed(found@);
        proof {
            let seen = customers@.take(i as int);
            assert(customers@.take(i + 1) =~= seen.push(*customer));
            seen.lemma_filter_push(*customer, keep);
        }
        if all || customer_matches(customer, &folded_query) {
            found.push(customer);
            assert(pointed(found@) =~= before.push(*customer));
        }
        i += 1;
    }
    assert(customers@.take(i as int) =~= customers@);
    found
}

/// Whether `sub` can be read off `full` at the positions `at`, which go up
/// strictly.
pub open spec fn embeds<A>(sub: Seq<A>, full: Seq<A>, at: Seq<int>) -> bool {
    &&& at.len() == sub.len()
    &&& forall|i: int| 0 <= i < at.len() ==> 0 <= #[trigger] at[i] < full.len()
    &&& forall|i: int| 0 <= i < at.len() ==> full[#[trigger] at[i]] == sub[i]
    &&& forall|i: int, j: int| 0 <= i < j < at.len() ==> at[i] < at[j]
}

/// Whether `sub` is `full` with some elements left out and the order kept.
pub open spec fn is_subsequence<A>(sub: Seq<A>, full: Seq<A>) -> bool {
    exists|at: Seq<int>| embeds(sub, full, at)
}

/// The positions in `records` of the records that `query` keeps.
spec fn kept_positions(records: Seq<Customer>, query: Seq<char>) -> Seq<int>
    decreases records.len(),
{
    if records.len() == 0 {
        Seq::empty()
    } else if records.last()@.matches(query) {
        kept_positions(records.drop_last(), query).push(records.len() - 1)
    } else {
        kept_positions(records.drop_last(), query)
    }
}

proof fn lemma_kept_positions(records: Seq<Customer>, query: Seq<char>)
    ensures
        embeds(filter_spec(records, query), records, kept_positions(records, query)),
    decreases records.len(),
{
    reveal(Seq::filter);
    let keep = |c: Customer| c@.matches(query);
    if records.len() > 0 {
        let shorter = records.drop_last();
        lemma_kept_positions(shorter, query);
        let at = kept_positions(shorter, query);
        let sub = filter_spec(shorter, query);
        assert(sub == shorter.filter(keep));
        assert forall|i: int| 0 <= i < at.len() implies records[#[trigger] at[i]] == sub[i] by {
            assert(shorter[at[i]] == sub[i]);
        }
    }
}

/// The filter returns a subsequence of the records, in the order of the book,
/// and it returns exactly the records that match the query.
pub proof fn lemma_filter_is_subsequence(records: Seq<Customer>, query: Seq<char>)
    ensures
        is_subsequence(filter_spec(records, query), records),
        forall|i: int|
            0 <= i < filter_spec(records, query).len() ==> (#[trigger] filter_spec(
                records,
                query,
            )[i])@.matches(query),
        forall|i: int|
            0 <= i < records.len() && (#[trigger] records[i])@.matches(query) ==> filter_spec(
                records,
                query,
            ).contains(records[i]),
{
    let keep = |c: Customer| c@.matches(query);
    lemma_kept_positions(records, query);
    assert forall|i: int| 0 <= i < filter_spec(records, query).len() implies (
    #[trigger] filter_spec(records, query)[i])@.matches(query) by {
        records.lemma_filter_pred(keep, i);
    }
    assert forall|i: int|
        0 <= i < records.len() && (#[trigger] records[i])@.matches(query) implies filter_spec(
        records,
        query,
    ).contains(records[i]) by {
        records.lemma_filter_contains(keep, i);
    }
}

/// The empty query keeps every record, in the order of the book.
pub proof fn lemma_filter_empty_query(records: Seq<Customer>)
    ensures
        filter_spec(records, Seq::<char>::empty()) == records,
    decreases records.len(),
{
    reveal(Seq::filter);
    if records.len() > 0 {
        lemma_filter_empty_query(records.drop_last());
        assert(records.drop_last().push(records.last()) =~= records);
    }
}

/// Filtering has no hidden state: whenever the filter is asked twice with
/// the same records and the same query, what it returns the second time is
/// what it returned the first time.
pub proof fn lemma_filter_repeatable(
    records: Seq<Customer>,
    query: Seq<char>,
    first: Seq<Customer>,
    second: Seq<Customer>,
)
    requires
        first == filter_spec(records, query),
        second == filter_spec(records, query),
    ensures
        first == second,
{
}

/// Filtering what a query kept, by the same query, changes nothing.
pub proof fn lemma_filter_idempotent(records: Seq<Customer>, query: Seq<char>)
    ensures
        filter_spec(filter_spec(records, query), query) == filter_spec(records, query),
    decreases records.len(),
{
    reveal(Seq::filter);
    let keep = |c: Customer| c@.matches(query);
    if records.len() > 0 {
        let shorter = records.drop_last();
        lemma_filter_idempotent(shorter, query);
        if keep(records.last()) {
            shorter.filter(keep).lemma_filter_push(records.last(), keep);
        }
    }
}

} // verus!
