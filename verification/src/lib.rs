//! Query combinators over an entity-component store.
//!
//! An entity-component store keeps its entities in columnar groups keyed by
//! the exact set of components an entity carries.  A component query can
//! decide whether a group satisfies it and, once bound to a group, fetch a
//! value for each row.  This crate composes two or more such queries into
//! one: per group it resolves which sub-query (or sub-queries) apply, caches
//! that decision as a small discriminant, and tags every fetched row with the
//! winning sub-query's identity — the predicates are evaluated once per group
//! transition, never once per row.
//!
//! Three combinators are provided:
//!
//! * [`EitherFetch`] — binary priority: the first sub-query's item wins
//!   whenever the first sub-query matches, the second's is only the
//!   fallback, and there is no "both" case.  Items are [`Either`].
//! * [`EitherBothFetch`] — binary overlap-aware: like the priority form but
//!   with a third outcome when both sub-queries match the bound group.
//!   Items are [`EitherBoth`].
//! * [`EitherManyFetch`] — n-ary priority over an ordered list of
//!   sub-queries: the earliest-declared matching sub-query wins and items
//!   carry its position.  Items are [`EitherManyItem`].
//!
//! Sub-queries are anything implementing [`QueryState`] (the group predicate
//! and access bookkeeping) and [`QueryFetch`] (the per-row fetcher);
//! combinators implement the same pair, so a combinator nests inside another
//! combinator.  [`ComponentState`] and [`ComponentFetch`] form the leaf
//! query reading a single component's column of a [`Group`].

mod access;
mod group;
mod query;
mod component;
mod either_both;
mod either;
mod either_many;

pub use access::AccessSet;
pub use group::Group;
pub use query::{BindingViolation, QueryFetch, QueryState};
pub use component::{ComponentFetch, ComponentState};
pub use either_both::{
    lemma_overlap_complete, lemma_state_access_union, lemma_state_read_only, overlap_choice,
    resolve_overlap, EitherBoth, EitherBothFetch, EitherBothState, OverlapBinding,
};
pub use either::{
    lemma_overlap_refines_priority, lemma_priority_prefers_first, priority_choice,
    resolve_priority, Either, EitherFetch, PriorityBinding,
};
pub use either_many::{
    first_match, lemma_first_match_is_priority, lemma_first_match_resolves,
    lemma_first_match_stable, lemma_seq_access_union, lemma_seq_read_only, seq_group_reads,
    seq_group_writes, seq_reads, seq_writes, EitherManyFetch, EitherManyItem, EitherManyState,
};
