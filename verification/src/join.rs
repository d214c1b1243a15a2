//! Walking two lists of spans side by side.

use crate::span_map::{in_order, names};
use crate::text::{compare_text, text_less};
use itertools::{EitherOrBoth, Itertools};
use vstd::prelude::*;

verus! {

/// A span that stands in the left list, in the right list or in both.
pub enum Joined<'a, A, B> {
    Left(&'a (String, A)),
    Right(&'a (String, B)),
    Both(&'a (String, A), &'a (String, B)),
}

impl<'a, A, B> Joined<'a, A, B> {
    /// The name of the span.
    pub open spec fn span(&self) -> Seq<char> {
        match self {
            Joined::Left(l) => l.0@,
            Joined::Right(r) => r.0@,
            Joined::Both(l, _) => l.0@,
        }
    }

    /// The entry stands in the lists that it is said to stand in, and in no other.
    pub open spec fn stands_in(&self, left: Seq<(String, A)>, right: Seq<(String, B)>) -> bool {
        match self {
            Joined::Left(l) => left.contains(**l) && !names(right, l.0@),
            Joined::Right(r) => right.contains(**r) && !names(left, r.0@),
            Joined::Both(l, r) => left.contains(**l) && right.contains(**r) && l.0@ == r.0@,
        }
    }
}

/// One of the entries has the name `span`.
pub open spec fn has_span<'a, A, B>(joined: Seq<Joined<'a, A, B>>, span: Seq<char>) -> bool {
    exists|k: int| 0 <= k < joined.len() && (#[trigger] joined[k]).span() == span
}

/// Calls `merge_join_by` of `itertools::Itertools` on two lists in the order of their names, with
/// that order. The result is in the order of the names too; every name of either list occurs, once,
/// and under it what the lists hold there.
#[verifier::external_body]
pub(crate) fn merge_join<'a, A, B>(
    left: &'a Vec<(String, A)>,
    right: &'a Vec<(String, B)>,
) -> (joined: Vec<Joined<'a, A, B>>)
    requires
        in_order(left@),
        in_order(right@),
    ensures
        forall|i: int, j: int|
            0 <= i < j < joined@.len() ==> text_less(
                (#[trigger] joined@[i]).span(),
                (#[trigger] joined@[j]).span(),
            ),
        forall|k: int| 0 <= k < joined@.len() ==> (#[trigger] joined@[k]).stands_in(left@, right@),
        forall|span: Seq<char>| #[trigger]
            has_span(joined@, span) == (names(left@, span) || names(right@, span)),
{
    left.iter()
        .merge_join_by(right.iter(), |l, r| compare_text(l.0.as_str(), r.0.as_str()))
        .map(|entry| match entry {
            EitherOrBoth::Left(l) => Joined::Left(l),
            EitherOrBoth::Right(r) => Joined::Right(r),
            EitherOrBoth::Both(l, r) => Joined::Both(l, r),
        })
        .collect()
}

} // verus!
