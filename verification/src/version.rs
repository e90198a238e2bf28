//! Version strings and the decision whether an update is needed.
//!
//! Versions are compared by the `version-compare` crate. For versions made
//! of numbers and dots its answer is stated here in full: the numbers are
//! compared one by one from the left, and a missing number counts as zero.

use vstd::prelude::*;
use crate::text::same_text;

verus! {

/// The largest number that one component of a numeric version may hold.
pub const MAX_COMPONENT: u32 = 2147483647;

/// Whether `c` is one of the digits `0` to `9`.
pub open spec fn is_digit(c: char) -> bool {
    '0' <= c && c <= '9'
}

/// The value of a digit.
pub open spec fn digit_value(c: char) -> nat {
    (c as u32 - '0' as u32) as nat
}

/// The value of a run of digits, read as a decimal number.
pub open spec fn decimal_value(digits: Seq<char>) -> nat
    decreases digits.len(),
{
    if digits.len() == 0 {
        0
    } else {
        decimal_value(digits.drop_last()) * 10 + digit_value(digits.last())
    }
}

/// A run of digits whose value a component can hold. The empty run is one.
pub open spec fn is_digit_run(part: Seq<char>) -> bool {
    &&& forall|i: int| 0 <= i < part.len() ==> is_digit(#[trigger] part[i])
    &&& decimal_value(part) <= MAX_COMPONENT
}

/// A component of a numeric version: a digit run that is not empty.
pub open spec fn is_number(part: Seq<char>) -> bool {
    part.len() > 0 && is_digit_run(part)
}

/// The parts of a version: the runs of characters between dots. A dot
/// opens a new, empty part; any other character extends the last one.
pub open spec fn dot_parts(s: Seq<char>) -> Seq<Seq<char>>
    decreases s.len(),
{
    if s.len() == 0 {
        seq![Seq::<char>::empty()]
    } else if s.last() == '.' {
        dot_parts(s.drop_last()).push(Seq::<char>::empty())
    } else {
        let before = dot_parts(s.drop_last());
        before.drop_last().push(before.last().push(s.last()))
    }
}

/// Every one of `parts` is a number.
pub open spec fn all_numbers(parts: Seq<Seq<char>>) -> bool {
    forall|i: int| 0 <= i < parts.len() ==> is_number(#[trigger] parts[i])
}

/// A well-formed numeric version: numbers separated by single dots, such
/// as `2.0.0.0`.
pub open spec fn is_numeric_version(s: Seq<char>) -> bool {
    all_numbers(dot_parts(s))
}

/// The values of `parts`, in order.
pub open spec fn values_of(parts: Seq<Seq<char>>) -> Seq<nat> {
    Seq::new(parts.len(), |i: int| decimal_value(parts[i]))
}

/// The numbers of a numeric version, in order.
pub open spec fn numbers_of(s: Seq<char>) -> Seq<nat> {
    values_of(dot_parts(s))
}

/// The number at position `i` of a version; zero behind its end.
pub open spec fn number_at(v: Seq<nat>, i: int) -> nat {
    if 0 <= i < v.len() {
        v[i]
    } else {
        0
    }
}

/// Whether `a` and `b` hold the same number at every position before `i`.
pub open spec fn agree_before(a: Seq<nat>, b: Seq<nat>, i: int) -> bool {
    forall|j: int| 0 <= j < i ==> number_at(a, j) == number_at(b, j)
}

/// Whether version `a` is newer than version `b`: at the first position
/// where they differ, `a` holds the greater number.
pub open spec fn is_newer(a: Seq<nat>, b: Seq<nat>) -> bool {
    exists|i: int| 0 <= i && agree_before(a, b, i) && #[trigger] number_at(a, i) > number_at(b, i)
}

/// No version is newer than itself.
pub proof fn lemma_not_newer_than_itself(a: Seq<nat>)
    ensures
        !is_newer(a, a),
{
}

/// Of two versions, at most one is newer than the other.
pub proof fn lemma_newer_is_one_sided(a: Seq<nat>, b: Seq<nat>)
    requires
        is_newer(a, b),
    ensures
        !is_newer(b, a),
{
    let i = choose|i: int|
        0 <= i && agree_before(a, b, i) && #[trigger] number_at(a, i) > number_at(b, i);
    if is_newer(b, a) {
        let k = choose|k: int|
            0 <= k && agree_before(b, a, k) && #[trigger] number_at(b, k) > number_at(a, k);
        if k < i {
            assert(number_at(a, k) == number_at(b, k));
        } else if i < k {
            assert(number_at(b, i) == number_at(a, i));
        }
    }
}

/// Zeros at the end of a version do not change how it compares: `1.0` is
/// as new as `1`.
pub proof fn lemma_trailing_zero(a: Seq<nat>, b: Seq<nat>)
    ensures
        is_newer(a.push(0), b) == is_newer(a, b),
        is_newer(b, a.push(0)) == is_newer(b, a),
{
    let longer = a.push(0);
    assert forall|i: int| number_at(longer, i) == number_at(a, i) by {
        if 0 <= i < a.len() {
            assert(longer[i] == a[i]);
        }
    }
    assert forall|i: int| agree_before(longer, b, i) == agree_before(a, b, i) by {
        if agree_before(a, b, i) {
            assert forall|j: int| 0 <= j < i implies number_at(longer, j) == number_at(b, j) by {
                assert(number_at(longer, j) == number_at(a, j));
            }
        }
        if agree_before(longer, b, i) {
            assert forall|j: int| 0 <= j < i implies number_at(a, j) == number_at(b, j) by {
                assert(number_at(longer, j) == number_at(a, j));
            }
        }
    }
    assert forall|i: int| agree_before(b, longer, i) == agree_before(b, a, i) by {
        if agree_before(b, a, i) {
            assert forall|j: int| 0 <= j < i implies number_at(b, j) == number_at(longer, j) by {
                assert(number_at(longer, j) == number_at(a, j));
            }
        }
        if agree_before(b, longer, i) {
            assert forall|j: int| 0 <= j < i implies number_at(b, j) == number_at(a, j) by {
                assert(number_at(longer, j) == number_at(a, j));
            }
        }
    }
    if is_newer(longer, b) {
        let i = choose|i: int|
            0 <= i && agree_before(longer, b, i) && #[trigger] number_at(longer, i) > number_at(
                b,
                i,
            );
        assert(agree_before(a, b, i) && number_at(a, i) > number_at(b, i));
    }
    if is_newer(a, b) {
        let i = choose|i: int|
            0 <= i && agree_before(a, b, i) && #[trigger] number_at(a, i) > number_at(b, i);
        assert(agree_before(longer, b, i) && number_at(longer, i) > number_at(b, i));
    }
    if is_newer(b, longer) {
        let i = choose|i: int|
            0 <= i && agree_before(b, longer, i) && #[trigger] number_at(b, i) > number_at(
                longer,
                i,
            );
        assert(agree_before(b, a, i) && number_at(b, i) > number_at(a, i));
    }
    if is_newer(b, a) {
        let i = choose|i: int|
            0 <= i && agree_before(b, a, i) && #[trigger] number_at(b, i) > number_at(a, i);
        assert(agree_before(b, longer, i) && number_at(b, i) > number_at(longer, i));
    }
}

/// What `version_compare::compare_to` answers when asked whether version
/// `a` is greater than version `b`: `None` where it cannot read one of
/// them as a version.
pub uninterp spec fn reported_greater(a: Seq<char>, b: Seq<char>) -> Option<bool>;

/// Asks `version_compare::compare_to(a, b, Cmp::Gt)`, and turns an error
/// into `None`.
///
/// The crate splits a version at every character that is neither a letter
/// nor a digit, reads each part that is a decimal number within
/// `MAX_COMPONENT` as that number, and compares two lists of numbers from
/// the left, a missing number counting as zero. So for two numeric
/// versions the answer is `is_newer` of their numbers. Of other versions
/// nothing is claimed but that the answer depends on the two texts alone.
#[verifier::external_body]
fn ask_greater(a: &str, b: &str) -> (r: Option<bool>)
    ensures
        r == reported_greater(a@, b@),
        is_numeric_version(a@) && is_numeric_version(b@) ==> r == Some(
            is_newer(numbers_of(a@), numbers_of(b@)),
        ),
{
    version_compare::compare_to(a, b, version_compare::Cmp::Gt).ok()
}

/// The text of a local version that may be absent.
pub open spec fn local_text(local: Option<&str>) -> Option<Seq<char>> {
    match local {
        Some(l) => Some(l@),
        None => None,
    }
}

/// Whether an update is needed. With no local version, always. Otherwise
/// only where the two versions differ as texts and the remote one is
/// reported as the greater.
pub open spec fn update_needed(remote: Seq<char>, local: Option<Seq<char>>) -> bool {
    match local {
        None => true,
        Some(l) => remote != l && reported_greater(remote, l) == Some(true),
    }
}

/// The decision once the versions are compared. `local_known` tells
/// whether there is a local version; `differ` whether the two versions
/// differ as texts; `reported` is the answer of the comparison.
pub fn update_decision(local_known: bool, differ: bool, reported: Option<bool>) -> (r: bool)
    ensures
        r == (!local_known || (differ && reported == Some(true))),
{
    if !local_known {
        true
    } else if !differ {
        false
    } else {
        match reported {
            Some(greater) => greater,
            None => false,
        }
    }
}

/// Decides whether the installation must be updated from the version
/// `local` to the version `remote`.
///
/// An installation without a local version always is. Otherwise it is
/// updated only where `remote` is the greater version; for two numeric
/// versions that is where `remote` is newer, number by number. A version
/// never asks for an update to itself.
pub fn needs_update(remote: &str, local: Option<&str>) -> (r: bool)
    ensures
        r == update_needed(remote@, local_text(local)),
        local is None ==> r,
        local matches Some(l) ==> (l@ == remote@ ==> !r),
        local matches Some(l) ==> (is_numeric_version(remote@) && is_numeric_version(l@) ==> r
            == is_newer(numbers_of(remote@), numbers_of(l@))),
{
    match local {
        None => update_decision(false, false, None),
        Some(l) => {
            if same_text(remote, l) {
                proof {
                    lemma_not_newer_than_itself(numbers_of(remote@));
                }
                update_decision(true, false, None)
            } else {
                update_decision(true, true, ask_greater(remote, l))
            }
        },
    }
}

} // verus!
