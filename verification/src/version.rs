//! Comparing release versions.
//!
//! A version is read as its dot-separated pieces. The pieces that are plain
//! decimal numbers are its components; the others are passed over. Two
//! versions compare component by component, a missing component counting as
//! zero.

use vstd::prelude::*;
use crate::text::chars_of;

verus! {

/// The pieces of `s` between its dots. There is always at least one piece.
pub open spec fn split_on_dot(s: Seq<char>) -> Seq<Seq<char>>
    decreases s.len(),
{
    if s.len() == 0 {
        seq![Seq::<char>::empty()]
    } else {
        let before = split_on_dot(s.drop_last());
        if s.last() == '.' {
            before.push(Seq::<char>::empty())
        } else {
            before.drop_last().push(before.last().push(s.last()))
        }
    }
}

pub open spec fn is_digit(c: char) -> bool {
    '0' <= c <= '9'
}

pub open spec fn all_digits(s: Seq<char>) -> bool {
    forall|i: int| 0 <= i < s.len() ==> is_digit(#[trigger] s[i])
}

/// The number that the decimal digits `digits` write.
pub open spec fn digits_value(digits: Seq<char>) -> nat
    decreases digits.len(),
{
    if digits.len() == 0 {
        0
    } else {
        digits_value(digits.drop_last()) * 10 + (digits.last() as u32 - '0' as u32) as nat
    }
}

/// The component that `piece` writes, if it writes one: an optional plus
/// sign, then one or more decimal digits whose value fits 32 bits.
pub open spec fn parse_component(piece: Seq<char>) -> Option<u32> {
    let digits = if piece.len() > 0 && piece[0] == '+' {
        piece.skip(1)
    } else {
        piece
    };
    if digits.len() > 0 && all_digits(digits) && digits_value(digits) <= u32::MAX {
        Some(digits_value(digits) as u32)
    } else {
        None
    }
}

/// The components among `pieces`, in order.
pub open spec fn components_of(pieces: Seq<Seq<char>>) -> Seq<u32>
    decreases pieces.len(),
{
    if pieces.len() == 0 {
        Seq::<u32>::empty()
    } else {
        let before = components_of(pieces.drop_last());
        match parse_component(pieces.last()) {
            Some(value) => before.push(value),
            None => before,
        }
    }
}

/// The components of the version `s`.
pub open spec fn version_components(s: Seq<char>) -> Seq<u32> {
    components_of(split_on_dot(s))
}

/// The component at `i`, zero past the end.
pub open spec fn component_at(components: Seq<u32>, i: int) -> u32 {
    if 0 <= i < components.len() {
        components[i]
    } else {
        0
    }
}

/// `latest` is ahead of `current`: at the first place where they differ,
/// `latest` has the greater component.
pub open spec fn components_newer(latest: Seq<u32>, current: Seq<u32>) -> bool {
    exists|i: int|
        0 <= i && #[trigger] component_at(latest, i) > component_at(current, i) && (forall|j: int|
            0 <= j < i ==> #[trigger] component_at(latest, j) == component_at(current, j))
}

proof fn lemma_digits_value_grows(digits: Seq<char>)
    requires
        digits.len() > 0,
        all_digits(digits),
    ensures
        digits_value(digits.drop_last()) <= digits_value(digits),
        all_digits(digits.drop_last()),
{
    assert(is_digit(digits[digits.len() - 1]));
}

/// Reads the piece `chars[start..end]` as a component.
fn parse_piece(chars: &Vec<char>, start: usize, end: usize) -> (component: Option<u32>)
    requires
        start <= end <= chars@.len(),
    ensures
        component == parse_component(chars@.subrange(start as int, end as int)),
{
    let ghost piece = chars@.subrange(start as int, end as int);
    let mut first: usize = start;
    if start < end && chars[start] == '+' {
        first = start + 1;
    }
    let ghost digits = chars@.subrange(first as int, end as int);
    proof {
        if first == start {
            assert(digits =~= piece);
            assert(piece.len() > 0 ==> piece[0] == chars@[start as int]);
        } else {
            assert(piece[0] == '+');
            assert(digits =~= piece.skip(1));
        }
    }
    if first == end {
        return None;
    }
    let mut value: u64 = 0;
    let mut i: usize = first;
    while i < end
        invariant
            first <= i <= end,
            end <= chars@.len(),
            digits == chars@.subrange(first as int, end as int),
            piece == chars@.subrange(start as int, end as int),
            digits == if piece.len() > 0 && piece[0] == '+' {
                piece.skip(1)
            } else {
                piece
            },
            all_digits(digits.take(i - first)),
            value == digits_value(digits.take(i - first)),
            value <= u32::MAX,
        decreases end - i,
    {
        let c: char = chars[i];
        let ghost seen = digits.take(i - first);
        let ghost next = digits.take(i - first + 1);
        proof {
            assert(c == digits[i - first]);
            assert(next.drop_last() =~= seen);
            assert(next.last() == c);
        }
        if !('0' <= c && c <= '9') {
            proof {
                assert(!is_digit(digits[i - first]));
            }
            return None;
        }
        let digit: u64 = (c as u32 - '0' as u32) as u64;
        let grown: u64 = value * 10 + digit;
        proof {
            assert forall|k: int| 0 <= k < next.len() implies is_digit(#[trigger] next[k]) by {
                if k < seen.len() {
                    assert(next[k] == seen[k]);
                }
            }
            assert(grown == digits_value(next));
        }
        if grown > 0xffff_ffff {
            proof {
                lemma_prefix_value_bounds(digits, i - first + 1);
            }
            return None;
        }
        value = grown;
        i += 1;
    }
    proof {
        assert(digits.take(end - first) =~= digits);
    }
    Some(value as u32)
}

/// The digits written so far never count for more than the whole.
proof fn lemma_prefix_value_bounds(digits: Seq<char>, n: int)
    requires
        0 <= n <= digits.len(),
    ensures
        all_digits(digits) ==> digits_value(digits.take(n)) <= digits_value(digits),
    decreases digits.len() - n,
{
    if all_digits(digits) {
        if n == digits.len() {
            assert(digits.take(n) =~= digits);
        } else {
            lemma_prefix_value_bounds(digits, n + 1);
            let longer = digits.take(n + 1);
            assert(longer.drop_last() =~= digits.take(n));
            assert forall|k: int| 0 <= k < longer.len() implies is_digit(#[trigger] longer[k]) by {
                assert(longer[k] == digits[k]);
            }
            lemma_digits_value_grows(longer);
        }
    }
}

/// The components of the version `s`: its dot-separated pieces that are
/// decimal numbers, in order.
pub fn parse_version(s: &str) -> (components: Vec<u32>)
    ensures
        components@ == version_components(s@),
{
    let chars = chars_of(s);
    let n: usize = chars.len();
    let mut components: Vec<u32> = Vec::new();
    let mut start: usize = 0;
    let mut i: usize = 0;
    let ghost mut done: Seq<Seq<char>> = Seq::empty();
    proof {
        assert(chars@.take(0) =~= Seq::<char>::empty());
        assert(chars@.subrange(0, 0) =~= Seq::<char>::empty());
        assert(split_on_dot(chars@.take(0)) =~= done.push(chars@.subrange(0, 0)));
    }
    while i < n
        invariant
            start <= i <= n,
            n == chars@.len(),
            split_on_dot(chars@.take(i as int)) == done.push(
                chars@.subrange(start as int, i as int),
            ),
            components@ == components_of(done),
        decreases n - i,
    {
        let ghost prefix = chars@.take(i as int);
        let ghost longer = chars@.take(i + 1);
        let ghost piece = chars@.subrange(start as int, i as int);
        proof {
            assert(longer.drop_last() =~= prefix);
            assert(longer.last() == chars@[i as int]);
            assert(done.push(piece).drop_last() =~= done);
            assert(done.push(piece).last() == piece);
        }
        if chars[i] == '.' {
            let component = parse_piece(&chars, start, i);
            match component {
                Some(value) => {
                    components.push(value);
                },
                None => {},
            }
            proof {
                let earlier = done;
                done = earlier.push(piece);
                assert(done.drop_last() =~= earlier);
                assert(chars@.subrange(i + 1, i + 1) =~= Seq::<char>::empty());
            }
            start = i + 1;
        } else {
            proof {
                assert(chars@.subrange(start as int, i + 1) =~= piece.push(chars@[i as int]));
            }
        }
        i += 1;
    }
    let component = parse_piece(&chars, start, n);
    match component {
        Some(value) => {
            components.push(value);
        },
        None => {},
    }
    proof {
        assert(chars@.take(n as int) =~= chars@);
        let piece = chars@.subrange(start as int, n as int);
        assert(done.push(piece).drop_last() =~= done);
    }
    components
}

/// Reads the component at `i`, zero past the end.
fn component_or_zero(components: &Vec<u32>, i: usize) -> (component: u32)
    ensures
        component == component_at(components@, i as int),
{
    if i < components.len() {
        components[i]
    } else {
        0
    }
}

/// Whether the version `latest` is ahead of the version `current`.
pub fn is_newer_version(latest: &str, current: &str) -> (newer: bool)
    ensures
        newer == components_newer(version_components(latest@), version_components(current@)),
{
    let latest_parts = parse_version(latest);
    let current_parts = parse_version(current);
    let n: usize = if latest_parts.len() >= current_parts.len() {
        latest_parts.len()
    } else {
        current_parts.len()
    };
    let mut i: usize = 0;
    while i < n
        invariant
            i <= n,
            n >= latest_parts@.len(),
            n >= current_parts@.len(),
            latest_parts@ == version_components(latest@),
            current_parts@ == version_components(current@),
            forall|j: int|
                0 <= j < i ==> #[trigger] component_at(latest_parts@, j) == component_at(
                    current_parts@,
                    j,
                ),
        decreases n - i,
    {
        let latest_part = component_or_zero(&latest_parts, i);
        let current_part = component_or_zero(&current_parts, i);
        if latest_part > current_part {
            assert(component_at(latest_parts@, i as int) > component_at(current_parts@, i as int));
            return true;
        } else if latest_part < current_part {
            proof {
                lemma_behind_at(latest_parts@, current_parts@, i as int);
            }
            return false;
        }
        i += 1;
    }
    proof {
        lemma_equal_components(latest_parts@, current_parts@);
    }
    false
}

/// Components that agree before `i` and fall behind at `i` are not ahead.
proof fn lemma_behind_at(latest: Seq<u32>, current: Seq<u32>, i: int)
    requires
        0 <= i,
        component_at(latest, i) < component_at(current, i),
        forall|j: int| 0 <= j < i ==> #[trigger] component_at(latest, j) == component_at(current, j),
    ensures
        !components_newer(latest, current),
{
    if components_newer(latest, current) {
        let k = choose|k: int|
            0 <= k && #[trigger] component_at(latest, k) > component_at(current, k) && (forall|
                j: int,
            |
                0 <= j < k ==> #[trigger] component_at(latest, j) == component_at(current, j));
        if k < i {
            assert(component_at(latest, k) == component_at(current, k));
        } else if k > i {
            assert(component_at(latest, i) == component_at(current, i));
        }
    }
}

/// Components that agree everywhere are not ahead of one another.
proof fn lemma_equal_components(latest: Seq<u32>, current: Seq<u32>)
    requires
        forall|j: int| #[trigger]
            component_at(latest, j) == component_at(current, j) || j < 0 || (j >= latest.len() && j
                >= current.len()),
    ensures
        !components_newer(latest, current),
{
    if components_newer(latest, current) {
        let k = choose|k: int|
            0 <= k && #[trigger] component_at(latest, k) > component_at(current, k) && (forall|
                j: int,
            |
                0 <= j < k ==> #[trigger] component_at(latest, j) == component_at(current, j));
        assert(component_at(latest, k) == component_at(current, k) || k < 0 || (k >= latest.len()
            && k >= current.len()));
    }
}

/// No version is ahead of itself.
pub proof fn lemma_not_newer_than_itself(components: Seq<u32>)
    ensures
        !components_newer(components, components),
{
}

/// Of two versions at most one is ahead of the other.
pub proof fn lemma_newer_is_one_sided(a: Seq<u32>, b: Seq<u32>)
    requires
        components_newer(a, b),
    ensures
        !components_newer(b, a),
{
    let i = choose|i: int|
        0 <= i && #[trigger] component_at(a, i) > component_at(b, i) && (forall|j: int|
            0 <= j < i ==> #[trigger] component_at(a, j) == component_at(b, j));
    assert forall|j: int| 0 <= j < i implies #[trigger] component_at(b, j) == component_at(
        a,
        j,
    ) by {
        assert(component_at(a, j) == component_at(b, j));
    }
    lemma_behind_at(b, a, i);
}

/// Trailing zero components do not matter: a version is not ahead of the
/// same version written with one more `.0`.
pub proof fn lemma_trailing_zero_is_equal(components: Seq<u32>)
    ensures
        !components_newer(components.push(0), components),
        !components_newer(components, components.push(0)),
{
    let longer = components.push(0);
    assert forall|j: int| #[trigger]
        component_at(longer, j) == component_at(components, j) || j < 0 || (j >= longer.len() && j
            >= components.len()) by {
        if 0 <= j < components.len() {
            assert(longer[j] == components[j]);
        }
    }
    lemma_equal_components(longer, components);
    assert forall|j: int| #[trigger]
        component_at(components, j) == component_at(longer, j) || j < 0 || (j >= components.len()
            && j >= longer.len()) by {
        if 0 <= j < components.len() {
            assert(longer[j] == components[j]);
        }
    }
    lemma_equal_components(components, longer);
}

} // verus!
