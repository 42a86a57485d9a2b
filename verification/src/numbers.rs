//! Alignment of the numbers of an all-number list: padding on the right to
//! a common width, or on the left so that the decimal points line up.

use crate::options::{FracturedJsonOptions, NumberListAlignment};
use crate::text::{byte_len, fill, spaces, text_len, write_spaces};
use vstd::prelude::*;
use vstd::std_specs::iter::IteratorSpec;
use vstd::string::StrSliceExecFns;
use vstd::string::StringExecFns;

verus! {

/// The position of the first `.` in a text, or its length if it has none.
pub open spec fn first_dot(s: Seq<char>) -> int
    decreases s.len(),
{
    if s.len() == 0 || s[0] == '.' {
        0
    } else {
        1 + first_dot(s.drop_first())
    }
}

/// How many times `.` occurs in a text.
pub open spec fn dot_count(s: Seq<char>) -> nat
    decreases s.len(),
{
    if s.len() == 0 {
        0
    } else {
        dot_count(s.drop_last()) + if s.last() == '.' {
            1nat
        } else {
            0nat
        }
    }
}

/// The text before the first `.`, the whole text if it has none.
pub open spec fn integer_part(s: Seq<char>) -> Seq<char> {
    s.take(first_dot(s))
}

/// The text after the first `.`, nothing if it has none.
pub open spec fn fraction_part(s: Seq<char>) -> Seq<char> {
    if first_dot(s) < s.len() {
        s.skip(first_dot(s) + 1)
    } else {
        Seq::empty()
    }
}

/// The largest byte length among the first `upto` texts.
pub open spec fn max_byte_len(texts: Seq<Seq<char>>, upto: nat) -> nat
    decreases upto,
{
    if upto == 0 || upto > texts.len() {
        0
    } else {
        let last = byte_len(texts[upto - 1]);
        let rest = max_byte_len(texts, (upto - 1) as nat);
        if last > rest {
            last
        } else {
            rest
        }
    }
}

/// The largest byte length of an integer part among the first `upto`
/// texts.
pub open spec fn max_integer_len(texts: Seq<Seq<char>>, upto: nat) -> nat
    decreases upto,
{
    if upto == 0 || upto > texts.len() {
        0
    } else {
        let last = byte_len(integer_part(texts[upto - 1]));
        let rest = max_integer_len(texts, (upto - 1) as nat);
        if last > rest {
            last
        } else {
            rest
        }
    }
}

/// The text followed by the spaces that bring it to `width` characters.
pub open spec fn pad_right(s: Seq<char>, width: nat) -> Seq<char> {
    s + spaces(fill(width, s.len()))
}

/// The text preceded by the spaces that bring it to `width` characters.
pub open spec fn pad_left(s: Seq<char>, width: nat) -> Seq<char> {
    spaces(fill(width, s.len())) + s
}

/// A number as it stands in an aligned list beside `others`, the raw texts
/// of all numbers of the list. Without alignment the number is unchanged.
/// Left alignment pads it on the right to the longest of `others`. Decimal
/// alignment pads the part before the single `.` on the left to the longest
/// such part among `others` and leaves the rest alone; a number without
/// `.` is padded as a whole, one with several is unchanged.
pub open spec fn aligned_number(
    value: Seq<char>,
    opts: FracturedJsonOptions,
    others: Seq<Seq<char>>,
) -> Seq<char> {
    match opts.number_list_alignment {
        NumberListAlignment::Unaligned => value,
        NumberListAlignment::Left => if others.len() == 0 {
            value
        } else {
            pad_right(value, max_byte_len(others, others.len()))
        },
        NumberListAlignment::Decimal => {
            let width = if others.len() == 0 {
                byte_len(value)
            } else {
                max_integer_len(others, others.len())
            };
            if dot_count(value) == 0 {
                pad_left(value, width)
            } else if dot_count(value) == 1 {
                pad_left(integer_part(value), width) + seq!['.'] + fraction_part(value)
            } else {
                value
            }
        },
    }
}

/// Whether `.` does not occur among the first `n` characters.
pub open spec fn dot_free(s: Seq<char>, n: int) -> bool {
    forall|j: int| 0 <= j < n ==> #[trigger] s[j] != '.'
}

/// The first `.` is where a `.` stands with none before it.
pub proof fn lemma_first_dot(s: Seq<char>, i: int)
    requires
        0 <= i <= s.len(),
        dot_free(s, i),
        i < s.len() ==> s[i] == '.',
    ensures
        first_dot(s) == i,
    decreases s.len(),
{
    if s.len() > 0 && i > 0 {
        assert(s[0] != '.');
        let rest = s.drop_first();
        assert forall|j: int| 0 <= j < i - 1 implies #[trigger] rest[j] != '.' by {
            assert(rest[j] == s[j + 1]);
        }
        lemma_first_dot(rest, i - 1);
    }
}

/// Counting the dots of a prefix one character further.
pub proof fn lemma_dot_count_step(s: Seq<char>, i: int)
    requires
        0 <= i < s.len(),
    ensures
        dot_count(s.take(i + 1)) == dot_count(s.take(i)) + if s[i] == '.' {
            1nat
        } else {
            0nat
        },
{
    assert(s.take(i + 1).drop_last() =~= s.take(i));
}

/// The position of the first `.` of a text, its length if there is none,
/// and how many dots it has.
fn scan_dots(s: &str) -> (r: (usize, usize))
    ensures
        r.0 == first_dot(s@),
        r.1 == dot_count(s@),
        r.0 <= s@.len(),
        r.1 > 0 <==> r.0 < s@.len(),
{
    let mut first: usize = 0;
    let mut dots: usize = 0;
    let mut rest = s.chars();
    let ghost mut done: int = 0;
    let count: usize = s.unicode_len();
    loop
        invariant
            0 <= done <= s@.len(),
            s@.len() == count,
            rest.remaining() == s@.skip(done),
            dots == dot_count(s@.take(done)),
            dots <= done,
            dots == 0 ==> first == done && dot_free(s@, done),
            dots > 0 ==> first < done && dot_free(s@, first as int) && s@[first as int] == '.',
        ensures
            dots == dot_count(s@),
            dots == 0 ==> first == s@.len() && dot_free(s@, s@.len() as int),
            dots > 0 ==> first < s@.len() && dot_free(s@, first as int) && s@[first as int] == '.',
        decreases s@.len() - done,
    {
        match rest.next() {
            Some(c) => {
                proof {
                    assert(c == s@[done]);
                    lemma_dot_count_step(s@, done);
                }
                if c == '.' {
                    dots += 1;
                } else if dots == 0 {
                    first += 1;
                }
                proof {
                    done = done + 1;
                }
            },
            None => {
                assert(s@.take(done) =~= s@);
                break;
            },
        }
    }
    proof {
        lemma_first_dot(s@, first as int);
    }
    (first, dots)
}

/// The models of a list of borrowed texts.
pub open spec fn texts_of(texts: Seq<&str>) -> Seq<Seq<char>> {
    Seq::new(texts.len(), |i: int| texts[i]@)
}

fn longest(texts: &[&str]) -> (r: usize)
    ensures
        r == max_byte_len(texts_of(texts@), texts@.len()),
{
    let mut best: usize = 0;
    let mut i: usize = 0;
    while i < texts.len()
        invariant
            i <= texts@.len(),
            best == max_byte_len(texts_of(texts@), i as nat),
        decreases texts@.len() - i,
    {
        let len = text_len(texts[i]);
        if len > best {
            best = len;
        }
        i += 1;
    }
    best
}

fn longest_integer_part(texts: &[&str]) -> (r: usize)
    ensures
        r == max_integer_len(texts_of(texts@), texts@.len()),
{
    let mut best: usize = 0;
    let mut i: usize = 0;
    while i < texts.len()
        invariant
            i <= texts@.len(),
            best == max_integer_len(texts_of(texts@), i as nat),
        decreases texts@.len() - i,
    {
        let text = texts[i];
        let (first, _dots) = scan_dots(text);
        let len = text_len(text.substring_char(0, first));
        if len > best {
            best = len;
        }
        i += 1;
    }
    best
}

/// Renders one number of a list whose raw texts are `other_values`
/// according to the list alignment of the options.
pub fn format_number_aligned(
    value: &str,
    options: &FracturedJsonOptions,
    other_values: &[&str],
) -> (r: String)
    ensures
        r@ == aligned_number(value@, *options, texts_of(other_values@)),
{
    match options.number_list_alignment {
        NumberListAlignment::Unaligned => String::from_str(value),
        NumberListAlignment::Left => {
            let mut result = String::from_str(value);
            if other_values.len() > 0 {
                let width = longest(other_values);
                write_spaces(&mut result, width.saturating_sub(value.unicode_len()));
            }
            result
        },
        NumberListAlignment::Decimal => {
            let width = if other_values.len() == 0 {
                text_len(value)
            } else {
                longest_integer_part(other_values)
            };
            let (first, dots) = scan_dots(value);
            if dots == 0 {
                let mut result = String::new();
                write_spaces(&mut result, width.saturating_sub(value.unicode_len()));
                result.append(value);
                assert(result@ =~= pad_left(value@, width as nat));
                result
            } else if dots == 1 {
                let count = value.unicode_len();
                let whole = value.substring_char(0, first);
                let fraction = value.substring_char(first + 1, count);
                let mut result = String::new();
                write_spaces(&mut result, width.saturating_sub(first));
                result.append(whole);
                result.push('.');
                result.append(fraction);
                assert(result@ =~= pad_left(integer_part(value@), width as nat) + seq!['.']
                    + fraction_part(value@));
                result
            } else {
                String::from_str(value)
            }
        },
    }
}

} // verus!
