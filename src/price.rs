//! Prices as a listing shows them: digit groups separated by whitespace,
//! then whitespace and the currency sign ("1 599 €").
use crate::dateparser::decimal;
use crate::dateparser::is_digit;
use crate::parsing::ItemParseErrorKind;
use crate::parsing::ItemParseErrorKindView;
use crate::utils::is_whitespace;
use crate::utils::is_ws;
use vstd::prelude::*;

verus! {

/// An item's price in whole currency units. The unit is as the page shows it,
/// usually "€".
#[derive(Debug, Clone, PartialEq, Eq)]
pub struct Price {
    pub value: i32,
    pub unit: String,
}

/// [`Price`] with its unit as a character sequence.
pub struct PriceView {
    pub value: i32,
    pub unit: Seq<char>,
}

impl View for Price {
    type V = PriceView;

    open spec fn view(&self) -> PriceView {
        PriceView { value: self.value, unit: self.unit@ }
    }
}

pub open spec fn euro_sign() -> Seq<char> {
    seq!['€']
}

/// A character that may stand in a digit group.
pub open spec fn in_group(c: char) -> bool {
    is_digit(c) || is_ws(c)
}

/// Where the run of group characters that starts at `i` ends.
pub open spec fn group_end(s: Seq<char>, i: int) -> int
    decreases s.len() - i,
{
    if 0 <= i < s.len() && in_group(s[i]) {
        group_end(s, i + 1)
    } else {
        i
    }
}

/// A price starts at `i`: a digit, the rest of its group, the last of which
/// is whitespace, and then the currency sign.
pub open spec fn price_at(s: Seq<char>, i: int) -> bool {
    &&& 0 <= i < s.len()
    &&& is_digit(s[i])
    &&& group_end(s, i) < s.len()
    &&& s[group_end(s, i)] == '€'
    &&& is_ws(s[group_end(s, i) - 1])
}

/// The first position from `i` on at which a price starts.
pub open spec fn first_price_from(s: Seq<char>, i: int) -> Option<int>
    decreases s.len() - i,
{
    if i < 0 || i >= s.len() {
        None
    } else if price_at(s, i) {
        Some(i)
    } else {
        first_price_from(s, i + 1)
    }
}

/// The digits of `s`, in order.
pub open spec fn digits_in(s: Seq<char>) -> Seq<char>
    decreases s.len(),
{
    if s.len() == 0 {
        Seq::empty()
    } else if is_digit(s.last()) {
        digits_in(s.drop_last()).push(s.last())
    } else {
        digits_in(s.drop_last())
    }
}

/// The first price in `s`, when its digits make an `i32`.
pub open spec fn price_of(s: Seq<char>) -> Option<PriceView> {
    match first_price_from(s, 0) {
        None => None,
        Some(i) => {
            let v = decimal(digits_in(s.subrange(i, group_end(s, i))));
            if v <= i32::MAX {
                Some(PriceView { value: v as i32, unit: euro_sign() })
            } else {
                None
            }
        },
    }
}

/// Text without a digit holds no price.
pub proof fn lemma_no_digit_no_price(s: Seq<char>)
    requires
        forall|i: int| 0 <= i < s.len() ==> !is_digit(#[trigger] s[i]),
    ensures
        price_of(s) is None,
{
    lemma_no_price_from(s, 0);
}

proof fn lemma_no_price_from(s: Seq<char>, i: int)
    requires
        0 <= i,
        forall|j: int| 0 <= j < s.len() ==> !is_digit(#[trigger] s[j]),
    ensures
        first_price_from(s, i) is None,
    decreases s.len() - i,
{
    if i < s.len() {
        lemma_no_price_from(s, i + 1);
    }
}

fn group_end_from(s: &str, i: usize) -> (j: usize)
    requires
        i <= s@.len(),
    ensures
        j == group_end(s@, i as int),
        i <= j <= s@.len(),
{
    let n = s.unicode_len();
    let mut j = i;
    while j < n && in_group_char(s.get_char(j))
        invariant
            n == s@.len(),
            i <= j <= n,
            group_end(s@, i as int) == group_end(s@, j as int),
        decreases n - j,
    {
        j = j + 1;
    }
    j
}

fn in_group_char(c: char) -> (r: bool)
    ensures
        r == in_group(c),
{
    ('0' <= c && c <= '9') || is_whitespace(c)
}

/// The value of the digits of `s` between `from` and `to`, when it fits an
/// `i32`.
fn group_value(s: &str, from: usize, to: usize) -> (r: Option<i32>)
    requires
        from <= to <= s@.len(),
    ensures
        r == (if decimal(digits_in(s@.subrange(from as int, to as int))) <= i32::MAX {
            Some(decimal(digits_in(s@.subrange(from as int, to as int))) as i32)
        } else {
            None
        }),
{
    let limit: u64 = 0x7fff_ffff;
    let mut v: u64 = 0;
    let mut i: usize = from;
    assert(s@.subrange(from as int, from as int) =~= Seq::<char>::empty());
    while i < to
        invariant
            from <= i <= to <= s@.len(),
            limit == i32::MAX,
            decimal(digits_in(s@.subrange(from as int, i as int))) <= limit ==> v == decimal(
                digits_in(s@.subrange(from as int, i as int)),
            ),
            decimal(digits_in(s@.subrange(from as int, i as int))) > limit ==> v > limit,
            v <= 10 * limit + 9,
        decreases to - i,
    {
        let c = s.get_char(i);
        let ghost prev = s@.subrange(from as int, i as int);
        let ghost next = s@.subrange(from as int, i + 1);
        assert(next.drop_last() =~= prev);
        assert(next.last() == c);
        if '0' <= c && c <= '9' {
            assert(digits_in(next) == digits_in(prev).push(c));
            assert(digits_in(prev).push(c).drop_last() =~= digits_in(prev));
            assert(decimal(digits_in(next)) == decimal(digits_in(prev)) * 10 + (c as int
                - '0' as int));
            if v <= limit {
                v = v * 10 + (c as u32 - '0' as u32) as u64;
            }
        }
        i = i + 1;
    }
    if v <= limit {
        Some(v as i32)
    } else {
        None
    }
}

/// Reads a price such as "1 234 €": the first digit group that ends in
/// whitespace and the currency sign. Text without one, or whose digits do not
/// fit an `i32`, is an invalid price.
pub fn price_parse(input: &str) -> (r: Result<Price, ItemParseErrorKind>)
    ensures
        match price_of(input@) {
            Some(p) => r matches Ok(q) && q@ == p,
            None => r matches Err(e) && e@ == ItemParseErrorKindView::InvalidPrice(input@),
        },
{
    let n = input.unicode_len();
    let mut i: usize = 0;
    while i < n
        invariant
            n == input@.len(),
            i <= n,
            first_price_from(input@, 0) == first_price_from(input@, i as int),
        decreases n - i,
    {
        let c = input.get_char(i);
        if '0' <= c && c <= '9' {
            let j = group_end_from(input, i);
            if j < n && input.get_char(j) == '€' && is_whitespace(input.get_char(j - 1)) {
                proof {
                    reveal_strlit("€");
                    assert("€"@ =~= euro_sign());
                    assert(price_at(input@, i as int));
                    assert(first_price_from(input@, i as int) == Some(i as int));
                }
                return match group_value(input, i, j) {
                    Some(value) => Ok(Price { value, unit: String::from_str("€") }),
                    None => Err(ItemParseErrorKind::InvalidPrice(String::from_str(input))),
                };
            }
        }
        i = i + 1;
    }
    Err(ItemParseErrorKind::InvalidPrice(String::from_str(input)))
}

} // verus!
