//! List-marker text generation: decimal, roman, latin and greek numbering,
//! and the fixed bullet glyphs, each followed by the separator the marker
//! style calls for.

use std::collections::HashMap;
use vstd::prelude::*;
use vstd::string::StringExecFns;

verus! {

broadcast use vstd::std_specs::hash::group_hash_axioms;

/// Appends one character to the string.
/// Relies on `String::push`: appends the given char to the end of this `String`.
#[verifier::external_body]
fn push_char(s: &mut String, c: char)
    ensures
        final(s)@ == old(s)@.push(c),
{
    s.push(c);
}

// ---------------------------------------------------------------------------
// Decimal numbering.
pub open spec fn decimal_digit_char(d: int) -> char {
    if d == 0 {
        '0'
    } else if d == 1 {
        '1'
    } else if d == 2 {
        '2'
    } else if d == 3 {
        '3'
    } else if d == 4 {
        '4'
    } else if d == 5 {
        '5'
    } else if d == 6 {
        '6'
    } else if d == 7 {
        '7'
    } else if d == 8 {
        '8'
    } else {
        '9'
    }
}

pub open spec fn decimal_digits(n: int) -> Seq<char>
    decreases n,
{
    if n < 0 {
        Seq::empty()
    } else if n < 10 {
        seq![decimal_digit_char(n)]
    } else {
        decimal_digits(n / 10).push(decimal_digit_char(n % 10))
    }
}

/// The usual decimal rendering, with a leading minus sign when negative.
pub open spec fn decimal_text(n: int) -> Seq<char> {
    if n < 0 {
        seq!['-'] + decimal_digits(-n)
    } else {
        decimal_digits(n)
    }
}

fn digit_char(d: u64) -> (c: char)
    requires
        d <= 9,
    ensures
        c == decimal_digit_char(d as int),
{
    if d == 0 {
        '0'
    } else if d == 1 {
        '1'
    } else if d == 2 {
        '2'
    } else if d == 3 {
        '3'
    } else if d == 4 {
        '4'
    } else if d == 5 {
        '5'
    } else if d == 6 {
        '6'
    } else if d == 7 {
        '7'
    } else if d == 8 {
        '8'
    } else {
        '9'
    }
}

fn push_decimal_digits(s: &mut String, n: u64)
    ensures
        final(s)@ == old(s)@ + decimal_digits(n as int),
    decreases n,
{
    if n < 10 {
        push_char(s, digit_char(n));
        proof {
            assert(old(s)@.push(decimal_digit_char(n as int)) =~= old(s)@ + decimal_digits(
                n as int,
            ));
        }
    } else {
        push_decimal_digits(s, n / 10);
        push_char(s, digit_char(n % 10));
        proof {
            assert((old(s)@ + decimal_digits(n as int / 10)).push(
                decimal_digit_char(n as int % 10),
            ) =~= old(s)@ + decimal_digits(n as int));
        }
    }
}

/// Decimal rendering of any sequence number, sign included.
pub fn to_decimal(n: i64) -> (r: String)
    requires
        i64::MIN < n,
    ensures
        r@ == decimal_text(n as int),
{
    let mut s = String::new();
    if n < 0 {
        push_char(&mut s, '-');
        push_decimal_digits(&mut s, (-n) as u64);
        proof {
            assert(Seq::<char>::empty().push('-') + decimal_digits(-(n as int)) =~= decimal_text(
                n as int,
            ));
        }
    } else {
        push_decimal_digits(&mut s, n as u64);
        proof {
            assert(Seq::<char>::empty() + decimal_digits(n as int) =~= decimal_text(n as int));
        }
    }
    s
}

// ---------------------------------------------------------------------------
// Alphabetic (latin) numbering: bijective base 26.
pub open spec fn alpha_char(r: int, caps: int) -> char {
    ((caps + r) as u8) as char
}

/// Bijective base-26 rendering over the letter at distance `caps` ('A' or
/// 'a'), least significant letter last.
pub open spec fn alpha_text(n: int, caps: int) -> Seq<char>
    decreases n,
{
    if n <= 0 {
        Seq::empty()
    } else {
        alpha_text((n - 1) / 26, caps) + seq![alpha_char((n - 1) % 26, caps)]
    }
}

fn push_alphabet(s: &mut String, number: u64, caps: u64)
    requires
        caps == 65 || caps == 97,
    ensures
        final(s)@ == old(s)@ + alpha_text(number as int, caps as int),
    decreases number,
{
    if number > 0 {
        let q = (number - 1) / 26;
        let r = (number - 1) % 26;
        push_alphabet(s, q, caps);
        let ch: u8 = (r + caps) as u8;
        push_char(s, ch as char);
        proof {
            assert((old(s)@ + alpha_text(q as int, caps as int)).push(
                alpha_char(r as int, caps as int),
            ) =~= old(s)@ + alpha_text(number as int, caps as int));
        }
    } else {
        proof {
            assert(old(s)@ + alpha_text(0, caps as int) =~= old(s)@);
        }
    }
}

fn to_alphabet(number: i64, caps: u64) -> (r: String)
    requires
        0 <= number,
        caps == 65 || caps == 97,
    ensures
        r@ == alpha_text(number as int, caps as int),
{
    let mut s = String::new();
    push_alphabet(&mut s, number as u64, caps);
    proof {
        assert(Seq::<char>::empty() + alpha_text(number as int, caps as int) =~= alpha_text(
            number as int,
            caps as int,
        ));
    }
    s
}

// ---------------------------------------------------------------------------
// Lower greek numbering: bijective base 24 over the greek small letters
// (final sigma is not used).
pub open spec fn greek_letter(r: int) -> char {
    if r == 0 {
        '\u{03B1}'
    } else if r == 1 {
        '\u{03B2}'
    } else if r == 2 {
        '\u{03B3}'
    } else if r == 3 {
        '\u{03B4}'
    } else if r == 4 {
        '\u{03B5}'
    } else if r == 5 {
        '\u{03B6}'
    } else if r == 6 {
        '\u{03B7}'
    } else if r == 7 {
        '\u{03B8}'
    } else if r == 8 {
        '\u{03B9}'
    } else if r == 9 {
        '\u{03BA}'
    } else if r == 10 {
        '\u{03BB}'
    } else if r == 11 {
        '\u{03BC}'
    } else if r == 12 {
        '\u{03BD}'
    } else if r == 13 {
        '\u{03BE}'
    } else if r == 14 {
        '\u{03BF}'
    } else if r == 15 {
        '\u{03C0}'
    } else if r == 16 {
        '\u{03C1}'
    } else if r == 17 {
        '\u{03C3}'
    } else if r == 18 {
        '\u{03C4}'
    } else if r == 19 {
        '\u{03C5}'
    } else if r == 20 {
        '\u{03C6}'
    } else if r == 21 {
        '\u{03C7}'
    } else if r == 22 {
        '\u{03C8}'
    } else {
        '\u{03C9}'
    }
}

pub open spec fn greek_text(n: int) -> Seq<char>
    decreases n,
{
    if n <= 0 {
        Seq::empty()
    } else {
        greek_text((n - 1) / 24) + seq![greek_letter((n - 1) % 24)]
    }
}

fn greek_letter_exec(r: u64) -> (c: char)
    requires
        r < 24,
    ensures
        c == greek_letter(r as int),
{
    if r == 0 {
        '\u{03B1}'
    } else if r == 1 {
        '\u{03B2}'
    } else if r == 2 {
        '\u{03B3}'
    } else if r == 3 {
        '\u{03B4}'
    } else if r == 4 {
        '\u{03B5}'
    } else if r == 5 {
        '\u{03B6}'
    } else if r == 6 {
        '\u{03B7}'
    } else if r == 7 {
        '\u{03B8}'
    } else if r == 8 {
        '\u{03B9}'
    } else if r == 9 {
        '\u{03BA}'
    } else if r == 10 {
        '\u{03BB}'
    } else if r == 11 {
        '\u{03BC}'
    } else if r == 12 {
        '\u{03BD}'
    } else if r == 13 {
        '\u{03BE}'
    } else if r == 14 {
        '\u{03BF}'
    } else if r == 15 {
        '\u{03C0}'
    } else if r == 16 {
        '\u{03C1}'
    } else if r == 17 {
        '\u{03C3}'
    } else if r == 18 {
        '\u{03C4}'
    } else if r == 19 {
        '\u{03C5}'
    } else if r == 20 {
        '\u{03C6}'
    } else if r == 21 {
        '\u{03C7}'
    } else if r == 22 {
        '\u{03C8}'
    } else {
        '\u{03C9}'
    }
}

fn push_greek(s: &mut String, number: u64)
    ensures
        final(s)@ == old(s)@ + greek_text(number as int),
    decreases number,
{
    if number > 0 {
        let q = (number - 1) / 24;
        let r = (number - 1) % 24;
        push_greek(s, q);
        push_char(s, greek_letter_exec(r));
        proof {
            assert((old(s)@ + greek_text(q as int)).push(greek_letter(r as int)) =~= old(s)@
                + greek_text(number as int));
        }
    } else {
        proof {
            assert(old(s)@ + greek_text(0) =~= old(s)@);
        }
    }
}

fn to_greek(number: i64) -> (r: String)
    requires
        0 <= number,
    ensures
        r@ == greek_text(number as int),
{
    let mut s = String::new();
    push_greek(&mut s, number as u64);
    proof {
        assert(Seq::<char>::empty() + greek_text(number as int) =~= greek_text(number as int));
    }
    s
}

// ---------------------------------------------------------------------------
// Roman numbering: greedy decomposition over a table of digit symbols.
/// The denominations used by the greedy roman conversion, largest first.
pub open spec fn roman_base_value(k: int) -> int {
    if k == 0 {
        1000
    } else if k == 1 {
        900
    } else if k == 2 {
        500
    } else if k == 3 {
        400
    } else if k == 4 {
        100
    } else if k == 5 {
        90
    } else if k == 6 {
        50
    } else if k == 7 {
        40
    } else if k == 8 {
        10
    } else if k == 9 {
        9
    } else if k == 10 {
        8
    } else if k == 11 {
        7
    } else if k == 12 {
        6
    } else if k == 13 {
        5
    } else if k == 14 {
        4
    } else if k == 15 {
        3
    } else if k == 16 {
        2
    } else {
        1
    }
}

fn roman_base_value_exec(k: usize) -> (b: i64)
    requires
        k < 18,
    ensures
        b == roman_base_value(k as int),
        1 <= b <= 1000,
{
    if k == 0 {
        1000
    } else if k == 1 {
        900
    } else if k == 2 {
        500
    } else if k == 3 {
        400
    } else if k == 4 {
        100
    } else if k == 5 {
        90
    } else if k == 6 {
        50
    } else if k == 7 {
        40
    } else if k == 8 {
        10
    } else if k == 9 {
        9
    } else if k == 10 {
        8
    } else if k == 11 {
        7
    } else if k == 12 {
        6
    } else if k == 13 {
        5
    } else if k == 14 {
        4
    } else if k == 15 {
        3
    } else if k == 16 {
        2
    } else {
        1
    }
}

/// The table holds a symbol for every denomination.
pub open spec fn roman_digits_wf(m: Map<int, Seq<char>>) -> bool {
    forall|k: int| 0 <= k < 18 ==> m.contains_key(#[trigger] roman_base_value(k))
}

/// Whether `v` is one of the 18 denominations.
pub open spec fn is_denomination(v: int) -> bool {
    ||| v == 1
    ||| v == 2
    ||| v == 3
    ||| v == 4
    ||| v == 5
    ||| v == 6
    ||| v == 7
    ||| v == 8
    ||| v == 9
    ||| v == 10
    ||| v == 40
    ||| v == 50
    ||| v == 90
    ||| v == 100
    ||| v == 400
    ||| v == 500
    ||| v == 900
    ||| v == 1000
}

/// The table holds no key besides the denominations.
pub open spec fn roman_domain_exact(m: Map<int, Seq<char>>) -> bool {
    forall|v: int| #[trigger] m.contains_key(v) ==> is_denomination(v)
}

/// Greedy decomposition from denomination `k` on: while the number covers
/// the denomination, emit its symbol and subtract; otherwise move to the
/// next smaller one.
pub open spec fn roman_text_at(m: Map<int, Seq<char>>, k: int, num: int) -> Seq<char>
    decreases 18 - k, (if num > 0 { num } else { 0 }),
{
    if k < 0 || k >= 18 {
        Seq::empty()
    } else if num >= roman_base_value(k) {
        m[roman_base_value(k)] + roman_text_at(m, k, num - roman_base_value(k))
    } else {
        roman_text_at(m, k + 1, num)
    }
}

/// The roman rendering of `num` over symbol table `m`; empty when `num` is
/// zero or negative.
pub open spec fn roman_text(m: Map<int, Seq<char>>, num: int) -> Seq<char> {
    roman_text_at(m, 0, num)
}

/// Conversion to roman-numeral text over a table of digit symbols. A number
/// below one renders as the empty string without any table lookup, so the
/// table is only demanded for positive numbers.
pub trait Roman {
    spec fn digit_map(&self) -> Map<int, Seq<char>>;

    fn to_roman(&self, number: i64) -> (r: String)
        requires
            number >= 1 ==> roman_digits_wf(self.digit_map()),
        ensures
            r@ == roman_text(self.digit_map(), number as int),
    ;
}

impl Roman for HashMap<i64, String> {
    open spec fn digit_map(&self) -> Map<int, Seq<char>> {
        Map::new(
            |k: int| i64::MIN <= k <= i64::MAX && self@.contains_key(k as i64),
            |k: int| self@[k as i64]@,
        )
    }

    fn to_roman(&self, number: i64) -> (r: String) {
        let ghost m = self.digit_map();
        let mut num = number;
        let mut result = String::new();
        let mut k: usize = 0;
        while k < 18
            invariant
                k <= 18,
                num <= number,
                number >= 1 ==> roman_digits_wf(m),
                m == self.digit_map(),
                result@ + roman_text_at(m, k as int, num as int) == roman_text(m, number as int),
            decreases 18 - k,
        {
            let b = roman_base_value_exec(k);
            while num >= b
                invariant
                    k < 18,
                    b == roman_base_value(k as int),
                    1 <= b,
                    num <= number,
                    number >= 1 ==> roman_digits_wf(m),
                    m == self.digit_map(),
                    result@ + roman_text_at(m, k as int, num as int) == roman_text(
                        m,
                        number as int,
                    ),
                decreases num,
            {
                proof {
                    assert(num >= 1 && number >= 1);
                    assert(m.contains_key(roman_base_value(k as int)));
                }
                match self.get(&b) {
                    Some(v) => {
                        proof {
                            assert(self@.contains_key(b) && self@[b] == *v);
                            assert(m[b as int] == v@);
                        }
                        num = num - b;
                        result.append(v.as_str());
                        proof {
                            assert(result@ + roman_text_at(m, k as int, num as int) =~= roman_text(
                                m,
                                number as int,
                            ));
                        }
                    },
                    None => {
                        proof {
                            assert(false);
                        }
                    },
                }
            }
            k = k + 1;
        }
        proof {
            assert(result@ + Seq::<char>::empty() =~= result@);
        }
        result
    }
}

/// The symbol the upper-roman table holds for denomination value `v`: the
/// dedicated roman-numeral characters, with the subtractive pairs spelled
/// from them.
pub open spec fn upper_roman_symbol(v: int) -> Seq<char> {
    if v == 1 {
        "\u{2160}"@
    } else if v == 2 {
        "\u{2161}"@
    } else if v == 3 {
        "\u{2162}"@
    } else if v == 4 {
        "\u{2163}"@
    } else if v == 5 {
        "\u{2164}"@
    } else if v == 6 {
        "\u{2165}"@
    } else if v == 7 {
        "\u{2166}"@
    } else if v == 8 {
        "\u{2167}"@
    } else if v == 9 {
        "\u{2168}"@
    } else if v == 10 {
        "\u{2169}"@
    } else if v == 40 {
        "\u{2169}\u{216C}"@
    } else if v == 50 {
        "\u{216C}"@
    } else if v == 90 {
        "\u{2169}\u{216D}"@
    } else if v == 100 {
        "\u{216D}"@
    } else if v == 400 {
        "\u{216C}\u{216E}"@
    } else if v == 500 {
        "\u{216E}"@
    } else if v == 900 {
        "\u{216D}\u{216F}"@
    } else if v == 1000 {
        "\u{216F}"@
    } else {
        Seq::empty()
    }
}

pub open spec fn lower_roman_symbol(v: int) -> Seq<char> {
    if v == 1 {
        "\u{2170}"@
    } else if v == 2 {
        "\u{2171}"@
    } else if v == 3 {
        "\u{2172}"@
    } else if v == 4 {
        "\u{2173}"@
    } else if v == 5 {
        "\u{2174}"@
    } else if v == 6 {
        "\u{2175}"@
    } else if v == 7 {
        "\u{2176}"@
    } else if v == 8 {
        "\u{2177}"@
    } else if v == 9 {
        "\u{2178}"@
    } else if v == 10 {
        "\u{2179}"@
    } else if v == 40 {
        "\u{2179}\u{217C}"@
    } else if v == 50 {
        "\u{217C}"@
    } else if v == 90 {
        "\u{2179}\u{217D}"@
    } else if v == 100 {
        "\u{217D}"@
    } else if v == 400 {
        "\u{217C}\u{217E}"@
    } else if v == 500 {
        "\u{217E}"@
    } else if v == 900 {
        "\u{217D}\u{217F}"@
    } else if v == 1000 {
        "\u{217F}"@
    } else {
        Seq::empty()
    }
}

/// Exactly the 18 denominations are keyed, each to its upper symbol.
pub open spec fn is_upper_roman_table(m: Map<int, Seq<char>>) -> bool {
    &&& roman_digits_wf(m)
    &&& roman_domain_exact(m)
    &&& forall|k: int|
        0 <= k < 18 ==> m[#[trigger] roman_base_value(k)] == upper_roman_symbol(
            roman_base_value(k),
        )
}

/// Exactly the 18 denominations are keyed, each to its lower symbol.
pub open spec fn is_lower_roman_table(m: Map<int, Seq<char>>) -> bool {
    &&& roman_digits_wf(m)
    &&& roman_domain_exact(m)
    &&& forall|k: int|
        0 <= k < 18 ==> m[#[trigger] roman_base_value(k)] == lower_roman_symbol(
            roman_base_value(k),
        )
}

pub fn init_upper_roman() -> (m: HashMap<i64, String>)
    ensures
        is_upper_roman_table(m.digit_map()),
{
    let mut map: HashMap<i64, String> = HashMap::new();
    map.insert(1, "\u{2160}".to_owned());
    map.insert(2, "\u{2161}".to_owned());
    map.insert(3, "\u{2162}".to_owned());
    map.insert(4, "\u{2163}".to_owned());
    map.insert(5, "\u{2164}".to_owned());
    map.insert(6, "\u{2165}".to_owned());
    map.insert(7, "\u{2166}".to_owned());
    map.insert(8, "\u{2167}".to_owned());
    map.insert(9, "\u{2168}".to_owned());
    map.insert(10, "\u{2169}".to_owned());
    map.insert(40, "\u{2169}\u{216C}".to_owned());
    map.insert(50, "\u{216C}".to_owned());
    map.insert(90, "\u{2169}\u{216D}".to_owned());
    map.insert(100, "\u{216D}".to_owned());
    map.insert(400, "\u{216C}\u{216E}".to_owned());
    map.insert(500, "\u{216E}".to_owned());
    map.insert(900, "\u{216D}\u{216F}".to_owned());
    map.insert(1000, "\u{216F}".to_owned());
    proof {
        assert forall|k: int| 0 <= k < 18 implies map.digit_map().contains_key(
            #[trigger] roman_base_value(k),
        ) && map.digit_map()[roman_base_value(k)] == upper_roman_symbol(roman_base_value(k)) by {
            let v = roman_base_value(k);
            assert(map@.contains_key(v as i64));
            assert(map.digit_map()[v] == map@[v as i64]@);
        }
        assert forall|v: int| #[trigger] map.digit_map().contains_key(v) implies is_denomination(
            v,
        ) by {
            assert(map@.contains_key(v as i64));
        }
    }
    map
}

pub fn init_lower_roman() -> (m: HashMap<i64, String>)
    ensures
        is_lower_roman_table(m.digit_map()),
{
    let mut map: HashMap<i64, String> = HashMap::new();
    map.insert(1, "\u{2170}".to_owned());
    map.insert(2, "\u{2171}".to_owned());
    map.insert(3, "\u{2172}".to_owned());
    map.insert(4, "\u{2173}".to_owned());
    map.insert(5, "\u{2174}".to_owned());
    map.insert(6, "\u{2175}".to_owned());
    map.insert(7, "\u{2176}".to_owned());
    map.insert(8, "\u{2177}".to_owned());
    map.insert(9, "\u{2178}".to_owned());
    map.insert(10, "\u{2179}".to_owned());
    map.insert(40, "\u{2179}\u{217C}".to_owned());
    map.insert(50, "\u{217C}".to_owned());
    map.insert(90, "\u{2179}\u{217D}".to_owned());
    map.insert(100, "\u{217D}".to_owned());
    map.insert(400, "\u{217C}\u{217E}".to_owned());
    map.insert(500, "\u{217E}".to_owned());
    map.insert(900, "\u{217D}\u{217F}".to_owned());
    map.insert(1000, "\u{217F}".to_owned());
    proof {
        assert forall|k: int| 0 <= k < 18 implies map.digit_map().contains_key(
            #[trigger] roman_base_value(k),
        ) && map.digit_map()[roman_base_value(k)] == lower_roman_symbol(roman_base_value(k)) by {
            let v = roman_base_value(k);
            assert(map@.contains_key(v as i64));
            assert(map.digit_map()[v] == map@[v as i64]@);
        }
        assert forall|v: int| #[trigger] map.digit_map().contains_key(v) implies is_denomination(
            v,
        ) by {
            assert(map@.contains_key(v as i64));
        }
    }
    map
}

pub struct RomanNumber {
    upper_romans: HashMap<i64, String>,
    lower_romans: HashMap<i64, String>,
}

impl RomanNumber {
    pub closed spec fn upper_map(&self) -> Map<int, Seq<char>> {
        self.upper_romans.digit_map()
    }

    pub closed spec fn lower_map(&self) -> Map<int, Seq<char>> {
        self.lower_romans.digit_map()
    }

    pub open spec fn wf(&self) -> bool {
        &&& is_upper_roman_table(self.upper_map())
        &&& is_lower_roman_table(self.lower_map())
    }

    pub fn new() -> (r: RomanNumber)
        ensures
            r.wf(),
    {
        RomanNumber { upper_romans: init_upper_roman(), lower_romans: init_lower_roman() }
    }

    pub fn to_upper(&self, number: i64) -> (r: String)
        requires
            self.wf(),
        ensures
            r@ == roman_text(self.upper_map(), number as int),
    {
        self.upper_romans.to_roman(number)
    }

    pub fn to_lower(&self, number: i64) -> (r: String)
        requires
            self.wf(),
        ensures
            r@ == roman_text(self.lower_map(), number as int),
    {
        self.lower_romans.to_roman(number)
    }
}

// ---------------------------------------------------------------------------
// The marker generator.
/// The marker style of a list item.
#[derive(Clone, Copy, PartialEq, Eq, Structural, Debug)]
pub enum ListStyleType {
    DecimalLeadingZero,
    Decimal,
    LowerRoman,
    UpperRoman,
    LowerGreek,
    LowerLatin,
    UpperLatin,
    LowerAlpha,
    UpperAlpha,
    Armenian,
    Georgian,
    Circle,
    Disc,
    Square,
    NoMarker,
}

pub open spec fn space_spec() -> Seq<char> {
    "\u{2009}"@
}

pub open spec fn dot_space_spec() -> Seq<char> {
    "."@ + "\u{2009}"@
}

pub struct Numbers {
    roman: RomanNumber,
}

impl Numbers {
    pub closed spec fn roman_part(&self) -> RomanNumber {
        self.roman
    }

    pub open spec fn wf(&self) -> bool {
        self.roman_part().wf()
    }

    pub fn new() -> (n: Numbers)
        ensures
            n.wf(),
    {
        Numbers { roman: RomanNumber::new() }
    }

    /// The thin-space separator that follows a bullet glyph.
    pub fn space(&self) -> (r: String)
        ensures
            r@ == space_spec(),
    {
        "\u{2009}".to_owned()
    }

    /// The dot-and-thin-space separator that follows a numbered marker.
    pub fn dot_space(&self) -> (r: String)
        ensures
            r@ == dot_space_spec(),
    {
        let mut s = ".".to_owned();
        s.append("\u{2009}");
        s
    }

    /// Leading-zero decimal markers are not produced; no text is returned.
    pub fn to_decimal_leading_zero(&self, _number: i64) -> (r: Option<String>)
        ensures
            r is None,
    {
        None
    }

    pub fn to_upper_roman(&self, number: i64) -> (r: String)
        requires
            self.wf(),
        ensures
            r@ == roman_text(self.roman_part().upper_map(), number as int),
    {
        self.roman.to_upper(number)
    }

    pub fn to_lower_roman(&self, number: i64) -> (r: String)
        requires
            self.wf(),
        ensures
            r@ == roman_text(self.roman_part().lower_map(), number as int),
    {
        self.roman.to_lower(number)
    }

    pub fn to_upper_alpha(&self, number: i64) -> (r: String)
        requires
            0 <= number,
        ensures
            r@ == alpha_text(number as int, 65),
    {
        to_alphabet(number, 65)
    }

    pub fn to_lower_alpha(&self, number: i64) -> (r: String)
        requires
            0 <= number,
        ensures
            r@ == alpha_text(number as int, 97),
    {
        to_alphabet(number, 97)
    }

    pub fn to_upper_latin(&self, number: i64) -> (r: String)
        requires
            0 <= number,
        ensures
            r@ == alpha_text(number as int, 65),
    {
        self.to_upper_alpha(number)
    }

    pub fn to_lower_latin(&self, number: i64) -> (r: String)
        requires
            0 <= number,
        ensures
            r@ == alpha_text(number as int, 97),
    {
        self.to_lower_alpha(number)
    }

    /// There is no upper-greek marker style; no text is returned.
    pub fn to_upper_greek(&self, _number: i64) -> (r: Option<String>)
        ensures
            r is None,
    {
        None
    }

    pub fn to_lower_greek(&self, number: i64) -> (r: String)
        requires
            0 <= number,
        ensures
            r@ == greek_text(number as int),
    {
        to_greek(number)
    }

    /// Armenian markers are not produced; no text is returned.
    pub fn to_armenian(&self, _number: i64) -> (r: Option<String>)
        ensures
            r is None,
    {
        None
    }

    /// Georgian markers are not produced; no text is returned.
    pub fn to_georgian(&self, _number: i64) -> (r: Option<String>)
        ensures
            r is None,
    {
        None
    }

    /// The marker text owed for one list item: a non-positive sequence
    /// number is always rendered in decimal; otherwise the style's numbering
    /// or glyph, followed by its separator. `None` for the numbering systems
    /// this generator does not produce.
    pub open spec fn marker_spec(&self, style_type: ListStyleType, sequence: int) -> Option<
        Seq<char>,
    > {
        if sequence <= 0 {
            Some(decimal_text(sequence) + dot_space_spec())
        } else {
            match style_type {
                ListStyleType::DecimalLeadingZero => None,
                ListStyleType::Decimal => Some(decimal_text(sequence) + dot_space_spec()),
                ListStyleType::LowerRoman => Some(
                    roman_text(self.roman_part().lower_map(), sequence) + dot_space_spec(),
                ),
                ListStyleType::UpperRoman => Some(
                    roman_text(self.roman_part().upper_map(), sequence) + dot_space_spec(),
                ),
                ListStyleType::LowerGreek => Some(greek_text(sequence) + dot_space_spec()),
                ListStyleType::LowerLatin => Some(alpha_text(sequence, 97) + dot_space_spec()),
                ListStyleType::UpperLatin => Some(alpha_text(sequence, 65) + dot_space_spec()),
                ListStyleType::LowerAlpha => Some(alpha_text(sequence, 97) + dot_space_spec()),
                ListStyleType::UpperAlpha => Some(alpha_text(sequence, 65) + dot_space_spec()),
                ListStyleType::Armenian => None,
                ListStyleType::Georgian => None,
                ListStyleType::Circle => Some("\u{25CB}"@ + space_spec()),
                ListStyleType::Disc => Some("\u{25CF}"@ + space_spec()),
                ListStyleType::Square => Some("\u{25A0}"@ + space_spec()),
                ListStyleType::NoMarker => Some(Seq::empty()),
            }
        }
    }

    /// Generate the marker text for one list item.
    pub fn to_list_style_type(&self, style_type: ListStyleType, sequence: i64) -> (r: Option<
        String,
    >)
        requires
            self.wf(),
            i64::MIN < sequence,
        ensures
            match r {
                Some(s) => self.marker_spec(style_type, sequence as int) matches Some(v) && s@
                    == v,
                None => self.marker_spec(style_type, sequence as int) is None,
            },
    {
        if sequence <= 0 {
            let mut s = to_decimal(sequence);
            let sep = self.dot_space();
            s.append(sep.as_str());
            return Some(s);
        }
        match style_type {
            ListStyleType::DecimalLeadingZero => None,
            ListStyleType::Decimal => {
                let mut s = to_decimal(sequence);
                let sep = self.dot_space();
                s.append(sep.as_str());
                Some(s)
            },
            ListStyleType::LowerRoman => {
                let mut s = self.to_lower_roman(sequence);
                let sep = self.dot_space();
                s.append(sep.as_str());
                Some(s)
            },
            ListStyleType::UpperRoman => {
                let mut s = self.to_upper_roman(sequence);
                let sep = self.dot_space();
                s.append(sep.as_str());
                Some(s)
            },
            ListStyleType::LowerGreek => {
                let mut s = self.to_lower_greek(sequence);
                let sep = self.dot_space();
                s.append(sep.as_str());
                Some(s)
            },
            ListStyleType::LowerLatin => {
                let mut s = self.to_lower_latin(sequence);
                let sep = self.dot_space();
                s.append(sep.as_str());
                Some(s)
            },
            ListStyleType::UpperLatin => {
                let mut s = self.to_upper_latin(sequence);
                let sep = self.dot_space();
                s.append(sep.as_str());
                Some(s)
            },
            ListStyleType::LowerAlpha => {
                let mut s = self.to_lower_alpha(sequence);
                let sep = self.dot_space();
                s.append(sep.as_str());
                Some(s)
            },
            ListStyleType::UpperAlpha => {
                let mut s = self.to_upper_alpha(sequence);
                let sep = self.dot_space();
                s.append(sep.as_str());
                Some(s)
            },
            ListStyleType::Armenian => None,
            ListStyleType::Georgian => None,
            ListStyleType::Circle => {
                let mut s = "\u{25CB}".to_owned();
                let sep = self.space();
                s.append(sep.as_str());
                Some(s)
            },
            ListStyleType::Disc => {
                let mut s = "\u{25CF}".to_owned();
                let sep = self.space();
                s.append(sep.as_str());
                Some(s)
            },
            ListStyleType::Square => {
                let mut s = "\u{25A0}".to_owned();
                let sep = self.space();
                s.append(sep.as_str());
                Some(s)
            },
            ListStyleType::NoMarker => Some(String::new()),
        }
    }
}

} // verus!
