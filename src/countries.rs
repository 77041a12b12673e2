//! The registry table: for each country, the two letters of its code and the
//! format of the rest of the account number.
use vstd::prelude::*;
use crate::pattern::{CharClass, Run, class_admits, expand, matches_pattern};

verus! {

/// The number of countries in the table.
pub const COUNTRY_COUNT: usize = 75;

/// Row `i` of the table: the two letters of the country code, and the runs
/// that the characters after the code must follow (the two check digits, then
/// the BBAN). Rows are sorted by country code.
pub open spec fn format_row(i: usize) -> (char, char, Seq<Run>) {
    match i {
        0 => ('A', 'D', seq![Run::digits(10), Run::upper_or_digit(12)]),
        1 => ('A', 'E', seq![Run::digits(21)]),
        2 => ('A', 'L', seq![Run::digits(10), Run::upper_or_digit(16)]),
        3 => ('A', 'T', seq![Run::digits(18)]),
        4 => ('A', 'Z', seq![Run::digits(2), Run::upper(4), Run::upper_or_digit(20)]),
        5 => ('B', 'A', seq![Run::digits(18)]),
        6 => ('B', 'E', seq![Run::digits(14)]),
        7 => ('B', 'G', seq![Run::digits(2), Run::upper(4), Run::digits(6), Run::upper_or_digit(8)]),
        8 => ('B', 'H', seq![Run::digits(2), Run::upper(4), Run::upper_or_digit(14)]),
        9 => ('B', 'R', seq![Run::digits(25), Run::upper(1), Run::upper_or_digit(1)]),
        10 => ('B', 'Y', seq![Run::digits(2), Run::upper_or_digit(4), Run::digits(4), Run::upper_or_digit(16)]),
        11 => ('C', 'H', seq![Run::digits(7), Run::upper_or_digit(12)]),
        12 => ('C', 'R', seq![Run::digits(20)]),
        13 => ('C', 'Y', seq![Run::digits(10), Run::upper_or_digit(16)]),
        14 => ('C', 'Z', seq![Run::digits(22)]),
        15 => ('D', 'E', seq![Run::digits(20)]),
        16 => ('D', 'K', seq![Run::digits(16)]),
        17 => ('D', 'O', seq![Run::digits(2), Run::upper_or_digit(4), Run::digits(20)]),
        18 => ('E', 'E', seq![Run::digits(18)]),
        19 => ('E', 'S', seq![Run::digits(22)]),
        20 => ('F', 'I', seq![Run::digits(16)]),
        21 => ('F', 'O', seq![Run::digits(16)]),
        22 => ('F', 'R', seq![Run::digits(12), Run::upper_or_digit(11), Run::digits(2)]),
        23 => ('G', 'B', seq![Run::digits(2), Run::upper(4), Run::digits(14)]),
        24 => ('G', 'E', seq![Run::digits(2), Run::upper(2), Run::digits(16)]),
        25 => ('G', 'I', seq![Run::digits(2), Run::upper(4), Run::upper_or_digit(15)]),
        26 => ('G', 'L', seq![Run::digits(16)]),
        27 => ('G', 'R', seq![Run::digits(9), Run::upper_or_digit(16)]),
        28 => ('G', 'T', seq![Run::digits(2), Run::upper_or_digit(24)]),
        29 => ('H', 'R', seq![Run::digits(19)]),
        30 => ('H', 'U', seq![Run::digits(26)]),
        31 => ('I', 'E', seq![Run::digits(2), Run::upper(4), Run::digits(14)]),
        32 => ('I', 'L', seq![Run::digits(21)]),
        33 => ('I', 'Q', seq![Run::digits(2), Run::upper(4), Run::digits(15)]),
        34 => ('I', 'S', seq![Run::digits(24)]),
        35 => ('I', 'T', seq![Run::digits(2), Run::upper(1), Run::digits(10), Run::upper_or_digit(12)]),
        36 => ('J', 'O', seq![Run::digits(2), Run::upper(4), Run::digits(4), Run::upper_or_digit(18)]),
        37 => ('K', 'W', seq![Run::digits(2), Run::upper(4), Run::upper_or_digit(22)]),
        38 => ('K', 'Z', seq![Run::digits(5), Run::upper_or_digit(13)]),
        39 => ('L', 'B', seq![Run::digits(6), Run::upper_or_digit(20)]),
        40 => ('L', 'C', seq![Run::digits(2), Run::upper(4), Run::upper_or_digit(24)]),
        41 => ('L', 'I', seq![Run::digits(7), Run::upper_or_digit(12)]),
        42 => ('L', 'T', seq![Run::digits(18)]),
        43 => ('L', 'U', seq![Run::digits(5), Run::upper_or_digit(13)]),
        44 => ('L', 'V', seq![Run::digits(2), Run::upper(4), Run::upper_or_digit(13)]),
        45 => ('M', 'C', seq![Run::digits(12), Run::upper_or_digit(11), Run::digits(2)]),
        46 => ('M', 'D', seq![Run::digits(2), Run::upper_or_digit(20)]),
        47 => ('M', 'E', seq![Run::digits(20)]),
        48 => ('M', 'K', seq![Run::digits(5), Run::upper_or_digit(10), Run::digits(2)]),
        49 => ('M', 'R', seq![Run::digits(25)]),
        50 => ('M', 'T', seq![Run::digits(2), Run::upper(4), Run::digits(5), Run::upper_or_digit(18)]),
        51 => ('M', 'U', seq![Run::digits(2), Run::upper(4), Run::digits(19), Run::upper(3)]),
        52 => ('N', 'L', seq![Run::digits(2), Run::upper(4), Run::digits(10)]),
        53 => ('N', 'O', seq![Run::digits(13)]),
        54 => ('P', 'K', seq![Run::digits(2), Run::upper(4), Run::upper_or_digit(16)]),
        55 => ('P', 'L', seq![Run::digits(26)]),
        56 => ('P', 'S', seq![Run::digits(2), Run::upper(4), Run::upper_or_digit(21)]),
        57 => ('P', 'T', seq![Run::digits(23)]),
        58 => ('Q', 'A', seq![Run::digits(2), Run::upper(4), Run::upper_or_digit(21)]),
        59 => ('R', 'O', seq![Run::digits(2), Run::upper_to_lower_z(4), Run::upper_or_digit(16)]),
        60 => ('R', 'S', seq![Run::digits(20)]),
        61 => ('S', 'A', seq![Run::digits(4), Run::upper_or_digit(18)]),
        62 => ('S', 'C', seq![Run::digits(2), Run::upper(4), Run::digits(20), Run::upper(3)]),
        63 => ('S', 'E', seq![Run::digits(22)]),
        64 => ('S', 'I', seq![Run::digits(17)]),
        65 => ('S', 'K', seq![Run::digits(22)]),
        66 => ('S', 'M', seq![Run::digits(2), Run::upper(1), Run::digits(10), Run::upper_or_digit(12)]),
        67 => ('S', 'T', seq![Run::digits(23)]),
        68 => ('S', 'V', seq![Run::digits(2), Run::upper(4), Run::digits(20)]),
        69 => ('T', 'L', seq![Run::digits(21)]),
        70 => ('T', 'N', seq![Run::digits(22)]),
        71 => ('T', 'R', seq![Run::digits(8), Run::upper_or_digit(16)]),
        72 => ('U', 'A', seq![Run::digits(8), Run::upper_or_digit(19)]),
        73 => ('V', 'G', seq![Run::digits(2), Run::upper(4), Run::digits(16)]),
        _ => ('X', 'K', seq![Run::digits(18)]),
    }
}

/// The country code of row `i`.
pub open spec fn country_code(i: int) -> Seq<char> {
    seq![format_row(i as usize).0, format_row(i as usize).1]
}

/// The pattern that admits exactly the two characters `a` and `b`.
pub open spec fn code_pattern(a: char, b: char) -> Seq<Run> {
    seq![Run::exact(a), Run::exact(b)]
}

/// The pattern that the first two characters of an address must match for row `i`.
pub open spec fn prefix_pattern(i: int) -> Seq<Run> {
    code_pattern(format_row(i as usize).0, format_row(i as usize).1)
}

/// The pattern that the characters after the first two must match for row `i`.
pub open spec fn remainder_pattern(i: int) -> Seq<Run> {
    format_row(i as usize).2
}

/// The prefix patterns of all rows, in table order.
pub open spec fn prefix_patterns() -> Seq<Seq<Run>> {
    Seq::new(COUNTRY_COUNT as nat, |i: int| prefix_pattern(i))
}

/// The remainder patterns of all rows, in table order.
pub open spec fn remainder_patterns() -> Seq<Seq<Run>> {
    Seq::new(COUNTRY_COUNT as nat, |i: int| remainder_pattern(i))
}

/// Row `i` of the table.
pub fn format_row_at(i: usize) -> (r: (char, char, Vec<Run>))
    requires
        i < COUNTRY_COUNT,
    ensures
        r.0 == format_row(i).0,
        r.1 == format_row(i).1,
        r.2@ == format_row(i).2,
{
    match i {
        0 => ('A', 'D', vec![Run::digits(10), Run::upper_or_digit(12)]),
        1 => ('A', 'E', vec![Run::digits(21)]),
        2 => ('A', 'L', vec![Run::digits(10), Run::upper_or_digit(16)]),
        3 => ('A', 'T', vec![Run::digits(18)]),
        4 => ('A', 'Z', vec![Run::digits(2), Run::upper(4), Run::upper_or_digit(20)]),
        5 => ('B', 'A', vec![Run::digits(18)]),
        6 => ('B', 'E', vec![Run::digits(14)]),
        7 => ('B', 'G', vec![Run::digits(2), Run::upper(4), Run::digits(6), Run::upper_or_digit(8)]),
        8 => ('B', 'H', vec![Run::digits(2), Run::upper(4), Run::upper_or_digit(14)]),
        9 => ('B', 'R', vec![Run::digits(25), Run::upper(1), Run::upper_or_digit(1)]),
        10 => ('B', 'Y', vec![Run::digits(2), Run::upper_or_digit(4), Run::digits(4), Run::upper_or_digit(16)]),
        11 => ('C', 'H', vec![Run::digits(7), Run::upper_or_digit(12)]),
        12 => ('C', 'R', vec![Run::digits(20)]),
        13 => ('C', 'Y', vec![Run::digits(10), Run::upper_or_digit(16)]),
        14 => ('C', 'Z', vec![Run::digits(22)]),
        15 => ('D', 'E', vec![Run::digits(20)]),
        16 => ('D', 'K', vec![Run::digits(16)]),
        17 => ('D', 'O', vec![Run::digits(2), Run::upper_or_digit(4), Run::digits(20)]),
        18 => ('E', 'E', vec![Run::digits(18)]),
        19 => ('E', 'S', vec![Run::digits(22)]),
        20 => ('F', 'I', vec![Run::digits(16)]),
        21 => ('F', 'O', vec![Run::digits(16)]),
        22 => ('F', 'R', vec![Run::digits(12), Run::upper_or_digit(11), Run::digits(2)]),
        23 => ('G', 'B', vec![Run::digits(2), Run::upper(4), Run::digits(14)]),
        24 => ('G', 'E', vec![Run::digits(2), Run::upper(2), Run::digits(16)]),
        25 => ('G', 'I', vec![Run::digits(2), Run::upper(4), Run::upper_or_digit(15)]),
        26 => ('G', 'L', vec![Run::digits(16)]),
        27 => ('G', 'R', vec![Run::digits(9), Run::upper_or_digit(16)]),
        28 => ('G', 'T', vec![Run::digits(2), Run::upper_or_digit(24)]),
        29 => ('H', 'R', vec![Run::digits(19)]),
        30 => ('H', 'U', vec![Run::digits(26)]),
        31 => ('I', 'E', vec![Run::digits(2), Run::upper(4), Run::digits(14)]),
        32 => ('I', 'L', vec![Run::digits(21)]),
        33 => ('I', 'Q', vec![Run::digits(2), Run::upper(4), Run::digits(15)]),
        34 => ('I', 'S', vec![Run::digits(24)]),
        35 => ('I', 'T', vec![Run::digits(2), Run::upper(1), Run::digits(10), Run::upper_or_digit(12)]),
        36 => ('J', 'O', vec![Run::digits(2), Run::upper(4), Run::digits(4), Run::upper_or_digit(18)]),
        37 => ('K', 'W', vec![Run::digits(2), Run::upper(4), Run::upper_or_digit(22)]),
        38 => ('K', 'Z', vec![Run::digits(5), Run::upper_or_digit(13)]),
        39 => ('L', 'B', vec![Run::digits(6), Run::upper_or_digit(20)]),
        40 => ('L', 'C', vec![Run::digits(2), Run::upper(4), Run::upper_or_digit(24)]),
        41 => ('L', 'I', vec![Run::digits(7), Run::upper_or_digit(12)]),
        42 => ('L', 'T', vec![Run::digits(18)]),
        43 => ('L', 'U', vec![Run::digits(5), Run::upper_or_digit(13)]),
        44 => ('L', 'V', vec![Run::digits(2), Run::upper(4), Run::upper_or_digit(13)]),
        45 => ('M', 'C', vec![Run::digits(12), Run::upper_or_digit(11), Run::digits(2)]),
        46 => ('M', 'D', vec![Run::digits(2), Run::upper_or_digit(20)]),
        47 => ('M', 'E', vec![Run::digits(20)]),
        48 => ('M', 'K', vec![Run::digits(5), Run::upper_or_digit(10), Run::digits(2)]),
        49 => ('M', 'R', vec![Run::digits(25)]),
        50 => ('M', 'T', vec![Run::digits(2), Run::upper(4), Run::digits(5), Run::upper_or_digit(18)]),
        51 => ('M', 'U', vec![Run::digits(2), Run::upper(4), Run::digits(19), Run::upper(3)]),
        52 => ('N', 'L', vec![Run::digits(2), Run::upper(4), Run::digits(10)]),
        53 => ('N', 'O', vec![Run::digits(13)]),
        54 => ('P', 'K', vec![Run::digits(2), Run::upper(4), Run::upper_or_digit(16)]),
        55 => ('P', 'L', vec![Run::digits(26)]),
        56 => ('P', 'S', vec![Run::digits(2), Run::upper(4), Run::upper_or_digit(21)]),
        57 => ('P', 'T', vec![Run::digits(23)]),
        58 => ('Q', 'A', vec![Run::digits(2), Run::upper(4), Run::upper_or_digit(21)]),
        59 => ('R', 'O', vec![Run::digits(2), Run::upper_to_lower_z(4), Run::upper_or_digit(16)]),
        60 => ('R', 'S', vec![Run::digits(20)]),
        61 => ('S', 'A', vec![Run::digits(4), Run::upper_or_digit(18)]),
        62 => ('S', 'C', vec![Run::digits(2), Run::upper(4), Run::digits(20), Run::upper(3)]),
        63 => ('S', 'E', vec![Run::digits(22)]),
        64 => ('S', 'I', vec![Run::digits(17)]),
        65 => ('S', 'K', vec![Run::digits(22)]),
        66 => ('S', 'M', vec![Run::digits(2), Run::upper(1), Run::digits(10), Run::upper_or_digit(12)]),
        67 => ('S', 'T', vec![Run::digits(23)]),
        68 => ('S', 'V', vec![Run::digits(2), Run::upper(4), Run::digits(20)]),
        69 => ('T', 'L', vec![Run::digits(21)]),
        70 => ('T', 'N', vec![Run::digits(22)]),
        71 => ('T', 'R', vec![Run::digits(8), Run::upper_or_digit(16)]),
        72 => ('U', 'A', vec![Run::digits(8), Run::upper_or_digit(19)]),
        73 => ('V', 'G', vec![Run::digits(2), Run::upper(4), Run::digits(16)]),
        _ => ('X', 'K', vec![Run::digits(18)]),
    }
}

/// The order of the table's rows: the code's letters, first then second.
spec fn code_key(i: int) -> int {
    (format_row(i as usize).0 as u32) as int * 0x10000 + (format_row(i as usize).1 as u32) as int
}

proof fn lemma_codes_ascending()
    ensures
        forall|i: int| 0 <= i < COUNTRY_COUNT - 1 ==> #[trigger] code_key(i) < code_key(i + 1),
{
}

proof fn lemma_codes_increasing(i: int, j: int)
    requires
        0 <= i < j < COUNTRY_COUNT,
    ensures
        code_key(i) < code_key(j),
    decreases j - i,
{
    lemma_codes_ascending();
    if j > i + 1 {
        lemma_codes_increasing(i, j - 1);
    }
}

/// No two rows of the table share a country code.
pub proof fn lemma_codes_distinct(i: int, j: int)
    requires
        0 <= i < COUNTRY_COUNT,
        0 <= j < COUNTRY_COUNT,
        i != j,
    ensures
        country_code(i) != country_code(j),
{
    if i < j {
        lemma_codes_increasing(i, j);
    } else {
        lemma_codes_increasing(j, i);
    }
    if country_code(i) == country_code(j) {
        assert(country_code(i)[0] == country_code(j)[0]);
        assert(country_code(i)[1] == country_code(j)[1]);
    }
}

/// A text matches the pattern of a two-letter code exactly when it is that code.
pub proof fn lemma_code_pattern(a: char, b: char, text: Seq<char>)
    ensures
        matches_pattern(code_pattern(a, b), text) <==> text == seq![a, b],
{
    let runs = code_pattern(a, b);
    assert(runs.drop_last().drop_last() =~= Seq::<Run>::empty());
    assert(runs.drop_last() =~= seq![Run::exact(a)]);
    let classes = expand(runs);
    assert(expand(runs.drop_last().drop_last()) =~= Seq::<CharClass>::empty());
    assert(expand(runs.drop_last()) =~= seq![CharClass::Exact(a)]);
    assert(classes =~= seq![CharClass::Exact(a), CharClass::Exact(b)]);
    if matches_pattern(runs, text) {
        assert(class_admits(classes[0], text[0]));
        assert(class_admits(classes[1], text[1]));
        assert(text =~= seq![a, b]);
    }
}

} // verus!
