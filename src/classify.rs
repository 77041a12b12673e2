//! The three-way classification of an address against the table: the first
//! two characters pick the country, the rest must fit that country's format.
use vstd::prelude::*;
use crate::countries::{
    COUNTRY_COUNT, country_code, format_row, format_row_at, lemma_code_pattern,
    lemma_codes_distinct, prefix_patterns, remainder_pattern, remainder_patterns,
};
use crate::pattern::{Pattern, Run, lemma_pattern_views_push, matches_pattern, pattern_views};

verus! {

/// The outcome of [`validate_iban_country`].
#[derive(Clone, Copy, Debug, PartialEq, Eq, Hash, Structural)]
pub enum IbanCountryResult {
    /// The country was recognized and the address fits its format.
    Valid,
    /// The country was recognized and the address does not fit its format.
    Invalid,
    /// The country was not recognized.
    CountryUnknown,
}

/// `i` is the least index whose pattern `text` matches.
pub open spec fn is_first_match(patterns: Seq<Seq<Run>>, text: Seq<char>, i: int) -> bool {
    &&& 0 <= i < patterns.len()
    &&& matches_pattern(patterns[i], text)
    &&& forall|j: int| 0 <= j < i ==> !matches_pattern(#[trigger] patterns[j], text)
}

/// `found` lists, in ascending order, exactly the indices of the patterns that
/// `text` matches.
pub open spec fn lists_matches(patterns: Seq<Seq<Run>>, text: Seq<char>, found: Seq<usize>) -> bool {
    &&& forall|k: int|
        0 <= k < found.len() ==> #[trigger] found[k] < patterns.len() && matches_pattern(
            patterns[found[k] as int],
            text,
        )
    &&& forall|k1: int, k2: int| 0 <= k1 < k2 < found.len() ==> found[k1] < found[k2]
    &&& forall|i: int|
        0 <= i < patterns.len() && matches_pattern(#[trigger] patterns[i], text) ==> found.contains(
            i as usize,
        )
}

/// The classification of `address` against index-aligned prefix and remainder
/// patterns. An address of fewer than two characters names no country. Else the
/// first two characters select the first index whose prefix pattern they match;
/// with none the country is unknown, and with one the address is valid exactly
/// when the characters after the first two match the remainder pattern of that
/// same index.
pub open spec fn classify_with(
    prefixes: Seq<Seq<Run>>,
    remainders: Seq<Seq<Run>>,
    address: Seq<char>,
) -> IbanCountryResult {
    if address.len() >= 2 && exists|i: int| is_first_match(prefixes, address.take(2), i) {
        let i = choose|i: int| is_first_match(prefixes, address.take(2), i);
        if matches_pattern(remainders[i], address.skip(2)) {
            IbanCountryResult::Valid
        } else {
            IbanCountryResult::Invalid
        }
    } else {
        IbanCountryResult::CountryUnknown
    }
}

/// The classification of `address` against the registry table.
pub open spec fn classify(address: Seq<char>) -> IbanCountryResult {
    classify_with(prefix_patterns(), remainder_patterns(), address)
}

/// Two first matches are the same index.
pub proof fn lemma_first_match_unique(patterns: Seq<Seq<Run>>, text: Seq<char>, i: int, j: int)
    requires
        is_first_match(patterns, text, i),
        is_first_match(patterns, text, j),
    ensures
        i == j,
{
    if i < j {
        assert(!matches_pattern(patterns[i], text));
    } else if j < i {
        assert(!matches_pattern(patterns[j], text));
    }
}

/// The indices, in ascending order, of the patterns that `text` matches.
fn all_matches(patterns: &Vec<Pattern>, text: &str) -> (found: Vec<usize>)
    ensures
        lists_matches(pattern_views(patterns@), text@, found@),
{
    let ghost views = pattern_views(patterns@);
    let len = text.unicode_len();
    let mut found: Vec<usize> = Vec::new();
    let mut i: usize = 0;
    while i < patterns.len()
        invariant
            views == pattern_views(patterns@),
            len == text@.len(),
            i <= patterns@.len(),
            forall|k: int|
                0 <= k < found@.len() ==> #[trigger] found@[k] < i && matches_pattern(
                    views[found@[k] as int],
                    text@,
                ),
            forall|k1: int, k2: int| 0 <= k1 < k2 < found@.len() ==> found@[k1] < found@[k2],
            forall|j: int|
                0 <= j < i && matches_pattern(#[trigger] views[j], text@) ==> found@.contains(
                    j as usize,
                ),
        decreases patterns@.len() - i,
    {
        let ghost before = found@;
        if patterns[i].matches(text, len) {
            found.push(i);
            proof {
                assert(found@[found@.len() - 1] == i);
                assert forall|j: int|
                    0 <= j < i + 1 && matches_pattern(#[trigger] views[j], text@) implies found@.contains(
                    j as usize,
                ) by {
                    if j < i {
                        assert(before.contains(j as usize));
                        let k = choose|k: int| 0 <= k < before.len() && before[k] == j as usize;
                        assert(found@[k] == j as usize);
                    } else {
                        assert(found@[found@.len() - 1] == j as usize);
                    }
                }
            }
        } else {
            proof {
                assert forall|j: int|
                    0 <= j < i + 1 && matches_pattern(#[trigger] views[j], text@) implies found@.contains(
                    j as usize,
                ) by {
                    assert(j != i);
                }
            }
        }
        i = i + 1;
    }
    found
}

/// Whether `found` holds `index`.
fn holds_index(found: &Vec<usize>, index: usize) -> (r: bool)
    ensures
        r == found@.contains(index),
{
    let mut k: usize = 0;
    while k < found.len()
        invariant
            k <= found@.len(),
            forall|m: int| 0 <= m < k ==> found@[m] != index,
        decreases found@.len() - k,
    {
        if found[k] == index {
            return true;
        }
        k = k + 1;
    }
    false
}

/// The table compiled into two index-aligned lists of patterns: entry `i` of
/// each belongs to the same country. Building it once and classifying many
/// addresses with it spares rebuilding the patterns for each address.
pub struct FormatTable {
    prefixes: Vec<Pattern>,
    remainders: Vec<Pattern>,
}

impl FormatTable {
    /// The prefix patterns, in table order.
    pub closed spec fn prefix_view(&self) -> Seq<Seq<Run>> {
        pattern_views(self.prefixes@)
    }

    /// The remainder patterns, in table order.
    pub closed spec fn remainder_view(&self) -> Seq<Seq<Run>> {
        pattern_views(self.remainders@)
    }

    /// The two lists are index-aligned: they have one entry per country.
    pub open spec fn wf(&self) -> bool {
        self.prefix_view().len() == self.remainder_view().len()
    }

    /// The registry table, compiled.
    pub fn new() -> (t: FormatTable)
        ensures
            t.wf(),
            t.prefix_view() == prefix_patterns(),
            t.remainder_view() == remainder_patterns(),
    {
        let mut prefixes: Vec<Pattern> = Vec::new();
        let mut remainders: Vec<Pattern> = Vec::new();
        let mut i: usize = 0;
        while i < COUNTRY_COUNT
            invariant
                i <= COUNTRY_COUNT,
                pattern_views(prefixes@) =~= prefix_patterns().take(i as int),
                pattern_views(remainders@) =~= remainder_patterns().take(i as int),
            decreases COUNTRY_COUNT - i,
        {
            let (first, second, rest) = format_row_at(i);
            let prefix = Pattern::new(vec![Run::exact(first), Run::exact(second)]);
            let remainder = Pattern::new(rest);
            assert(prefix@ == prefix_patterns()[i as int]);
            assert(remainder@ == remainder_patterns()[i as int]);
            let ghost prefixes_before = prefixes@;
            let ghost remainders_before = remainders@;
            prefixes.push(prefix);
            remainders.push(remainder);
            proof {
                lemma_pattern_views_push(prefixes_before, prefix);
                lemma_pattern_views_push(remainders_before, remainder);
                assert(pattern_views(prefixes@) =~= prefix_patterns().take(i as int + 1));
                assert(pattern_views(remainders@) =~= remainder_patterns().take(i as int + 1));
            }
            i = i + 1;
        }
        proof {
            assert(prefix_patterns().take(COUNTRY_COUNT as int) =~= prefix_patterns());
            assert(remainder_patterns().take(COUNTRY_COUNT as int) =~= remainder_patterns());
        }
        FormatTable { prefixes, remainders }
    }

    /// The indices, in ascending order, of the countries whose prefix pattern
    /// `prefix` matches.
    pub fn prefix_matches(&self, prefix: &str) -> (found: Vec<usize>)
        ensures
            lists_matches(self.prefix_view(), prefix@, found@),
    {
        all_matches(&self.prefixes, prefix)
    }

    /// The indices, in ascending order, of the countries whose remainder
    /// pattern `remainder` matches.
    pub fn remainder_matches(&self, remainder: &str) -> (found: Vec<usize>)
        ensures
            lists_matches(self.remainder_view(), remainder@, found@),
    {
        all_matches(&self.remainders, remainder)
    }

    /// Classifies `address` against this table.
    pub fn classify(&self, address: &str) -> (r: IbanCountryResult)
        requires
            self.wf(),
        ensures
            r == classify_with(self.prefix_view(), self.remainder_view(), address@),
    {
        let ghost prefixes = self.prefix_view();
        let len = address.unicode_len();
        if len < 2 {
            return IbanCountryResult::CountryUnknown;
        }
        let prefix = address.substring_char(0, 2);
        let ghost code = address@.take(2);
        assert(prefix@ == code);
        let candidates = self.prefix_matches(prefix);
        if candidates.len() == 0 {
            proof {
                if exists|i: int| is_first_match(prefixes, code, i) {
                    let i = choose|i: int| is_first_match(prefixes, code, i);
                    assert(candidates@.contains(i as usize));
                }
            }
            return IbanCountryResult::CountryUnknown;
        }
        let country = candidates[0];
        proof {
            assert(candidates@[0] == country);
            assert forall|j: int| 0 <= j < country implies !matches_pattern(
                #[trigger] prefixes[j],
                code,
            ) by {
                if matches_pattern(prefixes[j], code) {
                    assert(candidates@.contains(j as usize));
                    let k = choose|k: int| 0 <= k < candidates@.len() && candidates@[k] == j as usize;
                    if k > 0 {
                        assert(candidates@[0] < candidates@[k]);
                    }
                }
            }
            assert(is_first_match(prefixes, code, country as int));
            let chosen = choose|i: int| is_first_match(prefixes, code, i);
            lemma_first_match_unique(prefixes, code, chosen, country as int);
        }
        let remainder = address.substring_char(2, len);
        assert(remainder@ == address@.skip(2));
        let fitting = self.remainder_matches(remainder);
        proof {
            if matches_pattern(self.remainder_view()[country as int], remainder@) {
                assert(fitting@.contains(country));
            }
            if fitting@.contains(country) {
                let k = choose|k: int| 0 <= k < fitting@.len() && fitting@[k] == country;
                assert(fitting@[k] == country);
            }
        }
        if holds_index(&fitting, country) {
            IbanCountryResult::Valid
        } else {
            IbanCountryResult::Invalid
        }
    }
}

/// The code of row `i` selects row `i` as its first prefix match.
proof fn lemma_code_selects_row(i: int)
    requires
        0 <= i < COUNTRY_COUNT,
    ensures
        is_first_match(prefix_patterns(), country_code(i), i),
{
    let code = country_code(i);
    lemma_code_pattern(format_row(i as usize).0, format_row(i as usize).1, code);
    assert forall|j: int| 0 <= j < i implies !matches_pattern(
        #[trigger] prefix_patterns()[j],
        code,
    ) by {
        lemma_code_pattern(format_row(j as usize).0, format_row(j as usize).1, code);
        lemma_codes_distinct(i, j);
    }
}

/// An address made of the code of row `i` and a remainder is valid when the
/// remainder fits row `i`'s format, and invalid when it does not.
proof fn lemma_known_country(i: int, remainder: Seq<char>)
    requires
        0 <= i < COUNTRY_COUNT,
    ensures
        classify(country_code(i) + remainder) == (if matches_pattern(
            remainder_pattern(i),
            remainder,
        ) {
            IbanCountryResult::Valid
        } else {
            IbanCountryResult::Invalid
        }),
{
    let code = country_code(i);
    let address = code + remainder;
    assert(address.take(2) =~= code);
    assert(address.skip(2) =~= remainder);
    lemma_code_selects_row(i);
    let chosen = choose|j: int| is_first_match(prefix_patterns(), code, j);
    lemma_first_match_unique(prefix_patterns(), code, chosen, i);
}

/// For every country of the table, its code followed by a remainder that fits
/// the country's format is classified `Valid`.
pub proof fn lemma_fitting_address_is_valid(i: int, remainder: Seq<char>)
    requires
        0 <= i < COUNTRY_COUNT,
        matches_pattern(remainder_pattern(i), remainder),
    ensures
        classify(country_code(i) + remainder) == IbanCountryResult::Valid,
{
    lemma_known_country(i, remainder);
}

/// For every country of the table, its code followed by a remainder that does
/// not fit the country's format (wrong length or a character of the wrong
/// class) is classified `Invalid`.
pub proof fn lemma_unfitting_address_is_invalid(i: int, remainder: Seq<char>)
    requires
        0 <= i < COUNTRY_COUNT,
        !matches_pattern(remainder_pattern(i), remainder),
    ensures
        classify(country_code(i) + remainder) == IbanCountryResult::Invalid,
{
    lemma_known_country(i, remainder);
}

/// Two first characters that are the code of no country of the table are
/// classified `CountryUnknown`, whatever follows them.
pub proof fn lemma_unknown_code(prefix: Seq<char>, remainder: Seq<char>)
    requires
        prefix.len() == 2,
        forall|i: int| 0 <= i < COUNTRY_COUNT ==> prefix != #[trigger] country_code(i),
    ensures
        classify(prefix + remainder) == IbanCountryResult::CountryUnknown,
{
    let address = prefix + remainder;
    assert(address.take(2) =~= prefix);
    if exists|i: int| is_first_match(prefix_patterns(), prefix, i) {
        let i = choose|i: int| is_first_match(prefix_patterns(), prefix, i);
        lemma_code_pattern(format_row(i as usize).0, format_row(i as usize).1, prefix);
        assert(prefix == country_code(i));
    }
}

/// The two matchers agree on the table's indices: for every row, the prefix
/// matcher lists that row first for the row's own code, and the remainder
/// matcher lists that same row for every remainder in the row's format.
pub proof fn lemma_index_alignment(
    i: int,
    remainder: Seq<char>,
    prefix_found: Seq<usize>,
    remainder_found: Seq<usize>,
)
    requires
        0 <= i < COUNTRY_COUNT,
        matches_pattern(remainder_pattern(i), remainder),
        lists_matches(prefix_patterns(), country_code(i), prefix_found),
        lists_matches(remainder_patterns(), remainder, remainder_found),
    ensures
        prefix_found.len() > 0,
        prefix_found[0] == i,
        remainder_found.contains(i as usize),
{
    let code = country_code(i);
    lemma_code_selects_row(i);
    assert(prefix_found.contains(i as usize));
    let k = choose|k: int| 0 <= k < prefix_found.len() && prefix_found[k] == i as usize;
    if k > 0 {
        assert(prefix_found[0] < prefix_found[k]);
        assert(matches_pattern(prefix_patterns()[prefix_found[0] as int], code));
    }
    assert(remainder_patterns()[i] == remainder_pattern(i));
}

/// Validates the BBAN part of an IBAN: whether the country code is known and,
/// if so, whether the rest of the address fits that country's format. Neither
/// the check digits nor the checksum are verified here.
pub fn validate_iban_country(address: &str) -> (r: IbanCountryResult)
    ensures
        r == classify(address@),
{
    FormatTable::new().classify(address)
}

} // verus!
