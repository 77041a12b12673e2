//! Structural patterns: a pattern is a list of runs, each run a character
//! class repeated a fixed number of times. A text matches a pattern when it has
//! exactly the pattern's length and every character belongs to the class of its
//! position.
use vstd::prelude::*;

verus! {

/// The class of characters that one position of a pattern admits.
#[derive(Clone, Copy, Debug, PartialEq, Eq, Structural)]
pub enum CharClass {
    /// An ASCII decimal digit, `'0'` to `'9'`.
    Digit,
    /// An ASCII uppercase letter, `'A'` to `'Z'`.
    Upper,
    /// An ASCII uppercase letter or an ASCII decimal digit.
    UpperOrDigit,
    /// Any character from `'A'` to `'z'`. Besides the letters of both cases this
    /// takes in the six characters between `'Z'` and `'a'` (`[ \ ] ^ _` and the
    /// backtick). One registry entry is written with this range; it is kept as
    /// written.
    UpperToLowerZ,
    /// Exactly the given character.
    Exact(char),
}

/// One run of a pattern: `count` consecutive characters of class `class`.
#[derive(Clone, Copy, Debug, PartialEq, Eq, Structural)]
pub struct Run {
    pub class: CharClass,
    pub count: usize,
}

/// Whether the character `ch` belongs to the class `class`.
pub open spec fn class_admits(class: CharClass, ch: char) -> bool {
    match class {
        CharClass::Digit => '0' <= ch <= '9',
        CharClass::Upper => 'A' <= ch <= 'Z',
        CharClass::UpperOrDigit => ('A' <= ch <= 'Z') || ('0' <= ch <= '9'),
        CharClass::UpperToLowerZ => 'A' <= ch <= 'z',
        CharClass::Exact(c) => ch == c,
    }
}

/// The class that each position of a pattern admits, run after run.
pub open spec fn expand(runs: Seq<Run>) -> Seq<CharClass>
    decreases runs.len(),
{
    if runs.len() == 0 {
        Seq::empty()
    } else {
        let last = runs.last();
        expand(runs.drop_last()) + Seq::new(last.count as nat, |_k: int| last.class)
    }
}

/// Whether `text` matches the pattern `runs`: same length, and each character
/// in the class of its position.
pub open spec fn matches_pattern(runs: Seq<Run>, text: Seq<char>) -> bool {
    let classes = expand(runs);
    &&& text.len() == classes.len()
    &&& forall|k: int| 0 <= k < text.len() ==> class_admits(#[trigger] classes[k], text[k])
}

impl Run {
    pub open spec fn spec_digits(count: usize) -> Run {
        Run { class: CharClass::Digit, count }
    }

    pub open spec fn spec_upper(count: usize) -> Run {
        Run { class: CharClass::Upper, count }
    }

    pub open spec fn spec_upper_or_digit(count: usize) -> Run {
        Run { class: CharClass::UpperOrDigit, count }
    }

    pub open spec fn spec_upper_to_lower_z(count: usize) -> Run {
        Run { class: CharClass::UpperToLowerZ, count }
    }

    pub open spec fn spec_exact(ch: char) -> Run {
        Run { class: CharClass::Exact(ch), count: 1 }
    }

    /// `count` decimal digits.
    #[verifier::when_used_as_spec(spec_digits)]
    pub fn digits(count: usize) -> (r: Run)
        ensures
            r == Run::spec_digits(count),
    {
        Run { class: CharClass::Digit, count }
    }

    /// `count` uppercase letters.
    #[verifier::when_used_as_spec(spec_upper)]
    pub fn upper(count: usize) -> (r: Run)
        ensures
            r == Run::spec_upper(count),
    {
        Run { class: CharClass::Upper, count }
    }

    /// `count` characters, each an uppercase letter or a digit.
    #[verifier::when_used_as_spec(spec_upper_or_digit)]
    pub fn upper_or_digit(count: usize) -> (r: Run)
        ensures
            r == Run::spec_upper_or_digit(count),
    {
        Run { class: CharClass::UpperOrDigit, count }
    }

    /// `count` characters, each between `'A'` and `'z'`.
    #[verifier::when_used_as_spec(spec_upper_to_lower_z)]
    pub fn upper_to_lower_z(count: usize) -> (r: Run)
        ensures
            r == Run::spec_upper_to_lower_z(count),
    {
        Run { class: CharClass::UpperToLowerZ, count }
    }

    /// The single character `ch`.
    #[verifier::when_used_as_spec(spec_exact)]
    pub fn exact(ch: char) -> (r: Run)
        ensures
            r == Run::spec_exact(ch),
    {
        Run { class: CharClass::Exact(ch), count: 1 }
    }
}

/// Whether `ch` belongs to `class`.
pub fn admits(class: CharClass, ch: char) -> (r: bool)
    ensures
        r == class_admits(class, ch),
{
    match class {
        CharClass::Digit => '0' <= ch && ch <= '9',
        CharClass::Upper => 'A' <= ch && ch <= 'Z',
        CharClass::UpperOrDigit => ('A' <= ch && ch <= 'Z') || ('0' <= ch && ch <= '9'),
        CharClass::UpperToLowerZ => 'A' <= ch && ch <= 'z',
        CharClass::Exact(c) => ch == c,
    }
}

/// Adding run `j` to the first `j` runs appends its classes.
proof fn lemma_expand_step(runs: Seq<Run>, j: int)
    requires
        0 <= j < runs.len(),
    ensures
        expand(runs.take(j + 1)) == expand(runs.take(j)) + Seq::new(
            runs[j].count as nat,
            |_k: int| runs[j].class,
        ),
{
    assert(runs.take(j + 1).drop_last() =~= runs.take(j));
}

/// The classes of the first `j` runs are a prefix of those of all runs.
proof fn lemma_expand_prefix(runs: Seq<Run>, j: int)
    requires
        0 <= j <= runs.len(),
    ensures
        expand(runs.take(j)).len() <= expand(runs).len(),
        forall|k: int|
            0 <= k < expand(runs.take(j)).len() ==> #[trigger] expand(runs.take(j))[k] == expand(
                runs,
            )[k],
    decreases runs.len() - j,
{
    if j == runs.len() {
        assert(runs.take(j) =~= runs);
    } else {
        lemma_expand_prefix(runs, j + 1);
        lemma_expand_step(runs, j);
        let shorter = expand(runs.take(j));
        let longer = expand(runs.take(j + 1));
        assert forall|k: int| 0 <= k < shorter.len() implies #[trigger] shorter[k] == expand(
            runs,
        )[k] by {
            assert(longer[k] == shorter[k]);
        }
    }
}

/// A structural pattern, held as its runs.
pub struct Pattern {
    runs: Vec<Run>,
}

impl View for Pattern {
    type V = Seq<Run>;

    closed spec fn view(&self) -> Seq<Run> {
        self.runs@
    }
}

/// The views of a list of patterns.
pub open spec fn pattern_views(patterns: Seq<Pattern>) -> Seq<Seq<Run>> {
    patterns.map_values(|p: Pattern| p@)
}

/// Pushing a pattern pushes its view.
pub proof fn lemma_pattern_views_push(patterns: Seq<Pattern>, p: Pattern)
    ensures
        pattern_views(patterns.push(p)) == pattern_views(patterns).push(p@),
{
    assert(pattern_views(patterns.push(p)) =~= pattern_views(patterns).push(p@));
}

impl Pattern {
    /// A pattern made of the given runs.
    pub fn new(runs: Vec<Run>) -> (p: Pattern)
        ensures
            p@ == runs@,
    {
        Pattern { runs }
    }

    /// Whether `text`, of `len` characters, matches this pattern.
    pub fn matches(&self, text: &str, len: usize) -> (r: bool)
        requires
            len == text@.len(),
        ensures
            r == matches_pattern(self@, text@),
    {
        let runs = &self.runs;
        let ghost classes = expand(runs@);
        assert(self@ == runs@);
        let mut j: usize = 0;
        let mut pos: usize = 0;
        while j < runs.len()
            invariant
                classes == expand(runs@),
                self@ == runs@,
                len == text@.len(),
                j <= runs@.len(),
                pos == expand(runs@.take(j as int)).len(),
                pos <= len,
                forall|k: int|
                    0 <= k < pos ==> class_admits(
                        #[trigger] expand(runs@.take(j as int))[k],
                        text@[k],
                    ),
            decreases runs@.len() - j,
        {
            let run = runs[j];
            proof {
                lemma_expand_step(runs@, j as int);
                lemma_expand_prefix(runs@, j as int + 1);
            }
            if run.count > len - pos {
                assert(expand(runs@.take(j as int + 1)).len() == pos + run.count);
                return false;
            }
            let mut c: usize = 0;
            while c < run.count
                invariant
                    classes == expand(runs@),
                    self@ == runs@,
                    len == text@.len(),
                    j < runs@.len(),
                    run == runs@[j as int],
                    pos == expand(runs@.take(j as int)).len(),
                    pos + run.count <= len,
                    c <= run.count,
                    expand(runs@.take(j as int + 1)).len() <= classes.len(),
                    forall|k: int|
                        0 <= k < expand(runs@.take(j as int + 1)).len() ==> #[trigger] expand(
                            runs@.take(j as int + 1),
                        )[k] == classes[k],
                    expand(runs@.take(j as int + 1)) == expand(runs@.take(j as int)) + Seq::new(
                        run.count as nat,
                        |_k: int| run.class,
                    ),
                    forall|k: int|
                        0 <= k < pos ==> class_admits(
                            #[trigger] expand(runs@.take(j as int))[k],
                            text@[k],
                        ),
                    forall|k: int| pos <= k < pos + c ==> class_admits(run.class, #[trigger] text@[k]),
                decreases run.count - c,
            {
                let ch = text.get_char(pos + c);
                if !admits(run.class, ch) {
                    proof {
                        let k = pos + c;
                        assert(expand(runs@.take(j as int + 1))[k as int] == run.class);
                        assert(classes[k as int] == run.class);
                    }
                    return false;
                }
                c = c + 1;
            }
            proof {
                let next = expand(runs@.take(j as int + 1));
                assert forall|k: int| 0 <= k < pos + run.count implies class_admits(
                    #[trigger] next[k],
                    text@[k],
                ) by {
                    if k < pos {
                        assert(next[k] == expand(runs@.take(j as int))[k]);
                    } else {
                        assert(class_admits(run.class, text@[k]));
                    }
                }
            }
            pos = pos + run.count;
            j = j + 1;
        }
        proof {
            assert(runs@.take(j as int) =~= runs@);
        }
        pos == len
    }
}

} // verus!
