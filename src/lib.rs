//! Conversion of space-separated text into common identifier conventions.
use vstd::prelude::*;
use vstd::string::*;

pub mod fold;
pub mod words;

use crate::fold::{char_to_upper, char_upper_of, lower_of, to_lower, to_upper, upper_of};
use crate::words::{join_words, joined, replace_spaces, replaced, split_spaces, words_of};

verus! {

/// The naming conventions that `enforce_case` can produce.
#[allow(non_camel_case_types)]
#[derive(Clone, Copy, Debug, PartialEq, Eq, Structural)]
pub enum ValVerCase {
    kebab__case,
    Title__Kebab__Case,
    SCREAMING__KEBAB__CASE,
    snake_case,
    SCREAMING_SNAKE_CASE,
    camelCase,
    PascalCase,
}

/// `s` with its first character replaced by that character's uppercase
/// mapping and the rest left as it is; the empty string stays empty.
pub open spec fn capitalised(s: Seq<char>) -> Seq<char> {
    if s.len() == 0 {
        Seq::empty()
    } else {
        char_upper_of(s[0]) + s.drop_first()
    }
}

/// `words` with every word at position `index` or later capitalised and the
/// words before it left as they are.
pub open spec fn capitalised_from(words: Seq<Seq<char>>, index: int) -> Seq<Seq<char>> {
    Seq::new(words.len(), |i: int| if i < index { words[i] } else { capitalised(words[i]) })
}

/// The text that `enforce_case` produces for `case` from `s`.
pub open spec fn enforced(case: ValVerCase, s: Seq<char>) -> Seq<char> {
    match case {
        ValVerCase::kebab__case => lower_of(replaced(s, '-')),
        ValVerCase::Title__Kebab__Case => joined(capitalised_from(words_of(s), 0), seq!['-']),
        ValVerCase::SCREAMING__KEBAB__CASE => upper_of(replaced(s, '-')),
        ValVerCase::snake_case => lower_of(replaced(s, '_')),
        ValVerCase::SCREAMING_SNAKE_CASE => upper_of(replaced(s, '_')),
        ValVerCase::camelCase => {
            let ws = capitalised_from(words_of(s), 1);
            joined(ws.update(0, lower_of(ws[0])), Seq::empty())
        },
        ValVerCase::PascalCase => joined(capitalised_from(words_of(s), 0), Seq::empty()),
    }
}

impl ValVerCase {
    /// Returns `target_string` with its first character uppercased.
    pub fn capitalise_first(target_string: &str) -> (r: String)
        ensures
            r@ == capitalised(target_string@),
    {
        let n: usize = target_string.unicode_len();
        if n == 0 {
            return String::new();
        }
        let first = char_to_upper(target_string.get_char(0));
        let rest = target_string.substring_char(1, n);
        let r = first.concat(rest);
        assert(rest@ == target_string@.drop_first());
        r
    }

    /// Returns `vector` with every string from position `index` on capitalised;
    /// the strings before `index` are copied unchanged.
    pub fn capitalise_first_for_each_in_vector(index: usize, vector: &Vec<&str>) -> (r: Vec<String>)
        ensures
            r@.len() == vector@.len(),
            forall|i: int|
                0 <= i < r@.len() ==> #[trigger] r@[i]@ == (if i < index {
                    vector@[i]@
                } else {
                    capitalised(vector@[i]@)
                }),
    {
        let mut r: Vec<String> = Vec::new();
        let mut i: usize = 0;
        while i < vector.len()
            invariant
                i <= vector@.len(),
                r@.len() == i,
                forall|k: int|
                    0 <= k < i ==> #[trigger] r@[k]@ == (if k < index {
                        vector@[k]@
                    } else {
                        capitalised(vector@[k]@)
                    }),
            decreases vector@.len() - i,
        {
            let w: &str = vector[i];
            if i < index {
                r.push(String::from_str(w));
            } else {
                r.push(ValVerCase::capitalise_first(w));
            }
            i = i + 1;
        }
        r
    }
}

/// Returns `string` rewritten in the convention `case`.
///
/// The kebab and snake conventions replace each space by their separator and
/// fold the whole text to one case. The others split the text at spaces,
/// capitalise words, and join them with `-` (Title-Kebab-Case) or with
/// nothing (camelCase, whose first word is lowercased, and PascalCase).
pub fn enforce_case(case: ValVerCase, string: &str) -> (r: String)
    ensures
        r@ == enforced(case, string@),
        string@.len() == 0 ==> r@.len() == 0,
{
    match case {
        ValVerCase::kebab__case => {
            proof { reveal_strlit("-"); }
            let dashed: String = replace_spaces(string, "-");
            to_lower(dashed.as_str())
        },
        ValVerCase::Title__Kebab__Case => {
            let split_string: Vec<&str> = split_spaces(string);
            let capitalised_split_string: Vec<String> =
                ValVerCase::capitalise_first_for_each_in_vector(0, &split_string);
            proof { reveal_strlit("-"); }
            let r: String = join_words(&capitalised_split_string, "-");
            proof {
                assert(capitalised_split_string@.map_values(|w: String| w@) =~= capitalised_from(words_of(string@), 0));
                assert("-"@ == seq!['-']);
            }
            r
        },
        ValVerCase::SCREAMING__KEBAB__CASE => {
            proof { reveal_strlit("-"); }
            let dashed: String = replace_spaces(string, "-");
            to_upper(dashed.as_str())
        },
        ValVerCase::snake_case => {
            proof { reveal_strlit("_"); }
            let underscored: String = replace_spaces(string, "_");
            to_lower(underscored.as_str())
        },
        ValVerCase::SCREAMING_SNAKE_CASE => {
            proof { reveal_strlit("_"); }
            let underscored: String = replace_spaces(string, "_");
            to_upper(underscored.as_str())
        },
        ValVerCase::camelCase => {
            let split_string: Vec<&str> = split_spaces(string);
            proof { crate::words::lemma_words_nonempty(string@); }
            let mut capitalised_split_string: Vec<String> =
                ValVerCase::capitalise_first_for_each_in_vector(1, &split_string);
            let lower_first_word: String = to_lower(capitalised_split_string[0].as_str());
            capitalised_split_string.set(0, lower_first_word);
            proof { reveal_strlit(""); }
            let r: String = join_words(&capitalised_split_string, "");
            proof {
                let ws = capitalised_from(words_of(string@), 1);
                assert(capitalised_split_string@.map_values(|w: String| w@) =~= ws.update(0, lower_of(ws[0])));
                assert(""@ == Seq::<char>::empty());
            }
            r
        },
        ValVerCase::PascalCase => {
            let split_string: Vec<&str> = split_spaces(string);
            let capitalised_split_string: Vec<String> =
                ValVerCase::capitalise_first_for_each_in_vector(0, &split_string);
            proof { reveal_strlit(""); }
            let r: String = join_words(&capitalised_split_string, "");
            proof {
                assert(capitalised_split_string@.map_values(|w: String| w@) =~= capitalised_from(words_of(string@), 0));
                assert(""@ == Seq::<char>::empty());
            }
            r
        },
    }
}

} // verus!

verus! {

/// Capitalising a non-empty list of words from the start keeps its length,
/// and its first word becomes the capitalised first word.
pub proof fn lemma_capitalise_all_keeps_length(words: Seq<Seq<char>>)
    requires
        words.len() > 0,
    ensures
        capitalised_from(words, 0).len() == words.len(),
        capitalised_from(words, 0)[0] == capitalised(words[0]),
{
}

/// For the kebab, snake and screaming conventions, text that has no spaces
/// and is already folded to the convention's case is left as it is, so a
/// second conversion changes nothing.
pub proof fn lemma_enforce_twice_on_conforming(case: ValVerCase, s: Seq<char>)
    requires
        case is kebab__case || case is snake_case || case is SCREAMING__KEBAB__CASE
            || case is SCREAMING_SNAKE_CASE,
        !s.contains(' '),
        case is kebab__case || case is snake_case ==> lower_of(s) == s,
        case is SCREAMING__KEBAB__CASE || case is SCREAMING_SNAKE_CASE ==> upper_of(s) == s,
    ensures
        enforced(case, s) == s,
        enforced(case, enforced(case, s)) == enforced(case, s),
{
    assert(replaced(s, '-') =~= s);
    assert(replaced(s, '_') =~= s);
}

} // verus!
