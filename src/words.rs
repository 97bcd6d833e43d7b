//! Splitting text on spaces, joining words, and replacing spaces.
use vstd::prelude::*;
use vstd::string::*;

verus! {

/// The words of `s`: the runs of characters between single spaces, in order.
/// Neighbouring spaces, and spaces at either end, give empty words; the
/// empty string is one empty word.
pub open spec fn words_of(s: Seq<char>) -> Seq<Seq<char>>
    decreases s.len(),
{
    if s.len() == 0 {
        seq![Seq::empty()]
    } else {
        let prev = words_of(s.drop_last());
        if s.last() == ' ' {
            prev.push(Seq::empty())
        } else {
            prev.update(prev.len() - 1, prev.last().push(s.last()))
        }
    }
}

/// The words of `ws` in order, with `sep` between each two neighbours.
pub open spec fn joined(ws: Seq<Seq<char>>, sep: Seq<char>) -> Seq<char>
    decreases ws.len(),
{
    if ws.len() == 0 {
        Seq::empty()
    } else if ws.len() == 1 {
        ws[0]
    } else {
        joined(ws.drop_last(), sep) + sep + ws.last()
    }
}

/// `s` with every space replaced by `sep`.
pub open spec fn replaced(s: Seq<char>, sep: char) -> Seq<char> {
    s.map_values(|c: char| if c == ' ' { sep } else { c })
}

/// Every word of `s` has at least one element.
pub proof fn lemma_words_nonempty(s: Seq<char>)
    ensures
        words_of(s).len() >= 1,
    decreases s.len(),
{
    if s.len() > 0 {
        lemma_words_nonempty(s.drop_last());
    }
}

/// Splits `s` at every space, keeping empty words.
pub fn split_spaces<'a>(s: &'a str) -> (r: Vec<&'a str>)
    ensures
        r@.len() == words_of(s@).len(),
        forall|i: int| 0 <= i < r@.len() ==> #[trigger] r@[i]@ == words_of(s@)[i],
{
    let n: usize = s.unicode_len();
    let mut r: Vec<&'a str> = Vec::new();
    let mut start: usize = 0;
    let mut i: usize = 0;
    while i < n
        invariant
            n == s@.len(),
            start <= i <= n,
            words_of(s@.subrange(0, i as int)).len() == r@.len() + 1,
            forall|k: int| 0 <= k < r@.len() ==> #[trigger] r@[k]@ == words_of(s@.subrange(0, i as int))[k],
            words_of(s@.subrange(0, i as int)).last() == s@.subrange(start as int, i as int),
        decreases n - i,
    {
        let c: char = s.get_char(i);
        proof {
            lemma_words_nonempty(s@.subrange(0, i as int));
            assert(s@.subrange(0, i + 1).drop_last() == s@.subrange(0, i as int));
        }
        if c == ' ' {
            let w: &'a str = s.substring_char(start, i);
            r.push(w);
            start = i + 1;
            proof {
                assert(s@.subrange(start as int, i + 1) == Seq::<char>::empty());
            }
        } else {
            proof {
                assert(s@.subrange(start as int, i + 1) == s@.subrange(start as int, i as int).push(c));
            }
        }
        i = i + 1;
    }
    let w: &'a str = s.substring_char(start, n);
    r.push(w);
    proof {
        assert(s@.subrange(0, n as int) == s@);
        lemma_words_nonempty(s@);
    }
    r
}

/// Joins `ws` with `sep` between each two neighbours.
pub fn join_words(ws: &Vec<String>, sep: &str) -> (r: String)
    ensures
        r@ == joined(ws@.map_values(|w: String| w@), sep@),
{
    let ghost views = ws@.map_values(|w: String| w@);
    let mut r: String = String::new();
    let mut i: usize = 0;
    while i < ws.len()
        invariant
            0 <= i <= ws@.len(),
            views == ws@.map_values(|w: String| w@),
            r@ == joined(views.subrange(0, i as int), sep@),
        decreases ws@.len() - i,
    {
        proof {
            assert(views.subrange(0, i + 1).drop_last() == views.subrange(0, i as int));
        }
        if i > 0 {
            r.append(sep);
        }
        r.append(ws[i].as_str());
        i = i + 1;
    }
    proof {
        assert(views.subrange(0, ws@.len() as int) == views);
    }
    r
}

/// Returns `s` with every space replaced by `sep`.
pub fn replace_spaces(s: &str, sep: &str) -> (r: String)
    requires
        sep@.len() == 1,
    ensures
        r@ == replaced(s@, sep@[0]),
{
    let n: usize = s.unicode_len();
    let mut r: String = String::new();
    let mut i: usize = 0;
    while i < n
        invariant
            n == s@.len(),
            i <= n,
            sep@.len() == 1,
            r@ == replaced(s@.subrange(0, i as int), sep@[0]),
        decreases n - i,
    {
        if s.get_char(i) == ' ' {
            r.append(sep);
        } else {
            r.append(s.substring_char(i, i + 1));
        }
        proof {
            assert(replaced(s@.subrange(0, i + 1), sep@[0]) == replaced(s@.subrange(0, i as int), sep@[0]).push(
                if s@[i as int] == ' ' { sep@[0] } else { s@[i as int] },
            ));
            assert(sep@ == seq![sep@[0]]);
        }
        i = i + 1;
    }
    proof {
        assert(s@.subrange(0, n as int) == s@);
    }
    r
}

} // verus!
