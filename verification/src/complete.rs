//! Word completion for the interactive prompt: finds the word under the
//! cursor and offers every vocabulary word that begins with it.

use vstd::prelude::*;
use vstd::string::StrSliceExecFns;
use crate::commands::starts_with;
use crate::text::copy_range;

verus! {

/// The characters that end a word at the prompt.
pub open spec fn is_break_char(c: char) -> bool {
    c == ' ' || c == '(' || c == ')' || c == ',' || c == '.'
}

fn is_break_char_exec(c: char) -> (r: bool)
    ensures
        r == is_break_char(c),
{
    c == ' ' || c == '(' || c == ')' || c == ',' || c == '.'
}

/// Where the word under the cursor starts: one past the last break character
/// before `pos`, or the line's start.
pub open spec fn word_start_spec(line: Seq<char>, pos: int) -> int
    decreases pos,
{
    if pos <= 0 {
        0
    } else if is_break_char(line[pos - 1]) {
        pos
    } else {
        word_start_spec(line, pos - 1)
    }
}

pub proof fn lemma_word_start_bounds(line: Seq<char>, pos: int)
    requires
        0 <= pos,
    ensures
        0 <= word_start_spec(line, pos) <= pos,
    decreases pos,
{
    if pos > 0 && !is_break_char(line[pos - 1]) {
        lemma_word_start_bounds(line, pos - 1);
    }
}

/// Whether a vocabulary word begins with the word under the cursor.
pub open spec fn word_pred(line: Seq<char>, pos: int) -> spec_fn(Seq<char>) -> bool {
    |w: Seq<char>| starts_with(w, line.subrange(word_start_spec(line, pos), pos))
}

fn str_has_prefix_chars(w: &str, p: &Vec<char>) -> (r: bool)
    ensures
        r == starts_with(w@, p@),
{
    let n = w.unicode_len();
    let m = p.len();
    if m > n {
        return false;
    }
    for i in 0..m
        invariant
            m == p@.len() <= n == w@.len(),
            forall|k: int| 0 <= k < i ==> w@[k] == p@[k],
    {
        if w.get_char(i) != p[i] {
            assert(w@.take(m as int)[i as int] != p@[i as int]);
            return false;
        }
    }
    assert(w@.take(m as int) =~= p@);
    true
}

/// Completes words at the prompt from a fixed vocabulary.
pub struct SimpleWordCompleter {
    pub words: Vec<String>,
}

impl SimpleWordCompleter {
    /// A completer over the given vocabulary.
    pub fn new(words: Vec<String>) -> (r: SimpleWordCompleter)
        ensures
            r.words == words,
    {
        SimpleWordCompleter { words }
    }

    /// The completion of the word ending at `pos`: where that word starts,
    /// and every vocabulary word that begins with it, in order.
    pub fn complete(&self, line: &Vec<char>, pos: usize) -> (r: (usize, Vec<String>))
        requires
            pos <= line@.len(),
        ensures
            r.0 == word_start_spec(line@, pos as int),
            r.1@.map_values(|s: String| s@) == self.words@.map_values(|s: String| s@).filter(
                word_pred(line@, pos as int),
            ),
    {
        proof {
            lemma_word_start_bounds(line@, pos as int);
        }
        let mut start: usize = pos;
        loop
            invariant
                start <= pos <= line@.len(),
                word_start_spec(line@, pos as int) == word_start_spec(line@, start as int),
            ensures
                start <= pos,
                start == word_start_spec(line@, pos as int),
            decreases start,
        {
            if start > 0 && !is_break_char_exec(line[start - 1]) {
                start -= 1;
            } else {
                break ;
            }
        }
        let word = copy_range(line, start, pos);
        let ghost views = self.words@.map_values(|s: String| s@);
        let ghost pred = word_pred(line@, pos as int);
        let mut out: Vec<String> = Vec::new();
        let n = self.words.len();
        for i in 0..n
            invariant
                n == self.words@.len(),
                views == self.words@.map_values(|s: String| s@),
                word@ == line@.subrange(word_start_spec(line@, pos as int), pos as int),
                pred == word_pred(line@, pos as int),
                out@.map_values(|s: String| s@) =~= views.take(i as int).filter(pred),
        {
            let ghost out_before = out@.map_values(|s: String| s@);
            if str_has_prefix_chars(self.words[i].as_str(), &word) {
                out.push(self.words[i].clone());
            }
            proof {
                reveal(Seq::filter);
                assert(views.take(i + 1).drop_last() =~= views.take(i as int));
                assert(views.take(i + 1).last() == views[i as int]);
                assert(views[i as int] == self.words@[i as int]@);
                assert(pred(views[i as int]) == starts_with(views[i as int], word@));
                if pred(views[i as int]) {
                    assert(out@.map_values(|s: String| s@) =~= out_before.push(
                        views[i as int],
                    ));
                } else {
                    assert(out@.map_values(|s: String| s@) =~= out_before);
                }
                Seq::filter_distributes_over_add(
                    views.take(i as int),
                    seq![views[i as int]],
                    pred,
                );
                assert(views.take(i + 1) =~= views.take(i as int) + seq![views[i as int]]);
                assert(seq![views[i as int]].filter(pred).len() <= 1);
                if pred(views[i as int]) {
                    assert(seq![views[i as int]].filter(pred) =~= seq![views[i as int]]);
                } else {
                    assert(seq![views[i as int]].filter(pred) =~= Seq::<Seq<char>>::empty());
                }
                assert(out@.map_values(|s: String| s@) =~= views.take(i + 1).filter(pred));
            }
        }
        assert(views.take(n as int) =~= views);
        assert(out@.map_values(|s: String| s@) =~= views.filter(word_pred(line@, pos as int)));
        (start, out)
    }
}

} // verus!
