use vstd::prelude::*;

use itertools::Itertools;

use crate::matcher::same_text;
use crate::pattern::{
    split_words, split_words_at, strs_view, usizes_view, word_ends, word_ends_in, words,
};
use crate::split::{skip_space, skip_word, trimmed};

verus! {

/// `items` with `sep` between each two of them.
pub open spec fn joined(items: Seq<Seq<char>>, sep: Seq<char>) -> Seq<char>
    decreases items.len(),
{
    if items.len() == 0 {
        Seq::empty()
    } else if items.len() == 1 {
        items[0]
    } else {
        joined(items.drop_last(), sep) + sep + items.last()
    }
}

/// Relies on `itertools::Itertools::join`: the items written one after the other, with
/// `sep` between each two of them.
#[verifier::external_body]
fn join_with(items: &Vec<&str>, sep: &str) -> (r: String)
    ensures
        r@ == joined(strs_view(items@), sep@),
{
    items.iter().join(sep)
}

/// The suggestion text: the shared prefix as the first template wrote it, then, when there
/// are alternatives, a space and the alternatives joined by `|`.
pub open spec fn syntax_text(prefix_text: Seq<char>, choice: Seq<Seq<char>>) -> Seq<char> {
    if choice.len() == 0 {
        prefix_text
    } else {
        prefix_text + seq![' '] + joined(choice, seq!['|'])
    }
}

/// Where the text of the first `n` words of `s` ends: all of `s` when `n` covers every
/// word, else the end of word `n - 1`.
pub open spec fn prefix_cut(s: Seq<char>, n: int) -> int {
    if n >= words(s).len() {
        s.len() as int
    } else if n <= 0 {
        0
    } else {
        word_ends(s)[n - 1]
    }
}

/// What the accumulator holds: the first template's text, where its shared part ends, the
/// shared words and the alternatives.
pub ghost struct SyntaxView {
    pub text: Seq<char>,
    pub cut: int,
    pub prefix: Seq<Seq<char>>,
    pub choice: Seq<Seq<char>>,
}

/// The shared prefix as the first template wrote it, surrounding whitespace left out.
pub open spec fn prefix_text(v: SyntaxView) -> Seq<char> {
    trimmed(v.text, 0, v.cut)
}

/// The accumulator after its first template.
pub open spec fn first_syntax(t: Seq<char>) -> SyntaxView {
    SyntaxView { text: t, cut: t.len() as int, prefix: words(t), choice: Seq::empty() }
}

/// `choice` with the words of `w` that it does not list yet.
pub open spec fn with_alternative(choice: Seq<Seq<char>>, w: Seq<Seq<char>>) -> Seq<Seq<char>> {
    if w.len() == 0 || choice.contains(w[0]) {
        choice
    } else {
        choice.push(w[0])
    }
}

/// `p` is a prefix of `t`.
pub open spec fn is_prefix(p: Seq<Seq<char>>, t: Seq<Seq<char>>) -> bool {
    p.len() <= t.len() && t.subrange(0, p.len() as int) == p
}

/// Length of the common prefix of `p` and `c`, counting from `i`.
pub open spec fn common_len_from(p: Seq<Seq<char>>, c: Seq<Seq<char>>, i: int) -> int
    decreases p.len() - i,
{
    if i < 0 || i >= p.len() || i >= c.len() || p[i] != c[i] {
        i
    } else {
        common_len_from(p, c, i + 1)
    }
}

pub open spec fn common_len(p: Seq<Seq<char>>, c: Seq<Seq<char>>) -> int {
    common_len_from(p, c, 0)
}

/// The word at `i`, if there is one.
pub open spec fn word_at(c: Seq<Seq<char>>, i: int) -> Seq<Seq<char>> {
    if 0 <= i < c.len() {
        seq![c[i]]
    } else {
        Seq::empty()
    }
}

/// The accumulator after the template with words `c` joins `v`. Where the prefix runs out,
/// the word of `c` at that point is one more alternative (unless already listed), and the
/// earlier alternatives stay: the prefix did not get shorter, so they still follow it.
/// Where they differ, the prefix is cut there and the two differing words are the only
/// alternatives.
pub open spec fn joined_syntax(v: SyntaxView, c: Seq<Seq<char>>) -> SyntaxView {
    let p = v.prefix;
    let i = common_len(p, c);
    if i >= p.len() {
        SyntaxView { choice: with_alternative(v.choice, word_at(c, i)), ..v }
    } else {
        SyntaxView {
            cut: prefix_cut(v.text, i),
            prefix: p.subrange(0, i),
            choice: seq![p[i]] + word_at(c, i),
            ..v
        }
    }
}

proof fn lemma_common_len(p: Seq<Seq<char>>, c: Seq<Seq<char>>, i: int)
    requires
        0 <= i <= p.len(),
        i <= c.len(),
        p.subrange(0, i) == c.subrange(0, i),
    ensures
        i <= common_len_from(p, c, i) <= p.len(),
        common_len_from(p, c, i) <= c.len(),
        p.subrange(0, common_len_from(p, c, i)) == c.subrange(0, common_len_from(p, c, i)),
        common_len_from(p, c, i) < p.len() && common_len_from(p, c, i) < c.len() ==> p[common_len_from(p, c, i)]
            != c[common_len_from(p, c, i)],
    decreases p.len() - i,
{
    if !(i >= p.len() || i >= c.len() || p[i] != c[i]) {
        assert(p.subrange(0, i + 1) =~= p.subrange(0, i).push(p[i]));
        assert(c.subrange(0, i + 1) =~= c.subrange(0, i).push(c[i]));
        lemma_common_len(p, c, i + 1);
    }
}

/// Collects the templates of handlers whose command matched but whose arguments did not,
/// as the longest word prefix they all share and the words they part with.
pub struct FindSharedSyntax<'a> {
    text: &'a str,
    ends: Vec<usize>,
    cut: usize,
    prefix: Vec<&'a str>,
    choice: Vec<&'a str>,
    /// The word sequences of every template taken in so far.
    seen: Ghost<Seq<Seq<Seq<char>>>>,
}

proof fn lemma_word_ends_bounds(s: Seq<char>, i: int, e: int)
    requires
        0 <= i <= e <= s.len(),
    ensures
        forall|k: int| 0 <= k < word_ends_in(s, i, e).len() ==> i < #[trigger] word_ends_in(s, i, e)[k] <= e,
    decreases e - i,
{
    let ws = skip_space(s, i, e);
    let we = skip_word(s, ws, e);
    if !(ws >= e || we <= i || we > e) {
        lemma_word_ends_bounds(s, we, e);
        assert forall|k: int| 0 <= k < word_ends_in(s, i, e).len() implies i < #[trigger] word_ends_in(
            s,
            i,
            e,
        )[k] <= e by {
            if k > 0 {
                assert(word_ends_in(s, i, e)[k] == word_ends_in(s, we, e)[k - 1]);
            }
        }
    }
}

impl<'a> FindSharedSyntax<'a> {
    pub closed spec fn view(&self) -> SyntaxView {
        SyntaxView {
            text: self.text@,
            cut: self.cut as int,
            prefix: strs_view(self.prefix@),
            choice: strs_view(self.choice@),
        }
    }

    pub closed spec fn seen(&self) -> Seq<Seq<Seq<char>>> {
        self.seen@
    }

    pub closed spec fn inner_wf(&self) -> bool {
        &&& usizes_view(self.ends@) == word_ends(self.text@)
        &&& self.ends.len() == words(self.text@).len()
        &&& self.seen@.len() >= 1
        &&& self.seen@[0] == words(self.text@)
        &&& self.cut as int == prefix_cut(self.text@, self.prefix.len() as int)
        &&& self.cut <= self.text@.len()
    }

    /// The shared prefix starts every template taken in so far, and no alternative is
    /// listed twice.
    pub open spec fn wf(&self) -> bool {
        &&& self.inner_wf()
        &&& forall|k: int|
            0 <= k < self.seen().len() ==> is_prefix(self.view().prefix, #[trigger] self.seen()[k])
        &&& self.view().choice.no_duplicates()
    }

    /// Starts from one template: all of it is shared, with no alternatives.
    pub fn new(command: &'a str) -> (r: Self)
        ensures
            r.wf(),
            r.view() == first_syntax(command@),
            r.seen() == seq![words(command@)],
    {
        let (prefix, ends) = split_words_at(command);
        let cut = crate::split::chars_of(command).len();
        let ghost first = seq![words(command@)];
        let seen = Ghost(first);
        let r = FindSharedSyntax { text: command, ends, cut, prefix, choice: Vec::new(), seen };
        proof {
            crate::pattern::lemma_words_ends_len(command@, 0, command@.len() as int);
            assert(strs_view(r.choice@) =~= Seq::<Seq<char>>::empty());
            assert(r.view().prefix.subrange(0, r.view().prefix.len() as int) =~= r.view().prefix);
        }
        r
    }

    /// Takes in one more template.
    pub fn append(&mut self, command: &'a str)
        requires
            old(self).wf(),
        ensures
            final(self).wf(),
            final(self).seen() == old(self).seen().push(words(command@)),
            final(self).view() == joined_syntax(old(self).view(), words(command@)),
    {
        let c = split_words(command);
        let ghost v = self.view();
        let ghost p = v.prefix;
        let ghost cw = words(command@);
        let ghost seen = self.seen@;
        let mut i: usize = 0;
        proof {
            assert(p.subrange(0, 0) =~= cw.subrange(0, 0));
            lemma_common_len(p, cw, 0);
            assert forall|k: int| 0 <= k < seen.len() implies is_prefix(p, #[trigger] seen[k]) by {
                assert(is_prefix(old(self).view().prefix, old(self).seen()[k]));
            }
        }
        while i < self.prefix.len() && i < c.len() && same_text(self.prefix[i], c[i])
            invariant
                p == strs_view(self.prefix@),
                cw == strs_view(c@),
                i <= self.prefix.len(),
                i <= c.len(),
                common_len_from(p, cw, i as int) == common_len(p, cw),
            decreases self.prefix.len() - i,
        {
            assert(p[i as int] == self.prefix@[i as int]@);
            assert(cw[i as int] == c@[i as int]@);
            i = i + 1;
        }
        proof {
            if i < self.prefix.len() && i < c.len() {
                assert(p[i as int] == self.prefix@[i as int]@);
                assert(cw[i as int] == c@[i as int]@);
            }
            assert(common_len(p, cw) == i);
            lemma_common_len(p, cw, 0);
            assert(is_prefix(p, seen[0]));
            lemma_word_ends_bounds(self.text@, 0, self.text@.len() as int);
        }
        let ghost old_choice = self.choice@;
        if i >= self.prefix.len() {
            if i < c.len() {
                let w = c[i];
                let mut listed = false;
                let mut k: usize = 0;
                while k < self.choice.len()
                    invariant
                        self.choice@ == old_choice,
                        k <= self.choice.len(),
                        listed == exists|j: int| 0 <= j < k && (#[trigger] strs_view(old_choice)[j]) == w@,
                    decreases self.choice.len() - k,
                {
                    assert(strs_view(old_choice)[k as int] == old_choice[k as int]@);
                    if same_text(self.choice[k], w) {
                        listed = true;
                    }
                    proof {
                        if strs_view(old_choice)[k as int] == w@ {
                            assert(0 <= k < k + 1);
                        }
                    }
                    k = k + 1;
                }
                if !listed {
                    self.choice.push(w);
                }
                proof {
                    let oc = strs_view(old_choice);
                    assert(word_at(cw, i as int) =~= seq![w@]);
                    if listed {
                        let j = choose|j: int| 0 <= j < oc.len() && (#[trigger] oc[j]) == w@;
                        assert(oc.contains(w@));
                    } else {
                        assert(!oc.contains(w@));
                        assert(self.view().choice =~= oc.push(w@));
                    }
                }
            } else {
                assert(word_at(cw, i as int) =~= Seq::<Seq<char>>::empty());
            }
        } else {
            let diverging = self.prefix[i];
            self.prefix.truncate(i);
            self.choice.clear();
            self.choice.push(diverging);
            if i < c.len() {
                self.choice.push(c[i]);
            }
            self.cut = if i == 0 {
                0
            } else {
                self.ends[i - 1]
            };
            proof {
                if i > 0 {
                    assert(usizes_view(self.ends@)[i - 1] == self.ends@[i - 1] as int);
                }
                assert(self.view().prefix =~= p.subrange(0, i as int));
                assert(self.view().choice =~= seq![p[i as int]] + word_at(cw, i as int));
            }
        }
        let ghost all = seen.push(cw);
        self.seen = Ghost(all);
        proof {
            let np = self.view().prefix;
            assert forall|k: int| 0 <= k < self.seen().len() implies is_prefix(
                np,
                #[trigger] self.seen()[k],
            ) by {
                if k < seen.len() {
                    let t = seen[k];
                    assert(is_prefix(p, t));
                    assert(t.subrange(0, np.len() as int) =~= p.subrange(0, np.len() as int));
                    assert(np =~= p.subrange(0, np.len() as int));
                } else {
                    assert(cw.subrange(0, np.len() as int) =~= np);
                }
            }
            assert(self.seen@[0] == seen[0]);
        }
    }

    /// The suggestion text: the shared prefix as the first template wrote it, then the
    /// alternatives separated by `|`.
    pub fn to_string(&self) -> (r: String)
        requires
            self.wf(),
        ensures
            r@ == syntax_text(prefix_text(self.view()), self.view().choice),
    {
        proof {
            reveal_strlit(" ");
            reveal_strlit("|");
        }
        assert(" "@ =~= seq![' ']);
        assert("|"@ =~= seq!['|']);
        let mut text = String::from_str(crate::split::trimmed_str(self.text, 0, self.cut));
        if self.choice.len() == 0 {
            return text;
        }
        let alternatives = join_with(&self.choice, "|");
        text.append(" ");
        text.append(alternatives.as_str());
        text
    }
}

/// Every template that took part starts with the shared prefix, however many took part, and
/// no alternative is listed twice.
pub proof fn lemma_shared_prefix_starts_all(s: FindSharedSyntax, k: int)
    requires
        s.wf(),
        0 <= k < s.seen().len(),
    ensures
        is_prefix(s.view().prefix, s.seen()[k]),
        s.view().choice.no_duplicates(),
{
}

/// A fresh accumulator gives back its template, trimmed, with its own spacing.
pub proof fn lemma_first_template_text(t: Seq<char>)
    ensures
        syntax_text(prefix_text(first_syntax(t)), first_syntax(t).choice) == crate::split::trimmed(
            t,
            0,
            t.len() as int,
        ),
{
}

} // verus!
