use vstd::prelude::*;

use crate::argument::{accepts, argument_accepts, ArgumentKind};
use crate::error::{error_view, CommandError, ErrorView};
use crate::pattern::{tokens_view, words, words_in, CommandPattern, Token};
use crate::split::{
    chars_of, is_space, lemma_skip_space_back_bounds, lemma_skip_space_bounds,
    lemma_skip_word_bounds, skip_space, skip_space_back, skip_word, skip_word_back, trimmed,
    CommandArguments,
};

verus! {

/// The end of the input a token takes its word from.
#[derive(Debug, Clone, Copy, PartialEq, Eq)]
pub enum Direction {
    Forwards,
    Backwards,
}

/// The word a token takes from `s[st..en]` and the unconsumed range after it. A token that
/// takes all takes the rest, trimmed, and leaves nothing.
pub open spec fn step_word(s: Seq<char>, take_all: bool, dir: Direction, st: int, en: int) -> (
    Option<Seq<char>>,
    int,
    int,
) {
    if take_all {
        let t = trimmed(s, st, en);
        (
            if t.len() == 0 {
                None
            } else {
                Some(t)
            },
            0,
            0,
        )
    } else if dir is Forwards {
        let ws = skip_space(s, st, en);
        let we = skip_word(s, ws, en);
        if ws == en {
            (None, st, en)
        } else {
            (Some(s.subrange(ws, we)), we, en)
        }
    } else {
        let we = skip_space_back(s, st, en);
        let ws = skip_word_back(s, st, we);
        if we == st {
            (None, st, en)
        } else {
            (Some(s.subrange(ws, we)), st, ws)
        }
    }
}

/// What a token makes of the word it got.
pub open spec fn token_error(t: Token, w: Option<Seq<char>>) -> Option<ErrorView> {
    match t {
        Token::Command(c) => if w == Some(c) {
            None
        } else {
            Some(ErrorView::CommandMismatch)
        },
        Token::Subcommand(c) => if w == Some(c) {
            None
        } else {
            Some(ErrorView::SubcommandMismatch)
        },
        Token::Argument { optional, .. } => if w is None && !optional {
            Some(ErrorView::ArgumentMissing)
        } else {
            None
        },
        Token::TakeAll => None,
    }
}

/// One token matched against `s[st..en]`: the word it binds and the range left after it.
/// An argument's word must read as the argument's kind.
pub open spec fn token_step(
    t: Token,
    kind: ArgumentKind,
    s: Seq<char>,
    dir: Direction,
    st: int,
    en: int,
) -> Result<
    (Option<Seq<char>>, int, int),
    ErrorView,
> {
    let (w, a, b) = step_word(s, t.taking_all(), dir, st, en);
    match token_error(t, w) {
        Some(e) => Err(e),
        None => match (t, w) {
            (Token::Argument { name, .. }, Some(x)) => if accepts(kind, x) {
                Ok((w, a, b))
            } else {
                Err(ErrorView::NamedArgumentParsing(name))
            },
            _ => Ok((w, a, b)),
        },
    }
}

/// The word bound to each token, by the token's position.
pub type Bound = Seq<Option<Seq<char>>>;

/// Nothing but whitespace may be left.
pub open spec fn finish(s: Seq<char>, st: int, en: int, vals: Bound) -> Result<
    Bound,
    ErrorView,
> {
    if trimmed(s, st, en).len() > 0 {
        Err(ErrorView::ArgumentsLeftOver)
    } else {
        Ok(vals)
    }
}

/// The token that takes all, when there is one, goes last.
pub open spec fn last_step(ts: Seq<Token>, ks: Seq<ArgumentKind>, s: Seq<char>, k: int, st: int, en: int, vals: Bound) -> Result<
    Bound,
    ErrorView,
> {
    if 0 <= k < ts.len() {
        match token_step(ts[k], kind_at(ks, k), s, Direction::Forwards, st, en) {
            Err(e) => Err(e),
            Ok((w, a, b)) => finish(s, a, b, vals.update(k, w)),
        }
    } else {
        finish(s, st, en, vals)
    }
}

/// Tokens after the one that takes all are matched from the last one back, against the
/// end of the input.
pub open spec fn backward_from(
    ts: Seq<Token>,
    ks: Seq<ArgumentKind>,
    s: Seq<char>,
    j: int,
    k: int,
    st: int,
    en: int,
    vals: Bound,
) -> Result<Bound, ErrorView>
    decreases j - k,
{
    if j <= k || j >= ts.len() {
        last_step(ts, ks, s, k, st, en, vals)
    } else {
        match token_step(ts[j], kind_at(ks, j), s, Direction::Backwards, st, en) {
            Err(e) => Err(e),
            Ok((w, a, b)) => backward_from(ts, ks, s, j - 1, k, a, b, vals.update(j, w)),
        }
    }
}

/// Tokens before the one that takes all are matched in order against the front of the
/// input.
pub open spec fn forward_from(
    ts: Seq<Token>,
    ks: Seq<ArgumentKind>,
    s: Seq<char>,
    i: int,
    k: int,
    st: int,
    en: int,
    vals: Bound,
) -> Result<Bound, ErrorView>
    decreases k - i,
{
    if i >= k || i < 0 {
        backward_from(ts, ks, s, ts.len() - 1, k, st, en, vals)
    } else {
        match token_step(ts[i], kind_at(ks, i), s, Direction::Forwards, st, en) {
            Err(e) => Err(e),
            Ok((w, a, b)) => forward_from(ts, ks, s, i + 1, k, a, b, vals.update(i, w)),
        }
    }
}

/// Position of the first token at or after `i` that takes all, or the number of tokens.
pub open spec fn first_take_all_from(ts: Seq<Token>, i: int) -> int
    decreases ts.len() - i,
{
    if i >= ts.len() || i < 0 {
        ts.len() as int
    } else if ts[i].taking_all() {
        i
    } else {
        first_take_all_from(ts, i + 1)
    }
}

/// The kind of token `i`: plain text where none is given.
pub open spec fn kind_at(ks: Seq<ArgumentKind>, i: int) -> ArgumentKind {
    if 0 <= i < ks.len() {
        ks[i]
    } else {
        ArgumentKind::Text
    }
}

pub open spec fn no_words(n: nat) -> Bound {
    Seq::new(n, |i: int| None::<Seq<char>>)
}

/// The outcome of matching the tokens `ts` against the input `s`.
pub open spec fn match_spec(ts: Seq<Token>, ks: Seq<ArgumentKind>, s: Seq<char>) -> Result<Bound, ErrorView> {
    forward_from(ts, ks, s, 0, first_take_all_from(ts, 0), 0, s.len() as int, no_words(ts.len()))
}

pub open spec fn opt_view<'i>(o: Option<&'i str>) -> Option<Seq<char>> {
    match o {
        Some(x) => Some(x@),
        None => None,
    }
}

pub open spec fn opts_view<'i>(v: Seq<Option<&'i str>>) -> Bound {
    v.map_values(|o: Option<&'i str>| opt_view(o))
}

/// The two strings hold the same characters.
pub fn same_text(a: &str, b: &str) -> (r: bool)
    ensures
        r == (a@ == b@),
{
    let x = chars_of(a);
    let y = chars_of(b);
    if x.len() != y.len() {
        return false;
    }
    let mut i: usize = 0;
    while i < x.len()
        invariant
            x@ == a@,
            y@ == b@,
            x.len() == y.len(),
            i <= x.len(),
            forall|k: int| 0 <= k < i ==> x@[k] == y@[k],
        decreases x.len() - i,
    {
        if x[i] != y[i] {
            return false;
        }
        i = i + 1;
    }
    proof {
        assert(a@ =~= b@);
    }
    true
}

fn match_literal(word: Option<&str>, literal: &str) -> (r: bool)
    ensures
        r == (opt_view(word) == Some(literal@)),
{
    match word {
        None => false,
        Some(w) => same_text(w, literal),
    }
}

/// Matches one token against the cursor.
fn match_one<'p, 'i>(
    t: &CommandPattern<'p>,
    kind: ArgumentKind,
    dir: Direction,
    args: &mut CommandArguments<'i>,
) -> (r: Result<Option<&'i str>, CommandError<()>>)
    requires
        old(args).wf(),
    ensures
        final(args).wf(),
        final(args).text() == old(args).text(),
        match (r, token_step(t@, kind, old(args).text(), dir, old(args).start(), old(args).end())) {
            (Ok(w), Ok((w2, a, b))) => opt_view(w) == w2 && final(args).start() == a
                && final(args).end() == b,
            (Err(e), Err(f)) => error_view(e) == f,
            _ => false,
        },
{
    let word = if t.is_taking_all() {
        args.next_rest()
    } else {
        match dir {
            Direction::Forwards => args.next(),
            Direction::Backwards => args.next_back(),
        }
    };
    match t {
        CommandPattern::Command(c) => {
            if !match_literal(word, c) {
                return Err(CommandError::CommandMismatch);
            }
        },
        CommandPattern::Subcommand(c) => {
            if !match_literal(word, c) {
                return Err(CommandError::SubcommandMismatch);
            }
        },
        CommandPattern::Argument { name, optional, .. } => {
            match word {
                None => {
                    if !*optional {
                        return Err(CommandError::ArgumentMissing);
                    }
                },
                Some(w) => {
                    if !argument_accepts(kind, w) {
                        return Err(CommandError::NamedArgumentParsing((*name).to_owned(), ()));
                    }
                },
            }
        },
        CommandPattern::TakeAll => {},
    }
    Ok(word)
}

/// Matches a compiled template against a command text. The tokens before the first one
/// that takes all are matched in order from the front of the text, the tokens after it from
/// the last one back against the end of the text, and the token that takes all comes last
/// with whatever is left in between. The match is all or nothing: words left over make it
/// fail. On success, entry `i` of the result is the word that token `i` consumed (`None`
/// for an optional argument, or a bare `..`, that found nothing). The word of argument
/// token `i` must read as `kinds[i]` (plain text where `kinds` has no entry), else the match
/// fails with `NamedArgumentParsing` at that token.
pub fn match_typed<'p, 'i>(
    tokens: &Vec<CommandPattern<'p>>,
    kinds: &Vec<ArgumentKind>,
    input: &'i str,
) -> (r: Result<Vec<Option<&'i str>>, CommandError<()>>)
    ensures
        match (r, match_spec(tokens_view(tokens@), kinds@, input@)) {
            (Ok(v), Ok(w)) => opts_view(v@) == w,
            (Err(e), Err(f)) => error_view(e) == f,
            _ => false,
        },
{
    let ghost ts = tokens_view(tokens@);
    let ghost s = input@;
    let ghost ks = kinds@;
    let ghost goal = match_spec(ts, ks, s);
    let n = tokens.len();
    let mut k: usize = 0;
    while k < n && !tokens[k].is_taking_all()
        invariant
            k <= n,
            n == tokens.len(),
            ts == tokens_view(tokens@),
            first_take_all_from(ts, k as int) == first_take_all_from(ts, 0),
        decreases n - k,
    {
        assert(ts[k as int] == tokens@[k as int]@);
        k = k + 1;
    }
    proof {
        if k < n {
            assert(ts[k as int] == tokens@[k as int]@);
        }
    }
    let mut vals: Vec<Option<&'i str>> = Vec::new();
    let mut i: usize = 0;
    while i < n
        invariant
            i <= n,
            vals.len() == i,
            forall|x: int| 0 <= x < i ==> vals@[x] is None,
        decreases n - i,
    {
        vals.push(None);
        i = i + 1;
    }
    proof {
        assert(opts_view(vals@) =~= no_words(n as nat));
    }
    let mut args = CommandArguments::from_str(input);
    i = 0;
    while i < k
        invariant
            args.wf(),
            args.text() == s,
            i <= k <= n,
            n == tokens.len(),
            vals.len() == n,
            ts == tokens_view(tokens@),
            s == input@,
            goal == match_spec(ts, ks, s),
            ks == kinds@,
            forward_from(ts, ks, s, i as int, k as int, args.start(), args.end(), opts_view(vals@))
                == goal,
        decreases k - i,
    {
        assert(ts[i as int] == tokens@[i as int]@);
        match match_one(&tokens[i], kind_of(kinds, i), Direction::Forwards, &mut args) {
            Err(e) => {
                return Err(e);
            },
            Ok(w) => {
                let ghost before = vals@;
                vals.set(i, w);
                proof {
                    assert(opts_view(vals@) =~= opts_view(before).update(i as int, opt_view(w)));
                }
            },
        }
        i = i + 1;
    }
    let mut j: usize = n;
    while j > 0 && j - 1 > k
        invariant
            args.wf(),
            args.text() == s,
            k <= n,
            j <= n,
            n == tokens.len(),
            vals.len() == n,
            ts == tokens_view(tokens@),
            s == input@,
            goal == match_spec(ts, ks, s),
            ks == kinds@,
            backward_from(ts, ks, s, j - 1, k as int, args.start(), args.end(), opts_view(vals@))
                == goal,
        decreases j,
    {
        let t = j - 1;
        assert(ts[t as int] == tokens@[t as int]@);
        match match_one(&tokens[t], kind_of(kinds, t), Direction::Backwards, &mut args) {
            Err(e) => {
                return Err(e);
            },
            Ok(w) => {
                let ghost before = vals@;
                vals.set(t, w);
                proof {
                    assert(opts_view(vals@) =~= opts_view(before).update(t as int, opt_view(w)));
                }
            },
        }
        j = t;
    }
    if k < n {
        assert(ts[k as int] == tokens@[k as int]@);
        match match_one(&tokens[k], kind_of(kinds, k), Direction::Forwards, &mut args) {
            Err(e) => {
                return Err(e);
            },
            Ok(w) => {
                let ghost before = vals@;
                vals.set(k, w);
                proof {
                    assert(opts_view(vals@) =~= opts_view(before).update(k as int, opt_view(w)));
                }
            },
        }
    }
    if args.next_rest().is_some() {
        return Err(CommandError::ArgumentsLeftOver);
    }
    Ok(vals)
}

/// `match_typed` with every argument read as plain text.
pub fn match_tokens<'p, 'i>(tokens: &Vec<CommandPattern<'p>>, input: &'i str) -> (r: Result<
    Vec<Option<&'i str>>,
    CommandError<()>,
>)
    ensures
        match (r, match_spec(tokens_view(tokens@), Seq::empty(), input@)) {
            (Ok(v), Ok(w)) => opts_view(v@) == w,
            (Err(e), Err(f)) => error_view(e) == f,
            _ => false,
        },
{
    let kinds: Vec<ArgumentKind> = Vec::new();
    assert(kinds@ =~= Seq::<ArgumentKind>::empty());
    match_typed(tokens, &kinds, input)
}

fn kind_of(kinds: &Vec<ArgumentKind>, i: usize) -> (r: ArgumentKind)
    ensures
        r == kind_at(kinds@, i as int),
{
    if i < kinds.len() {
        kinds[i]
    } else {
        ArgumentKind::Text
    }
}

/// How many of the tokens in `[i, n)` bound a word.
pub open spec fn bound_count(w: Bound, i: int, n: int) -> int
    decreases n - i,
{
    if i >= n {
        0
    } else {
        (if w[i] is Some {
            1int
        } else {
            0int
        }) + bound_count(w, i + 1, n)
    }
}

proof fn lemma_step_words(s: Seq<char>, st: int, en: int)
    requires
        0 <= st <= en <= s.len(),
    ensures
        ({
            let ws = skip_space(s, st, en);
            let we = skip_word(s, ws, en);
            if ws == en {
                words_in(s, st, en).len() == 0 && trimmed(s, st, en).len() == 0
            } else {
                &&& st <= ws < we <= en
                &&& words_in(s, st, en) == seq![s.subrange(ws, we)] + words_in(s, we, en)
            }
        }),
{
    let ws = skip_space(s, st, en);
    lemma_skip_space_bounds(s, st, en);
    if ws < en {
        lemma_skip_word_bounds(s, ws, en);
        assert(skip_word(s, ws, en) == skip_word(s, ws + 1, en));
        lemma_skip_word_bounds(s, ws + 1, en);
    }
}

proof fn lemma_blank_rest(s: Seq<char>, st: int, en: int)
    requires
        0 <= st <= en <= s.len(),
        trimmed(s, st, en).len() == 0,
    ensures
        words_in(s, st, en).len() == 0,
{
    let ws = skip_space(s, st, en);
    lemma_skip_space_bounds(s, st, en);
    if ws < en {
        lemma_skip_space_back_bounds(s, ws, en);
        if skip_space_back(s, ws, en) <= ws {
            assert(!is_space(s[ws]));
            assert(is_space(s[ws]));
        }
    }
}

proof fn lemma_forward_consumes(
    ts: Seq<Token>,
    ks: Seq<ArgumentKind>,
    s: Seq<char>,
    i: int,
    st: int,
    en: int,
    vals: Bound,
    w: Bound,
)
    requires
        0 <= i <= ts.len(),
        vals.len() == ts.len(),
        forall|t: int| 0 <= t < ts.len() ==> !(#[trigger] ts[t]).taking_all(),
        0 <= st <= en <= s.len(),
        forward_from(ts, ks, s, i, ts.len() as int, st, en, vals) == Ok::<Bound, ErrorView>(w),
    ensures
        w.len() == ts.len(),
        forall|t: int| 0 <= t < i ==> w[t] == vals[t],
        words_in(s, st, en).len() == bound_count(w, i, ts.len() as int),
    decreases ts.len() - i,
{
    let n = ts.len() as int;
    if i >= n {
        assert(backward_from(ts, ks, s, n - 1, n, st, en, vals) == last_step(ts, ks, s, n, st, en, vals));
        assert(finish(s, st, en, vals) == Ok::<Bound, ErrorView>(w));
        lemma_blank_rest(s, st, en);
    } else {
        let (wd, a, b) = step_word(s, false, Direction::Forwards, st, en);
        lemma_step_words(s, st, en);
        assert(token_step(ts[i], kind_at(ks, i), s, Direction::Forwards, st, en) is Ok);
        lemma_forward_consumes(ts, ks, s, i + 1, a, b, vals.update(i, wd), w);
        if wd is None {
            assert(a == st && b == en);
        }
    }
}

/// Matching is all or nothing: when a template without a token that takes all matches,
/// every word of the input was bound to one of its tokens, so a word left over is never
/// part of a success.
pub proof fn lemma_match_consumes_every_word(ts: Seq<Token>, ks: Seq<ArgumentKind>, s: Seq<char>)
    requires
        forall|t: int| 0 <= t < ts.len() ==> !(#[trigger] ts[t]).taking_all(),
        match_spec(ts, ks, s) is Ok,
    ensures
        words(s).len() == bound_count(match_spec(ts, ks, s)->Ok_0, 0, ts.len() as int),
{
    lemma_first_take_all_none(ts, 0);
    lemma_forward_consumes(
        ts,
        ks,
        s,
        0,
        0,
        s.len() as int,
        no_words(ts.len()),
        match_spec(ts, ks, s)->Ok_0,
    );
}

proof fn lemma_bound_count_at_most(w: Bound, i: int, n: int)
    requires
        i <= n,
    ensures
        bound_count(w, i, n) <= n - i,
    decreases n - i,
{
    if i < n {
        lemma_bound_count_at_most(w, i + 1, n);
    }
}

/// Input with more words than a template without a token that takes all has tokens never
/// matches it.
pub proof fn lemma_extra_words_fail(ts: Seq<Token>, ks: Seq<ArgumentKind>, s: Seq<char>)
    requires
        forall|t: int| 0 <= t < ts.len() ==> !(#[trigger] ts[t]).taking_all(),
        words(s).len() > ts.len(),
    ensures
        match_spec(ts, ks, s) is Err,
{
    if match_spec(ts, ks, s) is Ok {
        lemma_match_consumes_every_word(ts, ks, s);
        lemma_bound_count_at_most(match_spec(ts, ks, s)->Ok_0, 0, ts.len() as int);
    }
}

proof fn lemma_skip_space_longer(s: Seq<char>, s2: Seq<char>, i: int, e: int, e2: int)
    requires
        0 <= i <= e <= e2,
        e <= s.len(),
        e2 <= s2.len(),
        forall|k: int| 0 <= k < e ==> s2[k] == s[k],
        skip_space(s, i, e) < e,
    ensures
        skip_space(s2, i, e2) == skip_space(s, i, e),
    decreases e - i,
{
    if i < e && is_space(s[i]) {
        lemma_skip_space_longer(s, s2, i + 1, e, e2);
    }
}

proof fn lemma_skip_word_longer(s: Seq<char>, s2: Seq<char>, i: int, e: int, e2: int)
    requires
        0 <= i <= e < e2,
        e <= s.len(),
        e2 <= s2.len(),
        forall|k: int| 0 <= k < e ==> s2[k] == s[k],
        is_space(s2[e]),
    ensures
        skip_word(s2, i, e2) == skip_word(s, i, e),
    decreases e - i,
{
    if i < e && !is_space(s[i]) {
        lemma_skip_word_longer(s, s2, i + 1, e, e2);
    }
}

/// `s` followed by a space and the word `x`.
pub open spec fn with_extra_word(s: Seq<char>, x: Seq<char>) -> Seq<char> {
    s + seq![' '] + x
}

proof fn lemma_extra_word_left(s: Seq<char>, x: Seq<char>, st: int)
    requires
        0 <= st <= s.len(),
        x.len() > 0,
        !is_space(x.last()),
    ensures
        trimmed(with_extra_word(s, x), st, with_extra_word(s, x).len() as int).len() > 0,
{
    let s2 = with_extra_word(s, x);
    let n2 = s2.len() as int;
    assert(s2[n2 - 1] == x.last());
    lemma_skip_space_bounds(s2, st, n2);
    let tb = skip_space(s2, st, n2);
    if tb >= n2 {
        assert(is_space(s2[n2 - 1]));
    }
    assert(skip_space_back(s2, tb, n2) == n2);
}

proof fn lemma_forward_extra_word(
    ts: Seq<Token>,
    ks: Seq<ArgumentKind>,
    s: Seq<char>,
    x: Seq<char>,
    i: int,
    st: int,
    vals: Bound,
    w: Bound,
)
    requires
        0 <= i <= ts.len(),
        vals.len() == ts.len(),
        forall|t: int| 0 <= t < ts.len() ==> !(#[trigger] ts[t]).taking_all(),
        0 <= st <= s.len(),
        x.len() > 0,
        !is_space(x.last()),
        forward_from(ts, ks, s, i, ts.len() as int, st, s.len() as int, vals) == Ok::<
            Bound,
            ErrorView,
        >(w),
        forall|t: int| i <= t < ts.len() ==> (#[trigger] w[t]) is Some,
    ensures
        forward_from(
            ts,
            ks,
            with_extra_word(s, x),
            i,
            ts.len() as int,
            st,
            with_extra_word(s, x).len() as int,
            vals,
        ) == Err::<Bound, ErrorView>(ErrorView::ArgumentsLeftOver),
    decreases ts.len() - i,
{
    let n = ts.len() as int;
    let s2 = with_extra_word(s, x);
    let len = s.len() as int;
    let len2 = s2.len() as int;
    assert(forall|k: int| 0 <= k < len ==> s2[k] == s[k]);
    assert(s2[len] == ' ');
    if i >= n {
        assert(backward_from(ts, ks, s2, n - 1, n, st, len2, vals) == last_step(ts, ks, s2, n, st, len2, vals));
        lemma_extra_word_left(s, x, st);
    } else {
        let (wd, a, b) = step_word(s, false, Direction::Forwards, st, len);
        lemma_step_words(s, st, len);
        assert(token_step(ts[i], kind_at(ks, i), s, Direction::Forwards, st, len) is Ok);
        lemma_forward_consumes(ts, ks, s, i + 1, a, b, vals.update(i, wd), w);
        assert(w[i] == wd);
        let ws = skip_space(s, st, len);
        assert(ws < len);
        lemma_skip_space_longer(s, s2, st, len, len2);
        lemma_skip_space_bounds(s, st, len);
        lemma_skip_word_longer(s, s2, ws, len, len2);
        let we = skip_word(s, ws, len);
        lemma_skip_word_bounds(s, ws, len);
        assert(s2.subrange(ws, we) =~= s.subrange(ws, we));
        assert(step_word(s2, false, Direction::Forwards, st, len2) == (wd, a, len2));
        lemma_forward_extra_word(ts, ks, s, x, i + 1, a, vals.update(i, wd), w);
    }
}

/// A word left over is an error, never a partial success: when a template without a token
/// that takes all matches `s` with every token binding a word, the same text followed by a
/// space and one more word fails with `ArgumentsLeftOver`.
pub proof fn lemma_left_over_word(ts: Seq<Token>, ks: Seq<ArgumentKind>, s: Seq<char>, x: Seq<char>)
    requires
        forall|t: int| 0 <= t < ts.len() ==> !(#[trigger] ts[t]).taking_all(),
        match_spec(ts, ks, s) is Ok,
        forall|t: int| 0 <= t < ts.len() ==> (#[trigger] match_spec(ts, ks, s)->Ok_0[t]) is Some,
        x.len() > 0,
        !is_space(x.last()),
    ensures
        match_spec(ts, ks, with_extra_word(s, x)) == Err::<Bound, ErrorView>(
            ErrorView::ArgumentsLeftOver,
        ),
{
    lemma_first_take_all_none(ts, 0);
    lemma_forward_extra_word(
        ts,
        ks,
        s,
        x,
        0,
        0,
        no_words(ts.len()),
        match_spec(ts, ks, s)->Ok_0,
    );
}

proof fn lemma_first_take_all_none(ts: Seq<Token>, i: int)
    requires
        0 <= i <= ts.len(),
        forall|t: int| 0 <= t < ts.len() ==> !(#[trigger] ts[t]).taking_all(),
    ensures
        first_take_all_from(ts, i) == ts.len(),
    decreases ts.len() - i,
{
    if i < ts.len() {
        assert(!ts[i].taking_all());
        lemma_first_take_all_none(ts, i + 1);
    }
}

} // verus!
