use vstd::prelude::*;

use crate::split::{chars_of, skip_space, skip_word, CommandArguments};

verus! {

/// One word of a command template, as the matcher sees it.
pub ghost enum Token {
    Command(Seq<char>),
    Subcommand(Seq<char>),
    Argument { name: Seq<char>, take_all: bool, optional: bool },
    TakeAll,
}

impl Token {
    pub open spec fn taking_all(self) -> bool {
        ||| self matches Token::Argument { take_all: true, .. }
        ||| self is TakeAll
    }

    pub open spec fn optional(self) -> bool {
        ||| self matches Token::Argument { optional: true, .. }
        ||| self is TakeAll
    }
}

/// One word of a command template.
#[derive(Debug, PartialEq, Eq)]
pub enum CommandPattern<'a> {
    /// A word starting with `!`: the command itself.
    Command(&'a str),
    /// Any other literal word.
    Subcommand(&'a str),
    /// `<name>` or `[name]` (optional), with `..` before the closing bracket to take all
    /// that is left.
    Argument { name: &'a str, take_all: bool, optional: bool },
    /// A bare `..`: everything that is left is accepted and ignored.
    TakeAll,
}

impl<'a> View for CommandPattern<'a> {
    type V = Token;

    open spec fn view(&self) -> Token {
        match *self {
            CommandPattern::Command(c) => Token::Command(c@),
            CommandPattern::Subcommand(c) => Token::Subcommand(c@),
            CommandPattern::Argument { name, take_all, optional } => Token::Argument {
                name: name@,
                take_all,
                optional,
            },
            CommandPattern::TakeAll => Token::TakeAll,
        }
    }
}

/// A token written back as a template word.
pub open spec fn token_text(t: Token) -> Seq<char> {
    match t {
        Token::Command(c) => c,
        Token::Subcommand(c) => c,
        Token::TakeAll => seq!['.', '.'],
        Token::Argument { name, take_all, optional } => (if optional {
            seq!['[']
        } else {
            seq!['<']
        }) + name + (if take_all {
            seq!['.', '.']
        } else {
            Seq::empty()
        }) + (if optional {
            seq![']']
        } else {
            seq!['>']
        }),
    }
}

pub open spec fn ends_with_dots(w: Seq<char>) -> bool {
    w.len() >= 2 && w[w.len() - 2] == '.' && w[w.len() - 1] == '.'
}

pub open spec fn bracketed(w: Seq<char>, open: char, close: char) -> bool {
    w.len() >= 2 && w[0] == open && w[w.len() - 1] == close
}

/// An argument token from the text between its brackets.
pub open spec fn argument_token(inner: Seq<char>, optional: bool) -> Token {
    if ends_with_dots(inner) {
        Token::Argument { name: inner.subrange(0, inner.len() - 2), take_all: true, optional }
    } else {
        Token::Argument { name: inner, take_all: false, optional }
    }
}

/// How a template word is read.
pub open spec fn classify(w: Seq<char>) -> Token {
    if w.len() > 0 && w[0] == '!' {
        Token::Command(w)
    } else if w =~= seq!['.', '.'] {
        Token::TakeAll
    } else if bracketed(w, '<', '>') {
        argument_token(w.subrange(1, w.len() - 1), false)
    } else if bracketed(w, '[', ']') {
        argument_token(w.subrange(1, w.len() - 1), true)
    } else {
        Token::Subcommand(w)
    }
}

/// The whitespace-separated words of `s[i..e]`.
pub open spec fn words_in(s: Seq<char>, i: int, e: int) -> Seq<Seq<char>>
    decreases e - i,
{
    let ws = skip_space(s, i, e);
    let we = skip_word(s, ws, e);
    if !(0 <= i && e <= s.len()) || ws >= e || we <= i || we > e {
        Seq::empty()
    } else {
        seq![s.subrange(ws, we)] + words_in(s, we, e)
    }
}

pub open spec fn words(s: Seq<char>) -> Seq<Seq<char>> {
    words_in(s, 0, s.len() as int)
}

/// A template is well formed when a token that takes all comes last and no required token
/// follows an optional one.
pub open spec fn well_formed(ts: Seq<Token>) -> bool {
    &&& forall|i: int| 0 <= i < ts.len() && (#[trigger] ts[i]).taking_all() ==> i == ts.len() - 1
    &&& forall|i: int, j: int|
        0 <= i < j < ts.len() && (#[trigger] ts[i]).optional() ==> (#[trigger] ts[j]).optional()
}

/// Why a template was refused, with the position of the offending word.
#[derive(Debug, PartialEq, Eq, Clone, Copy)]
pub enum PatternError {
    /// A word follows a token that takes all.
    TakeAllNotLast(usize),
    /// A required word follows an optional one.
    RequiredAfterOptional(usize),
}

/// The error for the first word at which `ts` breaks a rule.
pub open spec fn first_error(ts: Seq<Token>, j: int) -> PatternError {
    if exists|i: int| 0 <= i < j && (#[trigger] ts[i]).taking_all() {
        PatternError::TakeAllNotLast(j as usize)
    } else {
        PatternError::RequiredAfterOptional(j as usize)
    }
}

/// Word `j` breaks a rule given the words before it.
pub open spec fn breaks_rule(ts: Seq<Token>, j: int) -> bool {
    ||| exists|i: int| 0 <= i < j && (#[trigger] ts[i]).taking_all()
    ||| (!ts[j].optional() && exists|i: int| 0 <= i < j && (#[trigger] ts[i]).optional())
}

impl<'a> CommandPattern<'a> {
    /// Reads one template word.
    pub fn from_word(value: &'a str) -> (r: Self)
        ensures
            r@ == classify(value@),
    {
        let c = chars_of(value);
        let n = c.len();
        if n > 0 && c[0] == '!' {
            return CommandPattern::Command(value);
        }
        if n == 2 && c[0] == '.' && c[1] == '.' {
            proof {
                assert(value@ =~= seq!['.', '.']);
            }
            return CommandPattern::TakeAll;
        }
        proof {
            if value@ =~= seq!['.', '.'] {
                assert(value@.len() == 2);
                assert(value@[0] == '.');
            }
        }
        let optional = if n >= 2 && c[0] == '<' && c[n - 1] == '>' {
            false
        } else if n >= 2 && c[0] == '[' && c[n - 1] == ']' {
            true
        } else {
            return CommandPattern::Subcommand(value);
        };
        let inner_len = n - 2;
        if inner_len >= 2 && c[n - 3] == '.' && c[n - 2] == '.' {
            let name = value.substring_char(1, n - 3);
            proof {
                assert(name@ =~= value@.subrange(1, n - 1).subrange(0, inner_len - 2));
            }
            CommandPattern::Argument { name, take_all: true, optional }
        } else {
            let name = value.substring_char(1, n - 1);
            CommandPattern::Argument { name, take_all: false, optional }
        }
    }

    /// The literal word, or the argument's name; empty for a bare `..`.
    pub fn key(&self) -> (r: &'a str)
        ensures
            match self@ {
                Token::Command(c) => r@ == c,
                Token::Subcommand(c) => r@ == c,
                Token::Argument { name, .. } => r@ == name,
                Token::TakeAll => r@.len() == 0,
            },
    {
        match self {
            CommandPattern::Command(value) => value,
            CommandPattern::Subcommand(value) => value,
            CommandPattern::Argument { name, .. } => name,
            CommandPattern::TakeAll => {
                proof {
                    reveal_strlit("");
                }
                ""
            },
        }
    }

    /// The word as a template writes it.
    pub fn to_text(&self) -> (r: String)
        ensures
            r@ == token_text(self@),
    {
        proof {
            reveal_strlit("..");
            reveal_strlit("<");
            reveal_strlit(">");
            reveal_strlit("[");
            reveal_strlit("]");
        }
        match self {
            CommandPattern::Command(c) => (*c).to_owned(),
            CommandPattern::Subcommand(c) => (*c).to_owned(),
            CommandPattern::TakeAll => String::from_str(".."),
            CommandPattern::Argument { name, take_all, optional } => {
                let mut s = if *optional {
                    String::from_str("[")
                } else {
                    String::from_str("<")
                };
                s.append(name);
                if *take_all {
                    s.append("..");
                }
                if *optional {
                    s.append("]");
                } else {
                    s.append(">");
                }
                assert(s@ =~= token_text(self@));
                s
            },
        }
    }

    pub fn is_taking_all(&self) -> (r: bool)
        ensures
            r == self@.taking_all(),
    {
        match self {
            CommandPattern::Argument { take_all, .. } => *take_all,
            CommandPattern::TakeAll => true,
            _ => false,
        }
    }

    pub fn is_optional(&self) -> (r: bool)
        ensures
            r == self@.optional(),
    {
        match self {
            CommandPattern::Argument { optional, .. } => *optional,
            CommandPattern::TakeAll => true,
            _ => false,
        }
    }
}

pub open spec fn strs_view<'a>(v: Seq<&'a str>) -> Seq<Seq<char>> {
    v.map_values(|x: &'a str| x@)
}

/// The end of each whitespace-separated word of `s[i..e]`.
pub open spec fn word_ends_in(s: Seq<char>, i: int, e: int) -> Seq<int>
    decreases e - i,
{
    let ws = skip_space(s, i, e);
    let we = skip_word(s, ws, e);
    if !(0 <= i && e <= s.len()) || ws >= e || we <= i || we > e {
        Seq::empty()
    } else {
        seq![we] + word_ends_in(s, we, e)
    }
}

pub open spec fn word_ends(s: Seq<char>) -> Seq<int> {
    word_ends_in(s, 0, s.len() as int)
}

pub open spec fn usizes_view(v: Seq<usize>) -> Seq<int> {
    v.map_values(|x: usize| x as int)
}

pub proof fn lemma_words_ends_len(s: Seq<char>, i: int, e: int)
    ensures
        words_in(s, i, e).len() == word_ends_in(s, i, e).len(),
    decreases e - i,
{
    let ws = skip_space(s, i, e);
    let we = skip_word(s, ws, e);
    if !(!(0 <= i && e <= s.len()) || ws >= e || we <= i || we > e) {
        lemma_words_ends_len(s, we, e);
    }
}

/// The whitespace-separated words of `text`, with the position (in characters) where each
/// one ends.
pub fn split_words_at<'a>(text: &'a str) -> (r: (Vec<&'a str>, Vec<usize>))
    ensures
        strs_view(r.0@) == words(text@),
        usizes_view(r.1@) == word_ends(text@),
        r.0.len() == r.1.len(),
{
    let mut args = CommandArguments::from_str(text);
    let mut out: Vec<&'a str> = Vec::new();
    let mut ends: Vec<usize> = Vec::new();
    let ghost s = text@;
    proof {
        lemma_words_ends_len(s, 0, s.len() as int);
    }
    loop
        invariant
            args.wf(),
            args.text() == s,
            args.end() == s.len(),
            0 <= args.start() <= s.len(),
            strs_view(out@) + words_in(s, args.start(), s.len() as int) == words(s),
            usizes_view(ends@) + word_ends_in(s, args.start(), s.len() as int) == word_ends(s),
            out.len() == ends.len(),
        ensures
            strs_view(out@) == words(s),
            usizes_view(ends@) == word_ends(s),
            out.len() == ends.len(),
        decreases s.len() - args.start(),
    {
        let ghost before = args.start();
        let next = args.next();
        proof {
            crate::split::lemma_skip_space_bounds(s, before, s.len() as int);
            let ws = skip_space(s, before, s.len() as int);
            if ws < s.len() {
                crate::split::lemma_skip_word_bounds(s, ws, s.len() as int);
            }
        }
        match next {
            None => {
                proof {
                    assert(words_in(s, before, s.len() as int) =~= Seq::empty());
                    assert(word_ends_in(s, before, s.len() as int) =~= Seq::empty());
                    assert(strs_view(out@) =~= strs_view(out@) + Seq::<Seq<char>>::empty());
                    assert(usizes_view(ends@) =~= usizes_view(ends@) + Seq::<int>::empty());
                }
                break;
            },
            Some(w) => {
                let ghost old_out = out@;
                let ghost old_ends = ends@;
                out.push(w);
                let (we, _) = args.position();
                ends.push(we);
                proof {
                    let rest = words_in(s, args.start(), s.len() as int);
                    let rest_ends = word_ends_in(s, args.start(), s.len() as int);
                    assert(words_in(s, before, s.len() as int) == seq![w@] + rest);
                    assert(word_ends_in(s, before, s.len() as int) == seq![we as int] + rest_ends);
                    assert(strs_view(out@) =~= strs_view(old_out) + seq![w@]);
                    assert(strs_view(out@) + rest =~= strs_view(old_out) + (seq![w@] + rest));
                    assert(usizes_view(ends@) =~= usizes_view(old_ends) + seq![we as int]);
                    assert(usizes_view(ends@) + rest_ends =~= usizes_view(old_ends) + (seq![
                        we as int,
                    ] + rest_ends));
                }
            },
        }
    }
    (out, ends)
}

/// The whitespace-separated words of `text`.
pub fn split_words<'a>(text: &'a str) -> (r: Vec<&'a str>)
    ensures
        strs_view(r@) == words(text@),
{
    split_words_at(text).0
}

/// Each word read as a token.
pub open spec fn classify_all(ws: Seq<Seq<char>>) -> Seq<Token> {
    ws.map_values(|w: Seq<char>| classify(w))
}

pub open spec fn tokens_view<'a>(ps: Seq<CommandPattern<'a>>) -> Seq<Token> {
    ps.map_values(|p: CommandPattern<'a>| p@)
}

/// Splits a template into its words and reads each one.
pub fn tokenize<'a>(template: &'a str) -> (r: Vec<CommandPattern<'a>>)
    ensures
        tokens_view(r@) == classify_all(words(template@)),
{
    let ws = split_words(template);
    let mut out: Vec<CommandPattern<'a>> = Vec::new();
    for i in 0..ws.len()
        invariant
            strs_view(ws@) == words(template@),
            out.len() == i,
            forall|k: int| 0 <= k < i ==> (#[trigger] out@[k])@ == classify(ws@[k]@),
    {
        out.push(CommandPattern::from_word(ws[i]));
    }
    proof {
        assert(tokens_view(out@) =~= classify_all(words(template@)));
    }
    out
}

/// The position of the first word that breaks a rule is `j`.
pub open spec fn first_break(ts: Seq<Token>, j: int) -> bool {
    &&& 0 <= j < ts.len()
    &&& breaks_rule(ts, j)
    &&& forall|k: int| 0 <= k < j ==> !breaks_rule(ts, k)
}

/// A template with a token that takes all anywhere but at its end is not well formed.
pub proof fn lemma_take_all_must_be_last(ts: Seq<Token>, i: int)
    requires
        0 <= i < ts.len() - 1,
        ts[i].taking_all(),
    ensures
        !well_formed(ts),
{
}

proof fn lemma_break_not_well_formed(ts: Seq<Token>, j: int)
    requires
        0 <= j < ts.len(),
        breaks_rule(ts, j),
    ensures
        !well_formed(ts),
{
    if exists|i: int| 0 <= i < j && (#[trigger] ts[i]).taking_all() {
        let i = choose|i: int| 0 <= i < j && (#[trigger] ts[i]).taking_all();
        lemma_take_all_must_be_last(ts, i);
    } else {
        let i = choose|i: int| 0 <= i < j && (#[trigger] ts[i]).optional();
        assert(ts[i].optional() && !ts[j].optional());
    }
}

proof fn lemma_no_break_well_formed(ts: Seq<Token>)
    requires
        forall|k: int| 0 <= k < ts.len() ==> !breaks_rule(ts, k),
    ensures
        well_formed(ts),
{
    assert forall|i: int| 0 <= i < ts.len() && (#[trigger] ts[i]).taking_all() implies i == ts.len()
        - 1 by {
        if i < ts.len() - 1 {
            assert(breaks_rule(ts, i + 1));
        }
    }
    assert forall|i: int, j: int|
        0 <= i < j < ts.len() && (#[trigger] ts[i]).optional() implies (#[trigger] ts[j]).optional() by {
        if !ts[j].optional() {
            assert(breaks_rule(ts, j));
        }
    }
}

/// Compiles a template into its tokens. A template is refused, at the first word that
/// breaks a rule, when a word follows a token that takes all or a required word follows
/// an optional one.
pub fn compile<'a>(template: &'a str) -> (r: Result<Vec<CommandPattern<'a>>, PatternError>)
    ensures
        r is Ok <==> well_formed(classify_all(words(template@))),
        r matches Ok(ps) ==> tokens_view(ps@) == classify_all(words(template@)),
        r matches Err(e) ==> exists|j: int|
            first_break(classify_all(words(template@)), j) && e == first_error(
                classify_all(words(template@)),
                j,
            ),
{
    let ps = tokenize(template);
    let ghost ts = tokens_view(ps@);
    let mut seen_take_all = false;
    let mut seen_optional = false;
    let mut j: usize = 0;
    while j < ps.len()
        invariant
            ts == tokens_view(ps@),
            ts == classify_all(words(template@)),
            ts.len() == ps.len(),
            j <= ps.len(),
            seen_take_all == exists|i: int| 0 <= i < j && (#[trigger] ts[i]).taking_all(),
            seen_optional == exists|i: int| 0 <= i < j && (#[trigger] ts[i]).optional(),
            forall|k: int| 0 <= k < j ==> !breaks_rule(ts, k),
        decreases ps.len() - j,
    {
        let optional = ps[j].is_optional();
        assert(ts[j as int] == ps@[j as int]@);
        if seen_take_all {
            proof {
                assert(first_break(ts, j as int));
                lemma_break_not_well_formed(ts, j as int);
                assert(PatternError::TakeAllNotLast(j) == first_error(ts, j as int));
            }
            return Err(PatternError::TakeAllNotLast(j));
        }
        if seen_optional && !optional {
            proof {
                assert(first_break(ts, j as int));
                lemma_break_not_well_formed(ts, j as int);
                assert(PatternError::RequiredAfterOptional(j) == first_error(ts, j as int));
            }
            return Err(PatternError::RequiredAfterOptional(j));
        }
        proof {
            assert(!breaks_rule(ts, j as int));
        }
        if ps[j].is_taking_all() {
            seen_take_all = true;
        }
        if optional {
            seen_optional = true;
        }
        proof {
            assert(seen_take_all == exists|i: int| 0 <= i < j + 1 && (#[trigger] ts[i]).taking_all()) by {
                if ts[j as int].taking_all() {
                    assert(0 <= j < j + 1);
                }
            }
            assert(seen_optional == exists|i: int| 0 <= i < j + 1 && (#[trigger] ts[i]).optional()) by {
                if ts[j as int].optional() {
                    assert(0 <= j < j + 1);
                }
            }
        }
        j = j + 1;
    }
    proof {
        lemma_no_break_well_formed(ts);
    }
    Ok(ps)
}

} // verus!
