use vstd::prelude::*;

use crate::argument::ArgumentKind;
use crate::error::{error_view, CommandError, ErrorView};
use crate::matcher::{match_spec, match_typed, opts_view, Bound};
use crate::pattern::{
    classify_all, compile, tokens_view, well_formed, words, CommandPattern, PatternError, Token,
};
use crate::shared_syntax::{
    first_syntax, joined_syntax, prefix_text, syntax_text, FindSharedSyntax, SyntaxView,
};
use crate::user::{User, UserArgument};

verus! {

pub ghost struct HandlerView {
    pub template: Seq<char>,
    pub tokens: Seq<Token>,
    pub kinds: Seq<ArgumentKind>,
    pub show_syntax: bool,
}

/// A registered command: its template, compiled once, the kind each argument must read as,
/// and whether its template is offered as a suggestion when its subcommand differs.
pub struct Handler<'p> {
    template: &'p str,
    tokens: Vec<CommandPattern<'p>>,
    kinds: Vec<ArgumentKind>,
    show_syntax: bool,
}

impl<'p> View for Handler<'p> {
    type V = HandlerView;

    closed spec fn view(&self) -> HandlerView {
        HandlerView {
            template: self.template@,
            tokens: tokens_view(self.tokens@),
            kinds: self.kinds@,
            show_syntax: self.show_syntax,
        }
    }
}

impl<'p> Handler<'p> {
    /// Compiles `template`, every argument read as plain text; a template that breaks a rule
    /// is refused here, never when matching.
    pub fn new(template: &'p str, show_syntax: bool) -> (r: Result<Self, PatternError>)
        ensures
            r is Ok <==> well_formed(classify_all(words(template@))),
            r matches Ok(h) ==> h@ == (HandlerView {
                template: template@,
                tokens: classify_all(words(template@)),
                kinds: Seq::new(classify_all(words(template@)).len(), |i: int| ArgumentKind::Text),
                show_syntax,
            }),
    {
        match compile(template) {
            Ok(tokens) => {
                let mut kinds: Vec<ArgumentKind> = Vec::new();
                let mut i: usize = 0;
                while i < tokens.len()
                    invariant
                        i <= tokens.len(),
                        kinds.len() == i,
                        forall|k: int| 0 <= k < i ==> kinds@[k] == ArgumentKind::Text,
                    decreases tokens.len() - i,
                {
                    kinds.push(ArgumentKind::Text);
                    i = i + 1;
                }
                let h = Handler { template, tokens, kinds, show_syntax };
                assert(h@.kinds =~= Seq::new(h@.tokens.len(), |i: int| ArgumentKind::Text));
                Ok(h)
            },
            Err(e) => Err(e),
        }
    }

    /// Every argument token named `name` must read as `kind`.
    pub fn with_kind(self, name: &str, kind: ArgumentKind) -> (r: Self)
        requires
            self@.kinds.len() == self@.tokens.len(),
        ensures
            r@ == (HandlerView {
                kinds: Seq::new(
                    self@.tokens.len(),
                    |i: int|
                        if self@.tokens[i] matches Token::Argument { name: n, .. } && n == name@ {
                            kind
                        } else {
                            self@.kinds[i]
                        },
                ),
                ..self@
            }),
    {
        let Handler { template, tokens, kinds, show_syntax } = self;
        let ghost old_kinds = kinds@;
        let ghost ts = tokens_view(tokens@);
        let mut out: Vec<ArgumentKind> = Vec::new();
        let mut i: usize = 0;
        while i < tokens.len()
            invariant
                i <= tokens.len(),
                kinds.len() == tokens.len(),
                kinds@ == old_kinds,
                ts == tokens_view(tokens@),
                out.len() == i,
                forall|k: int|
                    0 <= k < i ==> out@[k] == if ts[k] matches Token::Argument { name: n, .. } && n
                        == name@ {
                        kind
                    } else {
                        old_kinds[k]
                    },
            decreases tokens.len() - i,
        {
            assert(ts[i as int] == tokens@[i as int]@);
            let named = match &tokens[i] {
                CommandPattern::Argument { name: n, .. } => crate::matcher::same_text(n, name),
                _ => false,
            };
            if named {
                out.push(kind);
            } else {
                out.push(kinds[i]);
            }
            i = i + 1;
        }
        let r = Handler { template, tokens, kinds: out, show_syntax };
        assert(r@.kinds =~= Seq::new(
            ts.len(),
            |i: int|
                if ts[i] matches Token::Argument { name: n, .. } && n == name@ {
                    kind
                } else {
                    old_kinds[i]
                },
        ));
        r
    }

    pub fn template(&self) -> (r: &'p str)
        ensures
            r@ == self@.template,
    {
        self.template
    }

    pub fn tokens(&self) -> (r: &Vec<CommandPattern<'p>>)
        ensures
            tokens_view(r@) == self@.tokens,
    {
        &self.tokens
    }

    pub fn show_syntax(&self) -> (r: bool)
        ensures
            r == self@.show_syntax,
    {
        self.show_syntax
    }

    pub fn kinds(&self) -> (r: &Vec<ArgumentKind>)
        ensures
            r@ == self@.kinds,
    {
        &self.kinds
    }

    /// Matches the command text against this handler's template and argument kinds.
    pub fn matches<'i>(&self, input: &'i str) -> (r: Result<Vec<Option<&'i str>>, CommandError<()>>)
        ensures
            match (r, match_spec(self@.tokens, self@.kinds, input@)) {
                (Ok(v), Ok(w)) => opts_view(v@) == w,
                (Err(e), Err(f)) => error_view(e) == f,
                _ => false,
            },
    {
        match_typed(&self.tokens, &self.kinds, input)
    }
}

pub ghost enum Outcome {
    Matched(int, Bound),
    Suggest(SyntaxView),
    Unrecognized,
}

/// The shared syntax once `template` joins `acc`.
pub open spec fn fold_syntax(acc: Option<SyntaxView>, template: Seq<char>) -> Option<SyntaxView> {
    match acc {
        None => Some(first_syntax(template)),
        Some(v) => Some(joined_syntax(v, words(template))),
    }
}

/// Handlers from `i` on are tried in order; the first that matches, its arguments read as
/// their kinds, wins. One whose subcommand differs and that offers suggestions adds its
/// template to the shared syntax; any other failure, an argument that does not read among
/// them, is passed over.
pub open spec fn dispatch_from(hs: Seq<HandlerView>, s: Seq<char>, i: int, acc: Option<SyntaxView>) -> Outcome
    decreases hs.len() - i,
{
    if i < 0 || i >= hs.len() {
        match acc {
            Some(v) => Outcome::Suggest(v),
            None => Outcome::Unrecognized,
        }
    } else {
        match match_spec(hs[i].tokens, hs[i].kinds, s) {
            Ok(w) => Outcome::Matched(i, w),
            Err(e) => if e is SubcommandMismatch && hs[i].show_syntax {
                dispatch_from(hs, s, i + 1, fold_syntax(acc, hs[i].template))
            } else {
                dispatch_from(hs, s, i + 1, acc)
            },
        }
    }
}

pub open spec fn handlers_view<'p>(hs: Seq<Handler<'p>>) -> Seq<HandlerView> {
    hs.map_values(|h: Handler<'p>| h@)
}

/// What dispatching a command gives.
pub enum Dispatch<'i> {
    /// The handler at this position took the command, with these words bound to its tokens.
    Matched(usize, Vec<Option<&'i str>>),
    /// No handler took it; this "did you mean" text is the reply.
    Suggestion(String),
    /// No handler took it and there is nothing to suggest: no reply.
    Unrecognized,
}

/// The name a reply addresses the sender by: the display name when known, else the login.
pub open spec fn addressed(u: crate::user::UserView) -> Seq<char> {
    match u.display_name {
        Some(d) => d,
        None => u.username,
    }
}

/// Runs the handlers in order against `input`, as `dispatch_from` says. A suggestion reads
/// `@<sender> <shared prefix> <alternatives>`.
pub fn dispatch<'p, 'i>(handlers: &Vec<Handler<'p>>, input: &'i str, sender: &User) -> (r: Dispatch<
    'i,
>)
    ensures
        match (r, dispatch_from(handlers_view(handlers@), input@, 0, None)) {
            (Dispatch::Matched(i, v), Outcome::Matched(j, w)) => i == j && opts_view(v@) == w,
            (Dispatch::Suggestion(t), Outcome::Suggest(v)) => t@ == seq!['@'] + addressed(
                sender@,
            ) + seq![' '] + syntax_text(prefix_text(v), v.choice),
            (Dispatch::Unrecognized, Outcome::Unrecognized) => true,
            _ => false,
        },
{
    let ghost hs = handlers_view(handlers@);
    let ghost s = input@;
    let ghost goal = dispatch_from(hs, s, 0, None);
    let mut shared: Option<FindSharedSyntax<'p>> = None;
    let mut i: usize = 0;
    while i < handlers.len()
        invariant
            hs == handlers_view(handlers@),
            s == input@,
            goal == dispatch_from(hs, s, 0, None),
            i <= handlers.len(),
            match shared {
                Some(f) => f.wf() && dispatch_from(hs, s, i as int, Some(f.view())) == goal,
                None => dispatch_from(hs, s, i as int, None) == goal,
            },
        decreases handlers.len() - i,
    {
        let h = &handlers[i];
        assert(hs[i as int] == h@);
        match h.matches(input) {
            Ok(words) => {
                return Dispatch::Matched(i, words);
            },
            Err(e) => {
                if e.is_subcommand_mismatch() && h.show_syntax() {
                    match shared {
                        Some(ref mut f) => {
                            f.append(h.template());
                        },
                        None => {
                            shared = Some(FindSharedSyntax::new(h.template()));
                        },
                    }
                }
            },
        }
        i = i + 1;
    }
    match shared {
        Some(f) => {
            let name = UserArgument::from_user(sender);
            let mut text = name.to_text(false);
            proof {
                reveal_strlit(" ");
            }
            text.append(" ");
            let rest = f.to_string();
            text.append(rest.as_str());
            Dispatch::Suggestion(text)
        },
        None => Dispatch::Unrecognized,
    }
}

} // verus!
