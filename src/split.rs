use vstd::prelude::*;

verus! {

/// Unicode `White_Space`, the set of characters that `char::is_whitespace` accepts.
pub open spec fn is_space(c: char) -> bool {
    let u = c as u32;
    ||| 0x09 <= u <= 0x0d
    ||| u == 0x20
    ||| u == 0x85
    ||| u == 0xa0
    ||| u == 0x1680
    ||| 0x2000 <= u <= 0x200a
    ||| u == 0x2028
    ||| u == 0x2029
    ||| u == 0x202f
    ||| u == 0x205f
    ||| u == 0x3000
}

pub fn is_whitespace(c: char) -> (r: bool)
    ensures
        r == is_space(c),
{
    let u = c as u32;
    (0x09 <= u && u <= 0x0d) || u == 0x20 || u == 0x85 || u == 0xa0 || u == 0x1680 || (0x2000
        <= u && u <= 0x200a) || u == 0x2028 || u == 0x2029 || u == 0x202f || u == 0x205f || u
        == 0x3000
}

/// First position in `[i, e)` that is not whitespace, or `e`.
pub open spec fn skip_space(s: Seq<char>, i: int, e: int) -> int
    decreases e - i,
{
    if i < e && is_space(s[i]) {
        skip_space(s, i + 1, e)
    } else {
        i
    }
}

/// First position in `[i, e)` that is whitespace, or `e`.
pub open spec fn skip_word(s: Seq<char>, i: int, e: int) -> int
    decreases e - i,
{
    if i < e && !is_space(s[i]) {
        skip_word(s, i + 1, e)
    } else {
        i
    }
}

/// End of `[b, e)` once its trailing whitespace is dropped.
pub open spec fn skip_space_back(s: Seq<char>, b: int, e: int) -> int
    decreases e - b,
{
    if b < e && is_space(s[e - 1]) {
        skip_space_back(s, b, e - 1)
    } else {
        e
    }
}

/// Start of the last word of `[b, e)` (the position after its last whitespace, or `b`).
pub open spec fn skip_word_back(s: Seq<char>, b: int, e: int) -> int
    decreases e - b,
{
    if b < e && !is_space(s[e - 1]) {
        skip_word_back(s, b, e - 1)
    } else {
        e
    }
}

/// `s[b..e]` without its leading and trailing whitespace.
pub open spec fn trimmed(s: Seq<char>, b: int, e: int) -> Seq<char> {
    let tb = skip_space(s, b, e);
    s.subrange(tb, skip_space_back(s, tb, e))
}

pub proof fn lemma_skip_space_bounds(s: Seq<char>, i: int, e: int)
    requires
        i <= e,
    ensures
        i <= skip_space(s, i, e) <= e,
        forall|k: int| i <= k < skip_space(s, i, e) ==> is_space(#[trigger] s[k]),
        skip_space(s, i, e) < e ==> !is_space(s[skip_space(s, i, e)]),
    decreases e - i,
{
    if i < e && is_space(s[i]) {
        lemma_skip_space_bounds(s, i + 1, e);
    }
}

pub proof fn lemma_skip_word_bounds(s: Seq<char>, i: int, e: int)
    requires
        i <= e,
    ensures
        i <= skip_word(s, i, e) <= e,
        forall|k: int| i <= k < skip_word(s, i, e) ==> !is_space(#[trigger] s[k]),
        skip_word(s, i, e) < e ==> is_space(s[skip_word(s, i, e)]),
    decreases e - i,
{
    if i < e && !is_space(s[i]) {
        lemma_skip_word_bounds(s, i + 1, e);
    }
}

pub proof fn lemma_skip_space_back_bounds(s: Seq<char>, b: int, e: int)
    requires
        b <= e,
    ensures
        b <= skip_space_back(s, b, e) <= e,
        forall|k: int| skip_space_back(s, b, e) <= k < e ==> is_space(#[trigger] s[k]),
        skip_space_back(s, b, e) > b ==> !is_space(s[skip_space_back(s, b, e) - 1]),
    decreases e - b,
{
    if b < e && is_space(s[e - 1]) {
        lemma_skip_space_back_bounds(s, b, e - 1);
    }
}

pub proof fn lemma_skip_word_back_bounds(s: Seq<char>, b: int, e: int)
    requires
        b <= e,
    ensures
        b <= skip_word_back(s, b, e) <= e,
        forall|k: int| skip_word_back(s, b, e) <= k < e ==> !is_space(#[trigger] s[k]),
        skip_word_back(s, b, e) > b ==> is_space(s[skip_word_back(s, b, e) - 1]),
    decreases e - b,
{
    if b < e && !is_space(s[e - 1]) {
        lemma_skip_word_back_bounds(s, b, e - 1);
    }
}

proof fn lemma_skip_space_extend(s: Seq<char>, i: int, e1: int, e2: int)
    requires
        i <= e1 <= e2,
        skip_space(s, i, e1) < e1,
    ensures
        skip_space(s, i, e2) == skip_space(s, i, e1),
    decreases e1 - i,
{
    if i < e1 && is_space(s[i]) {
        lemma_skip_space_extend(s, i + 1, e1, e2);
    }
}

proof fn lemma_skip_space_back_extend(s: Seq<char>, b1: int, b2: int, e: int)
    requires
        b1 <= b2 <= e,
        skip_space_back(s, b2, e) > b2,
    ensures
        skip_space_back(s, b1, e) == skip_space_back(s, b2, e),
    decreases e - b2,
{
    if b2 < e && is_space(s[e - 1]) {
        lemma_skip_space_back_extend(s, b1, b2, e - 1);
    }
}

/// Taking a word from the front of `s[st..en]` gives a non-empty run of non-whitespace
/// characters, however much whitespace stood before it, and the text consumed up to its end,
/// trimmed, is the whole text from its first non-whitespace character up to that end.
/// Taking a word from the back mirrors this: the text from the word's start onwards,
/// trimmed, is the whole text from there up to its last non-whitespace character.
pub proof fn lemma_words_reproduce_text(s: Seq<char>, st: int, en: int)
    requires
        0 <= st <= en <= s.len(),
    ensures
        ({
            let ws = skip_space(s, st, en);
            let we = skip_word(s, ws, en);
            ws < en ==> {
                &&& ws < we <= en
                &&& forall|k: int| st <= k < ws ==> is_space(#[trigger] s[k])
                &&& forall|k: int| ws <= k < we ==> !is_space(#[trigger] s[k])
                &&& trimmed(s, 0, we) == s.subrange(skip_space(s, 0, s.len() as int), we)
            }
        }),
        ({
            let we = skip_space_back(s, st, en);
            let ws = skip_word_back(s, st, we);
            we > st ==> {
                &&& st <= ws < we
                &&& forall|k: int| we <= k < en ==> is_space(#[trigger] s[k])
                &&& forall|k: int| ws <= k < we ==> !is_space(#[trigger] s[k])
                &&& trimmed(s, ws, s.len() as int) == s.subrange(
                    ws,
                    skip_space_back(s, 0, s.len() as int),
                )
            }
        }),
{
    let ws = skip_space(s, st, en);
    lemma_skip_space_bounds(s, st, en);
    if ws < en {
        lemma_skip_word_bounds(s, ws, en);
        let we = skip_word(s, ws, en);
        assert(we > ws) by {
            assert(skip_word(s, ws, en) == skip_word(s, ws + 1, en));
            lemma_skip_word_bounds(s, ws + 1, en);
        }
        lemma_skip_space_bounds(s, 0, we);
        if skip_space(s, 0, we) >= we {
            assert(is_space(s[ws]));
        }
        lemma_skip_space_extend(s, 0, we, s.len() as int);
        let f = skip_space(s, 0, we);
        assert(!is_space(s[we - 1]));
        assert(skip_space_back(s, f, we) == we);
    }
    let be = skip_space_back(s, st, en);
    lemma_skip_space_back_bounds(s, st, en);
    if be > st {
        lemma_skip_word_back_bounds(s, st, be);
        let bs = skip_word_back(s, st, be);
        assert(bs < be) by {
            assert(skip_word_back(s, st, be) == skip_word_back(s, st, be - 1));
            lemma_skip_word_back_bounds(s, st, be - 1);
        }
        assert(!is_space(s[bs]));
        assert(skip_space(s, bs, s.len() as int) == bs);
        lemma_skip_space_back_bounds(s, bs, s.len() as int);
        if skip_space_back(s, bs, s.len() as int) <= bs {
            lemma_skip_space_back_bounds(s, bs, s.len() as int);
            assert(is_space(s[be - 1]));
        }
        lemma_skip_space_back_extend(s, 0, bs, s.len() as int);
    }
}

/// Taking words from the front hands them out in order, one per call: the word a forward
/// step takes from `s[st..en]` is the first of that range's words, the range left after it
/// holds exactly the rest, and when the range holds no word the step finds none (and every
/// later step finds none either, as the range is unchanged). Any run of whitespace counts as
/// one separator, since a word is a maximal run without whitespace.
pub proof fn lemma_next_takes_words_in_order(s: Seq<char>, st: int, en: int)
    requires
        0 <= st <= en <= s.len(),
    ensures
        ({
            let ws = skip_space(s, st, en);
            let we = skip_word(s, ws, en);
            &&& ws == en <==> crate::pattern::words_in(s, st, en).len() == 0
            &&& ws < en ==> {
                &&& crate::pattern::words_in(s, st, en)[0] == s.subrange(ws, we)
                &&& crate::pattern::words_in(s, we, en) == crate::pattern::words_in(s, st, en).drop_first()
                &&& st <= ws < we <= en
            }
        }),
{
    let ws = skip_space(s, st, en);
    lemma_skip_space_bounds(s, st, en);
    if ws < en {
        lemma_skip_word_bounds(s, ws, en);
        assert(skip_word(s, ws, en) == skip_word(s, ws + 1, en));
        lemma_skip_word_bounds(s, ws + 1, en);
        let we = skip_word(s, ws, en);
        assert(crate::pattern::words_in(s, st, en) == seq![s.subrange(ws, we)] + crate::pattern::words_in(s, we, en));
        assert((seq![s.subrange(ws, we)] + crate::pattern::words_in(s, we, en)).drop_first() =~= crate::pattern::words_in(s, we, en));
    }
}

fn find_space_end(s: &Vec<char>, i: usize, e: usize) -> (r: usize)
    requires
        i <= e <= s.len(),
    ensures
        r == skip_space(s@, i as int, e as int),
{
    let mut k = i;
    while k < e && is_whitespace(s[k])
        invariant
            i <= k <= e <= s.len(),
            skip_space(s@, k as int, e as int) == skip_space(s@, i as int, e as int),
        decreases e - k,
    {
        k = k + 1;
    }
    k
}

fn find_word_end(s: &Vec<char>, i: usize, e: usize) -> (r: usize)
    requires
        i <= e <= s.len(),
    ensures
        r == skip_word(s@, i as int, e as int),
{
    let mut k = i;
    while k < e && !is_whitespace(s[k])
        invariant
            i <= k <= e <= s.len(),
            skip_word(s@, k as int, e as int) == skip_word(s@, i as int, e as int),
        decreases e - k,
    {
        k = k + 1;
    }
    k
}

fn find_space_start_back(s: &Vec<char>, b: usize, e: usize) -> (r: usize)
    requires
        b <= e <= s.len(),
    ensures
        r == skip_space_back(s@, b as int, e as int),
{
    let mut k = e;
    while b < k && is_whitespace(s[k - 1])
        invariant
            b <= k <= e <= s.len(),
            skip_space_back(s@, b as int, k as int) == skip_space_back(s@, b as int, e as int),
        decreases k - b,
    {
        k = k - 1;
    }
    k
}

fn find_word_start_back(s: &Vec<char>, b: usize, e: usize) -> (r: usize)
    requires
        b <= e <= s.len(),
    ensures
        r == skip_word_back(s@, b as int, e as int),
{
    let mut k = e;
    while b < k && !is_whitespace(s[k - 1])
        invariant
            b <= k <= e <= s.len(),
            skip_word_back(s@, b as int, k as int) == skip_word_back(s@, b as int, e as int),
        decreases k - b,
    {
        k = k - 1;
    }
    k
}

/// `text[b..e]` (in characters) without its leading and trailing whitespace.
pub fn trimmed_str<'a>(text: &'a str, b: usize, e: usize) -> (r: &'a str)
    requires
        b <= e <= text@.len(),
    ensures
        r@ == trimmed(text@, b as int, e as int),
{
    let c = chars_of(text);
    let tb = find_space_end(&c, b, e);
    proof {
        lemma_skip_space_bounds(c@, b as int, e as int);
    }
    let te = find_space_start_back(&c, tb, e);
    proof {
        lemma_skip_space_back_bounds(c@, tb as int, e as int);
    }
    text.substring_char(tb, te)
}

/// The characters of `s`, in order.
pub fn chars_of(s: &str) -> (r: Vec<char>)
    ensures
        r@ == s@,
{
    let mut out: Vec<char> = Vec::new();
    for c in it: s.chars()
        invariant
            out@ == it.seq().take(it.index() as int),
    {
        out.push(c);
    }
    proof {
        assert(out@ =~= s@);
    }
    out
}

/// Position (in characters) of the first character of `value` that satisfies `f`, or the
/// length of `value` when none does.
pub fn find_index<F: Fn(char) -> bool>(value: &str, f: F) -> (r: usize)
    requires
        forall|c: char| f.requires((c,)),
    ensures
        r <= value@.len(),
        forall|i: int| 0 <= i < r ==> f.ensures((value@[i],), false),
        r < value@.len() ==> f.ensures((value@[r as int],), true),
{
    let chars = chars_of(value);
    let mut k: usize = 0;
    while k < chars.len()
        invariant
            chars@ == value@,
            k <= chars.len(),
            forall|c: char| f.requires((c,)),
            forall|i: int| 0 <= i < k ==> f.ensures((value@[i],), false),
        decreases chars.len() - k,
    {
        if f(chars[k]) {
            return k;
        }
        k = k + 1;
    }
    k
}

/// Position (in characters) just after the last character of `value` that satisfies
/// `f`, or `0` when none does: `value` split there ends in a run of characters that do
/// not satisfy `f`.
pub fn rfind_index_plus_one<F: Fn(char) -> bool>(value: &str, f: F) -> (r: usize)
    requires
        forall|c: char| f.requires((c,)),
    ensures
        r <= value@.len(),
        forall|i: int| r <= i < value@.len() ==> f.ensures((value@[i],), false),
        r > 0 ==> f.ensures((value@[r - 1],), true),
{
    let chars = chars_of(value);
    let mut k: usize = chars.len();
    while k > 0
        invariant
            chars@ == value@,
            k <= chars.len(),
            forall|c: char| f.requires((c,)),
            forall|i: int| k <= i < value@.len() ==> f.ensures((value@[i],), false),
        decreases k,
    {
        if f(chars[k - 1]) {
            return k;
        }
        k = k - 1;
    }
    k
}

/// `None` for the empty string, the string itself otherwise.
pub fn none_if_empty(value: &str) -> (r: Option<&str>)
    ensures
        value@.len() == 0 ==> r is None,
        value@.len() > 0 ==> r == Some(value),
{
    if value.is_empty() {
        None
    } else {
        Some(value)
    }
}

/// A cursor over the whitespace-separated words of a command text, consumed from the
/// front with `next`, from the back with `next_back`, or all at once with `next_rest`.
/// Positions are character indices into the text.
#[derive(Clone)]
pub struct CommandArguments<'a> {
    text: &'a str,
    chars: Vec<char>,
    start: usize,
    end: usize,
}

impl<'a> CommandArguments<'a> {
    pub closed spec fn wf(&self) -> bool {
        &&& self.chars@ == self.text@
        &&& self.start <= self.end <= self.chars.len()
    }

    /// The whole text the cursor was made from.
    pub closed spec fn text(&self) -> Seq<char> {
        self.text@
    }

    /// Start of the part not yet consumed.
    pub closed spec fn start(&self) -> int {
        self.start as int
    }

    /// End of the part not yet consumed.
    pub closed spec fn end(&self) -> int {
        self.end as int
    }

    /// The unconsumed part, without surrounding whitespace.
    pub open spec fn rest(&self) -> Seq<char> {
        trimmed(self.text(), self.start(), self.end())
    }

    pub fn from_str(value: &'a str) -> (r: Self)
        ensures
            r.wf(),
            r.text() == value@,
            r.start() == 0,
            r.end() == value@.len(),
    {
        let chars = chars_of(value);
        let end = chars.len();
        CommandArguments { text: value, chars, start: 0, end }
    }

    /// Where the unconsumed part starts and ends, in characters.
    pub fn position(&self) -> (r: (usize, usize))
        requires
            self.wf(),
        ensures
            r.0 == self.start(),
            r.1 == self.end(),
    {
        (self.start, self.end)
    }

    /// The unconsumed part, without surrounding whitespace.
    pub fn as_str(&self) -> (r: &'a str)
        requires
            self.wf(),
        ensures
            r@ == self.rest(),
    {
        let b = find_space_end(&self.chars, self.start, self.end);
        proof {
            lemma_skip_space_bounds(self.chars@, self.start as int, self.end as int);
        }
        let e = find_space_start_back(&self.chars, b, self.end);
        proof {
            lemma_skip_space_back_bounds(self.chars@, b as int, self.end as int);
        }
        self.text.substring_char(b, e)
    }

    /// Takes everything that is left as one argument; `None` when only whitespace is left.
    /// Afterwards the cursor stands at the start of the text with nothing left.
    pub fn next_rest(&mut self) -> (r: Option<&'a str>)
        requires
            old(self).wf(),
        ensures
            final(self).wf(),
            final(self).text() == old(self).text(),
            final(self).start() == 0,
            final(self).end() == 0,
            r matches Some(x) ==> x@ == old(self).rest() && x@.len() > 0,
            r is None ==> old(self).rest().len() == 0,
    {
        let result = self.as_str();
        self.start = 0;
        self.end = 0;
        none_if_empty(result)
    }

    /// Takes the next word from the front; `None` when only whitespace is left, and then
    /// the cursor is unchanged.
    pub fn next(&mut self) -> (r: Option<&'a str>)
        requires
            old(self).wf(),
        ensures
            final(self).wf(),
            final(self).text() == old(self).text(),
            final(self).end() == old(self).end(),
            ({
                let s = old(self).text();
                let ws = skip_space(s, old(self).start(), old(self).end());
                let we = skip_word(s, ws, old(self).end());
                if ws == old(self).end() {
                    r is None && final(self).start() == old(self).start()
                } else {
                    r matches Some(x) && x@ == s.subrange(ws, we) && final(self).start() == we
                }
            }),
    {
        let ws = find_space_end(&self.chars, self.start, self.end);
        proof {
            lemma_skip_space_bounds(self.chars@, self.start as int, self.end as int);
        }
        if ws == self.end {
            return None;
        }
        let we = find_word_end(&self.chars, ws, self.end);
        proof {
            lemma_skip_word_bounds(self.chars@, ws as int, self.end as int);
        }
        self.start = we;
        Some(self.text.substring_char(ws, we))
    }

    /// Takes the next word from the back; `None` when only whitespace is left, and then
    /// the cursor is unchanged.
    pub fn next_back(&mut self) -> (r: Option<&'a str>)
        requires
            old(self).wf(),
        ensures
            final(self).wf(),
            final(self).text() == old(self).text(),
            final(self).start() == old(self).start(),
            ({
                let s = old(self).text();
                let we = skip_space_back(s, old(self).start(), old(self).end());
                let ws = skip_word_back(s, old(self).start(), we);
                if we == old(self).start() {
                    r is None && final(self).end() == old(self).end()
                } else {
                    r matches Some(x) && x@ == s.subrange(ws, we) && final(self).end() == ws
                }
            }),
    {
        let we = find_space_start_back(&self.chars, self.start, self.end);
        proof {
            lemma_skip_space_back_bounds(self.chars@, self.start as int, self.end as int);
        }
        if we == self.start {
            return None;
        }
        let ws = find_word_start_back(&self.chars, self.start, we);
        proof {
            lemma_skip_word_back_bounds(self.chars@, self.start as int, we as int);
        }
        self.end = ws;
        Some(self.text.substring_char(ws, we))
    }

    /// An independent cursor in the same position.
    pub fn duplicate(&self) -> (r: Self)
        requires
            self.wf(),
        ensures
            r.wf(),
            r.text() == self.text(),
            r.start() == self.start(),
            r.end() == self.end(),
    {
        let chars = chars_of(self.text);
        CommandArguments { text: self.text, chars, start: self.start, end: self.end }
    }

    /// Same as `next_back`.
    pub fn last(&mut self) -> (r: Option<&'a str>)
        requires
            old(self).wf(),
        ensures
            final(self).wf(),
            final(self).text() == old(self).text(),
            final(self).start() == old(self).start(),
            ({
                let s = old(self).text();
                let we = skip_space_back(s, old(self).start(), old(self).end());
                let ws = skip_word_back(s, old(self).start(), we);
                if we == old(self).start() {
                    r is None && final(self).end() == old(self).end()
                } else {
                    r matches Some(x) && x@ == s.subrange(ws, we) && final(self).end() == ws
                }
            }),
    {
        self.next_back()
    }

    /// Bounds on how many words are left: at least none, at most half the unconsumed
    /// characters, rounded up.
    pub fn size_hint(&self) -> (r: (usize, Option<usize>))
        requires
            self.wf(),
        ensures
            r.0 == 0,
            r.1 == Some(((self.end() - self.start() + 1) / 2) as usize),
    {
        let n = self.end - self.start;
        (0, Some(n / 2 + n % 2))
    }

    /// A cursor over the text before the consumed front part.
    pub fn consumed_begin(&self) -> (r: Self)
        requires
            self.wf(),
        ensures
            r.wf(),
            r.text() == self.text().subrange(0, self.start()),
            r.start() == 0,
            r.end() == self.start(),
    {
        let t = self.text.substring_char(0, self.start);
        Self::from_str(t)
    }

    /// A cursor over the text after the consumed back part.
    pub fn consumed_end(&self) -> (r: Self)
        requires
            self.wf(),
        ensures
            r.wf(),
            r.text() == self.text().subrange(self.end(), self.text().len() as int),
            r.start() == 0,
            r.end() == self.text().len() - self.end(),
    {
        let t = self.text.substring_char(self.end, self.chars.len());
        Self::from_str(t)
    }
}

} // verus!
