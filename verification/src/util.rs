//! The shell's errors, and the tokenizer that splits a line into arguments.
use vstd::prelude::*;
use crate::command::{CommandType, CommandTypeView};
use crate::text::{
    leading_space, lemma_trim_bounds, texts, trailing_space, trim, trimmed, white_space,
};

verus! {

/// Everything that can go wrong between reading a line and the end of the
/// command it names.
#[derive(Debug)]
pub enum RushError {
    /// A command was found and started, and failed.
    CommandError { type_: CommandType, msg: String, status: Option<i32> },
    /// The line names neither a builtin nor a program on the search path.
    CommandNotFound(String),
    /// The line holds no argument.
    Nop,
    /// The input ended, or could not be read, before a line came.
    UnexpectedEOF,
    /// The line ends inside a quoted span.
    UnterminatedQuote,
}

/// An error as contracts see it: its strings as texts.
pub enum RushErrorView {
    CommandError { type_: CommandTypeView, msg: Seq<char>, status: Option<i32> },
    CommandNotFound(Seq<char>),
    Nop,
    UnexpectedEOF,
    UnterminatedQuote,
}

impl View for RushError {
    type V = RushErrorView;

    open spec fn view(&self) -> RushErrorView {
        match *self {
            RushError::CommandError { type_, msg, status } => RushErrorView::CommandError {
                type_: type_@,
                msg: msg@,
                status,
            },
            RushError::CommandNotFound(name) => RushErrorView::CommandNotFound(name@),
            RushError::Nop => RushErrorView::Nop,
            RushError::UnexpectedEOF => RushErrorView::UnexpectedEOF,
            RushError::UnterminatedQuote => RushErrorView::UnterminatedQuote,
        }
    }
}

impl RushErrorView {
    /// The line that reports the error to the user.
    pub open spec fn message(self) -> Seq<char> {
        match self {
            RushErrorView::CommandError { type_, msg, status } => type_.label() + ": "@ + msg,
            RushErrorView::CommandNotFound(name) => name + ": command not found"@,
            RushErrorView::Nop => ""@,
            RushErrorView::UnexpectedEOF => "error reading input: unexpected EOF"@,
            RushErrorView::UnterminatedQuote => "error: unterminated quote"@,
        }
    }
}

impl RushError {
    /// The line that reports the error to the user.
    pub fn to_string(&self) -> (s: String)
        ensures
            s@ == self@.message(),
    {
        match self {
            RushError::CommandError { type_, msg, status: _ } => {
                let mut s = type_.to_string();
                s.append(": ");
                s.append(msg.as_str());
                s
            },
            RushError::CommandNotFound(name) => {
                let mut s = name.clone();
                s.append(": command not found");
                s
            },
            RushError::Nop => "".to_owned(),
            RushError::UnexpectedEOF => "error reading input: unexpected EOF".to_owned(),
            RushError::UnterminatedQuote => "error: unterminated quote".to_owned(),
        }
    }
}

/// Whether `c` opens or closes a quoted span.
pub open spec fn is_quote(c: char) -> bool {
    c == '\'' || c == '"'
}

/// Where the tokenizer stands after part of a line.
pub struct Scan {
    /// The arguments that are complete.
    pub done: Seq<Seq<char>>,
    /// The argument being assembled; it counts only if it is not empty.
    pub word: Seq<char>,
    /// Inside a quoted span.
    pub quoted: bool,
    /// A character has been seen outside quotes, other than a space.
    pub bare: bool,
    /// A space has been passed since the last quoted span, while the line
    /// had shown quoted spans and spaces only.
    pub gap: bool,
}

impl Scan {
    /// Before the first character.
    pub open spec fn start() -> Scan {
        Scan { done: Seq::empty(), word: Seq::empty(), quoted: false, bare: false, gap: false }
    }

    /// The complete arguments together with the one being assembled.
    pub open spec fn closed(self) -> Seq<Seq<char>> {
        if self.word.len() > 0 {
            self.done.push(self.word)
        } else {
            self.done
        }
    }

    /// The state after one more character.
    ///
    /// A quote character opens a span or closes the open one and leaves no
    /// trace in the argument. Inside a span every other character, a space
    /// too, joins the argument. Outside, a space ends the argument, and any
    /// other character joins it. Spans that touch therefore run together,
    /// and an argument with nothing in it never counts.
    ///
    /// While a line has shown nothing but quoted spans and spaces, a space
    /// only marks a gap: a quoted span that follows runs on with the spans
    /// before it, and any other character first ends the argument.
    pub open spec fn step(self, c: char) -> Scan {
        if is_quote(c) {
            if self.quoted {
                Scan { quoted: false, ..self }
            } else {
                Scan { quoted: true, gap: false, ..self }
            }
        } else if self.quoted {
            Scan { word: self.word.push(c), ..self }
        } else if c == ' ' {
            if self.bare {
                Scan { done: self.closed(), word: Seq::empty(), ..self }
            } else {
                Scan { gap: true, ..self }
            }
        } else if self.gap {
            Scan { done: self.closed(), word: seq![c], bare: true, gap: false, ..self }
        } else {
            Scan { word: self.word.push(c), bare: true, ..self }
        }
    }

    /// The state after the characters of `s`, one after the other.
    pub open spec fn run(self, s: Seq<char>) -> Scan
        decreases s.len(),
    {
        if s.len() == 0 {
            self
        } else {
            self.run(s.drop_last()).step(s.last())
        }
    }
}

/// The arguments of a line, or `None` where the line ends inside a quoted
/// span.
pub open spec fn tokens_of(line: Seq<char>) -> Option<Seq<Seq<char>>> {
    let end = Scan::start().run(line);
    if end.quoted {
        None
    } else {
        Some(end.closed())
    }
}

/// Whether every character of `s` is a space.
pub open spec fn all_spaces(s: Seq<char>) -> bool {
    forall|i: int| 0 <= i < s.len() ==> s[i] == ' '
}

/// Whether `s` holds neither a space nor a quote character.
pub open spec fn plain(s: Seq<char>) -> bool {
    forall|i: int| 0 <= i < s.len() ==> s[i] != ' ' && !is_quote(#[trigger] s[i])
}

/// Whether `s` holds no quote character.
pub open spec fn quote_free(s: Seq<char>) -> bool {
    forall|i: int| 0 <= i < s.len() ==> !is_quote(#[trigger] s[i])
}

/// How many quote characters `s` holds.
pub open spec fn quote_count(s: Seq<char>) -> nat
    decreases s.len(),
{
    if s.len() == 0 {
        0
    } else {
        quote_count(s.drop_last()) + if is_quote(s.last()) {
            1nat
        } else {
            0nat
        }
    }
}

/// A run of `n` spaces.
pub open spec fn spaces(n: nat) -> Seq<char> {
    Seq::new(n, |i: int| ' ')
}

/// The words in order, with a run of `gaps[i]` spaces between word `i` and
/// the next.
pub open spec fn spaced(words: Seq<Seq<char>>, gaps: Seq<nat>) -> Seq<char>
    decreases words.len(),
{
    if words.len() == 0 {
        Seq::empty()
    } else if words.len() == 1 {
        words[0]
    } else {
        spaced(words.drop_last(), gaps.drop_last()) + spaces(gaps.last()) + words.last()
    }
}

/// Scanning `a + b` is scanning `a` and going on with `b`.
proof fn lemma_run_append(st: Scan, a: Seq<char>, b: Seq<char>)
    ensures
        st.run(a + b) == st.run(a).run(b),
    decreases b.len(),
{
    if b.len() == 0 {
        assert(a + b =~= a);
    } else {
        assert((a + b).drop_last() =~= a + b.drop_last());
        assert((a + b).last() == b.last());
        lemma_run_append(st, a, b.drop_last());
    }
}

/// Outside quotes, a stretch without spaces and quotes joins the argument
/// being assembled, or begins a new one after a gap.
proof fn lemma_run_plain(st: Scan, w: Seq<char>)
    requires
        !st.quoted,
        plain(w),
        w.len() > 0,
    ensures
        st.run(w) == if st.gap {
            Scan { done: st.closed(), word: w, bare: true, gap: false, ..st }
        } else {
            Scan { word: st.word + w, bare: true, ..st }
        },
    decreases w.len(),
{
    let c = w.last();
    assert(!is_quote(c) && c != ' ');
    if w.len() == 1 {
        assert(w.drop_last().len() == 0);
        assert(st.run(w.drop_last()) == st);
        assert(seq![c] =~= w);
        assert(st.word.push(c) =~= st.word + w);
    } else {
        let head = w.drop_last();
        assert forall|i: int| 0 <= i < head.len() implies head[i] != ' ' && !is_quote(
            #[trigger] head[i],
        ) by {
            assert(head[i] == w[i]);
        }
        lemma_run_plain(st, head);
        assert(head.push(c) =~= w);
        assert((st.word + head).push(c) =~= st.word + w);
    }
}

/// Inside a quoted span, a stretch without quotes joins the argument as it
/// is, spaces included.
proof fn lemma_run_quoted(st: Scan, w: Seq<char>)
    requires
        st.quoted,
        quote_free(w),
    ensures
        st.run(w) == (Scan { word: st.word + w, ..st }),
    decreases w.len(),
{
    if w.len() == 0 {
        assert(st.word + w =~= st.word);
    } else {
        let head = w.drop_last();
        assert forall|i: int| 0 <= i < head.len() implies !is_quote(#[trigger] head[i]) by {
            assert(head[i] == w[i]);
        }
        lemma_run_quoted(st, head);
        assert(!is_quote(w.last()));
        assert((st.word + head).push(w.last()) =~= st.word + w);
    }
}

/// Once a character stood outside quotes, a run of spaces outside quotes
/// ends the argument being assembled, however long the run is.
proof fn lemma_run_spaces(st: Scan, n: nat)
    requires
        !st.quoted,
        st.bare,
        n >= 1,
    ensures
        st.run(spaces(n)) == (Scan { done: st.closed(), word: Seq::empty(), ..st }),
    decreases n,
{
    let s = spaces(n);
    assert(s.last() == ' ');
    if n == 1 {
        assert(s.drop_last().len() == 0);
        assert(st.run(s.drop_last()) == st);
    } else {
        assert(s.drop_last() =~= spaces((n - 1) as nat));
        lemma_run_spaces(st, (n - 1) as nat);
    }
}

/// A line of spaces, and the empty line, hold no argument; and so does
/// such a line after trimming.
pub proof fn law_blank_line(line: Seq<char>)
    requires
        all_spaces(line),
    ensures
        tokens_of(line) == Some(Seq::<Seq<char>>::empty()),
        tokens_of(trimmed(line)) == Some(Seq::<Seq<char>>::empty()),
{
    lemma_run_blank(line);
    lemma_trim_bounds(line);
    let t = trimmed(line);
    assert forall|i: int| 0 <= i < t.len() implies t[i] == ' ' by {
        assert(t[i] == line[i + leading_space(line)]);
    }
    lemma_run_blank(t);
}

proof fn lemma_run_blank(line: Seq<char>)
    requires
        all_spaces(line),
    ensures
        Scan::start().run(line).done == Seq::<Seq<char>>::empty(),
        Scan::start().run(line).word == Seq::<char>::empty(),
        !Scan::start().run(line).quoted,
        !Scan::start().run(line).bare,
    decreases line.len(),
{
    if line.len() > 0 {
        let head = line.drop_last();
        assert forall|i: int| 0 <= i < head.len() implies head[i] == ' ' by {
            assert(head[i] == line[i]);
        }
        lemma_run_blank(head);
        assert(line.last() == ' ');
    }
}

/// Words without spaces and quotes, with a run of one or more spaces
/// between each two neighbours, are the arguments of their line: the
/// lengths of the runs do not matter.
pub proof fn law_spaced_words(words: Seq<Seq<char>>, gaps: Seq<nat>)
    requires
        words.len() == 0 ==> gaps.len() == 0,
        words.len() > 0 ==> gaps.len() == words.len() - 1,
        forall|i: int| 0 <= i < words.len() ==> plain(#[trigger] words[i]) && words[i].len() > 0,
        forall|j: int| 0 <= j < gaps.len() ==> #[trigger] gaps[j] >= 1,
    ensures
        tokens_of(spaced(words, gaps)) == Some(words),
{
    if words.len() == 0 {
        assert(words =~= Seq::<Seq<char>>::empty());
    } else {
        lemma_run_spaced(words, gaps);
        assert(words.drop_last().push(words.last()) =~= words);
    }
}

proof fn lemma_run_spaced(words: Seq<Seq<char>>, gaps: Seq<nat>)
    requires
        words.len() > 0,
        gaps.len() == words.len() - 1,
        forall|i: int| 0 <= i < words.len() ==> plain(#[trigger] words[i]) && words[i].len() > 0,
        forall|j: int| 0 <= j < gaps.len() ==> #[trigger] gaps[j] >= 1,
    ensures
        Scan::start().run(spaced(words, gaps)) == (Scan {
            done: words.drop_last(),
            word: words.last(),
            quoted: false,
            bare: true,
            gap: false,
        }),
    decreases words.len(),
{
    let start = Scan::start();
    if words.len() == 1 {
        lemma_run_plain(start, words[0]);
        assert(start.word + words[0] =~= words[0]);
        assert(words.drop_last() =~= Seq::<Seq<char>>::empty());
    } else {
        let head = words.drop_last();
        let head_gaps = gaps.drop_last();
        assert forall|i: int| 0 <= i < head.len() implies plain(#[trigger] head[i]) && head[i].len()
            > 0 by {
            assert(head[i] == words[i]);
        }
        assert forall|j: int| 0 <= j < head_gaps.len() implies #[trigger] head_gaps[j] >= 1 by {
            assert(head_gaps[j] == gaps[j]);
        }
        lemma_run_spaced(head, head_gaps);
        let a = spaced(head, head_gaps);
        let b = spaces(gaps.last());
        let c = words.last();
        let after_a = start.run(a);
        lemma_run_append(start, a + b, c);
        lemma_run_append(start, a, b);
        assert(gaps.last() == gaps[gaps.len() - 1]);
        lemma_run_spaces(after_a, gaps.last());
        let after_b = after_a.run(b);
        assert(after_a.closed() =~= head);
        lemma_run_plain(after_b, c);
        assert(after_b.word + c =~= c);
    }
}

/// A line ends inside a quoted span exactly when it holds an odd number of
/// quote characters, wherever they stand; trimming changes nothing in that.
pub proof fn law_odd_quotes(line: Seq<char>)
    ensures
        tokens_of(line) is None <==> quote_count(line) % 2 == 1,
        tokens_of(trimmed(line)) is None <==> quote_count(line) % 2 == 1,
{
    lemma_run_parity(line);
    lemma_run_parity(trimmed(line));
    lemma_trim_bounds(line);
    let a = leading_space(line) as int;
    let rest = line.skip(a);
    let b = rest.len() - trailing_space(rest);
    let cut_front = line.take(a);
    let cut_back = rest.skip(b);
    assert forall|i: int| 0 <= i < cut_front.len() implies white_space(#[trigger] cut_front[i]) by {
        assert(cut_front[i] == line[i]);
    }
    assert forall|i: int| 0 <= i < cut_back.len() implies white_space(#[trigger] cut_back[i]) by {
        assert(cut_back[i] == line[i + a + b]);
    }
    lemma_quote_count_white(cut_front);
    lemma_quote_count_white(cut_back);
    assert(line =~= cut_front + rest);
    assert(rest =~= trimmed(line) + cut_back);
    lemma_quote_count_append(cut_front, rest);
    lemma_quote_count_append(trimmed(line), cut_back);
}

proof fn lemma_run_parity(line: Seq<char>)
    ensures
        Scan::start().run(line).quoted <==> quote_count(line) % 2 == 1,
    decreases line.len(),
{
    if line.len() > 0 {
        lemma_run_parity(line.drop_last());
    }
}

proof fn lemma_quote_count_append(a: Seq<char>, b: Seq<char>)
    ensures
        quote_count(a + b) == quote_count(a) + quote_count(b),
    decreases b.len(),
{
    if b.len() == 0 {
        assert(a + b =~= a);
    } else {
        assert((a + b).drop_last() =~= a + b.drop_last());
        assert((a + b).last() == b.last());
        lemma_quote_count_append(a, b.drop_last());
    }
}

proof fn lemma_quote_count_white(s: Seq<char>)
    requires
        forall|i: int| 0 <= i < s.len() ==> white_space(#[trigger] s[i]),
    ensures
        quote_count(s) == 0,
    decreases s.len(),
{
    if s.len() > 0 {
        let head = s.drop_last();
        assert forall|i: int| 0 <= i < head.len() implies white_space(
            #[trigger] head[i],
        ) by {
            assert(head[i] == s[i]);
        }
        lemma_quote_count_white(head);
        assert(white_space(s.last()));
    }
}

/// Stretches that touch make one argument, quoted or not: a stretch
/// outside quotes, a quoted span right behind it and another stretch right
/// behind that run together, and the span's spaces stay. Where all three
/// are empty, as for a lone pair of quotes, there is no argument at all.
pub proof fn law_touching_spans(
    before: Seq<char>,
    inside: Seq<char>,
    after: Seq<char>,
    q: char,
    p: char,
)
    requires
        plain(before),
        quote_free(inside),
        plain(after),
        is_quote(q),
        is_quote(p),
    ensures
        tokens_of(before + seq![q] + inside + seq![p] + after) == if before.len() + inside.len()
            + after.len() > 0 {
            Some(seq![before + inside + after])
        } else {
            Some(Seq::<Seq<char>>::empty())
        },
{
    let start = Scan::start();
    let s1 = start.run(before);
    if before.len() > 0 {
        lemma_run_plain(start, before);
        assert(start.word + before =~= before);
    } else {
        assert(before =~= Seq::<char>::empty());
    }
    assert(s1.word =~= before && s1.done == start.done && !s1.quoted && !s1.gap);
    let l2 = before + seq![q];
    lemma_run_append(start, before, seq![q]);
    assert(seq![q].drop_last() =~= Seq::<char>::empty());
    assert(s1.run(seq![q].drop_last()) == s1);
    let s2 = start.run(l2);
    assert(s2 == s1.step(q));
    let l3 = l2 + inside;
    lemma_run_append(start, l2, inside);
    lemma_run_quoted(s2, inside);
    let s3 = start.run(l3);
    let l4 = l3 + seq![p];
    lemma_run_append(start, l3, seq![p]);
    assert(seq![p].drop_last() =~= Seq::<char>::empty());
    assert(s3.run(seq![p].drop_last()) == s3);
    let s4 = start.run(l4);
    assert(s4 == s3.step(p));
    let l5 = l4 + after;
    lemma_run_append(start, l4, after);
    let s5 = start.run(l5);
    if after.len() > 0 {
        lemma_run_plain(s4, after);
    } else {
        assert(after =~= Seq::<char>::empty());
        assert(s4.run(after) == s4);
    }
    assert(s5.word =~= before + inside + after);
    assert(s5.done =~= Seq::<Seq<char>>::empty());
    assert(Seq::<Seq<char>>::empty().push(s5.word) =~= seq![s5.word]);
}

/// Two states that the rest of a line cannot tell apart: they agree but
/// for the gap mark, and that only while no argument has begun.
spec fn alike(x: Scan, y: Scan) -> bool {
    &&& x.done == y.done
    &&& x.word == y.word
    &&& x.quoted == y.quoted
    &&& x.bare == y.bare
    &&& (x.gap == y.gap || (x.word.len() == 0 && !x.quoted && !x.bare))
}

proof fn lemma_run_alike(x: Scan, y: Scan, s: Seq<char>)
    requires
        alike(x, y),
    ensures
        alike(x.run(s), y.run(s)),
    decreases s.len(),
{
    if s.len() > 0 {
        lemma_run_alike(x, y, s.drop_last());
        let c = s.last();
        let a = x.run(s.drop_last());
        let b = y.run(s.drop_last());
        if a.gap != b.gap && !is_quote(c) && c != ' ' {
            assert(seq![c] =~= a.word.push(c));
        }
    }
}

proof fn lemma_run_trailing_spaces(st: Scan, n: nat)
    ensures
        st.run(spaces(n)).quoted == st.quoted,
        !st.quoted ==> st.run(spaces(n)).closed() == st.closed(),
    decreases n,
{
    let s = spaces(n);
    if n > 0 {
        assert(s.last() == ' ');
        assert(s.drop_last() =~= spaces((n - 1) as nat));
        lemma_run_trailing_spaces(st, (n - 1) as nat);
    }
}

/// Spaces before a line and spaces after it change nothing in its
/// arguments.
pub proof fn law_outer_spaces(line: Seq<char>, before: nat, after: nat)
    ensures
        tokens_of(spaces(before) + line + spaces(after)) == tokens_of(line),
{
    let start = Scan::start();
    lemma_run_blank(spaces(before));
    let led = start.run(spaces(before));
    assert(alike(led, start));
    lemma_run_append(start, spaces(before), line);
    lemma_run_alike(led, start, line);
    lemma_run_append(start, spaces(before) + line, spaces(after));
    lemma_run_trailing_spaces(led.run(line), after);
}

/// No argument is empty, and none holds a quote character.
pub proof fn law_tokens_are_solid(line: Seq<char>)
    ensures
        tokens_of(line) matches Some(args) ==> forall|i: int|
            0 <= i < args.len() ==> (#[trigger] args[i]).len() > 0 && quote_free(args[i]),
{
    lemma_run_solid(line);
}

proof fn lemma_run_solid(line: Seq<char>)
    ensures
        forall|i: int|
            0 <= i < Scan::start().run(line).done.len() ==> (#[trigger] Scan::start().run(
                line,
            ).done[i]).len() > 0 && quote_free(Scan::start().run(line).done[i]),
        quote_free(Scan::start().run(line).word),
    decreases line.len(),
{
    if line.len() > 0 {
        lemma_run_solid(line.drop_last());
    }
}

/// What reading one line came to: the text that was read, or nothing
/// where the read failed (`read` is `None`) or gave no byte at all, which
/// is how the end of the input shows.
pub fn line_from_read(read: Option<usize>, text: String) -> (line: Option<String>)
    ensures
        line == match read {
            Some(n) => if n > 0 {
                Some(text)
            } else {
                None
            },
            None => None,
        },
{
    match read {
        Some(n) => if n > 0 {
            Some(text)
        } else {
            None
        },
        None => None,
    }
}

/// One line of input, ready to be split into arguments.
#[derive(Debug)]
pub struct Tokenizer {
    input: String,
}

impl View for Tokenizer {
    type V = Seq<char>;

    /// The line, as it will be split.
    closed spec fn view(&self) -> Seq<char> {
        self.input@
    }
}

impl Tokenizer {
    /// Takes what reading one line gave: the line, or `None` where the
    /// input had ended or failed. The line is kept without the white space
    /// at its two ends, the line break among it.
    pub fn from(line: Option<String>) -> (r: Result<Tokenizer, RushError>)
        ensures
            match line {
                Some(text) => r matches Ok(t) && t@ == trimmed(text@),
                None => r matches Err(e) && e@ == RushErrorView::UnexpectedEOF,
            },
    {
        match line {
            Some(text) => Ok(Tokenizer { input: trim(text.as_str()) }),
            None => Err(RushError::UnexpectedEOF),
        }
    }

    /// Splits the line into its arguments. It fails where the line ends
    /// inside a quoted span, and only there; the line itself stays as it is.
    pub fn tokenize(&mut self) -> (r: Result<Vec<String>, RushError>)
        ensures
            final(self)@ == old(self)@,
            match tokens_of(old(self)@) {
                Some(args) => r matches Ok(v) && texts(v@) == args,
                None => r matches Err(e) && e@ == RushErrorView::UnterminatedQuote,
            },
    {
        let mut done: Vec<String> = Vec::new();
        let mut word = String::new();
        let mut quoted = false;
        let mut bare = false;
        let mut gap = false;
        let ghost line = self.input@;
        for c in it: self.input.as_str().chars()
            invariant
                it.seq() == line,
                Scan::start().run(line.take(it.index())).done == texts(done@),
                Scan::start().run(line.take(it.index())).word == word@,
                Scan::start().run(line.take(it.index())).quoted == quoted,
                Scan::start().run(line.take(it.index())).bare == bare,
                Scan::start().run(line.take(it.index())).gap == gap,
        {
            proof {
                let next = line.take(it.index() + 1);
                assert(next.drop_last() =~= line.take(it.index()));
                assert(next.last() == c);
                assert(texts(done@.push(word)) =~= texts(done@).push(word@));
            }
            if c == '\'' || c == '"' {
                if quoted {
                    quoted = false;
                } else {
                    quoted = true;
                    gap = false;
                }
            } else if quoted {
                word.push(c);
            } else if c == ' ' {
                if bare {
                    if !word.as_str().is_empty() {
                        done.push(word);
                        word = String::new();
                    }
                } else {
                    gap = true;
                }
            } else {
                if gap {
                    if !word.as_str().is_empty() {
                        done.push(word);
                        word = String::new();
                    }
                    gap = false;
                }
                word.push(c);
                bare = true;
            }
            proof {
                assert(seq![c] =~= Seq::<char>::empty().push(c));
            }
        }
        assert(line.take(line.len() as int) =~= line);
        if quoted {
            return Err(RushError::UnterminatedQuote);
        }
        proof {
            assert(texts(done@.push(word)) =~= texts(done@).push(word@));
        }
        if !word.as_str().is_empty() {
            done.push(word);
        }
        Ok(done)
    }
}

} // verus!
