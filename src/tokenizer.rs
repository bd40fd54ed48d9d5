use vstd::prelude::*;
use crate::error::ShellError;

verus! {

/// Which kind of quote, if any, the scan is inside.
#[derive(Debug, Clone, Copy, PartialEq, Eq, Structural)]
pub enum QuoteContext {
    Unquoted,
    SingleQuoted,
    DoubleQuoted,
}

/// The characters that `char::is_whitespace` accepts (Unicode `White_Space`).
pub open spec fn is_white(c: char) -> bool {
    ('\u{9}' <= c && c <= '\u{d}') || c == ' ' || c == '\u{85}' || c == '\u{a0}' || c == '\u{1680}'
        || ('\u{2000}' <= c && c <= '\u{200a}') || c == '\u{2028}' || c == '\u{2029}'
        || c == '\u{202f}' || c == '\u{205f}' || c == '\u{3000}'
}

pub open spec fn trim_start(s: Seq<char>) -> Seq<char>
    decreases s.len(),
{
    if s.len() > 0 && is_white(s[0]) {
        trim_start(s.drop_first())
    } else {
        s
    }
}

pub open spec fn trim_end(s: Seq<char>) -> Seq<char>
    decreases s.len(),
{
    if s.len() > 0 && is_white(s.last()) {
        trim_end(s.drop_last())
    } else {
        s
    }
}

/// The line without leading and trailing whitespace.
pub open spec fn trim(s: Seq<char>) -> Seq<char> {
    trim_end(trim_start(s))
}

/// The tokenizer's state after reading a prefix of the trimmed line.
pub ghost struct Scan {
    /// Tokens completed so far.
    pub tokens: Seq<Seq<char>>,
    /// The word being built.
    pub word: Seq<char>,
    pub quote: QuoteContext,
    /// The last character read was an unquoted space.
    pub after_space: bool,
}

pub open spec fn scan_start() -> Scan {
    Scan { tokens: Seq::empty(), word: Seq::empty(), quote: QuoteContext::Unquoted, after_space: false }
}

pub open spec fn append_char(st: Scan, c: char) -> Scan {
    Scan { word: st.word.push(c), after_space: false, ..st }
}

pub open spec fn enter(st: Scan, q: QuoteContext) -> Scan {
    Scan { quote: q, after_space: false, ..st }
}

/// Reads one character.
pub open spec fn step(st: Scan, c: char) -> Scan {
    match st.quote {
        QuoteContext::Unquoted => {
            if c == ' ' {
                if st.after_space {
                    st
                } else {
                    Scan {
                        tokens: st.tokens.push(st.word),
                        word: Seq::empty(),
                        quote: QuoteContext::Unquoted,
                        after_space: true,
                    }
                }
            } else if c == '\'' {
                enter(st, QuoteContext::SingleQuoted)
            } else if c == '"' {
                enter(st, QuoteContext::DoubleQuoted)
            } else {
                append_char(st, c)
            }
        },
        QuoteContext::SingleQuoted => {
            if c == '\'' {
                enter(st, QuoteContext::Unquoted)
            } else {
                append_char(st, c)
            }
        },
        QuoteContext::DoubleQuoted => {
            if c == '"' {
                enter(st, QuoteContext::Unquoted)
            } else {
                append_char(st, c)
            }
        },
    }
}

/// The state after reading all of `cs`.
pub open spec fn scan(cs: Seq<char>) -> Scan
    decreases cs.len(),
{
    if cs.len() == 0 {
        scan_start()
    } else {
        step(scan(cs.drop_last()), cs.last())
    }
}

/// The tokens of a line, or `None` when a quote is left open.
pub open spec fn tokenize(line: Seq<char>) -> Option<Seq<Seq<char>>> {
    let t = trim(line);
    let st = scan(t);
    if st.quote != QuoteContext::Unquoted {
        None
    } else if t.len() == 0 {
        Some(Seq::empty())
    } else {
        Some(st.tokens.push(st.word))
    }
}

/// Whether `c` is whitespace in the sense of `char::is_whitespace`.
pub fn is_whitespace(c: char) -> (r: bool)
    ensures
        r == is_white(c),
{
    ('\u{9}' <= c && c <= '\u{d}') || c == ' ' || c == '\u{85}' || c == '\u{a0}' || c == '\u{1680}'
        || ('\u{2000}' <= c && c <= '\u{200a}') || c == '\u{2028}' || c == '\u{2029}'
        || c == '\u{202f}' || c == '\u{205f}' || c == '\u{3000}'
}

/// The character bounds of `s` once leading and trailing whitespace is dropped.
fn trim_bounds(s: &str) -> (r: (usize, usize))
    ensures
        r.0 <= r.1 <= s@.len(),
        s@.subrange(r.0 as int, r.1 as int) == trim(s@),
{
    let n = s.unicode_len();
    let mut start: usize = 0;
    assert(s@.subrange(0, n as int) =~= s@);
    while start < n && is_whitespace(s.get_char(start))
        invariant
            n == s@.len(),
            start <= n,
            trim_start(s@) == trim_start(s@.subrange(start as int, n as int)),
        decreases n - start,
    {
        assert(s@.subrange(start as int, n as int).drop_first() =~= s@.subrange(start + 1, n as int));
        start += 1;
    }
    assert(trim_start(s@) == s@.subrange(start as int, n as int));
    let mut end: usize = n;
    while end > start && is_whitespace(s.get_char(end - 1))
        invariant
            n == s@.len(),
            start <= end <= n,
            trim(s@) == trim_end(s@.subrange(start as int, end as int)),
        decreases end,
    {
        assert(s@.subrange(start as int, end as int).drop_last() =~= s@.subrange(start as int, end - 1));
        end -= 1;
    }
    (start, end)
}

/// Splits one line into words.
///
/// Leading and trailing whitespace is dropped. An unquoted space ends a word, and a run
/// of spaces counts as one. Single and double quotes group characters, spaces included,
/// into one word, and each kind of quote is literal inside the other. Fails when the line
/// ends inside a quote.
pub fn tokenizer(buffer: &String) -> (r: Result<Vec<String>, ShellError>)
    ensures
        match tokenize(buffer@) {
            Some(ts) => r is Ok && r->Ok_0.deep_view() == ts,
            None => r == Err::<Vec<String>, ShellError>(ShellError::MismatchedQuotes),
        },
{
    let (lo, hi) = trim_bounds(buffer.as_str());
    let t: &str = buffer.as_str().substring_char(lo, hi);
    let n = t.unicode_len();
    let ghost line = t@;
    let mut tokens: Vec<String> = Vec::new();
    let mut word = String::new();
    let mut quote = QuoteContext::Unquoted;
    let mut after_space = false;
    // Start of the run of literal characters not yet copied into `word`.
    let mut seg: usize = 0;
    let mut i: usize = 0;
    while i < n
        invariant
            n == line.len(),
            line == t@,
            line == trim(buffer@),
            seg <= i <= n,
            after_space ==> seg == i && word@.len() == 0,
            tokens.deep_view() == scan(line.take(i as int)).tokens,
            word@ + line.subrange(seg as int, i as int) == scan(line.take(i as int)).word,
            quote == scan(line.take(i as int)).quote,
            after_space == scan(line.take(i as int)).after_space,
        decreases n - i,
    {
        let c = t.get_char(i);
        let ghost before = scan(line.take(i as int));
        assert(line.take(i + 1).drop_last() =~= line.take(i as int));
        assert(line.take(i + 1).last() == c);
        let delimits = c == ' ' && quote == QuoteContext::Unquoted;
        let toggles = (c == '\'' && quote != QuoteContext::DoubleQuoted)
            || (c == '"' && quote != QuoteContext::SingleQuoted);
        if delimits {
            if !after_space {
                word.append(t.substring_char(seg, i));
                tokens.push(word);
                word = String::new();
                after_space = true;
                assert(tokens.deep_view() =~= before.tokens.push(before.word));
            }
            seg = i + 1;
            assert(word@ + line.subrange(seg as int, i + 1) =~= word@);
        } else if toggles {
            word.append(t.substring_char(seg, i));
            quote = if quote == QuoteContext::Unquoted {
                if c == '\'' {
                    QuoteContext::SingleQuoted
                } else {
                    QuoteContext::DoubleQuoted
                }
            } else {
                QuoteContext::Unquoted
            };
            after_space = false;
            seg = i + 1;
            assert(word@ + line.subrange(seg as int, i + 1) =~= before.word);
        } else {
            after_space = false;
            assert(word@ + line.subrange(seg as int, i + 1) =~= before.word.push(c));
        }
        i += 1;
    }
    assert(line.take(n as int) =~= line);
    if quote != QuoteContext::Unquoted {
        return Err(ShellError::MismatchedQuotes);
    }
    if n > 0 {
        word.append(t.substring_char(seg, n));
        tokens.push(word);
        assert(tokens.deep_view() =~= scan(line).tokens.push(scan(line).word));
    }
    Ok(tokens)
}

proof fn lemma_trim_start_of_blank(s: Seq<char>)
    requires
        forall|i: int| 0 <= i < s.len() ==> is_white(#[trigger] s[i]),
    ensures
        trim_start(s).len() == 0,
    decreases s.len(),
{
    if s.len() > 0 {
        assert(is_white(s[0]));
        lemma_trim_start_of_blank(s.drop_first());
    }
}

/// A line made only of whitespace yields no tokens at all.
pub proof fn lemma_blank_line_has_no_tokens(line: Seq<char>)
    requires
        forall|i: int| 0 <= i < line.len() ==> is_white(#[trigger] line[i]),
    ensures
        tokenize(line) == Some(Seq::<Seq<char>>::empty()),
{
    lemma_trim_start_of_blank(line);
    assert(trim(line).len() == 0);
    assert(scan(trim(line)) == scan_start());
}

/// Tokenizing depends on the line alone: the same line gives the same tokens, or the
/// same error, every time.
pub proof fn lemma_tokenize_same_line_same_result(a: Seq<char>, b: Seq<char>)
    requires
        a == b,
    ensures
        tokenize(a) == tokenize(b),
{
}

} // verus!
