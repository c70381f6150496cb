use vstd::prelude::*;
use vstd::string::StrSliceExecFns;

use crate::options::Options;

verus! {

/// One input source: standard input, or a file named by its path.
#[derive(Debug, Clone)]
pub enum Source {
    Stdin,
    File(String),
}

/// The token selects the byte count.
pub open spec fn is_bytes_flag(t: Seq<char>) -> bool {
    t == "-c"@ || t == "--bytes"@
}

/// The token selects the word count.
pub open spec fn is_words_flag(t: Seq<char>) -> bool {
    t == "-w"@ || t == "--words"@
}

/// The token selects the line count.
pub open spec fn is_lines_flag(t: Seq<char>) -> bool {
    t == "-l"@ || t == "--lines"@
}

/// The token selects the character count.
pub open spec fn is_chars_flag(t: Seq<char>) -> bool {
    t == "-m"@ || t == "--chars"@
}

/// The token is one of the recognized flags. Every other token names a
/// source, even one that merely looks like a flag.
pub open spec fn is_flag_token(t: Seq<char>) -> bool {
    is_bytes_flag(t) || is_words_flag(t) || is_lines_flag(t) || is_chars_flag(t)
}

/// The token names standard input rather than a file.
pub open spec fn is_stdin_token(t: Seq<char>) -> bool {
    t == "-"@
}

/// The subsequence of tokens that name sources, in their given order.
pub open spec fn source_tokens(toks: Seq<Seq<char>>) -> Seq<Seq<char>>
    decreases toks.len(),
{
    if toks.len() == 0 {
        Seq::empty()
    } else {
        let rest = source_tokens(toks.drop_last());
        if is_flag_token(toks.last()) {
            rest
        } else {
            rest.push(toks.last())
        }
    }
}

/// Some token selects the byte count.
pub open spec fn has_bytes_flag(toks: Seq<Seq<char>>) -> bool {
    exists|i: int| 0 <= i < toks.len() && is_bytes_flag(toks[i])
}

/// Some token selects the word count.
pub open spec fn has_words_flag(toks: Seq<Seq<char>>) -> bool {
    exists|i: int| 0 <= i < toks.len() && is_words_flag(toks[i])
}

/// Some token selects the line count.
pub open spec fn has_lines_flag(toks: Seq<Seq<char>>) -> bool {
    exists|i: int| 0 <= i < toks.len() && is_lines_flag(toks[i])
}

/// Some token selects the character count.
pub open spec fn has_chars_flag(toks: Seq<Seq<char>>) -> bool {
    exists|i: int| 0 <= i < toks.len() && is_chars_flag(toks[i])
}

/// The source stands for the token: `-` becomes standard input, any other
/// token a file named verbatim by the token.
pub open spec fn source_matches(s: Source, t: Seq<char>) -> bool {
    if is_stdin_token(t) {
        s is Stdin
    } else {
        s matches Source::File(p) && p@ == t
    }
}

proof fn lemma_classify_take_step(toks: Seq<Seq<char>>, i: int)
    requires
        0 <= i < toks.len(),
    ensures
        has_bytes_flag(toks.take(i + 1)) == (has_bytes_flag(toks.take(i)) || is_bytes_flag(
            toks[i],
        )),
        has_words_flag(toks.take(i + 1)) == (has_words_flag(toks.take(i)) || is_words_flag(
            toks[i],
        )),
        has_lines_flag(toks.take(i + 1)) == (has_lines_flag(toks.take(i)) || is_lines_flag(
            toks[i],
        )),
        has_chars_flag(toks.take(i + 1)) == (has_chars_flag(toks.take(i)) || is_chars_flag(
            toks[i],
        )),
        source_tokens(toks.take(i + 1)) == if is_flag_token(toks[i]) {
            source_tokens(toks.take(i))
        } else {
            source_tokens(toks.take(i)).push(toks[i])
        },
{
    let t = toks.take(i + 1);
    let u = toks.take(i);
    assert(t.drop_last() =~= u);
    assert(t.last() == toks[i]);
    if has_bytes_flag(u) {
        let w = choose|k: int| 0 <= k < u.len() && is_bytes_flag(u[k]);
        assert(is_bytes_flag(t[w]));
    }
    if is_bytes_flag(toks[i]) {
        assert(is_bytes_flag(t[i]));
    }
    if has_bytes_flag(t) && !is_bytes_flag(toks[i]) {
        let w = choose|k: int| 0 <= k < t.len() && is_bytes_flag(t[k]);
        assert(w != i);
        assert(is_bytes_flag(u[w]));
    }
    if has_words_flag(u) {
        let w = choose|k: int| 0 <= k < u.len() && is_words_flag(u[k]);
        assert(is_words_flag(t[w]));
    }
    if is_words_flag(toks[i]) {
        assert(is_words_flag(t[i]));
    }
    if has_words_flag(t) && !is_words_flag(toks[i]) {
        let w = choose|k: int| 0 <= k < t.len() && is_words_flag(t[k]);
        assert(w != i);
        assert(is_words_flag(u[w]));
    }
    if has_lines_flag(u) {
        let w = choose|k: int| 0 <= k < u.len() && is_lines_flag(u[k]);
        assert(is_lines_flag(t[w]));
    }
    if is_lines_flag(toks[i]) {
        assert(is_lines_flag(t[i]));
    }
    if has_lines_flag(t) && !is_lines_flag(toks[i]) {
        let w = choose|k: int| 0 <= k < t.len() && is_lines_flag(t[k]);
        assert(w != i);
        assert(is_lines_flag(u[w]));
    }
    if has_chars_flag(u) {
        let w = choose|k: int| 0 <= k < u.len() && is_chars_flag(u[k]);
        assert(is_chars_flag(t[w]));
    }
    if is_chars_flag(toks[i]) {
        assert(is_chars_flag(t[i]));
    }
    if has_chars_flag(t) && !is_chars_flag(toks[i]) {
        let w = choose|k: int| 0 <= k < t.len() && is_chars_flag(t[k]);
        assert(w != i);
        assert(is_chars_flag(u[w]));
    }
}

/// Whether two string slices hold the same characters.
pub fn str_eq(a: &str, b: &str) -> (r: bool)
    ensures
        r == (a@ == b@),
{
    let n = a.unicode_len();
    let m = b.unicode_len();
    if n != m {
        return false;
    }
    let mut i: usize = 0;
    while i < n
        invariant
            n == a@.len(),
            n == b@.len(),
            i <= n,
            forall|j: int| 0 <= j < i ==> a@[j] == b@[j],
        decreases n - i,
    {
        if a.get_char(i) != b.get_char(i) {
            return false;
        }
        i = i + 1;
    }
    proof {
        assert(a@ =~= b@);
    }
    true
}

/// Classifies the command-line tokens: every recognized flag goes into the
/// configuration, order-independently and idempotently, and every other
/// token becomes a source, in the order the tokens were given. `nofiles`
/// reports that no source token at all was seen.
pub fn resolve_args(args: &Vec<String>) -> (r: (Options, Vec<Source>))
    ensures
        r.0.bytes == has_bytes_flag(args.deep_view()),
        r.0.words == has_words_flag(args.deep_view()),
        r.0.lines == has_lines_flag(args.deep_view()),
        r.0.chars == has_chars_flag(args.deep_view()),
        r.0.nofiles == (source_tokens(args.deep_view()).len() == 0),
        r.1@.len() == source_tokens(args.deep_view()).len(),
        forall|j: int|
            0 <= j < r.1@.len() ==> source_matches(r.1@[j], source_tokens(args.deep_view())[j]),
{
    let ghost toks: Seq<Seq<char>> = args.deep_view();
    let mut options = Options::init();
    let mut sources: Vec<Source> = Vec::new();
    let mut i: usize = 0;
    while i < args.len()
        invariant
            i <= args@.len(),
            toks == args.deep_view(),
            toks.len() == args@.len(),
            options.bytes == has_bytes_flag(toks.take(i as int)),
            options.words == has_words_flag(toks.take(i as int)),
            options.lines == has_lines_flag(toks.take(i as int)),
            options.chars == has_chars_flag(toks.take(i as int)),
            options.nofiles == (source_tokens(toks.take(i as int)).len() == 0),
            sources@.len() == source_tokens(toks.take(i as int)).len(),
            forall|j: int|
                0 <= j < sources@.len() ==> source_matches(
                    sources@[j],
                    source_tokens(toks.take(i as int))[j],
                ),
        decreases args@.len() - i,
    {
        let a: &String = &args[i];
        proof {
            assert(toks[i as int] == a@);
            lemma_classify_take_step(toks, i as int);
        }
        let bytes_flag = str_eq(a.as_str(), "-c") || str_eq(a.as_str(), "--bytes");
        let words_flag = str_eq(a.as_str(), "-w") || str_eq(a.as_str(), "--words");
        let lines_flag = str_eq(a.as_str(), "-l") || str_eq(a.as_str(), "--lines");
        let chars_flag = str_eq(a.as_str(), "-m") || str_eq(a.as_str(), "--chars");
        if bytes_flag {
            options.bytes = true;
        }
        if words_flag {
            options.words = true;
        }
        if lines_flag {
            options.lines = true;
        }
        if chars_flag {
            options.chars = true;
        }
        if !bytes_flag && !words_flag && !lines_flag && !chars_flag {
            options.nofiles = false;
            if str_eq(a.as_str(), "-") {
                sources.push(Source::Stdin);
            } else {
                sources.push(Source::File(a.clone()));
            }
        }
        i = i + 1;
    }
    proof {
        assert(toks.take(toks.len() as int) =~= toks);
    }
    (options, sources)
}

/// The fallback when no source was named: standard input becomes the sole
/// implicit source. A non-empty list stands as it is.
pub fn effective_sources(sources: Vec<Source>) -> (r: Vec<Source>)
    ensures
        sources@.len() > 0 ==> r == sources,
        sources@.len() == 0 ==> r@.len() == 1 && r@[0] is Stdin,
{
    let mut sources = sources;
    if sources.len() == 0 {
        sources.push(Source::Stdin);
    }
    sources
}

} // verus!
