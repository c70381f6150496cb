use vstd::prelude::*;
use vstd::string::StrSliceExecFns;
use vstd::string::StringExecFns;
use vstd::utf8::encode_utf8;

verus! {

/// Unicode whitespace, by scalar value: the characters that separate words.
pub open spec fn is_space_code(u: u32) -> bool {
    ||| u == 0x20
    ||| (0x09 <= u && u <= 0x0D)
    ||| u == 0x85
    ||| u == 0xA0
    ||| u == 0x1680
    ||| (0x2000 <= u && u <= 0x200A)
    ||| u == 0x2028
    ||| u == 0x2029
    ||| u == 0x202F
    ||| u == 0x205F
    ||| u == 0x3000
}

/// A character is whitespace when its scalar value is.
pub open spec fn is_space(c: char) -> bool {
    is_space_code(c as u32)
}

/// Whether `c` is whitespace for the purpose of splitting words.
pub fn is_space_char(c: char) -> (r: bool)
    ensures
        r == is_space(c),
{
    let u = c as u32;
    u == 0x20 || (0x09 <= u && u <= 0x0D) || u == 0x85 || u == 0xA0 || u == 0x1680 || (0x2000 <= u
        && u <= 0x200A) || u == 0x2028 || u == 0x2029 || u == 0x202F || u == 0x205F || u == 0x3000
}

/// Words starting at or after position `i`, given whether position `i - 1`
/// sits inside a word: a word starts at each non-whitespace character that
/// is not preceded by another non-whitespace character.
pub open spec fn word_count_from(s: Seq<char>, i: int, in_word: bool) -> nat
    decreases s.len() - i,
{
    if i < 0 || i >= s.len() {
        0
    } else {
        let starts: nat = if !is_space(s[i]) && !in_word {
            1
        } else {
            0
        };
        starts + word_count_from(s, i + 1, !is_space(s[i]))
    }
}

/// The number of maximal runs of non-whitespace characters in `s`.
pub open spec fn word_count(s: Seq<char>) -> nat {
    word_count_from(s, 0, false)
}

/// Newline characters at or after position `i`.
pub open spec fn newline_count_from(s: Seq<char>, i: int) -> nat
    decreases s.len() - i,
{
    if i < 0 || i >= s.len() {
        0
    } else {
        (if s[i] == '\n' {
            1nat
        } else {
            0nat
        }) + newline_count_from(s, i + 1)
    }
}

/// The number of newline characters in `s`.
pub open spec fn newline_count(s: Seq<char>) -> nat {
    newline_count_from(s, 0)
}

/// The number of newline-delimited segments of `s`: one per newline, plus
/// one for a final segment left unterminated. A trailing newline adds no
/// empty segment, and empty content has no lines at all.
pub open spec fn line_count(s: Seq<char>) -> nat {
    newline_count(s) + if s.len() > 0 && s[s.len() - 1] != '\n' {
        1nat
    } else {
        0nat
    }
}

/// The number of bytes in the UTF-8 encoding of `s`.
pub open spec fn byte_count(s: Seq<char>) -> nat {
    encode_utf8(s).len()
}

/// Every character takes at least one byte to encode.
pub proof fn lemma_byte_count_at_least_char_count(s: Seq<char>)
    ensures
        byte_count(s) >= s.len(),
    decreases s.len(),
{
    if s.len() > 0 {
        lemma_byte_count_at_least_char_count(s.drop_first());
        assert(vstd::utf8::encode_scalar(s[0] as u32).len() >= 1);
    }
}

/// The byte count of pure ASCII content equals its character count.
pub proof fn lemma_ascii_byte_count(s: Seq<char>)
    requires
        vstd::utf8::is_ascii_chars(s),
    ensures
        byte_count(s) == s.len(),
{
    vstd::utf8::is_ascii_chars_encode_utf8(s);
}

/// Content holding any character outside the ASCII range takes strictly
/// more bytes than it has characters.
pub proof fn lemma_multibyte_byte_count(s: Seq<char>)
    requires
        exists|i: int| 0 <= i < s.len() && (s[i] as u32) >= 0x80,
    ensures
        byte_count(s) > s.len(),
    decreases s.len(),
{
    let j = choose|i: int| 0 <= i < s.len() && (s[i] as u32) >= 0x80;
    if j == 0 {
        lemma_byte_count_at_least_char_count(s.drop_first());
        assert(!vstd::utf8::has_width_1_encoding(s[0] as u32));
        assert(vstd::utf8::encode_scalar(s[0] as u32).len() >= 2);
    } else {
        let rest = s.drop_first();
        assert(0 <= j - 1 < rest.len() && (rest[j - 1] as u32) >= 0x80);
        lemma_multibyte_byte_count(rest);
        assert(vstd::utf8::encode_scalar(s[0] as u32).len() >= 1);
    }
}

proof fn lemma_newline_count_from_bounds(s: Seq<char>, i: int)
    requires
        0 <= i <= s.len(),
    ensures
        newline_count_from(s, i) <= s.len() - i,
        i < s.len() && s[s.len() - 1] != '\n' ==> newline_count_from(s, i) < s.len() - i,
    decreases s.len() - i,
{
    if i < s.len() {
        lemma_newline_count_from_bounds(s, i + 1);
    }
}

/// The number of maximal whitespace-delimited tokens in `data`.
pub fn count_words(data: &str) -> (n: usize)
    ensures
        n == word_count(data@),
{
    let len = data.unicode_len();
    let mut i: usize = 0;
    let mut n: usize = 0;
    let mut in_word = false;
    while i < len
        invariant
            len == data@.len(),
            i <= len,
            n <= i,
            n + word_count_from(data@, i as int, in_word) == word_count(data@),
        decreases len - i,
    {
        let c = data.get_char(i);
        let sp = is_space_char(c);
        if !sp && !in_word {
            n = n + 1;
        }
        in_word = !sp;
        i = i + 1;
    }
    n
}

/// The number of newline-delimited segments of `data`.
pub fn count_lines(data: &str) -> (n: usize)
    ensures
        n == line_count(data@),
{
    let len = data.unicode_len();
    let mut i: usize = 0;
    let mut n: usize = 0;
    while i < len
        invariant
            len == data@.len(),
            i <= len,
            n <= i,
            n + newline_count_from(data@, i as int) == newline_count(data@),
        decreases len - i,
    {
        let c = data.get_char(i);
        if c == '\n' {
            n = n + 1;
        }
        i = i + 1;
    }
    if len == 0 {
        return 0;
    }
    let last = data.get_char(len - 1);
    if last == '\n' {
        n
    } else {
        proof {
            lemma_newline_count_from_bounds(data@, 0);
        }
        n + 1
    }
}

/// The four counts of one input source, together with its display name.
#[derive(Debug, Clone)]
pub struct WC {
    pub bytes: usize,
    pub chars: usize,
    pub words: usize,
    pub lines: usize,
    pub name: String,
}

impl WC {
    /// A record with every count at zero, for use as an accumulator.
    pub fn init(name: String) -> (r: WC)
        ensures
            r.bytes == 0,
            r.chars == 0,
            r.words == 0,
            r.lines == 0,
            r.name == name,
    {
        WC { bytes: 0, chars: 0, words: 0, lines: 0, name }
    }

    /// Counts the content of one source: its UTF-8 bytes, its characters,
    /// its whitespace-delimited words and its newline-delimited lines.
    pub fn read(name: String, data: &str) -> (r: WC)
        ensures
            r.bytes == byte_count(data@) as usize,
            byte_count(data@) <= usize::MAX ==> r.bytes == byte_count(data@),
            r.chars == data@.len(),
            r.words == word_count(data@),
            r.lines == line_count(data@),
            r.name == name,
    {
        let bytes = data.len();
        let chars = data.unicode_len();
        let words = count_words(data);
        let lines = count_lines(data);
        WC { bytes, chars, words, lines, name }
    }

    /// Adds every count of `other` into this record, leaving the name alone.
    pub fn add(&mut self, other: &WC)
        requires
            old(self).bytes + other.bytes <= usize::MAX,
            old(self).chars + other.chars <= usize::MAX,
            old(self).words + other.words <= usize::MAX,
            old(self).lines + other.lines <= usize::MAX,
        ensures
            final(self).bytes == old(self).bytes + other.bytes,
            final(self).chars == old(self).chars + other.chars,
            final(self).words == old(self).words + other.words,
            final(self).lines == old(self).lines + other.lines,
            final(self).name == old(self).name,
    {
        self.bytes = self.bytes + other.bytes;
        self.chars = self.chars + other.chars;
        self.words = self.words + other.words;
        self.lines = self.lines + other.lines;
    }
}

/// The sum of the byte counts of a sequence of records.
pub open spec fn sum_bytes(rs: Seq<WC>) -> nat
    decreases rs.len(),
{
    if rs.len() == 0 {
        0
    } else {
        (sum_bytes(rs.drop_last()) + rs.last().bytes) as nat
    }
}

/// The sum of the character counts of a sequence of records.
pub open spec fn sum_chars(rs: Seq<WC>) -> nat
    decreases rs.len(),
{
    if rs.len() == 0 {
        0
    } else {
        (sum_chars(rs.drop_last()) + rs.last().chars) as nat
    }
}

/// The sum of the word counts of a sequence of records.
pub open spec fn sum_words(rs: Seq<WC>) -> nat
    decreases rs.len(),
{
    if rs.len() == 0 {
        0
    } else {
        (sum_words(rs.drop_last()) + rs.last().words) as nat
    }
}

/// The sum of the line counts of a sequence of records.
pub open spec fn sum_lines(rs: Seq<WC>) -> nat
    decreases rs.len(),
{
    if rs.len() == 0 {
        0
    } else {
        (sum_lines(rs.drop_last()) + rs.last().lines) as nat
    }
}

proof fn lemma_sum_take_step(rs: Seq<WC>, i: int)
    requires
        0 <= i < rs.len(),
    ensures
        sum_bytes(rs.take(i + 1)) == sum_bytes(rs.take(i)) + rs[i].bytes,
        sum_chars(rs.take(i + 1)) == sum_chars(rs.take(i)) + rs[i].chars,
        sum_words(rs.take(i + 1)) == sum_words(rs.take(i)) + rs[i].words,
        sum_lines(rs.take(i + 1)) == sum_lines(rs.take(i)) + rs[i].lines,
{
    assert(rs.take(i + 1).drop_last() =~= rs.take(i));
    assert(rs.take(i + 1).last() == rs[i]);
}

proof fn lemma_sum_take_le(rs: Seq<WC>, i: int)
    requires
        0 <= i <= rs.len(),
    ensures
        sum_bytes(rs.take(i)) <= sum_bytes(rs),
        sum_chars(rs.take(i)) <= sum_chars(rs),
        sum_words(rs.take(i)) <= sum_words(rs),
        sum_lines(rs.take(i)) <= sum_lines(rs),
    decreases rs.len() - i,
{
    if i == rs.len() {
        assert(rs.take(i) =~= rs);
    } else {
        lemma_sum_take_step(rs, i);
        lemma_sum_take_le(rs, i + 1);
    }
}

/// Sums a sequence of records, in order, into a fresh accumulator labeled
/// `Total`: each field of the result is the arithmetic sum of that field
/// over all the records.
pub fn tally(records: &Vec<WC>) -> (total: WC)
    requires
        sum_bytes(records@) <= usize::MAX,
        sum_chars(records@) <= usize::MAX,
        sum_words(records@) <= usize::MAX,
        sum_lines(records@) <= usize::MAX,
    ensures
        total.bytes == sum_bytes(records@),
        total.chars == sum_chars(records@),
        total.words == sum_words(records@),
        total.lines == sum_lines(records@),
        total.name@ == "Total"@,
{
    let mut total = WC::init(String::from_str("Total"));
    let mut i: usize = 0;
    while i < records.len()
        invariant
            i <= records@.len(),
            total.bytes == sum_bytes(records@.take(i as int)),
            total.chars == sum_chars(records@.take(i as int)),
            total.words == sum_words(records@.take(i as int)),
            total.lines == sum_lines(records@.take(i as int)),
            total.name@ == "Total"@,
            sum_bytes(records@) <= usize::MAX,
            sum_chars(records@) <= usize::MAX,
            sum_words(records@) <= usize::MAX,
            sum_lines(records@) <= usize::MAX,
        decreases records@.len() - i,
    {
        proof {
            lemma_sum_take_step(records@, i as int);
            lemma_sum_take_le(records@, i as int + 1);
        }
        total.add(&records[i]);
        i = i + 1;
    }
    proof {
        assert(records@.take(records@.len() as int) =~= records@);
    }
    total
}

} // verus!
