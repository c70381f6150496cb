use vstd::prelude::*;
use vstd::string::StrSliceExecFns;
use vstd::string::StringExecFns;

use crate::count::WC;
use crate::options::Options;

verus! {

/// The digit character for a value below ten.
pub open spec fn dec_digit(d: int) -> char
    recommends
        0 <= d < 10,
{
    if d == 0 {
        '0'
    } else if d == 1 {
        '1'
    } else if d == 2 {
        '2'
    } else if d == 3 {
        '3'
    } else if d == 4 {
        '4'
    } else if d == 5 {
        '5'
    } else if d == 6 {
        '6'
    } else if d == 7 {
        '7'
    } else if d == 8 {
        '8'
    } else {
        '9'
    }
}

/// The decimal representation of `n`, most significant digit first, with
/// no leading zeros (a lone zero for `n == 0`).
pub open spec fn dec_rep(n: nat) -> Seq<char>
    decreases n,
{
    if n < 10 {
        seq![dec_digit(n as int)]
    } else {
        dec_rep(n / 10).push(dec_digit((n % 10) as int))
    }
}

/// `n` space characters.
pub open spec fn spaces(n: nat) -> Seq<char> {
    Seq::new(n, |i: int| ' ')
}

/// `ds` right-aligned in a column of width six: too-short content is
/// preceded by spaces, longer content stands as it is.
pub open spec fn pad6(ds: Seq<char>) -> Seq<char> {
    if ds.len() >= 6 {
        ds
    } else {
        spaces((6 - ds.len()) as nat) + ds
    }
}

/// One numeric output field: the count right-aligned to width six,
/// followed by a single space.
pub open spec fn field_str(n: nat) -> Seq<char> {
    pad6(dec_rep(n)) + seq![' ']
}

/// The report line for one record under the given configuration: with no
/// count flag set, the line, word and byte fields in that order; otherwise
/// only the selected fields, where the byte count takes precedence over the
/// character count. The label and a newline always end the line.
pub open spec fn render_spec(
    op: Options,
    lines: nat,
    words: nat,
    bytes: nat,
    chars: nat,
    name: Seq<char>,
) -> Seq<char> {
    if op.default_mode() {
        field_str(lines) + field_str(words) + field_str(bytes) + name + seq!['\n']
    } else {
        (if op.lines {
            field_str(lines)
        } else {
            Seq::empty()
        }) + (if op.words {
            field_str(words)
        } else {
            Seq::empty()
        }) + (if op.bytes {
            field_str(bytes)
        } else if op.chars {
            field_str(chars)
        } else {
            Seq::empty()
        }) + name + seq!['\n']
    }
}

/// In the default mode (no count flag set) a report line holds exactly the
/// line, word and byte fields, in that order, then the label.
pub proof fn lemma_default_mode_fields(
    op: Options,
    lines: nat,
    words: nat,
    bytes: nat,
    chars: nat,
    name: Seq<char>,
)
    requires
        op.default_mode(),
    ensures
        render_spec(op, lines, words, bytes, chars, name) == field_str(lines) + field_str(words)
            + field_str(bytes) + name + seq!['\n'],
{
}

/// Bytes take precedence over characters: when both are selected, the line
/// is the one rendered with the character count deselected, so the
/// character count never appears beside the byte count.
pub proof fn lemma_bytes_take_precedence(
    op: Options,
    lines: nat,
    words: nat,
    bytes: nat,
    chars: nat,
    name: Seq<char>,
)
    requires
        op.bytes,
    ensures
        render_spec(op, lines, words, bytes, chars, name) == render_spec(
            (Options {
                bytes: op.bytes,
                chars: false,
                words: op.words,
                lines: op.lines,
                nofiles: op.nofiles,
            }),
            lines,
            words,
            bytes,
            chars,
            name,
        ),
{
}

/// Appends the digit character for `d` to `s`.
fn append_digit(s: &mut String, d: usize)
    requires
        d < 10,
    ensures
        final(s)@ == old(s)@ + seq![dec_digit(d as int)],
{
    if d == 0 {
        s.append("0");
        proof {
            reveal_strlit("0");
            assert(final(s)@ =~= old(s)@ + seq![dec_digit(d as int)]);
        }
    } else if d == 1 {
        s.append("1");
        proof {
            reveal_strlit("1");
            assert(final(s)@ =~= old(s)@ + seq![dec_digit(d as int)]);
        }
    } else if d == 2 {
        s.append("2");
        proof {
            reveal_strlit("2");
            assert(final(s)@ =~= old(s)@ + seq![dec_digit(d as int)]);
        }
    } else if d == 3 {
        s.append("3");
        proof {
            reveal_strlit("3");
            assert(final(s)@ =~= old(s)@ + seq![dec_digit(d as int)]);
        }
    } else if d == 4 {
        s.append("4");
        proof {
            reveal_strlit("4");
            assert(final(s)@ =~= old(s)@ + seq![dec_digit(d as int)]);
        }
    } else if d == 5 {
        s.append("5");
        proof {
            reveal_strlit("5");
            assert(final(s)@ =~= old(s)@ + seq![dec_digit(d as int)]);
        }
    } else if d == 6 {
        s.append("6");
        proof {
            reveal_strlit("6");
            assert(final(s)@ =~= old(s)@ + seq![dec_digit(d as int)]);
        }
    } else if d == 7 {
        s.append("7");
        proof {
            reveal_strlit("7");
            assert(final(s)@ =~= old(s)@ + seq![dec_digit(d as int)]);
        }
    } else if d == 8 {
        s.append("8");
        proof {
            reveal_strlit("8");
            assert(final(s)@ =~= old(s)@ + seq![dec_digit(d as int)]);
        }
    } else {
        s.append("9");
        proof {
            reveal_strlit("9");
            assert(final(s)@ =~= old(s)@ + seq![dec_digit(d as int)]);
        }
    }
}

/// The decimal representation of `n` as a string.
pub fn usize_to_string(n: usize) -> (r: String)
    ensures
        r@ == dec_rep(n as nat),
    decreases n,
{
    if n < 10 {
        let mut s = String::new();
        append_digit(&mut s, n);
        proof {
            assert(s@ =~= dec_rep(n as nat));
        }
        s
    } else {
        let mut s = usize_to_string(n / 10);
        append_digit(&mut s, n % 10);
        proof {
            assert(s@ =~= dec_rep(n as nat));
        }
        s
    }
}

/// One numeric output field: `n` right-aligned to width six, then a space.
#[verifier::loop_isolation(false)]
pub fn pad_field(n: usize) -> (r: String)
    ensures
        r@ == field_str(n as nat),
{
    let digits = usize_to_string(n);
    let dlen = digits.as_str().unicode_len();
    let mut r = String::new();
    let mut k: usize = dlen;
    while k < 6
        invariant
            dlen <= k,
            k <= 6 || k == dlen,
            r@ =~= spaces((k - dlen) as nat),
        decreases 6 - k,
    {
        r.append(" ");
        proof {
            reveal_strlit(" ");
            assert(r@ =~= spaces((k + 1 - dlen) as nat));
        }
        k = k + 1;
    }
    r.append(digits.as_str());
    r.append(" ");
    proof {
        reveal_strlit(" ");
        assert(r@ =~= field_str(n as nat));
    }
    r
}

impl WC {
    /// The report line for this record under the given configuration.
    pub fn render(&self, op: &Options) -> (r: String)
        ensures
            r@ == render_spec(
                *op,
                self.lines as nat,
                self.words as nat,
                self.bytes as nat,
                self.chars as nat,
                self.name@,
            ),
    {
        let mut r = String::new();
        if !op.bytes && !op.chars && !op.words && !op.lines {
            let f = pad_field(self.lines);
            r.append(f.as_str());
            let f = pad_field(self.words);
            r.append(f.as_str());
            let f = pad_field(self.bytes);
            r.append(f.as_str());
        } else {
            if op.lines {
                let f = pad_field(self.lines);
                r.append(f.as_str());
            }
            if op.words {
                let f = pad_field(self.words);
                r.append(f.as_str());
            }
            if op.bytes {
                let f = pad_field(self.bytes);
                r.append(f.as_str());
            } else if op.chars {
                let f = pad_field(self.chars);
                r.append(f.as_str());
            }
        }
        r.append(self.name.as_str());
        r.append("\n");
        proof {
            reveal_strlit("\n");
            assert(r@ =~= render_spec(
                *op,
                self.lines as nat,
                self.words as nat,
                self.bytes as nat,
                self.chars as nat,
                self.name@,
            ));
        }
        r
    }
}

} // verus!
