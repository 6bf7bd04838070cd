//! A fixed-width comment banner for shell scripts: the content is wrapped
//! to the available width, visually centred, and framed by `#` borders.
//!
//! Wrapping counts a visual width per character: ideographs, full-width
//! forms and common emoji count two columns, everything else one.  Blank
//! lines in the content are kept as empty framed lines.

use vstd::prelude::*;
use vstd::string::StrSliceExecFns;
use vstd::string::StringExecFns;
use crate::strutil::push_char;

verus! {

/// The visual width of one character: two columns for ideographs,
/// full-width forms and common emoji, one column otherwise.
pub open spec fn char_width(c: char) -> int {
    if ('\u{4e00}' <= c && c <= '\u{9fff}') || ('\u{3000}' <= c && c <= '\u{303f}') || (
    '\u{3040}' <= c && c <= '\u{30ff}') || ('\u{ff00}' <= c && c <= '\u{ffef}') || ('\u{1f300}'
        <= c && c <= '\u{1f6ff}') || ('\u{1f900}' <= c && c <= '\u{1f9ff}') {
        2
    } else {
        1
    }
}

/// The visual width of one character.
pub fn visual_width_char(ch: char) -> (r: usize)
    ensures
        r as int == char_width(ch),
{
    if ('\u{4e00}' <= ch && ch <= '\u{9fff}') || ('\u{3000}' <= ch && ch <= '\u{303f}') || (
    '\u{3040}' <= ch && ch <= '\u{30ff}') || ('\u{ff00}' <= ch && ch <= '\u{ffef}') || (
    '\u{1f300}' <= ch && ch <= '\u{1f6ff}') || ('\u{1f900}' <= ch && ch <= '\u{1f9ff}') {
        2
    } else {
        1
    }
}

/// A run of spaces.
pub open spec fn spaces(n: int) -> Seq<char> {
    Seq::new(n as nat, |i: int| ' ')
}

/// The horizontal border `#---...---#` with its newline.
pub open spec fn border(width: int) -> Seq<char> {
    seq!['#'] + Seq::new((width - 2) as nat, |i: int| '-') + seq!['#', '\n']
}

/// How many characters of `s` fit on one line of `maxw` columns, stopping
/// at a newline.
pub open spec fn fill_len(s: Seq<char>, maxw: int) -> int
    decreases s.len(),
{
    if s.len() == 0 {
        0
    } else if s[0] == '\n' {
        0
    } else if char_width(s[0]) > maxw {
        0
    } else {
        1 + fill_len(s.skip(1), maxw - char_width(s[0]))
    }
}

/// The visual width of the characters that [`fill_len`] takes.
pub open spec fn fill_width(s: Seq<char>, maxw: int) -> int
    decreases s.len(),
{
    if s.len() == 0 {
        0
    } else if s[0] == '\n' {
        0
    } else if char_width(s[0]) > maxw {
        0
    } else {
        char_width(s[0]) + fill_width(s.skip(1), maxw - char_width(s[0]))
    }
}

proof fn lemma_fill_len_bounds(s: Seq<char>, maxw: int)
    ensures
        0 <= fill_len(s, maxw) <= s.len(),
    decreases s.len(),
{
    if s.len() > 0 && s[0] != '\n' && char_width(s[0]) <= maxw {
        lemma_fill_len_bounds(s.skip(1), maxw - char_width(s[0]));
    }
}

/// One centred framed line: `#`, the left padding, the text, the right
/// padding, `#`, newline.  A surplus column goes to the right.
pub open spec fn framed_line(text: Seq<char>, vis: int, maxw: int, pad: int) -> Seq<char> {
    let sp = maxw - vis;
    let left = pad + sp / 2;
    let right = pad + (sp - sp / 2);
    seq!['#'] + spaces(left) + text + spaces(right) + seq!['#', '\n']
}

/// The framed body of the banner: blank content lines become empty framed
/// lines, and each run of text is wrapped at `maxw` columns and centred.
/// (With fewer than two columns no character may fit; the rest of the
/// content is then dropped, a case the executable banner excludes.)
pub open spec fn say_body(s: Seq<char>, maxw: int, pad: int) -> Seq<char>
    decreases s.len(),
    via say_body_dec
{
    if s.len() == 0 {
        Seq::empty()
    } else if s[0] == '\n' {
        seq!['#'] + spaces(maxw + 2 * pad) + seq!['#', '\n'] + say_body(s.skip(1), maxw, pad)
    } else {
        let k = fill_len(s, maxw);
        if k == 0 {
            Seq::empty()
        } else {
            let w = fill_width(s, maxw);
            let consumed: int = if k < s.len() && s[k] == '\n' {
                k + 1
            } else {
                k
            };
            framed_line(s.subrange(0, k), w, maxw, pad) + say_body(s.skip(consumed), maxw, pad)
        }
    }
}

#[via_fn]
proof fn say_body_dec(s: Seq<char>, maxw: int, pad: int) {
    if s.len() > 0 && s[0] != '\n' {
        lemma_fill_len_bounds(s, maxw);
    }
}

/// The whole banner: border, framed body, border.
pub open spec fn spec_say_section(content: Seq<char>, width: int, pad: int) -> Seq<char> {
    border(width) + say_body(content, width - 2 - 2 * pad, pad) + border(width)
}

/// Append `n` spaces.
fn push_spaces(out: &mut String, n: usize)
    ensures
        final(out)@ == old(out)@ + spaces(n as int),
{
    let mut i: usize = 0;
    proof {
        assert(old(out)@ + spaces(0) =~= old(out)@);
    }
    while i < n
        invariant
            0 <= i <= n,
            out@ == old(out)@ + spaces(i as int),
        decreases n - i,
    {
        push_char(out, ' ');
        i = i + 1;
        proof {
            assert((old(out)@ + spaces(i - 1)).push(' ') =~= old(out)@ + spaces(i as int));
        }
    }
}

/// Append the horizontal border.
fn push_border(out: &mut String, width: usize)
    requires
        width >= 2,
    ensures
        final(out)@ == old(out)@ + border(width as int),
{
    push_char(out, '#');
    let n = width - 2;
    let mut i: usize = 0;
    while i < n
        invariant
            0 <= i <= n,
            out@ == old(out)@.push('#') + Seq::new(i as nat, |j: int| '-'),
        decreases n - i,
    {
        push_char(out, '-');
        i = i + 1;
        proof {
            assert((old(out)@.push('#') + Seq::new((i - 1) as nat, |j: int| '-')).push('-') =~= old(
                out,
            )@.push('#') + Seq::new(i as nat, |j: int| '-'));
        }
    }
    push_char(out, '#');
    push_char(out, '\n');
    proof {
        assert(old(out)@.push('#') + Seq::new(n as nat, |j: int| '-') =~= old(out)@ + (seq!['#']
            + Seq::new(n as nat, |j: int| '-')));
        assert(out@ =~= old(out)@ + border(width as int));
    }
}

/// Append a comment banner framing `content`: a border, the content
/// wrapped at the available width and visually centred between `#` marks,
/// and a closing border.
#[verifier::loop_isolation(false)]
#[verifier::rlimit(100)]
pub fn say_section(writer: &mut String, content: &str, width: usize, padding: usize) -> (r:
    Result<(), ()>)
    requires
        width >= 2 * padding + 4,
    ensures
        r is Ok,
        final(writer)@ == old(writer)@ + spec_say_section(
            content@,
            width as int,
            padding as int,
        ),
{
    let ghost s = content@;
    let maxw = width - 2 - padding * 2;
    push_border(writer, width);
    let ghost base = writer@;
    let n = content.unicode_len();
    let mut i: usize = 0;
    proof {
        assert(s.skip(0) =~= s);
        assert(base + Seq::<char>::empty() =~= base);
    }
    while i < n
        invariant
            0 <= i <= n,
            writer@ + say_body(s.skip(i as int), maxw as int, padding as int) == base + say_body(
                s,
                maxw as int,
                padding as int,
            ),
        decreases n - i,
    {
        let ghost i0 = i as int;
        let ghost sk = s.skip(i0);
        let c = content.get_char(i);
        proof {
            assert(sk[0] == s[i0]);
        }
        if c == '\n' {
            push_char(writer, '#');
            push_spaces(writer, maxw + 2 * padding);
            push_char(writer, '#');
            push_char(writer, '\n');
            i = i + 1;
            proof {
                assert(sk.skip(1) =~= s.skip(i0 + 1));
                assert(writer@ + say_body(s.skip(i0 + 1), maxw as int, padding as int) =~= base
                    + say_body(s, maxw as int, padding as int));
            }
        } else {
            let mut j = i;
            let mut w: usize = 0;
            let mut line = String::new();
            let mut done = false;
            proof {
                assert(line@ =~= sk.subrange(0, 0));
            }
            while !done && j < n
                invariant
                    i <= j <= n,
                    w <= maxw,
                    line@ == sk.subrange(0, j - i0),
                    !done ==> fill_len(sk, maxw as int) == (j - i0) + fill_len(
                        s.skip(j as int),
                        maxw as int - w,
                    ),
                    !done ==> fill_width(sk, maxw as int) == w + fill_width(
                        s.skip(j as int),
                        maxw as int - w,
                    ),
                    done ==> fill_len(sk, maxw as int) == j - i0,
                    done ==> fill_width(sk, maxw as int) == w,
                    done ==> j < n,
                    done ==> (s[j as int] == '\n' || char_width(s[j as int]) > maxw - w),
                decreases n - j, (if done {
                    0int
                } else {
                    1int
                }),
            {
                let cj = content.get_char(j);
                proof {
                    assert(s.skip(j as int)[0] == s[j as int]);
                    assert(s.skip(j as int).skip(1) =~= s.skip(j as int + 1));
                }
                if cj == '\n' {
                    done = true;
                } else {
                    let cw = visual_width_char(cj);
                    if w + cw > maxw {
                        done = true;
                    } else {
                        w = w + cw;
                        push_char(&mut line, cj);
                        j = j + 1;
                        proof {
                            assert(line@ =~= sk.subrange(0, j - i0));
                        }
                    }
                }
            }
            proof {
                if !done {
                    assert(j == n);
                    assert(s.skip(j as int).len() == 0);
                }
                assert(fill_len(sk, maxw as int) == j - i0);
                assert(fill_width(sk, maxw as int) == w);
                assert(j - i0 > 0) by {
                    assert(sk[0] != '\n');
                    assert(char_width(sk[0]) <= 2 <= maxw as int);
                    lemma_fill_len_bounds(sk.skip(1), maxw as int - char_width(sk[0]));
                }
            }
            let mut consumed = j;
            if j < n {
                if content.get_char(j) == '\n' {
                    consumed = j + 1;
                }
            }
            let sp = maxw - w;
            let left = padding + sp / 2;
            let right = padding + (sp - sp / 2);
            push_char(writer, '#');
            push_spaces(writer, left);
            writer.append(line.as_str());
            push_spaces(writer, right);
            push_char(writer, '#');
            push_char(writer, '\n');
            i = consumed;
            proof {
                let k = j - i0;
                assert(sk.subrange(0, k) == line@);
                assert(sk.skip(consumed - i0) =~= s.skip(consumed as int));
                assert(say_body(sk, maxw as int, padding as int) == framed_line(
                    sk.subrange(0, k),
                    w as int,
                    maxw as int,
                    padding as int,
                ) + say_body(s.skip(consumed as int), maxw as int, padding as int));
                assert(writer@ + say_body(s.skip(consumed as int), maxw as int, padding as int)
                    =~= base + say_body(s, maxw as int, padding as int));
            }
        }
    }
    proof {
        assert(s.skip(n as int) =~= Seq::<char>::empty());
        assert(writer@ =~= base + say_body(s, maxw as int, padding as int));
    }
    push_border(writer, width);
    proof {
        assert(writer@ =~= old(writer)@ + spec_say_section(s, width as int, padding as int));
    }
    Ok(())
}

/// A banner style: the total width and the minimum padding inside the
/// frame.
pub struct Section {
    /// The total width of the banner, borders included.
    pub width: usize,
    /// The minimum run of spaces between the frame and the content.
    pub padding: usize,
}

impl Section {
    /// A style with the given width and padding.
    pub fn new(width: usize, padding: usize) -> (r: Section)
        ensures
            r.width == width,
            r.padding == padding,
    {
        Section { width, padding }
    }

    /// Append a banner framing `content` in this style.
    pub fn say(&self, writer: &mut String, content: &str) -> (r: Result<(), ()>)
        requires
            self.width >= 2 * self.padding + 4,
        ensures
            r is Ok,
            final(writer)@ == old(writer)@ + spec_say_section(
                content@,
                self.width as int,
                self.padding as int,
            ),
    {
        say_section(writer, content, self.width, self.padding)
    }
}

impl Default for Section {
    /// The conventional banner style: 48 columns wide with two columns of
    /// padding.
    fn default() -> (r: Section)
        ensures
            r.width == 48,
            r.padding == 2,
    {
        Section { width: 48, padding: 2 }
    }
}

} // verus!
