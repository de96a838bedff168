//! Plain-text formatting helpers: decimal and hexadecimal numerals,
//! zero-padding, digit counts, human-readable file sizes and POSIX file
//! modes.

use vstd::prelude::*;
use crate::escape::{escape, escape_spec};

verus! {

/// A character with the Unicode white-space property.
pub open spec fn is_ws_char(c: char) -> bool {
    ||| c == ' '
    ||| c == '\t'
    ||| c == '\n'
    ||| c == '\u{0B}'
    ||| c == '\u{0C}'
    ||| c == '\r'
    ||| c == '\u{85}'
    ||| c == '\u{A0}'
    ||| c == '\u{1680}'
    ||| c == '\u{2000}'
    ||| c == '\u{2001}'
    ||| c == '\u{2002}'
    ||| c == '\u{2003}'
    ||| c == '\u{2004}'
    ||| c == '\u{2005}'
    ||| c == '\u{2006}'
    ||| c == '\u{2007}'
    ||| c == '\u{2008}'
    ||| c == '\u{2009}'
    ||| c == '\u{200A}'
    ||| c == '\u{2028}'
    ||| c == '\u{2029}'
    ||| c == '\u{202F}'
    ||| c == '\u{205F}'
    ||| c == '\u{3000}'
}

fn is_ws(c: char) -> (r: bool)
    ensures
        r == is_ws_char(c),
{
    c == ' ' || c == '\t' || c == '\n' || c == '\u{0B}' || c == '\u{0C}' || c == '\r'
        || c == '\u{85}' || c == '\u{A0}' || c == '\u{1680}' || c == '\u{2000}' || c
        == '\u{2001}' || c == '\u{2002}' || c == '\u{2003}' || c == '\u{2004}' || c
        == '\u{2005}' || c == '\u{2006}' || c == '\u{2007}' || c == '\u{2008}' || c
        == '\u{2009}' || c == '\u{200A}' || c == '\u{2028}' || c == '\u{2029}' || c
        == '\u{202F}' || c == '\u{205F}' || c == '\u{3000}'
}

/// The text without its leading white space.
pub open spec fn trim_start_spec(s: Seq<char>) -> Seq<char>
    decreases s.len(),
{
    if s.len() > 0 && is_ws_char(s.first()) {
        trim_start_spec(s.drop_first())
    } else {
        s
    }
}

/// The text without its trailing white space.
pub open spec fn trim_end_spec(s: Seq<char>) -> Seq<char>
    decreases s.len(),
{
    if s.len() > 0 && is_ws_char(s.last()) {
        trim_end_spec(s.drop_last())
    } else {
        s
    }
}

/// The text without leading and trailing white space.
pub open spec fn trim_spec(s: Seq<char>) -> Seq<char> {
    trim_end_spec(trim_start_spec(s))
}

proof fn lemma_trim_start_subrange(s: Seq<char>, i: int)
    requires
        0 <= i <= s.len(),
        forall|k: int| 0 <= k < i ==> is_ws_char(s[k]),
        i == s.len() || !is_ws_char(s[i]),
    ensures
        trim_start_spec(s) == s.subrange(i, s.len() as int),
    decreases i,
{
    if i == 0 {
        assert(s.subrange(0, s.len() as int) =~= s);
    } else {
        lemma_trim_start_subrange(s.drop_first(), i - 1);
        assert(s.drop_first().subrange(i - 1, s.drop_first().len() as int)
            =~= s.subrange(i, s.len() as int));
    }
}

proof fn lemma_trim_end_subrange(s: Seq<char>, j: int)
    requires
        0 <= j <= s.len(),
        forall|k: int| j <= k < s.len() ==> is_ws_char(s[k]),
        j == 0 || !is_ws_char(s[j - 1]),
    ensures
        trim_end_spec(s) == s.subrange(0, j),
    decreases s.len() - j,
{
    if j == s.len() {
        assert(s.subrange(0, j) =~= s);
    } else {
        lemma_trim_end_subrange(s.drop_last(), j);
        assert(s.drop_last().subrange(0, j) =~= s.subrange(0, j));
    }
}

/// The trimmed view of `s`, as a borrowed slice.
pub fn str_trim(s: &str) -> (out: &str)
    ensures
        out@ == trim_spec(s@),
{
    let n = s.unicode_len();
    let mut i: usize = 0;
    while i < n && is_ws(s.get_char(i))
        invariant
            i <= n == s@.len(),
            forall|k: int| 0 <= k < i ==> is_ws_char(s@[k]),
        decreases n - i,
    {
        i = i + 1;
    }
    let mut j: usize = n;
    while j > i && is_ws(s.get_char(j - 1))
        invariant
            i <= j <= n == s@.len(),
            forall|k: int| j <= k < n ==> is_ws_char(s@[k]),
        decreases j,
    {
        j = j - 1;
    }
    proof {
        lemma_trim_start_subrange(s@, i as int);
        let t = s@.subrange(i as int, n as int);
        lemma_trim_end_subrange(t, j - i);
        assert(t.subrange(0, j - i) =~= s@.subrange(i as int, j as int));
    }
    s.substring_char(i, j)
}

/// The segments of `s` split on blank lines (two consecutive line
/// feeds), scanning left to right: `start` is where the current
/// segment began, `i` the scan position.
pub open spec fn split2_from(s: Seq<char>, start: int, i: int) -> Seq<Seq<char>>
    decreases s.len() - i,
{
    if !(0 <= start <= i) || i + 1 >= s.len() {
        seq![s.subrange(start, s.len() as int)]
    } else if s[i] == '\n' && s[i + 1] == '\n' {
        seq![s.subrange(start, i)] + split2_from(s, i + 2, i + 2)
    } else {
        split2_from(s, start, i + 1)
    }
}

/// Each segment, trimmed and escaped, wrapped in a paragraph element.
pub open spec fn paragraphs_of(parts: Seq<Seq<char>>) -> Seq<char>
    decreases parts.len(),
{
    if parts.len() == 0 {
        Seq::empty()
    } else {
        "<p>\n"@ + escape_spec(trim_spec(parts.first())) + "\n</p>\n"@ + paragraphs_of(
            parts.drop_first(),
        )
    }
}

/// A free text rendered as paragraphs: trimmed, split on blank lines,
/// each paragraph trimmed, escaped and wrapped.
pub open spec fn paragraphs_spec(text: Seq<char>) -> Seq<char> {
    paragraphs_of(split2_from(trim_spec(text), 0, 0))
}

/// Appends the paragraphs of a free text.
pub fn render_paragraphs(out: &mut String, text: &str)
    ensures
        final(out)@ == old(out)@ + paragraphs_spec(text@),
{
    let t = str_trim(text);
    let ghost whole = t@;
    let n = t.unicode_len();
    let mut start: usize = 0;
    let mut i: usize = 0;
    let ghost out0 = out@;
    while n - i > 1
        invariant
            0 <= start <= i <= n == whole.len(),
            t@ == whole,
            out0 + paragraphs_of(split2_from(whole, 0, 0)) == out@ + paragraphs_of(
                split2_from(whole, start as int, i as int),
            ),
        decreases n - i,
    {
        if t.get_char(i) == '\n' && t.get_char(i + 1) == '\n' {
            let ghost prev = out@;
            out.append("<p>\n");
            out.append(escape(str_trim(t.substring_char(start, i))).as_str());
            out.append("\n</p>\n");
            proof {
                let parts = split2_from(whole, start as int, i as int);
                assert(parts == seq![whole.subrange(start as int, i as int)]
                    + split2_from(whole, i as int + 2, i as int + 2));
                assert(parts.first() == whole.subrange(start as int, i as int));
                assert(parts.drop_first() =~= split2_from(
                    whole,
                    i as int + 2,
                    i as int + 2,
                ));
                assert(out@ =~= prev + ("<p>\n"@ + escape_spec(
                    trim_spec(whole.subrange(start as int, i as int)),
                ) + "\n</p>\n"@));
                assert(paragraphs_of(parts) =~= "<p>\n"@ + escape_spec(
                    trim_spec(parts.first()),
                ) + "\n</p>\n"@ + paragraphs_of(parts.drop_first()));
                assert(out@ + paragraphs_of(split2_from(whole, i as int + 2, i as int + 2))
                    =~= prev + paragraphs_of(parts));
            }
            i = i + 2;
            start = i;
        } else {
            i = i + 1;
        }
    }
    let ghost prev = out@;
    out.append("<p>\n");
    out.append(escape(str_trim(t.substring_char(start, n))).as_str());
    out.append("\n</p>\n");
    proof {
        let parts = split2_from(whole, start as int, i as int);
        assert(parts == seq![whole.subrange(start as int, whole.len() as int)]);
        assert(parts.first() == whole.subrange(start as int, whole.len() as int));
        assert(parts.drop_first() =~= Seq::<Seq<char>>::empty());
        assert(whole.subrange(start as int, n as int) == whole.subrange(
            start as int,
            whole.len() as int,
        ));
        assert(out@ =~= prev + ("<p>\n"@ + escape_spec(
            trim_spec(whole.subrange(start as int, whole.len() as int)),
        ) + "\n</p>\n"@));
        assert(paragraphs_of(parts.drop_first()) == Seq::<char>::empty());
        assert(paragraphs_of(parts) =~= "<p>\n"@ + escape_spec(
            trim_spec(parts.first()),
        ) + "\n</p>\n"@);
        assert(out@ =~= prev + paragraphs_of(parts));
        assert(out@ =~= out0 + paragraphs_of(split2_from(whole, 0, 0)));
        assert(paragraphs_spec(text@) == paragraphs_of(split2_from(whole, 0, 0)));
    }
}

/// The decimal digit character for `d` (0 to 9).
pub open spec fn digit_char(d: int) -> char {
    if d == 0 {
        '0'
    } else if d == 1 {
        '1'
    } else if d == 2 {
        '2'
    } else if d == 3 {
        '3'
    } else if d == 4 {
        '4'
    } else if d == 5 {
        '5'
    } else if d == 6 {
        '6'
    } else if d == 7 {
        '7'
    } else if d == 8 {
        '8'
    } else {
        '9'
    }
}

/// The decimal numeral for a non-negative integer, most significant
/// digit first, with no leading zeros (`0` itself is one digit).
pub open spec fn dec_spec(n: int) -> Seq<char>
    decreases n,
{
    if n < 10 {
        seq![digit_char(n)]
    } else {
        dec_spec(n / 10) + seq![digit_char(n % 10)]
    }
}

/// The number of digits of the decimal numeral for `n`.
pub open spec fn num_digits(n: int) -> nat
    decreases n,
{
    if n < 10 {
        1
    } else {
        1 + num_digits(n / 10)
    }
}

pub proof fn lemma_dec_spec_len(n: int)
    ensures
        dec_spec(n).len() == num_digits(n),
    decreases n,
{
    if n >= 10 {
        lemma_dec_spec_len(n / 10);
    }
}

fn digit_str(d: u64) -> (r: &'static str)
    requires
        d < 10,
    ensures
        r@ == seq![digit_char(d as int)],
{
    let r = if d == 0 {
        "0"
    } else if d == 1 {
        "1"
    } else if d == 2 {
        "2"
    } else if d == 3 {
        "3"
    } else if d == 4 {
        "4"
    } else if d == 5 {
        "5"
    } else if d == 6 {
        "6"
    } else if d == 7 {
        "7"
    } else if d == 8 {
        "8"
    } else {
        "9"
    };
    proof {
        reveal_strlit("0");
        reveal_strlit("1");
        reveal_strlit("2");
        reveal_strlit("3");
        reveal_strlit("4");
        reveal_strlit("5");
        reveal_strlit("6");
        reveal_strlit("7");
        reveal_strlit("8");
        reveal_strlit("9");
        assert(r@ =~= seq![digit_char(d as int)]);
    }
    r
}

/// Renders `n` in decimal.
pub fn u64_to_dec(n: u64) -> (out: String)
    ensures
        out@ == dec_spec(n as int),
    decreases n,
{
    if n < 10 {
        digit_str(n).to_owned()
    } else {
        let mut out = u64_to_dec(n / 10);
        out.append(digit_str(n % 10));
        out
    }
}

/// Renders `n` in decimal, usize form.
pub fn usize_to_dec(n: usize) -> (out: String)
    ensures
        out@ == dec_spec(n as int),
{
    u64_to_dec(n as u64)
}

/// `s` left-padded with `'0'` to at least `width` characters.
pub open spec fn zero_pad_spec(s: Seq<char>, width: int) -> Seq<char>
    decreases width - s.len(),
{
    if s.len() >= width {
        s
    } else {
        zero_pad_spec(seq!['0'] + s, width)
    }
}

/// Renders `n` in decimal, zero-padded to at least `width` digits.
pub fn u64_to_dec_padded(n: u64, width: usize) -> (out: String)
    requires
        width <= 64,
    ensures
        out@ == zero_pad_spec(dec_spec(n as int), width as int),
{
    let digits = u64_to_dec(n);
    let mut out = String::new();
    let mut pad: usize = 0;
    let need = digits.as_str().unicode_len();
    proof {
        lemma_dec_spec_len(n as int);
        reveal_with_fuel(pow10, 21);
        assert((u64::MAX as int) < pow10(20));
        lemma_num_digits_le(n as int, 20);
    }
    while pad + need < width
        invariant
            1 <= need <= 20,
            pad <= width <= 64,
            need == dec_spec(n as int).len(),
            pad == out@.len(),
            out@ =~= Seq::new(pad as nat, |i: int| '0'),
            zero_pad_spec(out@ + dec_spec(n as int), width as int) == zero_pad_spec(
                dec_spec(n as int),
                width as int,
            ),
        decreases width - pad - need,
    {
        let ghost before = out@;
        out.append("0");
        pad = pad + 1;
        proof {
            reveal_strlit("0");
            assert(out@ =~= Seq::new(pad as nat, |i: int| '0'));
            assert(seq!['0'] + (before + dec_spec(n as int)) =~= out@ + dec_spec(
                n as int,
            ));
        }
    }
    out.append(digits.as_str());
    out
}

/// Powers of ten.
pub open spec fn pow10(k: nat) -> int
    decreases k,
{
    if k == 0 {
        1
    } else {
        10 * pow10((k - 1) as nat)
    }
}

pub proof fn lemma_num_digits_le(n: int, k: nat)
    requires
        0 <= n < pow10(k),
        k >= 1,
    ensures
        num_digits(n) <= k,
    decreases k,
{
    if n >= 10 {
        assert(n / 10 < pow10((k - 1) as nat));
        lemma_num_digits_le(n / 10, (k - 1) as nat);
    }
}

/// Returns the number of decimal digits of `n` (1 for 0), the width of
/// a line-number gutter for `n` lines.
pub fn log_floor(n: usize) -> (d: usize)
    ensures
        d == num_digits(n as int),
        d >= 1,
    decreases n,
{
    proof {
        reveal_with_fuel(pow10, 21);
        assert((usize::MAX as int) < pow10(20));
        lemma_num_digits_le(n as int, 20);
    }
    if n < 10 {
        1
    } else {
        1 + log_floor(n / 10)
    }
}

/// The hexadecimal digit character for `d` (0 to 15), lower case.
pub open spec fn hex_digit_char(d: int) -> char {
    if d < 10 {
        digit_char(d)
    } else if d == 10 {
        'a'
    } else if d == 11 {
        'b'
    } else if d == 12 {
        'c'
    } else if d == 13 {
        'd'
    } else if d == 14 {
        'e'
    } else {
        'f'
    }
}

/// The fixed-width lowercase hexadecimal numeral for `n`: exactly
/// `width` digits, most significant first.
pub open spec fn hex_spec(n: int, width: nat) -> Seq<char>
    decreases width,
{
    if width == 0 {
        Seq::empty()
    } else {
        hex_spec(n / 16, (width - 1) as nat) + seq![hex_digit_char(n % 16)]
    }
}

fn hex_digit_str(d: u64) -> (r: &'static str)
    requires
        d < 16,
    ensures
        r@ == seq![hex_digit_char(d as int)],
{
    if d < 10 {
        digit_str(d)
    } else {
        let r = if d == 10 {
            "a"
        } else if d == 11 {
            "b"
        } else if d == 12 {
            "c"
        } else if d == 13 {
            "d"
        } else if d == 14 {
            "e"
        } else {
            "f"
        };
        proof {
            reveal_strlit("a");
            reveal_strlit("b");
            reveal_strlit("c");
            reveal_strlit("d");
            reveal_strlit("e");
            reveal_strlit("f");
            assert(r@ =~= seq![hex_digit_char(d as int)]);
        }
        r
    }
}

/// Renders `n` as exactly `width` lowercase hexadecimal digits.
pub fn u64_to_hex_fixed(n: u64, width: usize) -> (out: String)
    ensures
        out@ == hex_spec(n as int, width as nat),
    decreases width,
{
    if width == 0 {
        String::new()
    } else {
        let mut out = u64_to_hex_fixed(n / 16, width - 1);
        out.append(hex_digit_str(n % 16));
        out
    }
}

/// Character-for-character equality of two texts.
pub fn str_eq(a: &str, b: &str) -> (r: bool)
    ensures
        r == (a@ == b@),
{
    let na = a.unicode_len();
    let nb = b.unicode_len();
    if na != nb {
        return false;
    }
    let mut i: usize = 0;
    while i < na
        invariant
            i <= na == a@.len(),
            na == nb == b@.len(),
            forall|j: int| 0 <= j < i ==> a@[j] == b@[j],
        decreases na - i,
    {
        if a.get_char(i) != b.get_char(i) {
            return false;
        }
        i = i + 1;
    }
    proof {
        assert(a@ =~= b@);
    }
    true
}

/// Whether `s` begins with the prefix `p`.
pub fn str_starts_with(s: &str, p: &str) -> (r: bool)
    ensures
        r == (s@.len() >= p@.len() && s@.subrange(0, p@.len() as int) == p@),
{
    let ns = s.unicode_len();
    let np = p.unicode_len();
    if ns < np {
        return false;
    }
    let mut i: usize = 0;
    while i < np
        invariant
            i <= np == p@.len(),
            np <= ns == s@.len(),
            forall|j: int| 0 <= j < i ==> s@[j] == p@[j],
        decreases np - i,
    {
        if s.get_char(i) != p.get_char(i) {
            proof {
                assert(s@.subrange(0, np as int)[i as int] != p@[i as int]);
            }
            return false;
        }
        i = i + 1;
    }
    proof {
        assert(s@.subrange(0, np as int) =~= p@);
    }
    true
}

/// Whether the text's last character is a line feed.
pub fn ends_with_newline(s: &str) -> (r: bool)
    ensures
        r == (s@.len() > 0 && s@.last() == '\n'),
{
    let n = s.unicode_len();
    if n == 0 {
        return false;
    }
    s.get_char(n - 1) == '\n'
}

/// Whether the text begins with two dashes, the shape of a flag.
pub fn starts_with_double_dash(a: &str) -> (r: bool)
    ensures
        r == (a@.len() >= 2 && a@[0] == '-' && a@[1] == '-'),
{
    let n = a.unicode_len();
    if n < 2 {
        return false;
    }
    a.get_char(0) == '-' && a.get_char(1) == '-'
}

/// The startup banner naming the program and its version.
pub open spec fn version_banner_spec(
    program_name: Seq<char>,
    program_version: Seq<char>,
    simd: bool,
) -> Seq<char> {
    "Running "@ + program_name + " "@ + program_version + if simd {
        " (SIMD optimizations enabled)"@
    } else {
        Seq::<char>::empty()
    }
}

/// Builds the startup banner; the caller says whether the windowed
/// escaper's fast path is in use.
pub fn version(program_name: &str, program_version: &str, simd: bool) -> (out: String)
    ensures
        out@ == version_banner_spec(program_name@, program_version@, simd),
{
    let mut out = String::new();
    out.append("Running ");
    out.append(program_name);
    out.append(" ");
    out.append(program_version);
    if simd {
        out.append(" (SIMD optimizations enabled)");
    }
    out
}

/// A file size, rendered with a rough unit: whole megabytes, whole
/// kilobytes, or plain bytes.
pub open spec fn file_size_spec(size: int) -> Seq<char> {
    if size >= 1000000 {
        dec_spec(size / 1000000) + "M"@
    } else if size >= 1000 {
        dec_spec(size / 1000) + "K"@
    } else {
        dec_spec(size) + " bytes"@
    }
}

#[derive(Clone, Copy, Debug)]
pub struct FileSize(pub usize);

impl FileSize {
    /// Renders the size with its unit.
    pub fn render(&self) -> (out: String)
        ensures
            out@ == file_size_spec(self.0 as int),
    {
        let size = self.0;
        let mut out: String;
        if size >= 1000000 {
            out = u64_to_dec((size / 1000000) as u64);
            out.append("M");
        } else if size >= 1000 {
            out = u64_to_dec((size / 1000) as u64);
            out.append("K");
        } else {
            out = u64_to_dec(size as u64);
            out.append(" bytes");
        }
        out
    }
}

/// The file-type character of a POSIX mode.
pub open spec fn mode_type_spec(m: i32) -> Seq<char> {
    let t = m & 0o170000;
    if t == 0o100000 {
        "-"@
    } else if t == 0o040000 {
        "d"@
    } else if t == 0o020000 {
        "c"@
    } else if t == 0o060000 {
        "b"@
    } else if t == 0o010000 {
        "p"@
    } else if t == 0o120000 {
        "l"@
    } else if t == 0o140000 {
        "s"@
    } else {
        "?"@
    }
}

/// A read or write permission character.
pub open spec fn mode_rw_spec(set: bool, c: Seq<char>) -> Seq<char> {
    if set {
        c
    } else {
        "-"@
    }
}

/// An execute-permission character, folded with a set-id or sticky bit:
/// both set gives the special letter, the special bit alone its capital,
/// execute alone `x`, neither `-`.
pub open spec fn mode_exec_spec(
    special: bool,
    exec: bool,
    both: Seq<char>,
    alone: Seq<char>,
) -> Seq<char> {
    if special && exec {
        both
    } else if special {
        alone
    } else if exec {
        "x"@
    } else {
        "-"@
    }
}

/// The ten-character `ls`-style rendering of a POSIX mode.
pub open spec fn mode_spec(m: i32) -> Seq<char> {
    mode_type_spec(m) + mode_rw_spec(m & 0o400 != 0, "r"@) + mode_rw_spec(
        m & 0o200 != 0,
        "w"@,
    ) + mode_exec_spec(m & 0o4000 != 0, m & 0o100 != 0, "s"@, "S"@) + mode_rw_spec(
        m & 0o40 != 0,
        "r"@,
    ) + mode_rw_spec(m & 0o20 != 0, "w"@) + mode_exec_spec(
        m & 0o2000 != 0,
        m & 0o10 != 0,
        "s"@,
        "S"@,
    ) + mode_rw_spec(m & 0o4 != 0, "r"@) + mode_rw_spec(m & 0o2 != 0, "w"@)
        + mode_exec_spec(m & 0o1000 != 0, m & 0o1 != 0, "t"@, "T"@)
}

/// A POSIX file mode (type and permission bits).
#[derive(Clone, Copy, Debug)]
pub struct Mode(pub i32);

impl Mode {
    /// Renders the mode as `ls` shows it: a type character and three
    /// `rwx` triples, with set-id and sticky bits folded in.
    pub fn render(&self) -> (out: String)
        ensures
            out@ == mode_spec(self.0),
    {
        let m = self.0;
        let mut out = String::new();

        let t = m & 0o170000;
        if t == 0o100000 {
            out.append("-");
        } else if t == 0o040000 {
            out.append("d");
        } else if t == 0o020000 {
            out.append("c");
        } else if t == 0o060000 {
            out.append("b");
        } else if t == 0o010000 {
            out.append("p");
        } else if t == 0o120000 {
            out.append("l");
        } else if t == 0o140000 {
            out.append("s");
        } else {
            out.append("?");
        }

        if m & 0o400 != 0 {
            out.append("r");
        } else {
            out.append("-");
        }
        if m & 0o200 != 0 {
            out.append("w");
        } else {
            out.append("-");
        }
        if m & 0o4000 != 0 && m & 0o100 != 0 {
            out.append("s");
        } else if m & 0o4000 != 0 {
            out.append("S");
        } else if m & 0o100 != 0 {
            out.append("x");
        } else {
            out.append("-");
        }

        if m & 0o40 != 0 {
            out.append("r");
        } else {
            out.append("-");
        }
        if m & 0o20 != 0 {
            out.append("w");
        } else {
            out.append("-");
        }
        if m & 0o2000 != 0 && m & 0o10 != 0 {
            out.append("s");
        } else if m & 0o2000 != 0 {
            out.append("S");
        } else if m & 0o10 != 0 {
            out.append("x");
        } else {
            out.append("-");
        }

        if m & 0o4 != 0 {
            out.append("r");
        } else {
            out.append("-");
        }
        if m & 0o2 != 0 {
            out.append("w");
        } else {
            out.append("-");
        }
        if m & 0o1000 != 0 && m & 0o1 != 0 {
            out.append("t");
        } else if m & 0o1000 != 0 {
            out.append("T");
        } else if m & 0o1 != 0 {
            out.append("x");
        } else {
            out.append("-");
        }

        out
    }
}

} // verus!
