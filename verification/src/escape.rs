//! HTML escaping.
//!
//! Five reserved ASCII characters are replaced by their named entities;
//! every other character passes through unchanged.  A scalar path walks
//! the text one character at a time; a windowed path computes a bitmask
//! of reserved positions for fixed-size windows and only stops at set
//! bits.  Both paths produce the same output, character for character.

use vstd::prelude::*;

verus! {

/// The five characters that must not appear bare in HTML text.
pub open spec fn is_reserved_char(c: char) -> bool {
    c == '<' || c == '>' || c == '&' || c == '"' || c == '\''
}

/// The named entity that stands for a reserved character.
pub open spec fn entity_for(c: char) -> Seq<char> {
    if c == '<' {
        "&lt;"@
    } else if c == '>' {
        "&gt;"@
    } else if c == '&' {
        "&amp;"@
    } else if c == '"' {
        "&quot;"@
    } else {
        "&apos;"@
    }
}

/// What a single character contributes to the escaped output.
pub open spec fn escaped_char(c: char) -> Seq<char> {
    if is_reserved_char(c) {
        entity_for(c)
    } else {
        seq![c]
    }
}

/// The escaped form of a whole text.
pub open spec fn escape_spec(s: Seq<char>) -> Seq<char>
    decreases s.len(),
{
    if s.len() == 0 {
        Seq::empty()
    } else {
        escaped_char(s[0]) + escape_spec(s.drop_first())
    }
}

/// Escaping a concatenation escapes each part in place.
pub proof fn lemma_escape_spec_concat(a: Seq<char>, b: Seq<char>)
    ensures
        escape_spec(a + b) == escape_spec(a) + escape_spec(b),
    decreases a.len(),
{
    if a.len() == 0 {
        assert(a + b =~= b);
        assert(escape_spec(a) + escape_spec(b) =~= escape_spec(b));
    } else {
        assert((a + b).drop_first() =~= a.drop_first() + b);
        lemma_escape_spec_concat(a.drop_first(), b);
        assert(escape_spec(a + b) =~= escape_spec(a) + escape_spec(b));
    }
}

/// A text with no reserved characters is its own escaped form.
pub proof fn lemma_escape_identity(s: Seq<char>)
    requires
        forall|i: int| 0 <= i < s.len() ==> !is_reserved_char(s[i]),
    ensures
        escape_spec(s) == s,
    decreases s.len(),
{
    if s.len() > 0 {
        lemma_escape_identity(s.drop_first());
        assert(escape_spec(s) =~= s);
    }
}

/// Whether one of the five entities begins at position `i` of `t`.
pub open spec fn is_entity_at(t: Seq<char>, i: int) -> bool {
    exists|c: char|
        is_reserved_char(c) && i + entity_for(c).len() <= t.len() && t.subrange(
            i,
            i + entity_for(c).len(),
        ) == entity_for(c)
}

/// The escaped output holds no bare reserved character: the four
/// characters other than `&` never appear at all, and every `&` is the
/// first character of one of the five inserted entities.
pub proof fn lemma_escape_no_bare_reserved(s: Seq<char>, i: int)
    requires
        0 <= i < escape_spec(s).len(),
    ensures
        escape_spec(s)[i] != '<',
        escape_spec(s)[i] != '>',
        escape_spec(s)[i] != '"',
        escape_spec(s)[i] != '\'',
        escape_spec(s)[i] == '&' ==> is_entity_at(escape_spec(s), i),
    decreases s.len(),
{
    reveal_strlit("&lt;");
    reveal_strlit("&gt;");
    reveal_strlit("&amp;");
    reveal_strlit("&quot;");
    reveal_strlit("&apos;");
    let t = escape_spec(s);
    let head = escaped_char(s[0]);
    let rest = escape_spec(s.drop_first());
    if i < head.len() {
        if is_reserved_char(s[0]) {
            if i == 0 {
                assert(t.subrange(0, head.len() as int) =~= head);
                assert(is_entity_at(t, 0));
            } else {
                assert(t[i] == head[i]);
            }
        } else {
            assert(t[i] == s[0]);
        }
    } else {
        lemma_escape_no_bare_reserved(s.drop_first(), i - head.len());
        assert(t[i] == rest[i - head.len()]);
        if t[i] == '&' {
            let c = choose|c: char|
                is_reserved_char(c) && (i - head.len()) + entity_for(c).len() <= rest.len()
                    && rest.subrange(
                    i - head.len(),
                    (i - head.len()) + entity_for(c).len(),
                ) == entity_for(c);
            assert(t.subrange(i, i + entity_for(c).len()) =~= rest.subrange(
                i - head.len(),
                (i - head.len()) + entity_for(c).len(),
            ));
            assert(is_entity_at(t, i));
        }
    }
}

/// The quantified form of the safety law: over the whole output at
/// once.
pub proof fn lemma_escape_safe(s: Seq<char>)
    ensures
        forall|i: int|
            0 <= i < escape_spec(s).len() ==> (#[trigger] escape_spec(s)[i]) != '<'
                && escape_spec(s)[i] != '>' && escape_spec(s)[i] != '"'
                && escape_spec(s)[i] != '\'',
        forall|i: int|
            0 <= i < escape_spec(s).len() && escape_spec(s)[i] == '&' ==> is_entity_at(
                escape_spec(s),
                i,
            ),
{
    assert forall|i: int| 0 <= i < escape_spec(s).len() implies (
    #[trigger] escape_spec(s)[i]) != '<' && escape_spec(s)[i] != '>' && escape_spec(s)[i]
        != '"' && escape_spec(s)[i] != '\'' && (escape_spec(s)[i] == '&'
        ==> is_entity_at(escape_spec(s), i)) by {
        lemma_escape_no_bare_reserved(s, i);
    }
}

fn is_reserved(c: char) -> (r: bool)
    ensures
        r == is_reserved_char(c),
{
    c == '<' || c == '>' || c == '&' || c == '"' || c == '\''
}

fn entity_str(c: char) -> (r: &'static str)
    requires
        is_reserved_char(c),
    ensures
        r@ == entity_for(c),
{
    if c == '<' {
        "&lt;"
    } else if c == '>' {
        "&gt;"
    } else if c == '&' {
        "&amp;"
    } else if c == '"' {
        "&quot;"
    } else {
        "&apos;"
    }
}

/// Copies the clean run `s[mark..i]` and the entity for the reserved
/// character at `i` into the output.
fn flush_entity(out: &mut String, s: &str, mark: usize, i: usize, c: char)
    requires
        mark <= i < s@.len(),
        c == s@[i as int],
        is_reserved_char(c),
        forall|k: int| mark <= k < i ==> !is_reserved_char(s@[k]),
        old(out)@ == escape_spec(s@.subrange(0, mark as int)),
    ensures
        final(out)@ == escape_spec(s@.subrange(0, i + 1)),
{
    out.append(s.substring_char(mark, i));
    out.append(entity_str(c));
    proof {
        let pre = s@.subrange(0, mark as int);
        let run = s@.subrange(mark as int, i as int);
        lemma_escape_identity(run);
        lemma_escape_spec_concat(pre, run);
        assert(pre + run =~= s@.subrange(0, i as int));
        lemma_escape_spec_concat(s@.subrange(0, i as int), seq![c]);
        assert(s@.subrange(0, i as int) + seq![c] =~= s@.subrange(0, i as int + 1));
        assert(seq![c].drop_first() =~= Seq::<char>::empty());
        assert(escaped_char(c) + escape_spec(Seq::<char>::empty()) =~= entity_for(c));
    }
}

/// Copies the clean tail `s[mark..]` into the output.
fn flush_tail(out: &mut String, s: &str, mark: usize, n: usize)
    requires
        mark <= n == s@.len(),
        forall|k: int| mark <= k < n ==> !is_reserved_char(s@[k]),
        old(out)@ == escape_spec(s@.subrange(0, mark as int)),
    ensures
        final(out)@ == escape_spec(s@),
{
    out.append(s.substring_char(mark, n));
    proof {
        let pre = s@.subrange(0, mark as int);
        let run = s@.subrange(mark as int, n as int);
        lemma_escape_spec_concat(pre, run);
        lemma_escape_identity(run);
        assert(pre + run =~= s@);
    }
}

/// Escapes `s` one character at a time: copy the run before the next
/// reserved character verbatim, emit the entity, and continue after it.
pub fn fmt_escaped_html_scalar(s: &str) -> (out: String)
    ensures
        out@ == escape_spec(s@),
{
    let n = s.unicode_len();
    let mut out = String::new();
    let mut mark: usize = 0;
    let mut i: usize = 0;

    while i < n
        invariant
            mark <= i <= n,
            n == s@.len(),
            out@ == escape_spec(s@.subrange(0, mark as int)),
            forall|k: int| mark <= k < i ==> !is_reserved_char(s@[k]),
        decreases n - i,
    {
        let c = s.get_char(i);
        if is_reserved(c) {
            flush_entity(&mut out, s, mark, i, c);
            i = i + 1;
            mark = i;
        } else {
            i = i + 1;
        }
    }

    flush_tail(&mut out, s, mark, n);
    out
}

proof fn lemma_set_bit(m: u16, j: u16, k: u16)
    requires
        j < 16,
        k < 16,
    ensures
        ((m | (1u16 << j)) >> j) & 1u16 == 1u16,
        k != j ==> ((m | (1u16 << j)) >> k) & 1u16 == (m >> k) & 1u16,
{
    assert(j < 16 ==> ((m | (1u16 << j)) >> j) & 1u16 == 1u16) by (bit_vector);
    assert(k != j && k < 16 && j < 16 ==> ((m | (1u16 << j)) >> k) & 1u16 == (m >> k)
        & 1u16) by (bit_vector);
}

/// Computes the bitmask of a window: bit `j` is set exactly when the
/// character at `offset + j` is reserved.
fn compute_mask(s: &str, offset: usize) -> (mask: u16)
    requires
        offset + 16 <= s@.len() <= usize::MAX,
    ensures
        forall|j: int|
            0 <= j < 16 ==> ((#[trigger] (mask >> (j as u16)) & 1u16 == 1u16)
                <==> is_reserved_char(s@[offset + j])),
{
    let mut mask: u16 = 0;
    let mut j: usize = 0;
    proof {
        assert(forall|k: u16| k < 16 ==> (0u16 >> k) & 1u16 == 0u16) by (bit_vector);
    }
    while j < 16
        invariant
            j <= 16,
            offset + 16 <= s@.len() <= usize::MAX,
            forall|k: int|
                0 <= k < j ==> ((#[trigger] (mask >> (k as u16)) & 1u16 == 1u16)
                    <==> is_reserved_char(s@[offset + k])),
            forall|k: int| j <= k < 16 ==> #[trigger] (mask >> (k as u16)) & 1u16 == 0u16,
        decreases 16 - j,
    {
        let c = s.get_char(offset + j);
        if is_reserved(c) {
            let ghost m0 = mask;
            mask = mask | (1u16 << (j as u16));
            proof {
                assert forall|k: int| 0 <= k < 16 && k != j implies #[trigger] (mask >> (
                k as u16)) & 1u16 == (m0 >> (k as u16)) & 1u16 by {
                    lemma_set_bit(m0, j as u16, k as u16);
                }
                lemma_set_bit(m0, j as u16, 0u16);
            }
        }
        j = j + 1;
    }
    mask
}

/// Escapes `s` window by window: compute the reserved-byte mask of each
/// full window and stop only at its set bits; the text past the last full
/// window is handled by the scalar scan.  Produces the same output as the
/// scalar path on every input.
pub fn fmt_escaped_html(s: &str) -> (out: String)
    ensures
        out@ == escape_spec(s@),
{
    let n = s.unicode_len();
    if n < 16 {
        return fmt_escaped_html_scalar(s);
    }

    let mut out = String::new();
    let mut mark: usize = 0;
    let mut offset: usize = 0;

    while offset <= n - 16
        invariant
            mark <= offset <= n,
            16 <= n == s@.len(),
            out@ == escape_spec(s@.subrange(0, mark as int)),
            forall|k: int| mark <= k < offset ==> !is_reserved_char(s@[k]),
        decreases n - offset,
    {
        let mask = compute_mask(s, offset);
        let mut j: usize = 0;
        while j < 16
            invariant
                j <= 16,
                mark <= offset + j,
                offset + 16 <= n == s@.len(),
                out@ == escape_spec(s@.subrange(0, mark as int)),
                forall|k: int| mark <= k < offset + j ==> !is_reserved_char(s@[k]),
                forall|k: int|
                    0 <= k < 16 ==> ((#[trigger] (mask >> (k as u16)) & 1u16 == 1u16)
                        <==> is_reserved_char(s@[offset + k])),
            decreases 16 - j,
        {
            if (mask >> (j as u16)) & 1u16 == 1u16 {
                let i = offset + j;
                let c = s.get_char(i);
                flush_entity(&mut out, s, mark, i, c);
                mark = i + 1;
            }
            j = j + 1;
        }
        offset = offset + 16;
    }

    let mut i: usize = offset;
    while i < n
        invariant
            mark <= i <= n,
            n == s@.len(),
            out@ == escape_spec(s@.subrange(0, mark as int)),
            forall|k: int| mark <= k < i ==> !is_reserved_char(s@[k]),
        decreases n - i,
    {
        let c = s.get_char(i);
        if is_reserved(c) {
            flush_entity(&mut out, s, mark, i, c);
            i = i + 1;
            mark = i;
        } else {
            i = i + 1;
        }
    }

    flush_tail(&mut out, s, mark, n);
    out
}

/// A borrowed piece of text together with its HTML-escaped rendering.
pub struct Escaped<'a>(pub &'a str);

impl<'a> Escaped<'a> {
    /// The escaped form of the wrapped text.
    pub fn to_html(&self) -> (out: String)
        ensures
            out@ == escape_spec(self.0@),
    {
        fmt_escaped_html(self.0)
    }
}

/// Escapes a text for inclusion in HTML.
pub fn escape(s: &str) -> (out: String)
    ensures
        out@ == escape_spec(s@),
{
    fmt_escaped_html(s)
}

} // verus!
