//! Escaping for the encoder's overlay-text mini-language, and color
//! conversion.
//!
//! Text drawn onto the video goes through a filter description in which
//! backslash, single quote, colon and percent are meta-characters; each
//! must be escaped or the filter is mis-parsed.

use vstd::prelude::*;

verus! {

/// Relies on String::push: appends exactly the given character.
#[verifier::external_body]
pub fn push_char(s: &mut String, c: char)
    ensures
        final(s)@ == old(s)@ + seq![c],
{
    s.push(c);
}

/// What one character of overlay text becomes in the filter description.
pub open spec fn escape_char_seq(c: char) -> Seq<char> {
    if c == '\\' {
        "\\\\"@
    } else if c == '\'' {
        "'\\\\\\''"@
    } else if c == ':' {
        "\\:"@
    } else if c == '%' {
        "%%"@
    } else {
        seq![c]
    }
}

/// The whole text, escaped character by character.
pub open spec fn escape_seq(s: Seq<char>) -> Seq<char>
    decreases s.len(),
{
    if s.len() == 0 {
        Seq::<char>::empty()
    } else {
        escape_char_seq(s[0]) + escape_seq(s.skip(1))
    }
}

proof fn lemma_escape_seq_push(s: Seq<char>, c: char)
    ensures
        escape_seq(s.push(c)) == escape_seq(s) + escape_char_seq(c),
    decreases s.len(),
{
    assert(s.push(c)[0] == if s.len() == 0 { c } else { s[0] });
    if s.len() == 0 {
        assert(s.push(c).skip(1) =~= Seq::<char>::empty());
        assert(escape_seq(s.push(c)) == escape_char_seq(c) + escape_seq(Seq::<char>::empty()));
        assert(escape_seq(s.push(c)) =~= escape_seq(s) + escape_char_seq(c));
    } else {
        assert(s.push(c).skip(1) =~= s.skip(1).push(c));
        lemma_escape_seq_push(s.skip(1), c);
        assert(escape_seq(s.push(c)) =~= escape_seq(s) + escape_char_seq(c));
    }
}

fn escape_one(out: &mut String, c: char)
    ensures
        final(out)@ == old(out)@ + escape_char_seq(c),
{
    if c == '\\' {
        out.append("\\\\");
    } else if c == '\'' {
        out.append("'\\\\\\''");
    } else if c == ':' {
        out.append("\\:");
    } else if c == '%' {
        out.append("%%");
    } else {
        push_char(out, c);
    }
}

/// Escape text for the overlay-text mini-language: backslash doubles,
/// a single quote becomes a quoted escape, colon and percent are escaped.
pub fn escape_drawtext(text: &str) -> (r: String)
    ensures
        r@ == escape_seq(text@),
{
    let n = text.unicode_len();
    let mut out = String::new();
    let mut i: usize = 0;
    while i < n
        invariant
            n == text@.len(),
            i <= n,
            out@ == escape_seq(text@.take(i as int)),
        decreases n - i,
    {
        let c = text.get_char(i);
        proof {
            assert(text@.take(i + 1 as int) =~= text@.take(i as int).push(text@[i as int]));
            lemma_escape_seq_push(text@.take(i as int), text@[i as int]);
        }
        escape_one(&mut out, c);
        i = i + 1;
    }
    proof {
        assert(text@.take(n as int) =~= text@);
    }
    out
}

/// The color string the encoder is given: a `#rrggbb` hex color becomes
/// `0xrrggbb`; anything else (a color name) passes through unchanged.
pub open spec fn color_spec(s: Seq<char>) -> Seq<char> {
    if s.len() == 7 && s[0] == '#' {
        "0x"@ + s.subrange(1, 7)
    } else {
        s
    }
}

/// Convert an annotation color (hex or name) to the encoder's notation.
pub fn annotation_color_ffmpeg(color: &str) -> (r: String)
    ensures
        r@ == color_spec(color@),
{
    let n = color.unicode_len();
    if n == 7 && color.get_char(0) == '#' {
        let tail = color.substring_char(1, 7);
        let r = "0x".to_owned().concat(tail);
        proof {
            assert(r@ =~= color_spec(color@));
        }
        r
    } else {
        color.to_owned()
    }
}

} // verus!
