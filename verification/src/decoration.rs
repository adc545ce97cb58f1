//! Underline and strikeout, synthesised with combining marks.
//!
//! No line is drawn into the pixel buffer. Instead a combining overlay is
//! appended to every character of the symbol, and the font renders it.

use vstd::prelude::*;

verus! {

/// COMBINING LONG STROKE OVERLAY, drawn through the character before it.
pub const STRIKEOUT_MARK: char = '\u{0336}';

/// COMBINING LOW LINE, drawn below the character before it.
pub const UNDERLINE_MARK: char = '\u{0332}';

/// `text` with `mark` after each of its characters.
pub open spec fn interleaved(text: Seq<char>, mark: char) -> Seq<char> {
    Seq::new(
        2 * text.len(),
        |i: int|
            if i % 2 == 0 {
                text[i / 2]
            } else {
                mark
            },
    )
}

/// The symbol as it is handed to the shaper: struck through first, then
/// underlined, so that the underline also runs below the strikeout marks.
pub open spec fn decorated(symbol: Seq<char>, crossed_out: bool, underlined: bool) -> Seq<char> {
    let struck = if crossed_out {
        interleaved(symbol, STRIKEOUT_MARK)
    } else {
        symbol
    };
    if underlined {
        interleaved(struck, UNDERLINE_MARK)
    } else {
        struck
    }
}

/// `String::push` appends one character to the string and changes nothing
/// else.
pub assume_specification[ String::push ](s: &mut String, ch: char)
    ensures
        final(s)@ == old(s)@.push(ch),
;

/// Appending one character to the text appends that character and the mark.
pub proof fn lemma_interleaved_push(text: Seq<char>, c: char, mark: char)
    ensures
        interleaved(text.push(c), mark) == interleaved(text, mark).push(c).push(mark),
{
    assert(interleaved(text.push(c), mark) =~= interleaved(text, mark).push(c).push(mark));
}

fn with_mark(text: &str, mark: char) -> (out: String)
    ensures
        out@ == interleaved(text@, mark),
{
    broadcast use vstd::string::group_string_axioms;

    let mut out = String::new();
    assert(text@.take(0) =~= Seq::<char>::empty());
    assert(interleaved(Seq::<char>::empty(), mark) =~= Seq::<char>::empty());
    for c in chars: text.chars()
        invariant
            chars.seq() == text@,
            out@ == interleaved(text@.take(chars.index()), mark),
    {
        out.push(c);
        out.push(mark);
        proof {
            assert(text@.take(chars.index() + 1) =~= text@.take(chars.index()).push(c));
            lemma_interleaved_push(text@.take(chars.index()), c, mark);
        }
    }
    assert(text@.take(text@.len() as int) =~= text@);
    out
}

/// Strikes the text through: every character is followed by
/// `STRIKEOUT_MARK`.
pub fn add_strikeout(text: &String) -> (out: String)
    ensures
        out@ == interleaved(text@, STRIKEOUT_MARK),
{
    with_mark(text.as_str(), STRIKEOUT_MARK)
}

/// Underlines the text: every character is followed by `UNDERLINE_MARK`.
pub fn add_underline(text: &String) -> (out: String)
    ensures
        out@ == interleaved(text@, UNDERLINE_MARK),
{
    with_mark(text.as_str(), UNDERLINE_MARK)
}

/// The symbol with the overlays that the two decorations call for.
pub fn decorate(symbol: &String, crossed_out: bool, underlined: bool) -> (out: String)
    ensures
        out@ == decorated(symbol@, crossed_out, underlined),
{
    let mut text = symbol.clone();
    if crossed_out {
        text = add_strikeout(&text);
    }
    if underlined {
        text = add_underline(&text);
    }
    text
}

} // verus!
