//! The document token extractor: given a document snapshot and a
//! zero-based (line, column) cursor position, returns the maximal
//! contiguous run of word characters containing the position.  Columns
//! are measured in UTF-16 code units, as the protocol delivers them, and
//! are mapped onto the document's characters.

use vstd::prelude::*;

use crate::text::{
    is_word_char, is_word_char_exec, spec_split, split_str, str_views, utf16_width,
    utf16_width_exec,
};

verus! {

/// The extractor's failure: the position lies on a non-word character,
/// on an empty line, or outside the document bounds.
#[derive(Clone, Copy, PartialEq, Eq, Structural, Debug)]
pub enum TokenError {
    NotFound,
}

/// The UTF-16 width of the first `i` characters of the line.
pub open spec fn utf16_prefix(line: Seq<char>, i: int) -> int
    decreases i,
{
    if i <= 0 {
        0
    } else {
        utf16_prefix(line, i - 1) + utf16_width(line[i - 1])
    }
}

/// The UTF-16 width of the whole line.
pub open spec fn utf16_len(line: Seq<char>) -> int {
    utf16_prefix(line, line.len() as int)
}

/// The index of the character containing UTF-16 offset `col`, counted
/// from the left.  Meaningful when `0 <= col < utf16_len(line)`.
pub open spec fn spec_char_at(line: Seq<char>, col: int) -> int
    decreases line.len(),
{
    if line.len() == 0 {
        0
    } else if col < utf16_width(line[0]) {
        0
    } else {
        1 + spec_char_at(line.drop_first(), col - utf16_width(line[0]))
    }
}

/// The start of the word-character run containing position `i`.
pub open spec fn word_start(line: Seq<char>, i: int) -> int
    decreases i,
{
    if i <= 0 {
        0
    } else if !is_word_char(line[i - 1]) {
        i
    } else {
        word_start(line, i - 1)
    }
}

/// One past the end of the word-character run containing position `i`.
pub open spec fn word_end(line: Seq<char>, i: int) -> int
    decreases line.len() - i,
{
    if i >= line.len() {
        line.len() as int
    } else if !is_word_char(line[i]) {
        i
    } else {
        word_end(line, i + 1)
    }
}

/// The token under the cursor: the maximal run of word characters around
/// the character at UTF-16 column `col` of line `ln`, if the position
/// lies on a word character.
pub open spec fn spec_get_word(text: Seq<char>, ln: int, col: int) -> Option<Seq<char>> {
    let lines = spec_split(text, '\n');
    if !(0 <= ln < lines.len()) {
        Option::None
    } else {
        let line = lines[ln];
        if !(0 <= col < utf16_len(line)) {
            Option::None
        } else {
            let i = spec_char_at(line, col);
            if !is_word_char(line[i]) {
                Option::None
            } else {
                Option::Some(line.subrange(word_start(line, i), word_end(line, i)))
            }
        }
    }
}

/// Prefix widths grow with the index.
proof fn lemma_prefix_mono(line: Seq<char>, a: int, b: int)
    requires
        a <= b,
    ensures
        utf16_prefix(line, a) <= utf16_prefix(line, b),
    decreases b - a,
{
    if a < b {
        lemma_prefix_mono(line, a, b - 1);
    }
}

/// Dropping the first character shifts prefix widths by its width.
proof fn lemma_prefix_shift(line: Seq<char>, k: int)
    requires
        line.len() > 0,
        0 <= k,
        k + 1 <= line.len(),
    ensures
        utf16_prefix(line.drop_first(), k) == utf16_prefix(line, k + 1) - utf16_width(line[0]),
    decreases k,
{
    if k == 0 {
        assert(utf16_prefix(line.drop_first(), 0) == 0);
        assert(utf16_prefix(line, 0) == 0);
        assert(utf16_prefix(line, 1) == utf16_width(line[0]));
    } else {
        lemma_prefix_shift(line, k - 1);
        assert(line.drop_first()[k - 1] == line[k]);
        assert(utf16_prefix(line.drop_first(), k) == utf16_prefix(line.drop_first(), k - 1)
            + utf16_width(line.drop_first()[k - 1]));
        assert(utf16_prefix(line, k + 1) == utf16_prefix(line, k) + utf16_width(line[k]));
    }
}

/// The character whose width interval contains `col` is the one
/// [`spec_char_at`] names.
proof fn lemma_char_at(line: Seq<char>, col: int, i: int)
    requires
        0 <= i < line.len(),
        0 <= col,
        utf16_prefix(line, i) <= col < utf16_prefix(line, i + 1),
    ensures
        spec_char_at(line, col) == i,
    decreases i,
{
    assert(utf16_prefix(line, 0) == 0);
    assert(utf16_prefix(line, 1) == utf16_width(line[0]));
    if i == 0 {
    } else {
        lemma_prefix_mono(line, 1, i);
        lemma_prefix_shift(line, i - 1);
        lemma_prefix_shift(line, i);
        lemma_char_at(line.drop_first(), col - utf16_width(line[0]), i - 1);
    }
}

/// Extracts the token under the cursor, as [`spec_get_word`] describes:
/// the position is mapped through the line's UTF-16 widths onto a
/// character, and the surrounding run of word characters is returned.
/// Fails with `NotFound` when the position lies on a non-word character,
/// an empty line, or outside the document bounds.
pub fn get_word_from_text(text: &str, line: usize, character: usize) -> (r: Result<
    String,
    TokenError,
>)
    ensures
        match r {
            Result::Ok(w) => spec_get_word(text@, line as int, character as int)
                == Option::Some(w@),
            Result::Err(e) => spec_get_word(text@, line as int, character as int)
                == Option::<Seq<char>>::None && e == TokenError::NotFound,
        },
{
    let lines = split_str(text, '\n');
    proof {
        assert(str_views(lines@) == spec_split(text@, '\n'));
    }
    if line >= lines.len() {
        return Err(TokenError::NotFound);
    }
    let l: &String = &lines[line];
    let ghost lv = l@;
    proof {
        assert(lv == spec_split(text@, '\n')[line as int]);
    }
    let n = l.as_str().unicode_len();

    // Map the UTF-16 column onto a character index.
    let mut i: usize = 0;
    let mut off: usize = 0;
    while i < n
        invariant
            n == lv.len(),
            lv == l@,
            0 <= (line as int) < spec_split(text@, '\n').len(),
            lv == spec_split(text@, '\n')[line as int],
            i <= n,
            off == utf16_prefix(lv, i as int),
            off <= character,
        decreases n - i,
    {
        let c = l.as_str().get_char(i);
        let w = utf16_width_exec(c);
        if character - off < w {
            // Found: the column lies inside this character.
            proof {
                assert(utf16_prefix(lv, i as int + 1) == off + utf16_width(lv[i as int]));
                lemma_char_at(lv, character as int, i as int);
                lemma_prefix_mono(lv, i as int + 1, n as int);
            }
            return extract_at(l, i, Ghost(text@), Ghost(line as int), Ghost(character as int));
        }
        proof {
            assert(utf16_prefix(lv, i as int + 1) == off + utf16_width(lv[i as int]));
        }
        off = off + w;
        i = i + 1;
    }
    // The column lies at or past the end of the line (so also on an
    // empty line).
    proof {
        assert(character >= utf16_len(lv));
    }
    Err(TokenError::NotFound)
}

/// The run of word characters around character `i` of the line, once the
/// cursor has been mapped onto that character.
fn extract_at(l: &String, i: usize, Ghost(text): Ghost<Seq<char>>, Ghost(ln): Ghost<int>, Ghost(
    col,
): Ghost<int>) -> (r: Result<String, TokenError>)
    requires
        0 <= ln < spec_split(text, '\n').len(),
        l@ == spec_split(text, '\n')[ln],
        i < l@.len(),
        0 <= col < utf16_len(l@),
        spec_char_at(l@, col) == i as int,
    ensures
        match r {
            Result::Ok(w) => spec_get_word(text, ln, col) == Option::Some(w@),
            Result::Err(e) => spec_get_word(text, ln, col) == Option::<Seq<char>>::None && e
                == TokenError::NotFound,
        },
{
    let n = l.as_str().unicode_len();
    let c = l.as_str().get_char(i);
    if !is_word_char_exec(c) {
        return Err(TokenError::NotFound);
    }
    let mut s: usize = i;
    while s > 0 && is_word_char_exec(l.as_str().get_char(s - 1))
        invariant
            i < l@.len(),
            s <= i,
            word_start(l@, i as int) == word_start(l@, s as int),
        decreases s,
    {
        s = s - 1;
    }
    proof {
        assert(word_start(l@, i as int) == s as int);
    }
    let mut e: usize = i;
    while e < n && is_word_char_exec(l.as_str().get_char(e))
        invariant
            n == l@.len(),
            i <= e <= n,
            word_end(l@, i as int) == word_end(l@, e as int),
        decreases n - e,
    {
        e = e + 1;
    }
    proof {
        assert(word_end(l@, i as int) == e as int);
        assert(s <= i < e);
    }
    let w = l.as_str().substring_char(s, e).to_owned();
    Ok(w)
}

} // verus!
