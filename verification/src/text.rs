//! Character and string utilities shared by the loader, the index and the
//! token extractor: ASCII case folding, word-character classification,
//! UTF-16 column widths, and splitting a string on a separator character.

use vstd::prelude::*;

verus! {

/// ASCII lowercase of one character; characters outside `'A'..='Z'` are kept.
pub open spec fn lower_char(c: char) -> char {
    match c {
        'A' => 'a',
        'B' => 'b',
        'C' => 'c',
        'D' => 'd',
        'E' => 'e',
        'F' => 'f',
        'G' => 'g',
        'H' => 'h',
        'I' => 'i',
        'J' => 'j',
        'K' => 'k',
        'L' => 'l',
        'M' => 'm',
        'N' => 'n',
        'O' => 'o',
        'P' => 'p',
        'Q' => 'q',
        'R' => 'r',
        'S' => 's',
        'T' => 't',
        'U' => 'u',
        'V' => 'v',
        'W' => 'w',
        'X' => 'x',
        'Y' => 'y',
        'Z' => 'z',
        _ => c,
    }
}

/// ASCII lowercase of a character sequence.
pub open spec fn lower_seq(s: Seq<char>) -> Seq<char> {
    s.map_values(|c: char| lower_char(c))
}

/// Executable ASCII case folding of one character.
pub fn lower_char_exec(c: char) -> (r: char)
    ensures
        r == lower_char(c),
{
    match c {
        'A' => 'a',
        'B' => 'b',
        'C' => 'c',
        'D' => 'd',
        'E' => 'e',
        'F' => 'f',
        'G' => 'g',
        'H' => 'h',
        'I' => 'i',
        'J' => 'j',
        'K' => 'k',
        'L' => 'l',
        'M' => 'm',
        'N' => 'n',
        'O' => 'o',
        'P' => 'p',
        'Q' => 'q',
        'R' => 'r',
        'S' => 's',
        'T' => 't',
        'U' => 'u',
        'V' => 'v',
        'W' => 'w',
        'X' => 'x',
        'Y' => 'y',
        'Z' => 'z',
        _ => c,
    }
}

/// Case-insensitive equality of two strings, under ASCII case folding.
pub fn eq_ignore_case(a: &str, b: &str) -> (r: bool)
    ensures
        r == (lower_seq(a@) == lower_seq(b@)),
{
    let na = a.unicode_len();
    let nb = b.unicode_len();
    if na != nb {
        proof {
            assert(lower_seq(a@).len() == a@.len());
            assert(lower_seq(b@).len() == b@.len());
        }
        return false;
    }
    let mut i: usize = 0;
    while i < na
        invariant
            na == a@.len(),
            na == b@.len(),
            i <= na,
            forall|j: int| 0 <= j < i ==> lower_char(a@[j]) == lower_char(b@[j]),
        decreases na - i,
    {
        let ca = a.get_char(i);
        let cb = b.get_char(i);
        if lower_char_exec(ca) != lower_char_exec(cb) {
            proof {
                assert(lower_seq(a@)[i as int] != lower_seq(b@)[i as int]);
            }
            return false;
        }
        i = i + 1;
    }
    proof {
        assert(lower_seq(a@) =~= lower_seq(b@));
    }
    true
}

/// Exact equality of two strings.
pub fn str_eq(a: &str, b: &str) -> (r: bool)
    ensures
        r == (a@ == b@),
{
    let na = a.unicode_len();
    let nb = b.unicode_len();
    if na != nb {
        return false;
    }
    let mut i: usize = 0;
    while i < na
        invariant
            na == a@.len(),
            na == b@.len(),
            i <= na,
            forall|j: int| 0 <= j < i ==> a@[j] == b@[j],
        decreases na - i,
    {
        if a.get_char(i) != b.get_char(i) {
            return false;
        }
        i = i + 1;
    }
    proof {
        assert(a@ =~= b@);
    }
    true
}

/// A "word" character: ASCII alphanumeric, underscore, or percent sign
/// (the latter admits register syntax such as `%eax`).
pub open spec fn is_word_char(c: char) -> bool {
    ||| ('a' as u32) <= (c as u32) && (c as u32) <= ('z' as u32)
    ||| ('A' as u32) <= (c as u32) && (c as u32) <= ('Z' as u32)
    ||| ('0' as u32) <= (c as u32) && (c as u32) <= ('9' as u32)
    ||| c == '_'
    ||| c == '%'
}

/// Executable word-character test.
pub fn is_word_char_exec(c: char) -> (r: bool)
    ensures
        r == is_word_char(c),
{
    let u = c as u32;
    (('a' as u32) <= u && u <= ('z' as u32)) || (('A' as u32) <= u && u <= ('Z' as u32)) || (('0'
        as u32) <= u && u <= ('9' as u32)) || c == '_' || c == '%'
}

/// Width of one character in UTF-16 code units: 2 for characters outside
/// the basic multilingual plane, 1 otherwise.
pub open spec fn utf16_width(c: char) -> int {
    if (c as u32) < 0x10000 {
        1int
    } else {
        2int
    }
}

/// Executable UTF-16 width.
pub fn utf16_width_exec(c: char) -> (r: usize)
    ensures
        r == utf16_width(c),
{
    if (c as u32) < 0x10000 {
        1
    } else {
        2
    }
}

/// The fields of `s` split on the separator `sep`, leftmost first.
/// Splitting the empty sequence yields one empty field; a trailing
/// separator yields a trailing empty field, as `str::split` does.
pub open spec fn spec_split(s: Seq<char>, sep: char) -> Seq<Seq<char>>
    decreases s.len(),
{
    if s.len() == 0 {
        seq![Seq::<char>::empty()]
    } else if s.last() == sep {
        spec_split(s.drop_last(), sep).push(Seq::<char>::empty())
    } else {
        let rest = spec_split(s.drop_last(), sep);
        rest.update(rest.len() - 1, rest.last().push(s.last()))
    }
}

/// Splitting always yields at least one field.
pub proof fn lemma_split_nonempty(s: Seq<char>, sep: char)
    ensures
        spec_split(s, sep).len() >= 1,
    decreases s.len(),
{
    if s.len() > 0 {
        lemma_split_nonempty(s.drop_last(), sep);
    }
}

/// The views of a sequence of strings.
pub open spec fn str_views(v: Seq<String>) -> Seq<Seq<char>> {
    v.map_values(|t: String| t@)
}

/// Splits `s` on the separator character, as [`spec_split`] describes.
pub fn split_str(s: &str, sep: char) -> (r: Vec<String>)
    ensures
        str_views(r@) == spec_split(s@, sep),
        r@.len() >= 1,
{
    let n = s.unicode_len();
    let mut fields: Vec<String> = Vec::new();
    let mut start: usize = 0;
    let mut i: usize = 0;
    proof {
        assert(s@.subrange(0, 0) =~= Seq::<char>::empty());
        assert(s@.subrange(0, 0).subrange(0, 0) =~= Seq::<char>::empty());
        assert(str_views(fields@).push(Seq::<char>::empty()) =~= spec_split(
            s@.subrange(0, 0),
            sep,
        ));
    }
    while i < n
        invariant
            n == s@.len(),
            start <= i <= n,
            str_views(fields@).push(s@.subrange(start as int, i as int)) == spec_split(
                s@.subrange(0, i as int),
                sep,
            ),
        decreases n - i,
    {
        let c = s.get_char(i);
        proof {
            let prefix = s@.subrange(0, i as int);
            let prefix1 = s@.subrange(0, i as int + 1);
            assert(prefix1.drop_last() =~= prefix);
            assert(prefix1.last() == c);
            lemma_split_nonempty(prefix, sep);
        }
        if c == sep {
            let ghost start0 = start as int;
            let field = s.substring_char(start, i).to_owned();
            fields.push(field);
            start = i + 1;
            proof {
                let prefix1 = s@.subrange(0, i as int + 1);
                assert(str_views(fields@) =~= str_views(fields@.drop_last()).push(
                    s@.subrange(start0, i as int),
                ));
                assert(s@.subrange(start as int, i as int + 1) =~= Seq::<char>::empty());
                assert(str_views(fields@).push(s@.subrange(start as int, i as int + 1)) =~=
                    spec_split(prefix1, sep));
            }
        } else {
            proof {
                let prefix = s@.subrange(0, i as int);
                let prefix1 = s@.subrange(0, i as int + 1);
                let rest = spec_split(prefix, sep);
                assert(rest == str_views(fields@).push(s@.subrange(start as int, i as int)));
                assert(rest.len() == str_views(fields@).len() + 1);
                assert(rest.last() == s@.subrange(start as int, i as int));
                assert(s@.subrange(start as int, i as int).push(c) =~= s@.subrange(
                    start as int,
                    i as int + 1,
                ));
                assert(rest.update(rest.len() - 1, rest.last().push(c)) =~= str_views(
                    fields@,
                ).push(s@.subrange(start as int, i as int + 1)));
                assert(str_views(fields@).push(s@.subrange(start as int, i as int + 1)) =~=
                    spec_split(prefix1, sep));
            }
        }
        i = i + 1;
    }
    let field = s.substring_char(start, n).to_owned();
    fields.push(field);
    proof {
        assert(s@.subrange(0, n as int) =~= s@);
        assert(str_views(fields@) =~= str_views(fields@.drop_last()).push(
            s@.subrange(start as int, n as int),
        ));
        assert(str_views(fields@) =~= spec_split(s@, sep));
        lemma_split_nonempty(s@, sep);
    }
    fields
}

} // verus!
