//! Small text utilities shared by the anchor generator and the renderers:
//! moving between `String` and `Vec<char>`, and decimal formatting.

use vstd::prelude::*;

verus! {

/// Relies on `str::chars`: the characters of a string, in order — exactly
/// the string's view.
#[verifier::external_body]
pub fn str_chars(s: &str) -> (r: Vec<char>)
    ensures
        r@ == s@,
{
    s.chars().collect()
}

/// Relies on `String::from_iter` over characters: the resulting string's
/// characters are exactly the given ones, in order.
#[verifier::external_body]
pub fn string_from_chars(v: &Vec<char>) -> (r: String)
    ensures
        r@ == v@,
{
    v.iter().collect()
}

/// Relies on `str` equality: two string slices are equal exactly when their
/// character sequences are.
#[verifier::external_body]
pub fn str_eq(a: &str, b: &str) -> (r: bool)
    ensures
        r == (a@ == b@),
{
    a == b
}

/// `n` copies of one character.
pub open spec fn char_repeat(c: char, n: int) -> Seq<char> {
    Seq::new(
        if n < 0 {
            0
        } else {
            n as nat
        },
        |i: int| c,
    )
}

/// Appends `n` copies of `c`.
pub fn push_repeat(out: &mut Vec<char>, c: char, n: usize)
    ensures
        final(out)@ == old(out)@ + char_repeat(c, n as int),
{
    let mut i: usize = 0;
    while i < n
        invariant
            i <= n,
            out@ == old(out)@ + char_repeat(c, i as int),
        decreases n - i,
    {
        out.push(c);
        proof {
            assert(out@ =~= old(out)@ + char_repeat(c, i + 1 as int));
        }
        i += 1;
    }
    proof {
        assert(out@ =~= old(out)@ + char_repeat(c, n as int));
    }
}

/// Appends the characters of a string slice.
pub fn push_str_chars(out: &mut Vec<char>, s: &str)
    ensures
        final(out)@ == old(out)@ + s@,
{
    let mut cs = str_chars(s);
    out.append(&mut cs);
}

pub open spec fn min_int(a: int, b: int) -> int {
    if a < b {
        a
    } else {
        b
    }
}

pub fn min_usize(a: usize, b: usize) -> (r: usize)
    ensures
        r as int == min_int(a as int, b as int),
{
    if a < b {
        a
    } else {
        b
    }
}

/// Subtraction floored at zero.
pub open spec fn sat_sub(a: int, b: int) -> int {
    if a > b {
        a - b
    } else {
        0
    }
}

pub fn sat_sub_usize(a: usize, b: usize) -> (r: usize)
    ensures
        r as int == sat_sub(a as int, b as int),
{
    if a > b {
        a - b
    } else {
        0
    }
}

/// Addition capped at the machine's integer limit.
pub open spec fn sat_add(a: int, b: int) -> int {
    if a + b > usize::MAX {
        usize::MAX as int
    } else {
        a + b
    }
}

pub fn sat_add_usize(a: usize, b: usize) -> (r: usize)
    ensures
        r as int == sat_add(a as int, b as int),
{
    if a <= usize::MAX - b {
        a + b
    } else {
        usize::MAX
    }
}

/// The position of the first line feed at or after `i`, or the text's length.
pub open spec fn find_nl(s: Seq<char>, i: int) -> int
    decreases s.len() - i,
{
    if i < 0 || i >= s.len() {
        s.len() as int
    } else if s[i] == '\n' {
        i
    } else {
        find_nl(s, i + 1)
    }
}

/// A line with a trailing carriage return stripped.
pub open spec fn strip_cr(line: Seq<char>) -> Seq<char> {
    if line.len() > 0 && line.last() == '\r' {
        line.drop_last()
    } else {
        line
    }
}

pub proof fn lemma_find_nl_bounds(s: Seq<char>, i: int)
    requires
        0 <= i <= s.len(),
    ensures
        i <= find_nl(s, i) <= s.len(),
    decreases s.len() - i,
{
    if i < s.len() && s[i] != '\n' {
        lemma_find_nl_bounds(s, i + 1);
    }
}

/// The lines of the text from position `i` on: split at line feeds, each line
/// without its ending, a trailing carriage return stripped — and no final
/// empty line when the text ends with a line feed.
pub open spec fn lines_from(s: Seq<char>, i: int) -> Seq<Seq<char>>
    decreases s.len() - i + 1,
        via lines_from_decreases
{
    if i < 0 || i >= s.len() {
        Seq::empty()
    } else {
        let j = find_nl(s, i);
        seq![strip_cr(s.subrange(i, j))] + lines_from(s, j + 1)
    }
}

#[via_fn]
proof fn lines_from_decreases(s: Seq<char>, i: int) {
    if 0 <= i < s.len() {
        lemma_find_nl_bounds(s, i);
    }
}

/// The lines of a text.
pub open spec fn lines_of(s: Seq<char>) -> Seq<Seq<char>> {
    lines_from(s, 0)
}

/// A sequence of machine integers as mathematical integers.
pub open spec fn usizes_view(s: Seq<usize>) -> Seq<int> {
    Seq::new(s.len(), |i: int| s[i] as int)
}

/// Splits a text into its lines.
pub fn split_lines(s: &str) -> (r: Vec<String>)
    ensures
        r@.len() == lines_of(s@).len(),
        forall|i: int| 0 <= i < r@.len() ==> r@[i]@ == lines_of(s@)[i],
{
    let cs = str_chars(s);
    let mut r: Vec<String> = Vec::new();
    let ghost target = lines_of(s@);
    let mut i: usize = 0;
    while i < cs.len()
        invariant
            0 <= i <= cs.len(),
            cs@ == s@,
            target == lines_of(s@),
            target =~= Seq::new(r@.len(), |k: int| r@[k]@) + lines_from(s@, i as int),
        decreases cs.len() - i,
    {
        let ghost i0 = i as int;
        let mut j: usize = i;
        while j < cs.len() && cs[j] != '\n'
            invariant
                i <= j <= cs.len(),
                cs@ == s@,
                find_nl(s@, i0) == find_nl(s@, j as int),
            decreases cs.len() - j,
        {
            j += 1;
        }
        proof {
            assert(find_nl(s@, j as int) == j as int);
        }
        let j2 = if j > i && cs[j - 1] == '\r' {
            j - 1
        } else {
            j
        };
        let mut line: Vec<char> = Vec::new();
        let mut k: usize = i;
        while k < j2
            invariant
                i <= k <= j2 <= cs.len(),
                cs@ == s@,
                line@ == s@.subrange(i as int, k as int),
            decreases j2 - k,
        {
            line.push(cs[k]);
            proof {
                assert(line@ =~= s@.subrange(i as int, k + 1 as int));
            }
            k += 1;
        }
        proof {
            assert(line@ =~= strip_cr(s@.subrange(i0, j as int))) by {
                if j > i0 && s@[j - 1] == '\r' {
                    assert(s@.subrange(i0, j as int).last() == '\r');
                    assert(s@.subrange(i0, j as int).drop_last() =~= s@.subrange(
                        i0,
                        j - 1 as int,
                    ));
                } else {
                    if s@.subrange(i0, j as int).len() > 0 && s@.subrange(i0, j as int).last()
                        == '\r' {
                        assert(s@[j - 1] == '\r');
                    }
                }
            }
        }
        let line_s = string_from_chars(&line);
        let ghost oldr = r@;
        r.push(line_s);
        i = if j < cs.len() {
            j + 1
        } else {
            j
        };
        proof {
            if j == cs@.len() {
                assert(lines_from(s@, j as int) =~= lines_from(s@, j + 1 as int));
            }
            assert(Seq::new(r@.len(), |k: int| r@[k]@) =~= Seq::new(oldr.len(), |k: int| oldr[k]@)
                + seq![strip_cr(s@.subrange(i0, find_nl(s@, i0)))]);
            assert(target =~= Seq::new(r@.len(), |k: int| r@[k]@) + lines_from(s@, i as int));
        }
    }
    proof {
        assert(lines_from(s@, i as int) =~= Seq::<Seq<char>>::empty());
        assert(target =~= Seq::new(r@.len(), |k: int| r@[k]@));
    }
    r
}

/// The character for one decimal digit.
pub open spec fn dec_digit(d: int) -> char {
    if d == 0 {
        '0'
    } else if d == 1 {
        '1'
    } else if d == 2 {
        '2'
    } else if d == 3 {
        '3'
    } else if d == 4 {
        '4'
    } else if d == 5 {
        '5'
    } else if d == 6 {
        '6'
    } else if d == 7 {
        '7'
    } else if d == 8 {
        '8'
    } else {
        '9'
    }
}

/// The decimal digits of a nonnegative number, most significant first.
pub open spec fn dec_str(n: int) -> Seq<char>
    decreases n,
{
    if n < 10 {
        seq![dec_digit(n)]
    } else {
        dec_str(n / 10) + seq![dec_digit(n % 10)]
    }
}

fn dec_digit_char(d: u64) -> (r: char)
    requires
        d < 10,
    ensures
        r == dec_digit(d as int),
{
    match d {
        0 => '0',
        1 => '1',
        2 => '2',
        3 => '3',
        4 => '4',
        5 => '5',
        6 => '6',
        7 => '7',
        8 => '8',
        _ => '9',
    }
}

/// Appends the decimal digits of `n` to `out`.
pub fn push_dec(n: u64, out: &mut Vec<char>)
    ensures
        final(out)@ == old(out)@ + dec_str(n as int),
    decreases n,
{
    if n >= 10 {
        push_dec(n / 10, out);
    }
    out.push(dec_digit_char(n % 10));
    proof {
        if n >= 10 {
            assert(out@ =~= old(out)@ + (dec_str(n as int / 10) + seq![
                dec_digit(n as int % 10),
            ]));
        } else {
            assert(out@ =~= old(out)@ + seq![dec_digit(n as int)]);
        }
    }
}


/// The decimal representation of `n`.
pub fn dec_string(n: u64) -> (r: String)
    ensures
        r@ == dec_str(n as int),
{
    let mut digits: Vec<char> = Vec::new();
    push_dec(n, &mut digits);
    proof {
        assert(digits@ =~= dec_str(n as int));
    }
    string_from_chars(&digits)
}

} // verus!
