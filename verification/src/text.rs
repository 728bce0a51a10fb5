//! Character-level text helpers: every rendering computation works on
//! `Vec<char>` so that all column arithmetic counts Unicode scalar values,
//! and the finished block is turned into a `String` once, at the end.

use vstd::prelude::*;

verus! {

/// A sequence of `n` copies of `c`.
pub open spec fn spec_repeat(c: char, n: nat) -> Seq<char> {
    Seq::new(n, |i| c)
}

/// The decimal digits of `n`, most significant first.
pub open spec fn dec_digits(n: nat) -> Seq<char>
    decreases n,
{
    if n < 10 {
        seq![digit_char(n)]
    } else {
        dec_digits(n / 10) + seq![digit_char(n % 10)]
    }
}

/// The character for one decimal digit.
pub open spec fn digit_char(d: nat) -> char {
    if d == 0 { '0' }
    else if d == 1 { '1' }
    else if d == 2 { '2' }
    else if d == 3 { '3' }
    else if d == 4 { '4' }
    else if d == 5 { '5' }
    else if d == 6 { '6' }
    else if d == 7 { '7' }
    else if d == 8 { '8' }
    else { '9' }
}

fn digit_exec(d: u128) -> (r: char)
    requires
        d < 10,
    ensures
        r == digit_char(d as nat),
{
    if d == 0 { '0' }
    else if d == 1 { '1' }
    else if d == 2 { '2' }
    else if d == 3 { '3' }
    else if d == 4 { '4' }
    else if d == 5 { '5' }
    else if d == 6 { '6' }
    else if d == 7 { '7' }
    else if d == 8 { '8' }
    else { '9' }
}

/// The decimal digits of `n` as characters, most significant first.
pub fn number_chars(n: u128) -> (r: Vec<char>)
    ensures
        r@ == dec_digits(n as nat),
    decreases n,
{
    if n < 10 {
        let mut v: Vec<char> = Vec::new();
        v.push(digit_exec(n));
        v
    } else {
        let mut v = number_chars(n / 10);
        v.push(digit_exec(n % 10));
        v
    }
}

/// Relies on `String`'s `FromIterator<char>`: collecting characters yields
/// the string holding exactly those characters in order.
#[verifier::external_body]
pub fn chars_to_string(v: Vec<char>) -> (r: String)
    ensures
        r@ == v@,
{
    String::from_iter(v)
}

/// The characters of `s`, as a vector.
pub fn str_to_chars(s: &str) -> (r: Vec<char>)
    ensures
        r@ == s@,
{
    let n = s.unicode_len();
    let mut r: Vec<char> = Vec::new();
    let mut i: usize = 0;
    while i < n
        invariant
            i <= n,
            n == s@.len(),
            r@ == s@.take(i as int),
        decreases n - i,
    {
        r.push(s.get_char(i));
        assert(s@.take(i + 1 as int) =~= s@.take(i as int) + seq![s@[i as int]]);
        i = i + 1;
    }
    assert(s@.take(n as int) =~= s@);
    r
}

/// Append all characters of `s` to `out`.
pub fn push_str_chars(out: &mut Vec<char>, s: &str)
    ensures
        final(out)@ == old(out)@ + s@,
{
    let n = s.unicode_len();
    let mut i: usize = 0;
    while i < n
        invariant
            i <= n,
            n == s@.len(),
            out@ == old(out)@ + s@.take(i as int),
        decreases n - i,
    {
        out.push(s.get_char(i));
        assert(old(out)@ + s@.take(i + 1 as int) =~= (old(out)@ + s@.take(i as int)) + seq![s@[i as int]]);
        i = i + 1;
    }
    assert(old(out)@ + s@.take(n as int) =~= old(out)@ + s@);
}

/// Append all characters of `s` to `out`.
pub fn push_vec_chars(out: &mut Vec<char>, s: &Vec<char>)
    ensures
        final(out)@ == old(out)@ + s@,
{
    let n = s.len();
    let mut i: usize = 0;
    while i < n
        invariant
            i <= n,
            n == s@.len(),
            out@ == old(out)@ + s@.take(i as int),
        decreases n - i,
    {
        out.push(s[i]);
        assert(old(out)@ + s@.take(i + 1 as int) =~= (old(out)@ + s@.take(i as int)) + seq![s@[i as int]]);
        i = i + 1;
    }
    assert(old(out)@ + s@.take(n as int) =~= old(out)@ + s@);
}

/// Append `n` copies of `c` to `out`.
pub fn push_repeat(out: &mut Vec<char>, c: char, n: usize)
    ensures
        final(out)@ == old(out)@ + spec_repeat(c, n as nat),
{
    let mut i: usize = 0;
    while i < n
        invariant
            i <= n,
            out@ == old(out)@ + spec_repeat(c, i as nat),
        decreases n - i,
    {
        out.push(c);
        assert(old(out)@ + spec_repeat(c, (i + 1) as nat) =~= (old(out)@ + spec_repeat(c, i as nat)) + seq![c]);
        i = i + 1;
    }
}

/// The position of the first line feed in `s` at or after `from`, or the
/// length of `s` when there is none.
pub open spec fn line_break(s: Seq<char>, from: int) -> int
    decreases s.len() - from,
{
    if from >= s.len() {
        s.len() as int
    } else if s[from] == '\n' {
        from
    } else {
        line_break(s, from + 1)
    }
}

pub proof fn lemma_line_break(s: Seq<char>, from: int)
    requires
        0 <= from <= s.len(),
    ensures
        from <= line_break(s, from) <= s.len(),
        line_break(s, from) < s.len() ==> s[line_break(s, from)] == '\n',
        forall|i: int| from <= i < line_break(s, from) ==> s[i] != '\n',
    decreases s.len() - from,
{
    if from < s.len() && s[from] != '\n' {
        lemma_line_break(s, from + 1);
    }
}

/// The pieces of `s` split on line feeds, starting at `from`: always at
/// least one piece, and one more piece for every line feed at or after
/// `from`.
pub open spec fn split_from(s: Seq<char>, from: int) -> Seq<Seq<char>>
    decreases s.len() - from,
{
    let e = line_break(s, from);
    if from <= e < s.len() {
        seq![s.subrange(from, e)] + split_from(s, e + 1)
    } else {
        seq![s.subrange(from, e)]
    }
}

/// The logical lines of `s`: the pieces of `s` split on line feeds, except
/// that a final empty piece (from a trailing line feed, or from `s` being
/// empty) is dropped.
pub open spec fn spec_lines(s: Seq<char>) -> Seq<Seq<char>> {
    let p = split_from(s, 0);
    if p.last().len() == 0 {
        p.drop_last()
    } else {
        p
    }
}

pub proof fn lemma_split_from_len(s: Seq<char>, from: int)
    requires
        0 <= from <= s.len(),
    ensures
        split_from(s, from).len() >= 1,
    decreases s.len() - from,
{
}

/// Split `chars` on line feeds into logical lines, as [`spec_lines`]
/// describes.
pub fn split_lines(chars: &Vec<char>) -> (r: Vec<Vec<char>>)
    ensures
        r@.len() == spec_lines(chars@).len(),
        forall|i: int| 0 <= i < r@.len() ==> r@[i]@ == spec_lines(chars@)[i],
{
    let ghost s = chars@;
    let ghost total = split_from(s, 0);
    let n = chars.len();
    let mut pieces: Vec<Vec<char>> = Vec::new();
    let mut from: usize = 0;
    loop
        invariant_except_break
            total =~= total.take(pieces@.len() as int) + split_from(s, from as int),
        invariant
            n == s.len(),
            chars@ == s,
            from <= n,
            pieces@.len() <= total.len(),
            forall|i: int| 0 <= i < pieces@.len() ==> pieces@[i]@ == total[i],
        ensures
            pieces@.len() == total.len(),
            forall|i: int| 0 <= i < pieces@.len() ==> pieces@[i]@ == total[i],
        decreases n - from,
    {
        let mut e: usize = from;
        while e < n && chars[e] != '\n'
            invariant
                from <= e <= n,
                n == s.len(),
                chars@ == s,
                line_break(s, e as int) == line_break(s, from as int),
            decreases n - e,
        {
            e = e + 1;
        }
        assert(line_break(s, from as int) == e as int);
        let mut piece: Vec<char> = Vec::new();
        let mut i: usize = from;
        while i < e
            invariant
                from <= i <= e <= n,
                n == s.len(),
                chars@ == s,
                piece@ == s.subrange(from as int, i as int),
            decreases e - i,
        {
            piece.push(chars[i]);
            assert(s.subrange(from as int, i + 1 as int) =~= s.subrange(from as int, i as int) + seq![s[i as int]]);
            i = i + 1;
        }
        proof {
            lemma_line_break(s, from as int);
            assert(split_from(s, from as int)[0] == s.subrange(from as int, e as int));
        }
        let ghost k = pieces@.len() as int;
        pieces.push(piece);
        proof {
            if (e as int) < s.len() {
                assert(split_from(s, from as int) == seq![s.subrange(from as int, e as int)] + split_from(s, e as int + 1));
                assert(total =~= total.take(k + 1) + split_from(s, e as int + 1)) by {
                    assert(total.take(k + 1) =~= total.take(k) + seq![total[k]]);
                }
            } else {
                assert(split_from(s, from as int) =~= seq![s.subrange(from as int, e as int)]);
                assert(total =~= total.take(k + 1)) by {
                    assert(total.take(k + 1) =~= total.take(k) + seq![total[k]]);
                }
            }
        }
        if e == n {
            proof {
                assert(total.take(pieces@.len() as int) =~= total);
            }
            break;
        }
        from = e + 1;
    }
    proof {
        lemma_split_from_len(s, 0);
    }
    if pieces.len() > 0 {
        let last_len = pieces[pieces.len() - 1].len();
        if last_len == 0 {
            let ghost before = pieces@;
            pieces.pop();
            proof {
                assert(spec_lines(s) =~= total.drop_last());
                assert(pieces@ =~= before.drop_last());
            }
        } else {
            proof {
                assert(spec_lines(s) =~= total);
            }
        }
    }
    pieces
}

/// The rendered form of one character of source text: C0 control characters
/// and DEL are replaced by their Unicode control-picture glyphs so that no
/// raw control character reaches the output.
#[verifier::opaque]
pub open spec fn spec_substitute(c: char) -> char {
    if c == '\u{0}' { '\u{2400}' }
    else if c == '\u{1}' { '\u{2401}' }
    else if c == '\u{2}' { '\u{2402}' }
    else if c == '\u{3}' { '\u{2403}' }
    else if c == '\u{4}' { '\u{2404}' }
    else if c == '\u{5}' { '\u{2405}' }
    else if c == '\u{6}' { '\u{2406}' }
    else if c == '\u{7}' { '\u{2407}' }
    else if c == '\u{8}' { '\u{2408}' }
    else if c == '\u{9}' { '\u{2409}' }
    else if c == '\u{a}' { '\u{240a}' }
    else if c == '\u{b}' { '\u{240b}' }
    else if c == '\u{c}' { '\u{240c}' }
    else if c == '\u{d}' { '\u{240d}' }
    else if c == '\u{e}' { '\u{240e}' }
    else if c == '\u{f}' { '\u{240f}' }
    else if c == '\u{10}' { '\u{2410}' }
    else if c == '\u{11}' { '\u{2411}' }
    else if c == '\u{12}' { '\u{2412}' }
    else if c == '\u{13}' { '\u{2413}' }
    else if c == '\u{14}' { '\u{2414}' }
    else if c == '\u{15}' { '\u{2415}' }
    else if c == '\u{16}' { '\u{2416}' }
    else if c == '\u{17}' { '\u{2417}' }
    else if c == '\u{18}' { '\u{2418}' }
    else if c == '\u{19}' { '\u{2419}' }
    else if c == '\u{1a}' { '\u{241a}' }
    else if c == '\u{1b}' { '\u{241b}' }
    else if c == '\u{1c}' { '\u{241c}' }
    else if c == '\u{1d}' { '\u{241d}' }
    else if c == '\u{1e}' { '\u{241e}' }
    else if c == '\u{1f}' { '\u{241f}' }
    else if c == '\u{7f}' { '\u{2421}' }
    else { c }
}

/// Replace a control character with its control-picture glyph.
pub fn substitute(c: char) -> (r: char)
    ensures
        r == spec_substitute(c),
{
    proof {
        reveal(spec_substitute);
    }
    if c == '\u{0}' { '\u{2400}' }
    else if c == '\u{1}' { '\u{2401}' }
    else if c == '\u{2}' { '\u{2402}' }
    else if c == '\u{3}' { '\u{2403}' }
    else if c == '\u{4}' { '\u{2404}' }
    else if c == '\u{5}' { '\u{2405}' }
    else if c == '\u{6}' { '\u{2406}' }
    else if c == '\u{7}' { '\u{2407}' }
    else if c == '\u{8}' { '\u{2408}' }
    else if c == '\u{9}' { '\u{2409}' }
    else if c == '\u{a}' { '\u{240a}' }
    else if c == '\u{b}' { '\u{240b}' }
    else if c == '\u{c}' { '\u{240c}' }
    else if c == '\u{d}' { '\u{240d}' }
    else if c == '\u{e}' { '\u{240e}' }
    else if c == '\u{f}' { '\u{240f}' }
    else if c == '\u{10}' { '\u{2410}' }
    else if c == '\u{11}' { '\u{2411}' }
    else if c == '\u{12}' { '\u{2412}' }
    else if c == '\u{13}' { '\u{2413}' }
    else if c == '\u{14}' { '\u{2414}' }
    else if c == '\u{15}' { '\u{2415}' }
    else if c == '\u{16}' { '\u{2416}' }
    else if c == '\u{17}' { '\u{2417}' }
    else if c == '\u{18}' { '\u{2418}' }
    else if c == '\u{19}' { '\u{2419}' }
    else if c == '\u{1a}' { '\u{241a}' }
    else if c == '\u{1b}' { '\u{241b}' }
    else if c == '\u{1c}' { '\u{241c}' }
    else if c == '\u{1d}' { '\u{241d}' }
    else if c == '\u{1e}' { '\u{241e}' }
    else if c == '\u{1f}' { '\u{241f}' }
    else if c == '\u{7f}' { '\u{2421}' }
    else { c }
}

} // verus!
