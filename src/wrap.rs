use vstd::prelude::*;
use crate::text::texts;

verus! {

/// Whether `c` has Unicode's White_Space property: tab, line feed,
/// vertical tab, form feed, carriage return, space, next line, no-break
/// space, ogham space mark, the spaces from en quad to hair space, line and
/// paragraph separators, narrow no-break space, medium mathematical space
/// and ideographic space.
pub open spec fn is_white(c: char) -> bool {
    let n = c as u32;
    ||| 0x09 <= n <= 0x0D
    ||| n == 0x20
    ||| n == 0x85
    ||| n == 0xA0
    ||| n == 0x1680
    ||| 0x2000 <= n <= 0x200A
    ||| n == 0x2028
    ||| n == 0x2029
    ||| n == 0x202F
    ||| n == 0x205F
    ||| n == 0x3000
}

/// The lines of `s`, without their line endings.
pub uninterp spec fn lines_of(s: Seq<char>) -> Seq<Seq<char>>;

/// Relies on char::is_whitespace, Unicode's White_Space property.
#[verifier::external_body]
fn is_whitespace(c: char) -> (r: bool)
    ensures
        r == is_white(c),
{
    c.is_whitespace()
}

/// Relies on str::lines: `s` split at each line ending, the endings dropped.
#[verifier::external_body]
fn text_lines(s: &str) -> (r: Vec<String>)
    ensures
        texts(r@) == lines_of(s@),
{
    s.lines().map(|l| l.to_string()).collect()
}

/// Relies on String's FromIterator<char>: the characters, in order.
#[verifier::external_body]
fn string_from_chars(cs: &[char]) -> (r: String)
    ensures
        r@ == cs@,
{
    cs.iter().collect()
}

/// Relies on str::chars, collected into a vector: the characters of `s`.
#[verifier::external_body]
fn chars_of(s: &str) -> (r: Vec<char>)
    ensures
        r@ == s@,
{
    s.chars().collect()
}

/// The first position from `i` on that holds no white space (or the end).
pub open spec fn first_solid(s: Seq<char>, i: int) -> int
    decreases s.len() - i,
{
    if 0 <= i < s.len() && is_white(s[i]) {
        first_solid(s, i + 1)
    } else {
        i
    }
}

/// The end of `s[lo..j]` once its trailing white space is dropped.
pub open spec fn solid_end(s: Seq<char>, j: int, lo: int) -> int
    decreases j,
{
    if lo < j && 0 < j <= s.len() && is_white(s[j - 1]) {
        solid_end(s, j - 1, lo)
    } else {
        j
    }
}

/// `s` without leading and trailing white space.
pub open spec fn trimmed(s: Seq<char>) -> Seq<char> {
    let a = first_solid(s, 0);
    s.subrange(a, solid_end(s, s.len() as int, a))
}

/// Going back from `bp` towards `start`, the first position just after a
/// white space character, or `start` if there is none.
pub open spec fn break_point(s: Seq<char>, start: int, bp: int) -> int
    decreases bp,
{
    if start < bp && 0 < bp <= s.len() && !is_white(s[bp - 1]) {
        break_point(s, start, bp - 1)
    } else {
        bp
    }
}

/// Where the piece of `s` that starts at `start` ends: the rest of the line
/// if it fits in `width`, else after the last white space within `width`, or
/// at `width` when there is none.
pub open spec fn chunk_end(s: Seq<char>, width: nat, start: int) -> int {
    if start + width >= s.len() {
        s.len() as int
    } else if break_point(s, start, start + width) == start {
        start + width
    } else {
        break_point(s, start, start + width)
    }
}

/// The pieces of a long line from `start` on, each trimmed; white space
/// between pieces is dropped.
pub open spec fn pieces(s: Seq<char>, width: nat, start: int) -> Seq<Seq<char>>
    decreases s.len() - start,
{
    let end = chunk_end(s, width, start);
    let next = first_solid(s, end);
    if start < 0 || start >= s.len() || next <= start || next > s.len() {
        Seq::empty()
    } else {
        seq![trimmed(s.subrange(start, end))] + pieces(s, width, next)
    }
}

/// One line wrapped to `width`: a blank line gives one empty line, a line
/// that fits is kept as it is, and a longer one is cut into pieces.
pub open spec fn wrap_line(line: Seq<char>, width: nat) -> Seq<Seq<char>> {
    if first_solid(line, 0) == line.len() {
        seq![Seq::empty()]
    } else if line.len() <= width {
        seq![line]
    } else {
        pieces(line, width, 0)
    }
}

/// Each line wrapped to `width`, in order.
pub open spec fn wrap_lines(lines: Seq<Seq<char>>, width: nat) -> Seq<Seq<char>>
    decreases lines.len(),
{
    if lines.len() == 0 {
        Seq::empty()
    } else {
        wrap_lines(lines.drop_last(), width) + wrap_line(lines.last(), width)
    }
}

fn skip_white(s: &Vec<char>, i: usize) -> (r: usize)
    requires
        i <= s@.len(),
    ensures
        r == first_solid(s@, i as int),
        i <= r <= s@.len(),
{
    let mut j = i;
    while j < s.len() && is_whitespace(s[j])
        invariant
            i <= j <= s@.len(),
            first_solid(s@, j as int) == first_solid(s@, i as int),
        decreases s@.len() - j,
    {
        j = j + 1;
    }
    j
}

fn end_of_solid(s: &Vec<char>, hi: usize, lo: usize) -> (r: usize)
    requires
        lo <= hi <= s@.len(),
    ensures
        r == solid_end(s@, hi as int, lo as int),
        lo <= r <= hi,
{
    let mut j = hi;
    while j > lo && is_whitespace(s[j - 1])
        invariant
            lo <= j <= hi <= s@.len(),
            solid_end(s@, j as int, lo as int) == solid_end(s@, hi as int, lo as int),
        decreases j,
    {
        j = j - 1;
    }
    j
}

fn find_break(s: &Vec<char>, start: usize, from: usize) -> (r: usize)
    requires
        start <= from <= s@.len(),
    ensures
        r == break_point(s@, start as int, from as int),
        start <= r <= from,
{
    let mut bp = from;
    while bp > start && !is_whitespace(s[bp - 1])
        invariant
            start <= bp <= from <= s@.len(),
            break_point(s@, start as int, bp as int) == break_point(s@, start as int, from as int),
        decreases bp,
    {
        bp = bp - 1;
    }
    bp
}

/// `s[from..to]` without its leading and trailing white space, as a string.
fn trimmed_piece(s: &Vec<char>, from: usize, to: usize) -> (r: String)
    requires
        from <= to <= s@.len(),
    ensures
        r@ == trimmed(s@.subrange(from as int, to as int)),
{
    let mut piece: Vec<char> = Vec::new();
    let mut k = from;
    while k < to
        invariant
            from <= k <= to <= s@.len(),
            piece@ == s@.subrange(from as int, k as int),
        decreases to - k,
    {
        piece.push(s[k]);
        assert(piece@ =~= s@.subrange(from as int, k + 1));
        k = k + 1;
    }
    let a = skip_white(&piece, 0);
    let b = end_of_solid(&piece, piece.len(), a);
    let mut kept: Vec<char> = Vec::new();
    let mut m = a;
    while m < b
        invariant
            a <= m <= b <= piece@.len(),
            kept@ == piece@.subrange(a as int, m as int),
        decreases b - m,
    {
        kept.push(piece[m]);
        assert(kept@ =~= piece@.subrange(a as int, m + 1));
        m = m + 1;
    }
    string_from_chars(kept.as_slice())
}

/// Appends to `out` the lines that `line` wraps into.
fn wrap_line_into(line: &String, width: usize, out: &mut Vec<String>)
    requires
        width >= 1,
    ensures
        texts(final(out)@) == texts(old(out)@) + wrap_line(line@, width as nat),
{
    let s = chars_of(line.as_str());
    let n = s.len();
    if skip_white(&s, 0) == n {
        out.push(String::new());
        assert(texts(out@) =~= texts(old(out)@) + wrap_line(line@, width as nat));
        return;
    }
    if n <= width {
        out.push(line.clone());
        assert(texts(out@) =~= texts(old(out)@) + wrap_line(line@, width as nat));
        return;
    }
    let ghost target = texts(old(out)@) + pieces(s@, width as nat, 0);
    let mut start: usize = 0;
    while start < n
        invariant
            n == s@.len(),
            s@ == line@,
            width >= 1,
            start <= n,
            texts(out@) + pieces(s@, width as nat, start as int) == target,
        decreases n - start,
    {
        let end = if width >= n - start {
            n
        } else {
            let bp = find_break(&s, start, start + width);
            if bp == start {
                start + width
            } else {
                bp
            }
        };
        assert(end == chunk_end(s@, width as nat, start as int));
        let piece = trimmed_piece(&s, start, end);
        let next = skip_white(&s, end);
        let ghost before = texts(out@);
        out.push(piece);
        assert(texts(out@) =~= before.push(piece@));
        assert(pieces(s@, width as nat, start as int) == seq![piece@] + pieces(
            s@,
            width as nat,
            next as int,
        ));
        assert(texts(out@) + pieces(s@, width as nat, next as int) =~= target);
        start = next;
    }
    assert(pieces(s@, width as nat, n as int) =~= Seq::<Seq<char>>::empty());
    assert(texts(out@) =~= target);
}

/// `text` wrapped to `width` columns (characters) for display: each line is
/// cut at white space where it can be, at `width` where it cannot.
pub fn wrap_text(text: &str, width: usize) -> (r: Vec<String>)
    requires
        width >= 1,
    ensures
        texts(r@) == wrap_lines(lines_of(text@), width as nat),
{
    let lines = text_lines(text);
    let ghost ls = texts(lines@);
    let mut out: Vec<String> = Vec::new();
    let mut i: usize = 0;
    while i < lines.len()
        invariant
            i <= lines@.len(),
            ls == texts(lines@),
            ls == lines_of(text@),
            width >= 1,
            texts(out@) == wrap_lines(ls.subrange(0, i as int), width as nat),
        decreases lines@.len() - i,
    {
        assert(ls.subrange(0, i + 1).drop_last() =~= ls.subrange(0, i as int));
        assert(ls.subrange(0, i + 1).last() == lines@[i as int]@);
        wrap_line_into(&lines[i], width, &mut out);
        i = i + 1;
    }
    assert(ls.subrange(0, lines@.len() as int) =~= ls);
    out
}

} // verus!
