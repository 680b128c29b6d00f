//! Text as sequences of characters: lines, trimming, substrings, decimals.

use vstd::prelude::*;
use vstd::utf8;

verus! {

/// `String::push` appends the given character to the end of the string.
pub assume_specification[ String::push ](s: &mut String, c: char)
    ensures
        final(s)@ == old(s)@.push(c),
;

// ---------------------------------------------------------------------------
// Model
// ---------------------------------------------------------------------------

/// The texts that a sequence of strings holds.
pub open spec fn texts(v: Seq<String>) -> Seq<Seq<char>> {
    Seq::new(v.len(), |i: int| v[i]@)
}

/// The texts that a sequence of character vectors holds.
pub open spec fn rows(v: Seq<Vec<char>>) -> Seq<Seq<char>> {
    Seq::new(v.len(), |i: int| v[i]@)
}

/// The characters with the Unicode property `White_Space`.
pub open spec fn white_space(c: char) -> bool {
    let u = c as u32;
    ||| 0x9 <= u <= 0xd
    ||| u == 0x20
    ||| u == 0x85
    ||| u == 0xa0
    ||| u == 0x1680
    ||| 0x2000 <= u <= 0x200a
    ||| u == 0x2028
    ||| u == 0x2029
    ||| u == 0x202f
    ||| u == 0x205f
    ||| u == 0x3000
}

/// `s` without its leading white space.
pub open spec fn trim_start(s: Seq<char>) -> Seq<char>
    decreases s.len(),
{
    if s.len() > 0 && white_space(s[0]) {
        trim_start(s.drop_first())
    } else {
        s
    }
}

/// `s` without its trailing white space.
pub open spec fn trim_end(s: Seq<char>) -> Seq<char>
    decreases s.len(),
{
    if s.len() > 0 && white_space(s.last()) {
        trim_end(s.drop_last())
    } else {
        s
    }
}

/// `s` without white space at either end.
pub open spec fn trim(s: Seq<char>) -> Seq<char> {
    trim_end(trim_start(s))
}

/// How many bytes of UTF-8 the leading white space of `s` takes.
pub open spec fn indent(s: Seq<char>) -> nat {
    (utf8::encode_utf8(s).len() - utf8::encode_utf8(trim_start(s)).len()) as nat
}

/// `n` spaces.
pub open spec fn spaces(n: nat) -> Seq<char> {
    Seq::new(n, |i: int| ' ')
}

/// The index of the first line feed of `s`, or its length.
pub open spec fn next_break(s: Seq<char>) -> nat
    decreases s.len(),
{
    if s.len() == 0 || s[0] == '\n' {
        0
    } else {
        1 + next_break(s.drop_first())
    }
}

/// `s` without one carriage return at its end.
pub open spec fn strip_return(s: Seq<char>) -> Seq<char> {
    if s.len() > 0 && s.last() == '\r' {
        s.drop_last()
    } else {
        s
    }
}

/// The lines of `s`. A line ends in a line feed, or in a carriage return and a
/// line feed, neither of which belongs to it; the last line may lack its ending.
pub open spec fn lines(s: Seq<char>) -> Seq<Seq<char>>
    decreases s.len(),
{
    if s.len() == 0 {
        seq![]
    } else if next_break(s) >= s.len() {
        seq![s]
    } else {
        seq![strip_return(s.take(next_break(s) as int))] + lines(
            s.skip(next_break(s) as int + 1),
        )
    }
}

/// The text made of the lines `ls`, each ended by a line feed.
pub open spec fn terminated(ls: Seq<Seq<char>>) -> Seq<char>
    decreases ls.len(),
{
    if ls.len() == 0 {
        seq![]
    } else {
        terminated(ls.drop_last()) + ls.last() + seq!['\n']
    }
}

/// `needle` stands in `hay` at index `i`.
pub open spec fn occurs_at(hay: Seq<char>, needle: Seq<char>, i: int) -> bool {
    &&& 0 <= i
    &&& i + needle.len() <= hay.len()
    &&& hay.subrange(i, i + needle.len()) == needle
}

/// `needle` stands somewhere in `hay`.
pub open spec fn has_substring(hay: Seq<char>, needle: Seq<char>) -> bool {
    exists|i: int| occurs_at(hay, needle, i)
}

/// `prefix` stands at the start of `s`.
pub open spec fn has_prefix(s: Seq<char>, prefix: Seq<char>) -> bool {
    occurs_at(s, prefix, 0)
}

/// The character for the digit `d`.
pub open spec fn digit(d: nat) -> char {
    ('0' as u32 + d) as char
}

/// `n` in decimal.
pub open spec fn decimal(n: nat) -> Seq<char>
    decreases n,
{
    if n < 10 {
        seq![digit(n)]
    } else {
        decimal(n / 10).push(digit(n % 10))
    }
}

// ---------------------------------------------------------------------------
// Characters and strings
// ---------------------------------------------------------------------------

/// The characters of `s`.
pub fn chars_of(s: &str) -> (r: Vec<char>)
    ensures
        r@ == s@,
{
    let mut r: Vec<char> = Vec::new();
    for c in it: s.chars()
        invariant
            it.seq() == s@,
            r@ == s@.take(it.index() as int),
    {
        r.push(c);
        assert(s@.take(it.index() + 1) == s@.take(it.index() as int).push(c));
    }
    assert(s@.take(s@.len() as int) == s@);
    r
}

/// Appends the characters `cs` to `out`.
pub fn push_chars(out: &mut String, cs: &Vec<char>)
    ensures
        final(out)@ == old(out)@ + cs@,
{
    let ghost before = out@;
    for i in 0..cs.len()
        invariant
            out@ == before + cs@.take(i as int),
    {
        out.push(cs[i]);
        assert(cs@.take(i + 1) == cs@.take(i as int).push(cs@[i as int]));
    }
    assert(cs@.take(cs@.len() as int) == cs@);
}

/// Whether `a` and `b` hold the same characters.
pub fn same_chars(a: &Vec<char>, b: &Vec<char>) -> (r: bool)
    ensures
        r == (a@ == b@),
{
    if a.len() != b.len() {
        return false;
    }
    for i in 0..a.len()
        invariant
            a@.len() == b@.len(),
            forall|j: int| 0 <= j < i ==> a@[j] == b@[j],
    {
        if a[i] != b[i] {
            return false;
        }
    }
    assert(a@ == b@);
    true
}

/// Whether `a` and `b` are the same text.
pub fn same_text(a: &str, b: &str) -> (r: bool)
    ensures
        r == (a@ == b@),
{
    same_chars(&chars_of(a), &chars_of(b))
}

/// The characters of `cs` from index `from` up to index `to`.
fn part(cs: &Vec<char>, from: usize, to: usize) -> (r: Vec<char>)
    requires
        from <= to <= cs@.len(),
    ensures
        r@ == cs@.subrange(from as int, to as int),
{
    let mut r: Vec<char> = Vec::new();
    for i in from..to
        invariant
            from <= to <= cs@.len(),
            r@ == cs@.subrange(from as int, i as int),
    {
        r.push(cs[i]);
        assert(cs@.subrange(from as int, i + 1) == cs@.subrange(from as int, i as int).push(
            cs@[i as int],
        ));
    }
    r
}

// ---------------------------------------------------------------------------
// White space
// ---------------------------------------------------------------------------

/// Whether `c` has the Unicode property `White_Space`.
pub fn is_white_space(c: char) -> (r: bool)
    ensures
        r == white_space(c),
{
    let u: u32 = c as u32;
    (0x9 <= u && u <= 0xd) || u == 0x20 || u == 0x85 || u == 0xa0 || u == 0x1680 || (0x2000 <= u
        && u <= 0x200a) || u == 0x2028 || u == 0x2029 || u == 0x202f || u == 0x205f || u == 0x3000
}

/// `cs` without its leading white space.
pub fn trimmed_start(cs: &Vec<char>) -> (r: Vec<char>)
    ensures
        r@ == trim_start(cs@),
{
    let mut i: usize = 0;
    assert(cs@.skip(0) == cs@);
    while i < cs.len() && is_white_space(cs[i])
        invariant
            i <= cs@.len(),
            trim_start(cs@) == trim_start(cs@.skip(i as int)),
        decreases cs@.len() - i,
    {
        assert(cs@.skip(i as int).drop_first() == cs@.skip(i + 1));
        i += 1;
    }
    assert(trim_start(cs@.skip(i as int)) == cs@.skip(i as int));
    assert(cs@.skip(i as int) == cs@.subrange(i as int, cs@.len() as int));
    part(cs, i, cs.len())
}

/// `cs` without its trailing white space.
pub fn trimmed_end(cs: &Vec<char>) -> (r: Vec<char>)
    ensures
        r@ == trim_end(cs@),
{
    let mut i: usize = cs.len();
    assert(cs@.take(i as int) == cs@);
    while i > 0 && is_white_space(cs[i - 1])
        invariant
            i <= cs@.len(),
            trim_end(cs@) == trim_end(cs@.take(i as int)),
        decreases i,
    {
        assert(cs@.take(i as int).drop_last() == cs@.take(i - 1));
        i -= 1;
    }
    assert(trim_end(cs@.take(i as int)) == cs@.take(i as int));
    assert(cs@.take(i as int) == cs@.subrange(0, i as int));
    part(cs, 0, i)
}

/// `cs` without white space at either end.
pub fn trimmed(cs: &Vec<char>) -> (r: Vec<char>)
    ensures
        r@ == trim(cs@),
{
    trimmed_end(&trimmed_start(cs))
}

/// Trimming never lengthens the encoding, and nothing is trimmed exactly where
/// the indentation is zero.
pub proof fn lemma_indent(s: Seq<char>)
    ensures
        utf8::encode_utf8(trim_start(s)).len() <= utf8::encode_utf8(s).len(),
        indent(s) == 0 <==> !(s.len() > 0 && white_space(s[0])),
        s.len() > 0 && white_space(s[0]) ==> indent(s) == utf8::encode_scalar(s[0] as u32).len() + indent(
            s.drop_first(),
        ),
    decreases s.len(),
{
    if s.len() > 0 && white_space(s[0]) {
        lemma_indent(s.drop_first());
    }
}

/// Whether `cs` starts with white space.
pub fn is_indented(cs: &Vec<char>) -> (r: bool)
    ensures
        r == (indent(cs@) > 0),
{
    proof {
        lemma_indent(cs@);
    }
    cs.len() > 0 && is_white_space(cs[0])
}

/// How many bytes of UTF-8 the leading white space of `cs` takes.
pub fn indent_width(cs: &Vec<char>) -> (r: u128)
    ensures
        r == indent(cs@),
{
    let mut r: u128 = 0;
    let mut i: usize = 0;
    assert(cs@.skip(0) == cs@);
    while i < cs.len() && is_white_space(cs[i])
        invariant
            i <= cs@.len(),
            r <= 3 * i,
            r + indent(cs@.skip(i as int)) == indent(cs@),
        decreases cs@.len() - i,
    {
        let ghost rest = cs@.skip(i as int);
        proof {
            lemma_indent(rest);
            assert(rest.drop_first() == cs@.skip(i + 1));
        }
        let u: u32 = cs[i] as u32;
        if u >= 0x800 {
            r += 3;
        } else if u >= 0x80 {
            r += 2;
        } else {
            r += 1;
        }
        i += 1;
    }
    proof {
        lemma_indent(cs@.skip(i as int));
    }
    r
}

/// Appends as many spaces to `out` as the leading white space of `cs` takes bytes.
pub fn push_indent(out: &mut String, cs: &Vec<char>)
    ensures
        final(out)@ == old(out)@ + spaces(indent(cs@)),
{
    let ghost before = out@;
    let mut i: usize = 0;
    assert(cs@.skip(0) == cs@);
    while i < cs.len() && is_white_space(cs[i])
        invariant
            i <= cs@.len(),
            out@ + spaces(indent(cs@.skip(i as int))) == before + spaces(indent(cs@)),
        decreases cs@.len() - i,
    {
        let ghost rest = cs@.skip(i as int);
        proof {
            lemma_indent(rest);
            assert(rest.drop_first() == cs@.skip(i + 1));
        }
        let u: u32 = cs[i] as u32;
        let ghost here = out@;
        out.push(' ');
        if u >= 0x80 {
            out.push(' ');
        }
        if u >= 0x800 {
            out.push(' ');
        }
        proof {
            assert(out@ == here + spaces(utf8::encode_scalar(u).len()));
            assert(spaces(indent(rest)) == spaces(utf8::encode_scalar(u).len()) + spaces(
                indent(rest.drop_first()),
            ));
        }
        i += 1;
    }
    proof {
        lemma_indent(cs@.skip(i as int));
        assert(spaces(0) == Seq::<char>::empty());
    }
}

// ---------------------------------------------------------------------------
// Lines
// ---------------------------------------------------------------------------

proof fn lemma_next_break(s: Seq<char>, n: int)
    requires
        0 <= n <= s.len(),
        forall|i: int| 0 <= i < n ==> s[i] != '\n',
        n < s.len() ==> s[n] == '\n',
    ensures
        next_break(s) == n,
    decreases n,
{
    if n > 0 {
        lemma_next_break(s.drop_first(), n - 1);
    }
}

/// The lines of `cs`.
pub fn split_lines(cs: &Vec<char>) -> (r: Vec<Vec<char>>)
    ensures
        rows(r@) == lines(cs@),
{
    let mut r: Vec<Vec<char>> = Vec::new();
    let mut i: usize = 0;
    assert(cs@.skip(0) == cs@);
    assert(rows(r@) + lines(cs@) == lines(cs@));
    while i < cs.len()
        invariant
            i <= cs@.len(),
            rows(r@) + lines(cs@.skip(i as int)) == lines(cs@),
        decreases cs@.len() - i,
    {
        let ghost rest = cs@.skip(i as int);
        let ghost done = rows(r@);
        let mut n: usize = i;
        while n < cs.len() && cs[n] != '\n'
            invariant
                i <= n <= cs@.len(),
                forall|j: int| i <= j < n ==> cs@[j] != '\n',
            decreases cs@.len() - n,
        {
            n += 1;
        }
        proof {
            lemma_next_break(rest, n - i);
        }
        if n == cs.len() {
            let line = part(cs, i, n);
            r.push(line);
            proof {
                assert(line@ == rest);
                assert(rows(r@) == done + seq![rest]);
                assert(cs@.skip(n as int) == Seq::<char>::empty());
                assert(rows(r@) + lines(cs@.skip(n as int)) == done + lines(rest));
            }
            i = n;
        } else {
            let end: usize = if n > i && cs[n - 1] == '\r' {
                n - 1
            } else {
                n
            };
            let line = part(cs, i, end);
            r.push(line);
            proof {
                assert(rest.take(n - i) == cs@.subrange(i as int, n as int));
                assert(line@ == strip_return(rest.take(n - i)));
                assert(rest.skip(n - i + 1) == cs@.skip(n + 1));
                assert(rows(r@) == done + seq![line@]);
                assert(rows(r@) + lines(cs@.skip(n + 1)) == done + lines(rest));
            }
            i = n + 1;
        }
    }
    assert(cs@.skip(i as int) == Seq::<char>::empty());
    assert(rows(r@) == lines(cs@));
    r
}

/// Appends the lines `ls` to `out`, each ended by a line feed.
pub fn push_lines(out: &mut String, ls: &Vec<Vec<char>>, from: usize, to: usize)
    requires
        from <= to <= ls@.len(),
    ensures
        final(out)@ == old(out)@ + terminated(rows(ls@).subrange(from as int, to as int)),
{
    let ghost before = out@;
    for i in from..to
        invariant
            from <= to <= ls@.len(),
            out@ == before + terminated(rows(ls@).subrange(from as int, i as int)),
    {
        push_chars(out, &ls[i]);
        out.push('\n');
        proof {
            let grown = rows(ls@).subrange(from as int, i + 1);
            assert(grown.drop_last() == rows(ls@).subrange(from as int, i as int));
            assert(grown.last() == ls@[i as int]@);
        }
    }
}

// ---------------------------------------------------------------------------
// Substrings
// ---------------------------------------------------------------------------

/// Whether `needle` stands in `hay` at index `i`.
fn stands_at(hay: &Vec<char>, needle: &Vec<char>, i: usize) -> (r: bool)
    requires
        i + needle@.len() <= hay@.len(),
    ensures
        r == occurs_at(hay@, needle@, i as int),
{
    let total: usize = hay.len();
    for j in 0..needle.len()
        invariant
            i + needle@.len() <= hay@.len(),
            hay@.len() == total,
            forall|k: int| 0 <= k < j ==> hay@[i + k] == needle@[k],
    {
        if hay[i + j] != needle[j] {
            assert(hay@.subrange(i as int, i + needle@.len())[j as int] != needle@[j as int]);
            return false;
        }
    }
    assert(hay@.subrange(i as int, i + needle@.len()) == needle@);
    true
}

/// Whether `needle` stands somewhere in `hay`.
pub fn contains_chars(hay: &Vec<char>, needle: &Vec<char>) -> (r: bool)
    ensures
        r == has_substring(hay@, needle@),
{
    if needle.len() > hay.len() {
        return false;
    }
    let last: usize = hay.len() - needle.len();
    let mut i: usize = 0;
    while i <= last
        invariant
            last == hay@.len() - needle@.len(),
            i <= last + 1,
            forall|j: int| 0 <= j < i ==> !occurs_at(hay@, needle@, j),
        decreases last + 1 - i,
    {
        if stands_at(hay, needle, i) {
            return true;
        }
        if i == last {
            return false;
        }
        i += 1;
    }
    false
}

/// Whether `needle` stands somewhere in `hay`.
pub fn contains(hay: &str, needle: &str) -> (r: bool)
    ensures
        r == has_substring(hay@, needle@),
{
    contains_chars(&chars_of(hay), &chars_of(needle))
}

/// Whether `prefix` stands at the start of `cs`.
pub fn starts_with_chars(cs: &Vec<char>, prefix: &Vec<char>) -> (r: bool)
    ensures
        r == has_prefix(cs@, prefix@),
{
    prefix.len() <= cs.len() && stands_at(cs, prefix, 0)
}

// ---------------------------------------------------------------------------
// Decimals
// ---------------------------------------------------------------------------

/// Appends `n` in decimal to `out`.
pub fn push_decimal(out: &mut String, n: u64)
    ensures
        final(out)@ == old(out)@ + decimal(n as nat),
    decreases n,
{
    if n >= 10 {
        push_decimal(out, n / 10);
    }
    let d: u8 = (n % 10) as u8;
    out.push((0x30 + d) as char);
}

// ---------------------------------------------------------------------------
// Laws
// ---------------------------------------------------------------------------

/// `l` can stand alone as a line: it holds no line feed and ends in no carriage return.
pub open spec fn proper_line(l: Seq<char>) -> bool {
    &&& !l.contains('\n')
    &&& !(l.len() > 0 && l.last() == '\r')
}

/// `s` is empty or ends in a line feed.
pub open spec fn complete(s: Seq<char>) -> bool {
    s.len() == 0 || s.last() == '\n'
}

/// No line holds a line feed.
pub proof fn lemma_lines_have_no_breaks(s: Seq<char>)
    ensures
        forall|i: int| 0 <= i < lines(s).len() ==> !(#[trigger] lines(s)[i]).contains('\n'),
    decreases s.len(),
{
    if s.len() > 0 {
        let n = next_break(s) as int;
        lemma_break_is_first(s);
        if n < s.len() {
            lemma_lines_have_no_breaks(s.skip(n + 1));
            let rest = lines(s.skip(n + 1));
            assert forall|i: int| 0 <= i < lines(s).len() implies !(
            #[trigger] lines(s)[i]).contains('\n') by {
                if i > 0 {
                    assert(lines(s)[i] == rest[i - 1]);
                }
            }
        }
    }
}

proof fn lemma_break_is_first(s: Seq<char>)
    ensures
        next_break(s) <= s.len(),
        forall|i: int| 0 <= i < next_break(s) ==> s[i] != '\n',
        next_break(s) < s.len() ==> s[next_break(s) as int] == '\n',
    decreases s.len(),
{
    if s.len() > 0 && s[0] != '\n' {
        let t = s.drop_first();
        lemma_break_is_first(t);
        assert forall|i: int| 0 <= i < next_break(s) implies s[i] != '\n' by {
            if i > 0 {
                assert(s[i] == t[i - 1]);
            }
        }
    }
}

/// The lines of a complete text and of what follows it are found apart.
pub proof fn lemma_lines_append(a: Seq<char>, b: Seq<char>)
    requires
        complete(a),
    ensures
        lines(a + b) == lines(a) + lines(b),
    decreases a.len(),
{
    if a.len() == 0 {
        assert(a + b == b);
    } else {
        let n = next_break(a) as int;
        lemma_break_is_first(a);
        assert(n < a.len()) by {
            assert(a[a.len() - 1] == '\n');
        }
        lemma_next_break(a + b, n);
        assert((a + b).take(n) == a.take(n));
        assert((a + b).skip(n + 1) == a.skip(n + 1) + b);
        lemma_lines_append(a.skip(n + 1), b);
        assert(lines(a + b) == lines(a) + lines(b));
    }
}

/// A text that is made of terminated lines is complete.
pub proof fn lemma_terminated_is_complete(ls: Seq<Seq<char>>)
    ensures
        complete(terminated(ls)),
{
}

/// A proper line and a line feed make one line.
pub proof fn lemma_one_line(l: Seq<char>)
    requires
        proper_line(l),
    ensures
        lines(l + seq!['\n']) == seq![l],
{
    let s = l + seq!['\n'];
    assert forall|i: int| 0 <= i < l.len() implies s[i] != '\n' by {
        assert(l.contains(l[i]));
    }
    lemma_next_break(s, l.len() as int);
    assert(s.take(l.len() as int) == l);
    assert(s.skip(l.len() as int + 1) == Seq::<char>::empty());
    assert(lines(Seq::<char>::empty()) == Seq::<Seq<char>>::empty());
    assert(lines(s) == seq![l] + Seq::<Seq<char>>::empty());
}

/// Reading gives back what was written: the lines of a text that was made of
/// proper lines are those lines.
pub proof fn law_lines_of_terminated(ls: Seq<Seq<char>>)
    requires
        forall|i: int| 0 <= i < ls.len() ==> proper_line(#[trigger] ls[i]),
    ensures
        lines(terminated(ls)) == ls,
    decreases ls.len(),
{
    if ls.len() > 0 {
        let init = ls.drop_last();
        law_lines_of_terminated(init);
        lemma_terminated_is_complete(init);
        assert(terminated(ls) == terminated(init) + (ls.last() + seq!['\n']));
        lemma_lines_append(terminated(init), ls.last() + seq!['\n']);
        lemma_one_line(ls.last());
        assert(lines(terminated(ls)) == ls);
    }
}

/// A decimal is made of digits.
pub proof fn lemma_decimal_is_digits(n: nat)
    ensures
        forall|i: int| 0 <= i < decimal(n).len() ==> '0' <= #[trigger] decimal(n)[i] <= '9',
    decreases n,
{
    if n >= 10 {
        let init = decimal(n / 10);
        lemma_decimal_is_digits(n / 10);
        assert forall|i: int| 0 <= i < decimal(n).len() implies '0' <= #[trigger] decimal(n)[i]
            <= '9' by {
            if i < init.len() {
                assert(decimal(n)[i] == init[i]);
            } else {
                assert(decimal(n)[i] == digit(n % 10));
            }
        }
    }
}

/// Different numbers have different decimals.
pub proof fn law_decimal_is_injective(a: nat, b: nat)
    requires
        decimal(a) == decimal(b),
    ensures
        a == b,
    decreases a,
{
    let s = decimal(a);
    assert(s.last() == digit(a % 10));
    assert(s.last() == digit(b % 10));
    lemma_decimal_is_not_empty(a / 10);
    lemma_decimal_is_not_empty(b / 10);
    if a >= 10 && b >= 10 {
        assert(s.drop_last() == decimal(a / 10));
        assert(s.drop_last() == decimal(b / 10));
        law_decimal_is_injective(a / 10, b / 10);
    }
}

proof fn lemma_decimal_is_not_empty(n: nat)
    ensures
        decimal(n).len() > 0,
{
}

/// A text stands in another exactly if some piece of the other, without a gap, is the
/// whole of it; and at the start exactly if that piece is the first.
pub proof fn law_substring(hay: Seq<char>, needle: Seq<char>)
    ensures
        has_substring(hay, needle) <==> exists|i: int, j: int|
            0 <= i <= j <= hay.len() && #[trigger] hay.subrange(i, j) == needle,
        has_prefix(hay, needle) <==> needle.len() <= hay.len() && hay.take(needle.len() as int)
            == needle,
{
    if has_substring(hay, needle) {
        let i = choose|i: int| occurs_at(hay, needle, i);
        assert(hay.subrange(i, i + needle.len()) == needle);
    }
    if exists|i: int, j: int|
        0 <= i <= j <= hay.len() && #[trigger] hay.subrange(i, j) == needle {
        let (i, j) = choose|i: int, j: int|
            0 <= i <= j <= hay.len() && #[trigger] hay.subrange(i, j) == needle;
        assert(hay.subrange(i, j).len() == j - i);
        assert(occurs_at(hay, needle, i));
    }
    if needle.len() <= hay.len() {
        assert(hay.take(needle.len() as int) == hay.subrange(0, needle.len() as int));
    }
}

/// Which characters are white space.
pub proof fn law_white_space(c: char)
    ensures
        white_space(c) <==> {
            ||| c == '\t' || c == '\n' || c == '\u{b}' || c == '\u{c}' || c == '\r' || c == ' '
            ||| c == '\u{85}' || c == '\u{a0}' || c == '\u{1680}'
            ||| '\u{2000}' <= c <= '\u{200a}'
            ||| c == '\u{2028}' || c == '\u{2029}' || c == '\u{202f}' || c == '\u{205f}' || c
                == '\u{3000}'
        },
{
}

/// Trimming takes off white space and nothing else, and leaves none at the ends: every
/// text is its trimmed text with white space before and behind.
pub proof fn law_trimming(s: Seq<char>)
    ensures
        ({
            let t = trim_start(s);
            let n = s.len() - t.len();
            &&& 0 <= n && s.skip(n) == t
            &&& forall|i: int| 0 <= i < n ==> white_space(#[trigger] s[i])
            &&& t.len() > 0 ==> !white_space(t[0])
        }),
        ({
            let t = trim_end(s);
            &&& t.len() <= s.len() && s.take(t.len() as int) == t
            &&& forall|i: int| t.len() <= i < s.len() ==> white_space(#[trigger] s[i])
            &&& t.len() > 0 ==> !white_space(t.last())
        }),
        trim(s) == trim_end(trim_start(s)),
    decreases s.len(),
{
    if s.len() > 0 {
        let a = s.drop_first();
        let b = s.drop_last();
        law_trimming(a);
        law_trimming(b);
        if white_space(s[0]) {
            let n = s.len() - trim_start(s).len();
            assert(s.skip(n) == a.skip(n - 1));
            assert forall|i: int| 0 <= i < n implies white_space(#[trigger] s[i]) by {
                if i > 0 {
                    assert(s[i] == a[i - 1]);
                }
            }
        } else {
            assert(s.skip(0) == s);
        }
        if white_space(s.last()) {
            let t = trim_end(s);
            assert(s.take(t.len() as int) == b.take(t.len() as int));
            assert forall|i: int| t.len() <= i < s.len() implies white_space(#[trigger] s[i]) by {
                if i < s.len() - 1 {
                    assert(s[i] == b[i]);
                }
            }
        } else {
            assert(s.take(s.len() as int) == s);
        }
    } else {
        assert(s.skip(0) == s);
        assert(s.take(0) == s);
    }
}

/// How deep a text is indented: not at all where it does not start with white space, and
/// each character of white space in front makes it deeper by the bytes it takes.
pub proof fn law_indentation(c: char, s: Seq<char>)
    ensures
        indent(Seq::<char>::empty()) == 0,
        !white_space(c) ==> indent(seq![c] + s) == 0,
        white_space(c) ==> indent(seq![c] + s) == indent(s) + (if (c as u32) < 0x80 {
            1int
        } else if (c as u32) < 0x800 {
            2
        } else {
            3
        }),
{
    let t = seq![c] + s;
    assert(t.drop_first() == s);
    lemma_indent(t);
    lemma_indent(Seq::<char>::empty());
}

/// How a text falls into lines: a text without a line feed is one line, or none if it is
/// empty; a line feed ends the line before it, of which one carriage return at the end
/// is taken off; and the lines behind it are those of the rest.
pub proof fn law_lines(l: Seq<char>, rest: Seq<char>)
    requires
        !l.contains('\n'),
    ensures
        lines(Seq::<char>::empty()).len() == 0,
        l.len() > 0 ==> lines(l) == seq![l],
        lines(l + seq!['\n'] + rest) == seq![
            if l.len() > 0 && l.last() == '\r' {
                l.drop_last()
            } else {
                l
            },
        ] + lines(rest),
{
    let s = l + seq!['\n'] + rest;
    assert forall|i: int| 0 <= i < l.len() implies l[i] != '\n' by {
        assert(l.contains(l[i]));
    }
    lemma_next_break(l, l.len() as int);
    lemma_next_break(s, l.len() as int);
    assert(s.take(l.len() as int) == l);
    assert(s.skip(l.len() as int + 1) == rest);
}

/// Writing lines: each is followed by a line feed, in their order.
pub proof fn law_terminated(ls: Seq<Seq<char>>, l: Seq<char>)
    ensures
        terminated(Seq::<Seq<char>>::empty()).len() == 0,
        terminated(ls.push(l)) == terminated(ls) + l + seq!['\n'],
{
    assert(ls.push(l).drop_last() == ls);
}

/// Decimals: a digit is itself, and ten times a number and a digit more is written as
/// the number and then the digit.
pub proof fn law_decimal(n: nat, d: nat)
    requires
        d < 10,
    ensures
        decimal(d) == seq![('0' as u32 + d) as char],
        n > 0 ==> decimal(10 * n + d) == decimal(n).push(('0' as u32 + d) as char),
{
    assert((10 * n + d) / 10 == n && (10 * n + d) % 10 == d);
}

/// The texts of strings, and of rows of characters, are those they hold, in their order.
pub proof fn law_texts(v: Seq<String>, rows_of: Seq<Vec<char>>)
    ensures
        texts(v).len() == v.len(),
        forall|i: int| 0 <= i < v.len() ==> #[trigger] texts(v)[i] == v[i]@,
        rows(rows_of).len() == rows_of.len(),
        forall|i: int| 0 <= i < rows_of.len() ==> #[trigger] rows(rows_of)[i] == rows_of[i]@,
{
}

} // verus!
