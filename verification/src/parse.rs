//! Reading the plain-text formats of the system: unsigned numbers as Rust
//! parses them, lines, fields and text replacement.
use vstd::prelude::*;
use crate::text::{chars_of, push_chars, string_push};

verus! {

pub open spec fn is_ascii_digit(c: char) -> bool {
    '0' <= c && c <= '9'
}

/// Value of a run of ASCII digits.
pub open spec fn digits_value(s: Seq<char>) -> nat
    decreases s.len(),
{
    if s.len() == 0 {
        0
    } else {
        digits_value(s.drop_last()) * 10 + ((s.last() as int) - ('0' as int)) as nat
    }
}

pub open spec fn all_digits(s: Seq<char>) -> bool {
    forall|i: int| 0 <= i < s.len() ==> is_ascii_digit(#[trigger] s[i])
}

/// The number an unsigned-integer text denotes, as Rust's `FromStr` for
/// unsigned integers reads it: an optional `+`, then one or more ASCII
/// digits and nothing else.
pub open spec fn unsigned_value(s: Seq<char>) -> Option<nat> {
    let body = if s.len() > 0 && s[0] == '+' { s.drop_first() } else { s };
    if body.len() > 0 && all_digits(body) {
        Some(digits_value(body))
    } else {
        None
    }
}

/// What `s.parse::<u64>()` gives: the value if the text is a number that
/// fits, nothing otherwise.
pub open spec fn parsed_u64(s: Seq<char>) -> Option<u64> {
    match unsigned_value(s) {
        Some(v) => if v <= u64::MAX { Some(v as u64) } else { None },
        None => None,
    }
}

/// What `s.parse::<u32>()` gives.
pub open spec fn parsed_u32(s: Seq<char>) -> Option<u32> {
    match unsigned_value(s) {
        Some(v) => if v <= u32::MAX { Some(v as u32) } else { None },
        None => None,
    }
}

/// Reads an unsigned integer below `limit`, as `str::parse` does for the
/// unsigned type whose largest value is `limit - 1`.
fn parse_bounded(s: &str, limit: u128) -> (r: Option<u128>)
    requires
        1 <= limit <= 0x1_0000_0000_0000_0000,
    ensures
        r is Some <==> unsigned_value(s@) is Some && unsigned_value(s@).unwrap() < limit,
        r is Some ==> r.unwrap() == unsigned_value(s@).unwrap(),
{
    let v = chars_of(s);
    let mut start: usize = 0;
    if v.len() > 0 && v[0] == '+' {
        start = 1;
    }
    let ghost body = if s@.len() > 0 && s@[0] == '+' { s@.drop_first() } else { s@ };
    assert(body =~= v@.subrange(start as int, v@.len() as int));
    if start >= v.len() {
        assert(body.len() == 0);
        return None;
    }
    let mut acc: u128 = 0;
    let mut i: usize = start;
    while i < v.len()
        invariant
            start <= i <= v@.len(),
            v@ == s@,
            body == (if s@.len() > 0 && s@[0] == '+' { s@.drop_first() } else { s@ }),
            body == v@.subrange(start as int, v@.len() as int),
            all_digits(v@.subrange(start as int, i as int)),
            acc == digits_value(v@.subrange(start as int, i as int)),
            acc < limit,
            1 <= limit <= 0x1_0000_0000_0000_0000,
        decreases v.len() - i,
    {
        let c = v[i];
        proof {
            assert(v@.subrange(start as int, i + 1).drop_last() =~= v@.subrange(start as int, i as int));
        }
        if c < '0' || c > '9' {
            proof {
                assert(body[i - start] == c);
                assert(!is_ascii_digit(body[i - start]));
                assert(!all_digits(body));
            }
            return None;
        }
        let d = (c as u32 - '0' as u32) as u128;
        if d > limit - 1 || acc > (limit - 1 - d) / 10 {
            proof {
                assert(acc * 10 + d >= limit) by (nonlinear_arith)
                    requires
                        d > limit - 1 || acc > (limit - 1 - d) / 10,
                        d < 10,
                        limit >= 1,
                ;
                if all_digits(body) {
                    lemma_digits_prefix_mono(body, (i - start + 1) as int);
                    assert(body.subrange(0, i - start + 1) =~= v@.subrange(start as int, i + 1));
                }
            }
            return None;
        }
        acc = acc * 10 + d;
        proof {
            assert(all_digits(v@.subrange(start as int, i + 1)));
        }
        i = i + 1;
    }
    assert(v@.subrange(start as int, i as int) =~= body);
    Some(acc)
}

/// The value of a digit prefix never exceeds the value of all the digits.
proof fn lemma_digits_prefix_mono(s: Seq<char>, k: int)
    requires
        0 <= k <= s.len(),
        all_digits(s),
    ensures
        digits_value(s.subrange(0, k)) <= digits_value(s),
    decreases s.len() - k,
{
    if k < s.len() {
        lemma_digits_prefix_mono(s, k + 1);
        let a = s.subrange(0, k + 1);
        assert(a.drop_last() =~= s.subrange(0, k));
        assert(is_ascii_digit(a.last()));
    } else {
        assert(s.subrange(0, k) =~= s);
    }
}

/// `s.parse::<u64>().ok()`.
pub fn parse_u64(s: &str) -> (r: Option<u64>)
    ensures
        r == parsed_u64(s@),
{
    match parse_bounded(s, 0x1_0000_0000_0000_0000) {
        Some(v) => Some(v as u64),
        None => None,
    }
}

/// `s.parse::<u32>().ok()`.
pub fn parse_u32(s: &str) -> (r: Option<u32>)
    ensures
        r == parsed_u32(s@),
{
    match parse_bounded(s, 0x1_0000_0000) {
        Some(v) => Some(v as u32),
        None => None,
    }
}

/// Position of the first `c` in `s`, if any.
pub open spec fn first_index_of(s: Seq<char>, c: char) -> Option<nat>
    decreases s.len(),
{
    if s.len() == 0 {
        None
    } else if s[0] == c {
        Some(0)
    } else {
        match first_index_of(s.drop_first(), c) {
            Some(i) => Some(i + 1),
            None => None,
        }
    }
}

/// A line without its ending: the newline, and a carriage return before it.
pub open spec fn strip_line_end(piece: Seq<char>) -> Seq<char> {
    if piece.len() > 0 && piece.last() == '\n' {
        let l = piece.drop_last();
        if l.len() > 0 && l.last() == '\r' {
            l.drop_last()
        } else {
            l
        }
    } else {
        piece
    }
}

/// What `str::lines` yields: the text cut after each newline, each piece
/// without its `\n` or `\r\n` ending; a final newline starts no further line.
pub open spec fn lines_of(s: Seq<char>) -> Seq<Seq<char>>
    decreases s.len(),
{
    if s.len() == 0 {
        Seq::empty()
    } else {
        proof {
            lemma_first_index(s, '\n');
        }
        match first_index_of(s, '\n') {
            Some(i) => seq![strip_line_end(s.subrange(0, i + 1 as int))] + lines_of(
                s.subrange(i + 1 as int, s.len() as int),
            ),
            None => seq![s],
        }
    }
}

/// What `str::split(c)` yields for a character `c`: the pieces between the
/// occurrences of `c`, empty pieces included.
pub open spec fn split_on(s: Seq<char>, c: char) -> Seq<Seq<char>>
    decreases s.len(),
{
    proof {
        lemma_first_index(s, c);
    }
    match first_index_of(s, c) {
        Some(i) => seq![s.subrange(0, i as int)] + split_on(s.subrange(i + 1 as int, s.len() as int), c),
        None => seq![s],
    }
}

/// Where `first_index_of` points: at the first occurrence, if any.
pub proof fn lemma_first_index(s: Seq<char>, c: char)
    ensures
        match first_index_of(s, c) {
            Some(i) => i < s.len() && s[i as int] == c && forall|j: int| 0 <= j < i ==> s[j] != c,
            None => forall|j: int| 0 <= j < s.len() ==> s[j] != c,
        },
    decreases s.len(),
{
    if s.len() > 0 && s[0] != c {
        lemma_first_index(s.drop_first(), c);
        match first_index_of(s.drop_first(), c) {
            Some(i) => {
                assert forall|j: int| 0 <= j < i + 1 implies s[j] != c by {
                    if j > 0 {
                        assert(s[j] == s.drop_first()[j - 1]);
                    }
                }
            },
            None => {
                assert forall|j: int| 0 <= j < s.len() implies s[j] != c by {
                    if j > 0 {
                        assert(s[j] == s.drop_first()[j - 1]);
                    }
                }
            },
        }
    }
}

/// `first_index_of` on a suffix, found by scanning from `start`.
proof fn lemma_first_index_from(s: Seq<char>, c: char, start: int, i: int)
    requires
        0 <= start <= i < s.len(),
        s[i] == c,
        forall|j: int| start <= j < i ==> s[j] != c,
    ensures
        first_index_of(s.subrange(start, s.len() as int), c) == Some((i - start) as nat),
    decreases i - start,
{
    let t = s.subrange(start, s.len() as int);
    if start < i {
        lemma_first_index_from(s, c, start + 1, i);
        assert(t.drop_first() =~= s.subrange(start + 1, s.len() as int));
    }
}

proof fn lemma_no_index_from(s: Seq<char>, c: char, start: int)
    requires
        0 <= start <= s.len(),
        forall|j: int| start <= j < s.len() ==> s[j] != c,
    ensures
        first_index_of(s.subrange(start, s.len() as int), c) is None,
    decreases s.len() - start,
{
    let t = s.subrange(start, s.len() as int);
    if start < s.len() {
        lemma_no_index_from(s, c, start + 1);
        assert(t.drop_first() =~= s.subrange(start + 1, s.len() as int));
    }
}

/// A string holding the characters `v[from..to]`.
fn string_of_range(v: &Vec<char>, from: usize, to: usize) -> (s: String)
    requires
        from <= to <= v@.len(),
    ensures
        s@ == v@.subrange(from as int, to as int),
{
    let mut s = String::new();
    let mut i = from;
    while i < to
        invariant
            from <= i <= to,
            to <= v@.len(),
            s@ == v@.subrange(from as int, i as int),
        decreases to - i,
    {
        string_push(&mut s, v[i]);
        i = i + 1;
        assert(s@ =~= v@.subrange(from as int, i as int));
    }
    s
}

/// The texts of a list of strings.
pub open spec fn string_texts(v: Seq<String>) -> Seq<Seq<char>> {
    v.map_values(|s: String| s@)
}

/// The lines of `s`, as `str::lines` cuts them.
pub fn split_lines(s: &str) -> (r: Vec<String>)
    ensures
        string_texts(r@) == lines_of(s@),
{
    let v = chars_of(s);
    let mut r: Vec<String> = Vec::new();
    let mut start: usize = 0;
    let mut i: usize = 0;
    assert(v@.subrange(0, v@.len() as int) =~= s@);
    assert(string_texts(r@) =~= Seq::<Seq<char>>::empty());
    assert(Seq::<Seq<char>>::empty() + lines_of(s@) =~= lines_of(s@));
    while i < v.len()
        invariant
            start <= i <= v@.len(),
            v@ == s@,
            forall|j: int| start <= j < i ==> v@[j] != '\n',
            string_texts(r@) + lines_of(v@.subrange(start as int, v@.len() as int)) == lines_of(s@),
        decreases v.len() - i,
    {
        if v[i] == '\n' {
            let mut end = i;
            if end > start && v[end - 1] == '\r' {
                end = end - 1;
            }
            let line = string_of_range(&v, start, end);
            proof {
                let rest = v@.subrange(start as int, v@.len() as int);
                lemma_first_index_from(v@, '\n', start as int, i as int);
                assert(rest.subrange(0, i - start + 1) =~= v@.subrange(start as int, i + 1));
                assert(strip_line_end(v@.subrange(start as int, i + 1)) =~= line@);
                assert(rest.subrange(i - start + 1, rest.len() as int) =~= v@.subrange(i + 1, v@.len() as int));
                assert(lines_of(rest) == seq![line@] + lines_of(v@.subrange(i + 1, v@.len() as int)));
                assert(string_texts(r@.push(line)) =~= string_texts(r@).push(line@));
                assert(string_texts(r@).push(line@) + lines_of(v@.subrange(i + 1, v@.len() as int))
                    =~= string_texts(r@) + (seq![line@] + lines_of(v@.subrange(i + 1, v@.len() as int))));
            }
            r.push(line);
            start = i + 1;
        }
        i = i + 1;
    }
    if start < v.len() {
        let line = string_of_range(&v, start, v.len());
        proof {
            let rest = v@.subrange(start as int, v@.len() as int);
            lemma_no_index_from(v@, '\n', start as int);
            assert(lines_of(rest) == seq![rest]);
            assert(string_texts(r@.push(line)) =~= string_texts(r@).push(line@));
            assert(lines_of(v@.subrange(v@.len() as int, v@.len() as int)) == Seq::<Seq<char>>::empty());
        }
        r.push(line);
        proof {
            assert(string_texts(r@) =~= lines_of(s@));
        }
    } else {
        proof {
            assert(v@.subrange(start as int, v@.len() as int) =~= Seq::<char>::empty());
            assert(string_texts(r@) + Seq::<Seq<char>>::empty() =~= string_texts(r@));
        }
    }
    r
}

/// The pieces of `s` between the occurrences of `c`, as `str::split(c)`
/// cuts them.
pub fn split_char(s: &str, c: char) -> (r: Vec<String>)
    ensures
        string_texts(r@) == split_on(s@, c),
{
    let v = chars_of(s);
    let mut r: Vec<String> = Vec::new();
    let mut start: usize = 0;
    let mut i: usize = 0;
    assert(v@.subrange(0, v@.len() as int) =~= s@);
    assert(string_texts(r@) =~= Seq::<Seq<char>>::empty());
    assert(Seq::<Seq<char>>::empty() + split_on(s@, c) =~= split_on(s@, c));
    while i < v.len()
        invariant
            start <= i <= v@.len(),
            v@ == s@,
            forall|j: int| start <= j < i ==> v@[j] != c,
            string_texts(r@) + split_on(v@.subrange(start as int, v@.len() as int), c) == split_on(s@, c),
        decreases v.len() - i,
    {
        if v[i] == c {
            let piece = string_of_range(&v, start, i);
            proof {
                let rest = v@.subrange(start as int, v@.len() as int);
                lemma_first_index_from(v@, c, start as int, i as int);
                assert(rest.subrange(0, i - start) =~= piece@);
                assert(rest.subrange(i - start + 1, rest.len() as int) =~= v@.subrange(i + 1, v@.len() as int));
                assert(string_texts(r@.push(piece)) =~= string_texts(r@).push(piece@));
                assert(string_texts(r@).push(piece@) + split_on(v@.subrange(i + 1, v@.len() as int), c)
                    =~= string_texts(r@) + (seq![piece@] + split_on(v@.subrange(i + 1, v@.len() as int), c)));
            }
            r.push(piece);
            start = i + 1;
        }
        i = i + 1;
    }
    let piece = string_of_range(&v, start, v.len());
    proof {
        lemma_no_index_from(v@, c, start as int);
        assert(string_texts(r@.push(piece)) =~= string_texts(r@).push(piece@));
    }
    r.push(piece);
    proof {
        assert(string_texts(r@) =~= split_on(s@, c));
    }
    r
}

/// `s` starts with `p`.
pub open spec fn starts_with(s: Seq<char>, p: Seq<char>) -> bool {
    p.len() <= s.len() && s.subrange(0, p.len() as int) == p
}

/// `s` ends with `p`.
pub open spec fn ends_with(s: Seq<char>, p: Seq<char>) -> bool {
    p.len() <= s.len() && s.subrange(s.len() - p.len(), s.len() as int) == p
}

/// What `str::replace(pat, rep)` gives for a non-empty pattern: each
/// occurrence, scanning left to right without overlap, replaced.
pub open spec fn replace_all(s: Seq<char>, pat: Seq<char>, rep: Seq<char>) -> Seq<char>
    decreases s.len(),
{
    if s.len() == 0 || pat.len() == 0 {
        s
    } else if starts_with(s, pat) {
        rep + replace_all(s.skip(pat.len() as int), pat, rep)
    } else {
        seq![s[0]] + replace_all(s.drop_first(), pat, rep)
    }
}

fn starts_with_at(v: &Vec<char>, i: usize, p: &Vec<char>) -> (b: bool)
    requires
        i <= v@.len(),
    ensures
        b == starts_with(v@.subrange(i as int, v@.len() as int), p@),
{
    if p.len() > v.len() - i {
        return false;
    }
    let mut j: usize = 0;
    while j < p.len()
        invariant
            i + p@.len() <= v@.len(),
            j <= p@.len(),
            forall|t: int| 0 <= t < j ==> v@[i + t] == p@[t],
        decreases p.len() - j,
    {
        assert(i + j < v.len());
        if v[i + j] != p[j] {
            proof {
                assert(v@.subrange(i as int, v@.len() as int).subrange(0, p@.len() as int)[j as int] != p@[j as int]);
            }
            return false;
        }
        j = j + 1;
    }
    assert(v@.subrange(i as int, v@.len() as int).subrange(0, p@.len() as int) =~= p@);
    true
}

/// `s.replace(pat, rep)` for a non-empty pattern.
pub fn replace_text(s: &str, pat: &str, rep: &str) -> (r: String)
    requires
        pat@.len() > 0,
    ensures
        r@ == replace_all(s@, pat@, rep@),
{
    let v = chars_of(s);
    let p = chars_of(pat);
    let rv = chars_of(rep);
    let mut r = String::new();
    let mut i: usize = 0;
    assert(v@.subrange(0, v@.len() as int) =~= s@);
    assert(r@ + replace_all(s@, pat@, rep@) =~= replace_all(s@, pat@, rep@));
    while i < v.len()
        invariant
            i <= v@.len(),
            v@ == s@,
            p@ == pat@,
            rv@ == rep@,
            p@.len() > 0,
            r@ + replace_all(v@.subrange(i as int, v@.len() as int), p@, rv@) == replace_all(s@, pat@, rep@),
        decreases v.len() - i,
    {
        let ghost rest = v@.subrange(i as int, v@.len() as int);
        if starts_with_at(&v, i, &p) {
            let ghost before = r@;
            push_chars(&mut r, &rv);
            proof {
                let tail = replace_all(v@.subrange(i + p@.len(), v@.len() as int), p@, rv@);
                assert(rest.skip(p@.len() as int) =~= v@.subrange(i + p@.len(), v@.len() as int));
                assert((before + rv@) + tail =~= before + (rv@ + tail));
            }
            i = i + p.len();
        } else {
            let ghost before = r@;
            string_push(&mut r, v[i]);
            proof {
                let tail = replace_all(v@.subrange(i + 1, v@.len() as int), p@, rv@);
                assert(rest.drop_first() =~= v@.subrange(i + 1, v@.len() as int));
                assert(before.push(v@[i as int]) + tail =~= before + (seq![rest[0]] + tail));
            }
            i = i + 1;
        }
    }
    assert(v@.subrange(i as int, v@.len() as int) =~= Seq::<char>::empty());
    r
}

} // verus!
