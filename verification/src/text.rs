//! Text as sequences of characters: the small operations on strings that
//! the backends' output formats and the user-visible messages are built from.

use vstd::prelude::*;
use vstd::string::*;

verus! {

/// The characters of a string, in order.
pub fn chars(s: &str) -> (r: Vec<char>)
    ensures
        r@ == s@,
{
    let mut r: Vec<char> = Vec::new();
    for c in it: s.chars()
        invariant
            r@ == it.seq().take(it.index() as int),
            it.seq() == s@,
    {
        r.push(c);
    }
    r
}

/// Whether two strings hold the same characters.
pub fn same(a: &str, b: &str) -> (r: bool)
    ensures
        r == (a@ == b@),
{
    let x = String::from_str(a);
    let y = String::from_str(b);
    x == y
}

/// An owned copy of the characters `from..to` of a string.
pub fn slice(s: &str, from: usize, to: usize) -> (r: String)
    requires
        from <= to <= s@.len(),
    ensures
        r@ == s@.subrange(from as int, to as int),
{
    String::from_str(s.substring_char(from, to))
}

/// The two texts one after the other.
pub fn join2(a: &str, b: &str) -> (r: String)
    ensures
        r@ == a@ + b@,
{
    let mut r = String::from_str(a);
    r.append(b);
    r
}

/// The views of a sequence of strings.
pub open spec fn views(v: Seq<String>) -> Seq<Seq<char>> {
    v.map_values(|s: String| s@)
}

/// Pushing a string onto a vector pushes its view onto the vector's views.
pub proof fn lemma_views_push(v: Seq<String>, s: String)
    ensures
        views(v.push(s)) == views(v).push(s@),
{
    assert(views(v.push(s)) =~= views(v).push(s@));
}

/// The texts one after the other, with `sep` between each two of them.
pub open spec fn joined(parts: Seq<Seq<char>>, sep: Seq<char>) -> Seq<char>
    decreases parts.len(),
{
    if parts.len() == 0 {
        Seq::empty()
    } else if parts.len() == 1 {
        parts[0]
    } else {
        joined(parts.drop_last(), sep) + sep + parts.last()
    }
}

/// The texts one after the other, with `sep` between each two of them.
pub fn join(parts: &Vec<String>, sep: &str) -> (r: String)
    ensures
        r@ == joined(views(parts@), sep@),
{
    let mut r = String::new();
    let mut i: usize = 0;
    assert(views(parts@).take(0) =~= Seq::<Seq<char>>::empty());
    while i < parts.len()
        invariant
            i <= parts.len(),
            r@ == joined(views(parts@).take(i as int), sep@),
        decreases parts.len() - i,
    {
        proof {
            let next = views(parts@).take(i + 1);
            assert(next.drop_last() =~= views(parts@).take(i as int));
            assert(next.last() == parts@[i as int]@);
            if i == 0 {
                assert(next[0] == parts@[0]@);
            }
        }
        if i > 0 {
            r.append(sep);
        }
        r.append(parts[i].as_str());
        i += 1;
    }
    assert(views(parts@).take(i as int) =~= views(parts@));
    r
}

/// The digit `d` as a character.
pub open spec fn digit(d: nat) -> char
    recommends
        d < 10,
{
    if d == 0 {
        '0'
    } else if d == 1 {
        '1'
    } else if d == 2 {
        '2'
    } else if d == 3 {
        '3'
    } else if d == 4 {
        '4'
    } else if d == 5 {
        '5'
    } else if d == 6 {
        '6'
    } else if d == 7 {
        '7'
    } else if d == 8 {
        '8'
    } else {
        '9'
    }
}

/// The decimal notation of a natural number, without leading zeros.
pub open spec fn decimal(n: nat) -> Seq<char>
    decreases n,
{
    if n < 10 {
        seq![digit(n)]
    } else {
        decimal(n / 10).push(digit(n % 10))
    }
}

fn digit_text(d: usize) -> (r: &'static str)
    requires
        d < 10,
    ensures
        r@ == seq![digit(d as nat)],
{
    proof {
        reveal_strlit("0");
        reveal_strlit("1");
        reveal_strlit("2");
        reveal_strlit("3");
        reveal_strlit("4");
        reveal_strlit("5");
        reveal_strlit("6");
        reveal_strlit("7");
        reveal_strlit("8");
        reveal_strlit("9");
    }
    let r = match d {
        0 => "0",
        1 => "1",
        2 => "2",
        3 => "3",
        4 => "4",
        5 => "5",
        6 => "6",
        7 => "7",
        8 => "8",
        _ => "9",
    };
    assert(r@ =~= seq![digit(d as nat)]);
    r
}

/// A number in decimal notation.
pub fn decimal_string(n: usize) -> (r: String)
    ensures
        r@ == decimal(n as nat),
    decreases n,
{
    if n < 10 {
        String::from_str(digit_text(n))
    } else {
        let mut r = decimal_string(n / 10);
        r.append(digit_text(n % 10));
        assert(r@ =~= decimal((n / 10) as nat).push(digit((n % 10) as nat)));
        r
    }
}

/// `pattern` stands in `s` at position `at`.
pub open spec fn occurs_at(s: Seq<char>, pattern: Seq<char>, at: int) -> bool {
    0 <= at && at + pattern.len() <= s.len() && s.subrange(at, at + pattern.len()) == pattern
}

/// `pattern` stands somewhere in `s`.
pub open spec fn contains(s: Seq<char>, pattern: Seq<char>) -> bool {
    exists|at: int| occurs_at(s, pattern, at)
}

/// `s` begins with `pattern`.
pub open spec fn starts_with(s: Seq<char>, pattern: Seq<char>) -> bool {
    occurs_at(s, pattern, 0)
}

fn matches_at(s: &Vec<char>, pattern: &Vec<char>, at: usize) -> (r: bool)
    ensures
        r == occurs_at(s@, pattern@, at as int),
{
    if pattern.len() > s.len() || at > s.len() - pattern.len() {
        return false;
    }
    let mut j: usize = 0;
    while j < pattern.len()
        invariant
            j <= pattern.len(),
            at + pattern.len() <= s.len(),
            forall|k: int| 0 <= k < j ==> s@[at + k] == pattern@[k],
        decreases pattern.len() - j,
    {
        if s[at + j] != pattern[j] {
            assert(s@.subrange(at as int, at + pattern.len())[j as int] == s@[at + j]);
            return false;
        }
        j += 1;
    }
    assert(s@.subrange(at as int, at + pattern.len()) =~= pattern@);
    true
}

/// Whether `pattern` stands somewhere in `s`.
pub fn has(s: &str, pattern: &str) -> (r: bool)
    ensures
        r == contains(s@, pattern@),
{
    let text = chars(s);
    let wanted = chars(pattern);
    if wanted.len() > text.len() {
        return false;
    }
    let last: usize = text.len() - wanted.len();
    let mut at: usize = 0;
    loop
        invariant
            text@ == s@,
            wanted@ == pattern@,
            last == text.len() - wanted.len(),
            at <= last,
            forall|k: int| 0 <= k < at ==> !occurs_at(s@, pattern@, k),
        decreases last - at,
    {
        if matches_at(&text, &wanted, at) {
            return true;
        }
        if at == last {
            return false;
        }
        at += 1;
    }
}

/// Whether `s` begins with `pattern`.
pub fn begins(s: &str, pattern: &str) -> (r: bool)
    ensures
        r == starts_with(s@, pattern@),
{
    let text = chars(s);
    let wanted = chars(pattern);
    matches_at(&text, &wanted, 0)
}

/// The pieces of `s` between the occurrences of `sep`. Reading `s` from the
/// left, every character either ends a piece (when it is `sep`) or is added
/// to the piece under way, so there is always at least one piece.
pub open spec fn split_on(s: Seq<char>, sep: char) -> Seq<Seq<char>>
    decreases s.len(),
{
    if s.len() == 0 {
        seq![Seq::<char>::empty()]
    } else {
        let before = split_on(s.drop_last(), sep);
        if s.last() == sep {
            before.push(Seq::<char>::empty())
        } else {
            before.drop_last().push(before.last().push(s.last()))
        }
    }
}

/// A split always yields at least one piece.
pub proof fn lemma_split_on_nonempty(s: Seq<char>, sep: char)
    ensures
        split_on(s, sep).len() >= 1,
    decreases s.len(),
{
    if s.len() > 0 {
        lemma_split_on_nonempty(s.drop_last(), sep);
    }
}

/// The pieces of `s` between the occurrences of `sep`, as `str::split` with
/// a character gives them.
pub fn split(s: &str, sep: char) -> (r: Vec<String>)
    ensures
        views(r@) == split_on(s@, sep),
{
    let cs = chars(s);
    let mut out: Vec<String> = Vec::new();
    let mut start: usize = 0;
    let mut i: usize = 0;
    assert(s@.take(0) =~= Seq::<char>::empty());
    assert(views(out@).push(s@.subrange(0, 0)) =~= split_on(s@.take(0), sep));
    while i < cs.len()
        invariant
            cs@ == s@,
            start <= i <= cs.len(),
            views(out@).push(s@.subrange(start as int, i as int)) == split_on(s@.take(i as int), sep),
        decreases cs.len() - i,
    {
        let ghost before = split_on(s@.take(i as int), sep);
        proof {
            let next = s@.take(i + 1);
            assert(next.drop_last() =~= s@.take(i as int));
            assert(next.last() == s@[i as int]);
        }
        if cs[i] == sep {
            let piece = slice(s, start, i);
            proof {
                lemma_views_push(out@, piece);
            }
            out.push(piece);
            start = i + 1;
            assert(s@.subrange(start as int, start as int) =~= Seq::<char>::empty());
        } else {
            assert(before.drop_last() =~= views(out@));
            assert(s@.subrange(start as int, i + 1) =~= s@.subrange(start as int, i as int).push(
                s@[i as int],
            ));
        }
        i += 1;
    }
    assert(s@.take(i as int) =~= s@);
    let piece = slice(s, start, i);
    proof {
        lemma_views_push(out@, piece);
    }
    out.push(piece);
    out
}

/// A line without the carriage return at its end, if it has one.
pub open spec fn strip_cr(line: Seq<char>) -> Seq<char> {
    if line.len() > 0 && line.last() == '\r' {
        line.drop_last()
    } else {
        line
    }
}

/// The lines of a text. Every line feed ends a line, and a carriage return
/// just before it belongs to the line ending; what follows the last line
/// feed is a line too, unless it is empty.
pub open spec fn lines_of(s: Seq<char>) -> Seq<Seq<char>> {
    let pieces = split_on(s, '\n');
    let ended = pieces.drop_last().map_values(|piece: Seq<char>| strip_cr(piece));
    if pieces.last().len() == 0 {
        ended
    } else {
        ended.push(pieces.last())
    }
}

fn without_cr(line: &str) -> (r: String)
    ensures
        r@ == strip_cr(line@),
{
    let cs = chars(line);
    let n = cs.len();
    if n > 0 && cs[n - 1] == '\r' {
        slice(line, 0, n - 1)
    } else {
        assert(line@.subrange(0, n as int) =~= line@);
        slice(line, 0, n)
    }
}

/// The lines of a text, as `str::lines` gives them.
pub fn lines(s: &str) -> (r: Vec<String>)
    ensures
        views(r@) == lines_of(s@),
{
    let pieces = split(s, '\n');
    proof {
        lemma_split_on_nonempty(s@, '\n');
    }
    let ghost all = views(pieces@);
    let ghost ended = all.drop_last().map_values(|piece: Seq<char>| strip_cr(piece));
    let last: usize = pieces.len() - 1;
    let mut out: Vec<String> = Vec::new();
    let mut i: usize = 0;
    assert(views(out@) =~= ended.take(0));
    while i < last
        invariant
            i <= last,
            last == pieces.len() - 1,
            all == views(pieces@),
            ended == all.drop_last().map_values(|piece: Seq<char>| strip_cr(piece)),
            views(out@) == ended.take(i as int),
        decreases last - i,
    {
        let line = without_cr(pieces[i].as_str());
        proof {
            lemma_views_push(out@, line);
            assert(ended.take(i + 1) =~= ended.take(i as int).push(ended[i as int]));
        }
        out.push(line);
        i += 1;
    }
    assert(ended.take(i as int) =~= ended);
    if pieces[last].as_str().unicode_len() > 0 {
        let line = pieces[last].clone();
        proof {
            lemma_views_push(out@, line);
        }
        out.push(line);
    }
    out
}

/// Position of the first `c` in `s`, or the length of `s` where there is
/// none.
pub open spec fn find(s: Seq<char>, c: char) -> int
    decreases s.len(),
{
    if s.len() == 0 {
        0
    } else if s[0] == c {
        0
    } else {
        1 + find(s.drop_first(), c)
    }
}

/// The first `c` of `s` stands at `at`, or, where `at` is the length of `s`,
/// nowhere.
pub proof fn lemma_find(s: Seq<char>, c: char, at: int)
    requires
        0 <= at <= s.len(),
        forall|k: int| 0 <= k < at ==> s[k] != c,
        at < s.len() ==> s[at] == c,
    ensures
        find(s, c) == at,
    decreases s.len(),
{
    if s.len() > 0 && s[0] != c {
        let rest = s.drop_first();
        assert forall|k: int| 0 <= k < at - 1 implies rest[k] != c by {
            assert(rest[k] == s[k + 1]);
        }
        lemma_find(rest, c, at - 1);
    }
}

fn position(s: &Vec<char>, c: char) -> (r: usize)
    ensures
        r == find(s@, c),
        r <= s.len(),
{
    let mut i: usize = 0;
    while i < s.len() && s[i] != c
        invariant
            i <= s.len(),
            forall|k: int| 0 <= k < i ==> s@[k] != c,
        decreases s.len() - i,
    {
        i += 1;
    }
    proof {
        lemma_find(s@, c, i as int);
    }
    i
}

/// The text up to the first `c`, and the text after it; `None` where `s`
/// holds no `c`.
pub open spec fn split_once_at(s: Seq<char>, c: char) -> Option<(Seq<char>, Seq<char>)> {
    if find(s, c) < s.len() {
        Some((s.take(find(s, c)), s.skip(find(s, c) + 1)))
    } else {
        None
    }
}

/// The text up to the first `c`, and the text after it, as `str::split_once`
/// with a character gives them.
pub fn split_once(s: &str, c: char) -> (r: Option<(String, String)>)
    ensures
        match r {
            Some((before, after)) => split_once_at(s@, c) == Some((before@, after@)),
            None => split_once_at(s@, c) is None,
        },
{
    let cs = chars(s);
    let at = position(&cs, c);
    if at < cs.len() {
        let before = slice(s, 0, at);
        let after = slice(s, at + 1, cs.len());
        Some((before, after))
    } else {
        None
    }
}

/// The text up to the first `c`, or all of it where it holds no `c`.
pub open spec fn before_first(s: Seq<char>, c: char) -> Seq<char> {
    s.take(find(s, c))
}

/// The text up to the first `c`, or all of it where it holds no `c`.
pub fn head(s: &str, c: char) -> (r: String)
    ensures
        r@ == before_first(s@, c),
{
    let cs = chars(s);
    let at = position(&cs, c);
    slice(s, 0, at)
}

/// The second of the pieces that `c` cuts `s` into, where there are two.
pub open spec fn second_piece(s: Seq<char>, c: char) -> Option<Seq<char>> {
    match split_once_at(s, c) {
        Some((_, after)) => Some(before_first(after, c)),
        None => None,
    }
}

/// The second of the pieces that `c` cuts `s` into, where there are two.
pub fn second(s: &str, c: char) -> (r: Option<String>)
    ensures
        match r {
            Some(piece) => second_piece(s@, c) == Some(piece@),
            None => second_piece(s@, c) is None,
        },
{
    match split_once(s, c) {
        Some((_, after)) => Some(head(after.as_str(), c)),
        None => None,
    }
}

/// The value of a decimal digit, or `None` for any other character.
pub open spec fn digit_value(c: char) -> Option<int> {
    if '0' <= c && c <= '9' {
        Some(c as int - '0' as int)
    } else {
        None
    }
}

/// The number that a text of decimal digits stands for; `None` where the
/// text is empty or holds anything but digits.
pub open spec fn natural_of(s: Seq<char>) -> Option<int>
    decreases s.len(),
{
    if s.len() == 0 {
        None
    } else {
        match digit_value(s.last()) {
            None => None,
            Some(d) => if s.len() == 1 {
                Some(d)
            } else {
                match natural_of(s.drop_last()) {
                    Some(n) => Some(10 * n + d),
                    None => None,
                }
            },
        }
    }
}

/// The whole number that a text stands for: decimal digits, with a plus or
/// a minus sign before them at will.
pub open spec fn integer_of(s: Seq<char>) -> Option<int> {
    if s.len() > 0 && s[0] == '-' {
        match natural_of(s.drop_first()) {
            Some(n) => Some(-n),
            None => None,
        }
    } else if s.len() > 0 && s[0] == '+' {
        natural_of(s.drop_first())
    } else {
        natural_of(s)
    }
}

/// The number that a text stands for, where it is one that `i32` holds.
pub open spec fn i32_of(s: Seq<char>) -> Option<i32> {
    match integer_of(s) {
        Some(n) => if i32::MIN <= n <= i32::MAX {
            Some(n as i32)
        } else {
            None
        },
        None => None,
    }
}

/// The number of a text of digits is not negative, and grows with the text.
proof fn lemma_natural_grows(s: Seq<char>, k: int)
    requires
        0 < k <= s.len(),
        natural_of(s) is Some,
    ensures
        natural_of(s.take(k)) is Some,
        0 <= natural_of(s.take(k))->0 <= natural_of(s)->0,
    decreases s.len() - k,
{
    if k == s.len() {
        assert(s.take(k) =~= s);
        lemma_natural_nonnegative(s);
    } else {
        assert(s.drop_last().take(k) =~= s.take(k));
        lemma_natural_grows(s.drop_last(), k);
    }
}

proof fn lemma_natural_nonnegative(s: Seq<char>)
    requires
        natural_of(s) is Some,
    ensures
        natural_of(s)->0 >= 0,
    decreases s.len(),
{
    if s.len() > 1 {
        lemma_natural_nonnegative(s.drop_last());
    }
}

/// The number that the digits `from..` of the text stand for, where it is
/// at most `limit`.
fn natural(cs: &Vec<char>, from: usize, limit: i64) -> (r: Option<i64>)
    requires
        from <= cs.len(),
        0 <= limit <= 0x8000_0000,
    ensures
        match natural_of(cs@.skip(from as int)) {
            Some(n) => if n <= limit {
                r == Some(n as i64)
            } else {
                r is None
            },
            None => r is None,
        },
        r matches Some(value) ==> 0 <= value <= limit,
        natural_of(cs@.skip(from as int)) matches Some(n) ==> n >= 0,
{
    let ghost digits = cs@.skip(from as int);
    proof {
        if natural_of(digits) is Some {
            lemma_natural_nonnegative(digits);
        }
    }
    if from == cs.len() {
        return None;
    }
    let mut value: i64 = 0;
    let mut i: usize = from;
    while i < cs.len()
        invariant
            from <= i <= cs.len(),
            digits == cs@.skip(from as int),
            0 <= limit <= 0x8000_0000,
            0 <= value <= limit,
            i > from ==> natural_of(digits.take(i - from)) == Some(value as int),
            i == from ==> value == 0,
        decreases cs.len() - i,
    {
        let c = cs[i];
        let ghost next = digits.take(i - from + 1);
        proof {
            assert(next.last() == c);
            assert(next.drop_last() =~= digits.take(i - from));
        }
        if c < '0' || c > '9' {
            proof {
                // a text with another character in it stands for no number
                assert(natural_of(next) is None);
                if natural_of(digits) is Some {
                    lemma_natural_grows(digits, i - from + 1);
                }
            }
            return None;
        }
        let d = (c as u32 - '0' as u32) as i64;
        let more = value * 10 + d;
        if more > limit {
            proof {
                assert(natural_of(next) == Some(more as int));
                if natural_of(digits) is Some {
                    lemma_natural_grows(digits, i - from + 1);
                }
            }
            return None;
        }
        value = more;
        i += 1;
    }
    assert(digits.take(i - from) =~= digits);
    Some(value)
}

/// The number that a text stands for, as parsing it as an `i32` gives it.
pub fn parse_i32(s: &str) -> (r: Option<i32>)
    ensures
        r == i32_of(s@),
{
    let cs = chars(s);
    if cs.len() > 0 && cs[0] == '-' {
        assert(cs@.skip(1) =~= s@.drop_first());
        match natural(&cs, 1, 0x8000_0000) {
            Some(n) => Some((-n) as i32),
            None => None,
        }
    } else if cs.len() > 0 && cs[0] == '+' {
        assert(cs@.skip(1) =~= s@.drop_first());
        match natural(&cs, 1, 0x7fff_ffff) {
            Some(n) => Some(n as i32),
            None => None,
        }
    } else {
        assert(cs@.skip(0) =~= s@);
        match natural(&cs, 0, 0x7fff_ffff) {
            Some(n) => Some(n as i32),
            None => None,
        }
    }
}

/// Number of bytes that a character takes in UTF-8.
pub open spec fn utf8_width(c: char) -> nat {
    if (c as u32) < 0x80 {
        1
    } else if (c as u32) < 0x800 {
        2
    } else if (c as u32) < 0x10000 {
        3
    } else {
        4
    }
}

/// Number of bytes that a text takes in UTF-8.
pub open spec fn utf8_len(s: Seq<char>) -> nat
    decreases s.len(),
{
    if s.len() == 0 {
        0
    } else {
        utf8_len(s.drop_last()) + utf8_width(s.last())
    }
}

/// A character of `s` begins, or `s` ends, after exactly `bytes` bytes, and
/// `at` characters stand before that place.
pub open spec fn boundary(s: Seq<char>, bytes: nat, at: int) -> bool {
    0 <= at <= s.len() && utf8_len(s.take(at)) == bytes
}

/// The stretch of `s` from byte `from` to byte `to`, where both are places
/// between characters.
pub open spec fn byte_range(s: Seq<char>, from: nat, to: nat) -> Option<Seq<char>> {
    if exists|i: int, j: int| boundary(s, from, i) && boundary(s, to, j) && i <= j {
        let (i, j) = choose|i: int, j: int| boundary(s, from, i) && boundary(s, to, j) && i <= j;
        Some(s.subrange(i, j))
    } else {
        None
    }
}

/// A longer beginning of a text takes more bytes.
pub proof fn lemma_utf8_len_grows(s: Seq<char>, i: int, j: int)
    requires
        0 <= i <= j <= s.len(),
    ensures
        utf8_len(s.take(i)) <= utf8_len(s.take(j)),
        i < j ==> utf8_len(s.take(i)) < utf8_len(s.take(j)),
    decreases j - i,
{
    if i < j {
        lemma_utf8_len_grows(s, i, j - 1);
        assert(s.take(j).drop_last() =~= s.take(j - 1));
    }
}

/// At most one place between characters lies after a given number of bytes.
pub proof fn lemma_boundary_is_unique(s: Seq<char>, bytes: nat, i: int, j: int)
    requires
        boundary(s, bytes, i),
        boundary(s, bytes, j),
    ensures
        i == j,
{
    if i < j {
        lemma_utf8_len_grows(s, i, j);
    } else if j < i {
        lemma_utf8_len_grows(s, j, i);
    }
}

fn width(c: char) -> (r: usize)
    ensures
        r == utf8_width(c),
        1 <= r <= 4,
{
    let code = c as u32;
    if code < 0x80 {
        1
    } else if code < 0x800 {
        2
    } else if code < 0x10000 {
        3
    } else {
        4
    }
}

/// The number of characters that stand before byte `bytes` of the text, or
/// `None` where that byte lies inside a character or beyond the text.
fn chars_before(s: &Vec<char>, bytes: u128) -> (r: Option<usize>)
    ensures
        match r {
            Some(at) => boundary(s@, bytes as nat, at as int),
            None => forall|at: int| !boundary(s@, bytes as nat, at),
        },
{
    let mut at: usize = 0;
    let mut seen: u128 = 0;
    assert(s@.take(0) =~= Seq::<char>::empty());
    while at < s.len() && seen < bytes
        invariant
            at <= s.len(),
            seen == utf8_len(s@.take(at as int)),
            seen <= 4 * at,
            at > 0 ==> utf8_len(s@.take(at - 1)) < bytes,
        decreases s.len() - at,
    {
        proof {
            assert(s@.take(at + 1).drop_last() =~= s@.take(at as int));
        }
        seen = seen + width(s[at]) as u128;
        at += 1;
    }
    if seen == bytes {
        Some(at)
    } else {
        proof {
            assert forall|other: int| !boundary(s@, bytes as nat, other) by {
                if 0 <= other <= s.len() {
                    if other >= at {
                        lemma_utf8_len_grows(s@, at as int, other);
                    } else {
                        lemma_utf8_len_grows(s@, other, at - 1);
                    }
                }
            }
        }
        None
    }
}

/// The stretch of a text from byte `from` to byte `to`, as slicing a `str`
/// by a range gives it; `None` where slicing would fail: where one of the
/// two bytes lies inside a character or beyond the text, or `to` before
/// `from`.
pub fn byte_slice(s: &str, from: u128, to: u128) -> (r: Option<String>)
    ensures
        match r {
            Some(part) => byte_range(s@, from as nat, to as nat) == Some(part@),
            None => byte_range(s@, from as nat, to as nat) is None,
        },
{
    let cs = chars(s);
    match chars_before(&cs, from) {
        None => None,
        Some(i) => match chars_before(&cs, to) {
            None => None,
            Some(j) => {
                if i <= j {
                    proof {
                        let (a, b) = choose|a: int, b: int|
                            boundary(s@, from as nat, a) && boundary(s@, to as nat, b) && a <= b;
                        lemma_boundary_is_unique(s@, from as nat, a, i as int);
                        lemma_boundary_is_unique(s@, to as nat, b, j as int);
                    }
                    Some(slice(s, i, j))
                } else {
                    proof {
                        assert forall|a: int, b: int|
                            !(boundary(s@, from as nat, a) && boundary(s@, to as nat, b) && a
                                <= b) by {
                            if boundary(s@, from as nat, a) && boundary(s@, to as nat, b) {
                                lemma_boundary_is_unique(s@, from as nat, a, i as int);
                                lemma_boundary_is_unique(s@, to as nat, b, j as int);
                            }
                        }
                    }
                    None
                }
            },
        },
    }
}

/// The number of bytes that a text takes in UTF-8, as `str::len` gives it.
pub fn byte_len(s: &str) -> (r: u128)
    ensures
        r == utf8_len(s@),
{
    let cs = chars(s);
    let mut at: usize = 0;
    let mut seen: u128 = 0;
    assert(s@.take(0) =~= Seq::<char>::empty());
    while at < cs.len()
        invariant
            cs@ == s@,
            at <= cs.len(),
            seen == utf8_len(s@.take(at as int)),
            seen <= 4 * at,
        decreases cs.len() - at,
    {
        proof {
            assert(s@.take(at + 1).drop_last() =~= s@.take(at as int));
        }
        seen = seen + width(cs[at]) as u128;
        at += 1;
    }
    assert(s@.take(at as int) =~= s@);
    seen
}

/// The text with `to` put before each of its characters and after the last.
pub open spec fn interleaved(s: Seq<char>, to: Seq<char>) -> Seq<char>
    decreases s.len(),
{
    if s.len() == 0 {
        to
    } else {
        interleaved(s.drop_last(), to) + seq![s.last()] + to
    }
}

/// The text with every occurrence of `from` replaced by `to`. The text is
/// read from the left; where `from` stands, `to` is written and reading goes
/// on behind the occurrence, so occurrences that overlap an earlier one do
/// not count. An empty `from` stands before each character and at the end.
pub open spec fn replaced(s: Seq<char>, from: Seq<char>, to: Seq<char>) -> Seq<char>
    decreases s.len(),
{
    if from.len() == 0 {
        interleaved(s, to)
    } else if s.len() < from.len() {
        s
    } else if occurs_at(s, from, 0) {
        to + replaced(s.skip(from.len() as int), from, to)
    } else {
        seq![s[0]] + replaced(s.skip(1), from, to)
    }
}

fn interleave(s: &str, to: &str) -> (r: String)
    ensures
        r@ == interleaved(s@, to@),
{
    let text = chars(s);
    let mut out = String::from_str(to);
    let mut i: usize = 0;
    assert(s@.take(0) =~= Seq::<char>::empty());
    while i < text.len()
        invariant
            text@ == s@,
            i <= text.len(),
            out@ == interleaved(s@.take(i as int), to@),
        decreases text.len() - i,
    {
        proof {
            assert(s@.take(i + 1).drop_last() =~= s@.take(i as int));
            assert(s@.subrange(i as int, i + 1) =~= seq![s@[i as int]]);
        }
        out.append(slice(s, i, i + 1).as_str());
        out.append(to);
        i += 1;
    }
    assert(s@.take(i as int) =~= s@);
    out
}

/// The text with every occurrence of `from` replaced by `to`, as
/// `str::replace` gives it.
pub fn replace(s: &str, from: &str, to: &str) -> (r: String)
    ensures
        r@ == replaced(s@, from@, to@),
{
    if from.unicode_len() == 0 {
        return interleave(s, to);
    }
    let text = chars(s);
    let wanted = chars(from);
    let mut out = String::new();
    let mut start: usize = 0;
    let mut i: usize = 0;
    assert(s@.skip(0) =~= s@);
    assert(out@ + s@.subrange(0, 0) + replaced(s@.skip(0), from@, to@) =~= replaced(
        s@,
        from@,
        to@,
    ));
    while text.len() - i >= wanted.len()
        invariant
            text@ == s@,
            wanted@ == from@,
            wanted.len() > 0,
            start <= i <= text.len(),
            replaced(s@, from@, to@) == out@ + s@.subrange(start as int, i as int) + replaced(
                s@.skip(i as int),
                from@,
                to@,
            ),
        decreases text.len() - i,
    {
        let ghost rest = s@.skip(i as int);
        if matches_at(&text, &wanted, i) {
            proof {
                assert(s@.subrange(i as int, i + from@.len()) =~= rest.subrange(
                    0,
                    from@.len() as int,
                ));
                assert(occurs_at(rest, from@, 0));
                assert(rest.skip(from@.len() as int) =~= s@.skip(i + from@.len()));
            }
            let ghost before = out@;
            let ghost pending = s@.subrange(start as int, i as int);
            out.append(slice(s, start, i).as_str());
            out.append(to);
            i = i + wanted.len();
            start = i;
            proof {
                let tail = replaced(s@.skip(i as int), from@, to@);
                assert(s@.subrange(start as int, i as int) =~= Seq::<char>::empty());
                assert(out@ + s@.subrange(start as int, i as int) + tail =~= before + pending + (
                to@ + tail));
            }
        } else {
            proof {
                assert(occurs_at(rest, from@, 0) ==> occurs_at(s@, from@, i as int)) by {
                    assert(s@.subrange(i as int, i + from@.len()) =~= rest.subrange(
                        0,
                        from@.len() as int,
                    ));
                }
                assert(rest.skip(1) =~= s@.skip(i + 1));
                assert(s@.subrange(start as int, i + 1) =~= s@.subrange(start as int, i as int)
                    + seq![rest[0]]);
                assert(out@ + s@.subrange(start as int, i + 1) + replaced(
                    s@.skip(i + 1),
                    from@,
                    to@,
                ) =~= out@ + s@.subrange(start as int, i as int) + (seq![rest[0]] + replaced(
                    s@.skip(i + 1),
                    from@,
                    to@,
                )));
            }
            i += 1;
        }
    }
    proof {
        assert(s@.subrange(start as int, i as int) + s@.skip(i as int) =~= s@.subrange(
            start as int,
            s@.len() as int,
        ));
        assert(out@ + s@.subrange(start as int, i as int) + s@.skip(i as int) =~= out@
            + s@.subrange(start as int, s@.len() as int));
    }
    out.append(slice(s, start, text.len()).as_str());
    out
}

/// What `str::to_uppercase` gives for a text: the text in upper case, by
/// the rules of Unicode.
pub uninterp spec fn uppercase_of(s: Seq<char>) -> Seq<char>;

/// Calls `str::to_uppercase`.
#[verifier::external_body]
pub(crate) fn uppercase(s: &str) -> (r: String)
    ensures
        r@ == uppercase_of(s@),
{
    s.to_uppercase()
}

/// What `str::to_lowercase` gives for a text: the text in lower case, by
/// the rules of Unicode.
pub uninterp spec fn lowercase_of(s: Seq<char>) -> Seq<char>;

/// Calls `str::to_lowercase`.
#[verifier::external_body]
pub(crate) fn lowercase(s: &str) -> (r: String)
    ensures
        r@ == lowercase_of(s@),
{
    s.to_lowercase()
}

} // verus!
