//! Text primitives: what the command line, the reports and the framing layer
//! need of strings, stated over sequences of characters.

use vstd::prelude::*;

verus! {

/// `str::eq`: two strings are equal when they hold the same characters.
pub assume_specification[ <str as PartialEq>::eq ](a: &str, b: &str) -> (r: bool)
    ensures
        r == (a@ == b@),
;

/// `String::push`: one character is added at the end.
pub assume_specification[ String::push ](s: &mut String, c: char)
    ensures
        final(s)@ == old(s)@.push(c),
;

/// The characters of each string of a list.
pub open spec fn texts(list: Seq<String>) -> Seq<Seq<char>> {
    Seq::new(list.len(), |i: int| list[i]@)
}

/// The characters of an optional string.
pub open spec fn opt_text(o: Option<String>) -> Option<Seq<char>> {
    match o {
        Some(s) => Some(s@),
        None => None,
    }
}

/// What went wrong, in the words shown to the user.
#[derive(Debug)]
pub struct CliError {
    pub message: String,
}

/// A result as its contents: the value's view, or the message.
pub open spec fn outcome<T: View>(r: Result<T, CliError>) -> Result<T::V, Seq<char>> {
    match r {
        Ok(v) => Ok(v@),
        Err(e) => Err(e.message@),
    }
}

/// The error with this message.
pub fn fail(message: &str) -> (e: CliError)
    ensures
        e.message@ == message@,
{
    CliError { message: message.to_owned() }
}

/// The error whose message is the three parts in order.
pub fn fail_with(before: &str, subject: &str, after: &str) -> (e: CliError)
    ensures
        e.message@ == before@ + subject@ + after@,
{
    CliError { message: append3(before, subject, after) }
}

/// The error whose message is the two parts in order.
pub fn fail_about(before: &str, subject: &str) -> (e: CliError)
    ensures
        e.message@ == before@ + subject@,
{
    CliError { message: append2(before, subject) }
}

/// Two texts in order.
pub fn append2(a: &str, b: &str) -> (r: String)
    ensures
        r@ == a@ + b@,
{
    let mut s = a.to_owned();
    s.append(b);
    s
}

/// Three texts in order.
pub fn append3(a: &str, b: &str, c: &str) -> (r: String)
    ensures
        r@ == a@ + b@ + c@,
{
    let mut s = a.to_owned();
    s.append(b);
    s.append(c);
    s
}

/// A string with these characters.
pub fn string_from(s: &str) -> (r: String)
    ensures
        r@ == s@,
{
    s.to_owned()
}

/// The argument at a position, where there is one.
pub open spec fn arg_at(args: Seq<Seq<char>>, i: int) -> Option<Seq<char>> {
    if 0 <= i < args.len() {
        Some(args[i])
    } else {
        None
    }
}

/// The argument at `i`, where there is one.
pub fn arg_of(args: &[String], i: usize) -> (r: Option<&String>)
    ensures
        match r {
            Some(s) => arg_at(texts(args@), i as int) == Some(s@),
            None => arg_at(texts(args@), i as int) is None,
        },
{
    if i < args.len() {
        Some(&args[i])
    } else {
        None
    }
}

/// Whether two strings hold the same characters.
pub fn same(a: &str, b: &str) -> (r: bool)
    ensures
        r == (a@ == b@),
{
    a.eq(b)
}

/// The characters of a string.
pub fn chars_of(s: &str) -> (r: Vec<char>)
    ensures
        r@ == s@,
{
    let mut out: Vec<char> = Vec::new();
    for c in it: s.chars()
        invariant
            out@ == it.seq().take(it.index() as int),
            it.seq() == s@,
    {
        out.push(c);
    }
    out
}

/// The string that holds `chars[from..to]`.
pub fn string_of(chars: &Vec<char>, from: usize, to: usize) -> (r: String)
    requires
        from <= to <= chars.len(),
    ensures
        r@ == chars@.subrange(from as int, to as int),
{
    let mut out = String::new();
    let mut i: usize = from;
    while i < to
        invariant
            from <= i <= to <= chars.len(),
            out@ == chars@.subrange(from as int, i as int),
        decreases to - i,
    {
        out.push(chars[i]);
        i += 1;
    }
    out
}

/// A copy of a string list.
pub fn clone_texts(list: &Vec<String>) -> (r: Vec<String>)
    ensures
        r@ == list@,
{
    let r = list.clone();
    assert(r@ =~= list@);
    r
}

/// A string list with one more string.
pub fn pushed(list: Vec<String>, s: String) -> (r: Vec<String>)
    ensures
        r@ == list@.push(s),
        texts(r@) == texts(list@).push(s@),
{
    let mut list = list;
    let ghost before = list@;
    list.push(s);
    assert(texts(list@) =~= texts(before).push(s@));
    list
}

/// Whether some string of the list holds the characters of `s`.
pub fn contains_text(list: &Vec<String>, s: &str) -> (r: bool)
    ensures
        r == texts(list@).contains(s@),
{
    let mut i: usize = 0;
    while i < list.len()
        invariant
            i <= list.len(),
            forall|k: int| 0 <= k < i ==> texts(list@)[k] != s@,
        decreases list.len() - i,
    {
        if same(list[i].as_str(), s) {
            assert(texts(list@)[i as int] == s@);
            return true;
        }
        i += 1;
    }
    false
}

/// Whether `s` begins with `p`.
pub fn starts_with(s: &str, p: &str) -> (r: bool)
    ensures
        r == p@.is_prefix_of(s@),
{
    let a = chars_of(s);
    let b = chars_of(p);
    if b.len() > a.len() {
        return false;
    }
    matches_at(&a, 0, &b)
}

/// Whether `s` ends with `p`.
pub fn ends_with(s: &str, p: &str) -> (r: bool)
    ensures
        r == p@.is_suffix_of(s@),
{
    let a = chars_of(s);
    let b = chars_of(p);
    if b.len() > a.len() {
        return false;
    }
    let r = matches_at(&a, a.len() - b.len(), &b);
    assert(a@.subrange(a@.len() - b@.len(), a@.len() as int) =~= a@.subrange(
        a@.len() - b@.len(),
        (a@.len() - b@.len()) + b@.len(),
    ));
    r
}

fn matches_at(a: &Vec<char>, at: usize, b: &Vec<char>) -> (r: bool)
    requires
        at + b.len() <= a.len(),
    ensures
        r == (a@.subrange(at as int, at + b.len()) == b@),
{
    let mut i: usize = 0;
    while i < b.len()
        invariant
            i <= b.len(),
            at + b.len() <= a.len(),
            forall|k: int| 0 <= k < i ==> a@[at + k] == b@[k],
        decreases b.len() - i,
    {
        if a[at + i] != b[i] {
            assert(a@.subrange(at as int, at + b.len())[i as int] != b@[i as int]);
            return false;
        }
        i += 1;
    }
    assert(a@.subrange(at as int, at + b.len()) =~= b@);
    true
}

/// `p` occurs in `s`, beginning at position `i`.
pub open spec fn occurs_at(s: Seq<char>, p: Seq<char>, i: int) -> bool {
    0 <= i && i + p.len() <= s.len() && s.subrange(i, i + p.len()) == p
}

/// `p` occurs somewhere in `s`.
pub open spec fn occurs(s: Seq<char>, p: Seq<char>) -> bool {
    exists|i: int| occurs_at(s, p, i)
}

/// Whether `p` occurs in `s`.
pub fn contains(s: &str, p: &str) -> (r: bool)
    ensures
        r == occurs(s@, p@),
{
    let a = chars_of(s);
    let b = chars_of(p);
    if b.len() > a.len() {
        return false;
    }
    let last: usize = a.len() - b.len();
    let mut i: usize = 0;
    loop
        invariant
            a@ == s@,
            b@ == p@,
            i <= last,
            last + b.len() == a.len(),
            forall|k: int| 0 <= k < i ==> !occurs_at(s@, p@, k),
        decreases last - i,
    {
        if matches_at(&a, i, &b) {
            assert(occurs_at(s@, p@, i as int));
            return true;
        }
        if i == last {
            return false;
        }
        i += 1;
    }
}

/// The digit character of a value below ten.
pub open spec fn digit(d: nat) -> char {
    (48 + d) as char
}

/// A number in decimal.
pub open spec fn dec(n: nat) -> Seq<char>
    decreases n,
{
    if n < 10 {
        seq![digit(n)]
    } else {
        dec(n / 10).push(digit(n % 10))
    }
}

fn digit_char(d: u8) -> (c: char)
    requires
        d < 10,
    ensures
        c == digit(d as nat),
{
    (48 + d) as char
}

/// `n` written in decimal.
pub fn decimal(n: usize) -> (r: String)
    ensures
        r@ == dec(n as nat),
    decreases n,
{
    if n < 10 {
        let mut s = String::new();
        s.push(digit_char(n as u8));
        assert(s@ =~= dec(n as nat));
        s
    } else {
        let mut s = decimal(n / 10);
        s.push(digit_char((n % 10) as u8));
        s
    }
}

/// `n` written in decimal.
pub fn decimal_u64(n: u64) -> (r: String)
    ensures
        r@ == dec(n as nat),
    decreases n,
{
    if n < 10 {
        let mut s = String::new();
        s.push(digit_char(n as u8));
        assert(s@ =~= dec(n as nat));
        s
    } else {
        let mut s = decimal_u64(n / 10);
        s.push(digit_char((n % 10) as u8));
        s
    }
}

/// Every character is a decimal digit, and there is one.
pub open spec fn all_digits(s: Seq<char>) -> bool {
    s.len() > 0 && forall|i: int| 0 <= i < s.len() ==> '0' <= #[trigger] s[i] <= '9'
}

/// The number that a run of decimal digits denotes.
pub open spec fn digits_value(s: Seq<char>) -> nat
    decreases s.len(),
{
    if s.len() == 0 {
        0
    } else {
        digits_value(s.drop_last()) * 10 + (s.last() as nat - 48) as nat
    }
}

/// The digits of a number: what follows an optional plus sign.
pub open spec fn unsigned_body(s: Seq<char>) -> Seq<char> {
    if s.len() > 0 && s[0] == '+' {
        s.skip(1)
    } else {
        s
    }
}

/// The `usize` that a text denotes: an optional plus sign, then digits only,
/// with a value that fits.
pub open spec fn usize_of_text(s: Seq<char>) -> Option<usize> {
    let body = unsigned_body(s);
    if all_digits(body) && digits_value(body) <= usize::MAX {
        Some(digits_value(body) as usize)
    } else {
        None
    }
}

/// Reads an unsigned number the way `usize::from_str` does.
pub fn parse_usize(s: &str) -> (r: Option<usize>)
    ensures
        r == usize_of_text(s@),
{
    let chars = chars_of(s);
    let start: usize = if chars.len() > 0 && chars[0] == '+' {
        1
    } else {
        0
    };
    let ghost body = unsigned_body(s@);
    assert(body =~= chars@.skip(start as int));
    if start == chars.len() {
        return None;
    }
    let mut value: usize = 0;
    let mut fits = true;
    let mut i: usize = start;
    while i < chars.len()
        invariant
            start <= i <= chars.len(),
            start < chars.len(),
            body == chars@.skip(start as int),
            body == unsigned_body(s@),
            forall|k: int| 0 <= k < i - start ==> '0' <= #[trigger] body[k] <= '9',
            fits ==> value == digits_value(body.take(i - start)),
            !fits ==> digits_value(body.take(i - start)) > usize::MAX,
        decreases chars.len() - i,
    {
        let c = chars[i];
        assert(body[i - start] == c);
        if c < '0' || c > '9' {
            return None;
        }
        let d: usize = (c as u32 - 48) as usize;
        assert(body.take(i + 1 - start).drop_last() =~= body.take(i - start));
        assert(digits_value(body.take(i + 1 - start)) == digits_value(body.take(i - start)) * 10 + d);
        if fits {
            if value <= (usize::MAX - d) / 10 {
                value = value * 10 + d;
            } else {
                fits = false;
            }
        }
        i += 1;
    }
    assert(body.take(i - start) =~= body);
    if fits {
        Some(value)
    } else {
        None
    }
}

/// Joins texts with a separator between neighbours.
pub open spec fn joined(parts: Seq<Seq<char>>, sep: Seq<char>) -> Seq<char>
    decreases parts.len(),
{
    if parts.len() == 0 {
        seq![]
    } else if parts.len() == 1 {
        parts[0]
    } else {
        joined(parts.drop_last(), sep) + sep + parts.last()
    }
}

/// The strings of a list with `sep` between neighbours.
pub fn join(parts: &Vec<String>, sep: &str) -> (r: String)
    ensures
        r@ == joined(texts(parts@), sep@),
{
    if parts.len() == 0 {
        return String::new();
    }
    let mut out = parts[0].clone();
    let mut i: usize = 1;
    assert(texts(parts@).take(1)[0] == out@);
    while i < parts.len()
        invariant
            1 <= i <= parts.len(),
            out@ == joined(texts(parts@).take(i as int), sep@),
        decreases parts.len() - i,
    {
        out.append(sep);
        out.append(parts[i].as_str());
        assert(texts(parts@).take(i + 1).drop_last() =~= texts(parts@).take(i as int));
        i += 1;
    }
    assert(texts(parts@).take(i as int) =~= texts(parts@));
    out
}

/// The characters with the Unicode property White_Space.
pub open spec fn white_space(c: char) -> bool {
    ||| '\u{9}' <= c <= '\u{d}'
    ||| c == ' '
    ||| c == '\u{85}'
    ||| c == '\u{a0}'
    ||| c == '\u{1680}'
    ||| '\u{2000}' <= c <= '\u{200a}'
    ||| c == '\u{2028}'
    ||| c == '\u{2029}'
    ||| c == '\u{202f}'
    ||| c == '\u{205f}'
    ||| c == '\u{3000}'
}

/// Whether a character is white space.
pub fn is_white_space(c: char) -> (r: bool)
    ensures
        r == white_space(c),
{
    ('\u{9}' <= c && c <= '\u{d}') || c == ' ' || c == '\u{85}' || c == '\u{a0}' || c == '\u{1680}'
        || ('\u{2000}' <= c && c <= '\u{200a}') || c == '\u{2028}' || c == '\u{2029}' || c
        == '\u{202f}' || c == '\u{205f}' || c == '\u{3000}'
}

/// A text without its leading white space.
pub open spec fn trimmed_start(s: Seq<char>) -> Seq<char>
    decreases s.len(),
{
    if s.len() > 0 && white_space(s[0]) {
        trimmed_start(s.skip(1))
    } else {
        s
    }
}

/// A text without its trailing white space.
pub open spec fn trimmed_end(s: Seq<char>) -> Seq<char>
    decreases s.len(),
{
    if s.len() > 0 && white_space(s.last()) {
        trimmed_end(s.drop_last())
    } else {
        s
    }
}

/// A text without the white space around it.
pub open spec fn trimmed(s: Seq<char>) -> Seq<char> {
    trimmed_end(trimmed_start(s))
}

/// `s` without the white space around it.
pub fn trim(s: &str) -> (r: String)
    ensures
        r@ == trimmed(s@),
{
    let chars = chars_of(s);
    let mut from: usize = 0;
    assert(chars@.skip(0) =~= chars@);
    while from < chars.len() && is_white_space(chars[from])
        invariant
            from <= chars.len(),
            trimmed_start(chars@) == trimmed_start(chars@.skip(from as int)),
        decreases chars.len() - from,
    {
        assert(chars@.skip(from as int).skip(1) =~= chars@.skip(from + 1));
        from += 1;
    }
    let mut to: usize = chars.len();
    assert(chars@.skip(from as int) =~= chars@.subrange(from as int, to as int));
    while to > from && is_white_space(chars[to - 1])
        invariant
            from <= to <= chars.len(),
            trimmed(chars@) == trimmed_end(chars@.subrange(from as int, to as int)),
        decreases to,
    {
        assert(chars@.subrange(from as int, to as int).drop_last() =~= chars@.subrange(
            from as int,
            to - 1,
        ));
        to -= 1;
    }
    string_of(&chars, from, to)
}

/// A character in ASCII lower case; others are themselves.
pub open spec fn ascii_lower(c: char) -> char {
    if 'A' <= c <= 'Z' {
        (c as int + 32) as char
    } else {
        c
    }
}

/// A text in ASCII lower case.
pub open spec fn lowered(s: Seq<char>) -> Seq<char> {
    s.map_values(|c: char| ascii_lower(c))
}

fn lower_char(c: char) -> (r: char)
    ensures
        r == ascii_lower(c),
{
    if 'A' <= c && c <= 'Z' {
        (c as u8 + 32) as char
    } else {
        c
    }
}

/// `s` in ASCII lower case.
pub fn to_lower(s: &str) -> (r: String)
    ensures
        r@ == lowered(s@),
{
    let chars = chars_of(s);
    let mut out = String::new();
    let mut i: usize = 0;
    while i < chars.len()
        invariant
            i <= chars.len(),
            out@ == lowered(chars@.take(i as int)),
        decreases chars.len() - i,
    {
        out.push(lower_char(chars[i]));
        assert(lowered(chars@.take(i + 1)) =~= lowered(chars@.take(i as int)).push(
            ascii_lower(chars@[i as int]),
        ));
        i += 1;
    }
    assert(chars@.take(i as int) =~= chars@);
    out
}

/// The first position of `c` at or after `from`, or the length.
pub open spec fn next_at(s: Seq<char>, c: char, from: int) -> int
    decreases s.len() - from,
{
    if from < 0 || from >= s.len() {
        s.len() as int
    } else if s[from] == c {
        from
    } else {
        next_at(s, c, from + 1)
    }
}

fn find_from(chars: &Vec<char>, c: char, from: usize) -> (r: usize)
    requires
        from <= chars.len(),
    ensures
        r == next_at(chars@, c, from as int),
        from <= r <= chars.len(),
{
    let mut i: usize = from;
    while i < chars.len() && chars[i] != c
        invariant
            from <= i <= chars.len(),
            next_at(chars@, c, from as int) == next_at(chars@, c, i as int),
        decreases chars.len() - i,
    {
        i += 1;
    }
    i
}

/// The pieces of `s` from position `from` on, cut at every `c`.
pub open spec fn pieces_from(s: Seq<char>, c: char, from: int) -> Seq<Seq<char>>
    decreases s.len() - from,
{
    let k = next_at(s, c, from);
    if 0 <= from <= k < s.len() {
        seq![s.subrange(from, k)] + pieces_from(s, c, k + 1)
    } else {
        seq![s.subrange(from, s.len() as int)]
    }
}

/// The pieces of `s`, cut at every `c`: one more than there are cuts.
pub open spec fn pieces(s: Seq<char>, c: char) -> Seq<Seq<char>> {
    pieces_from(s, c, 0)
}

/// The pieces of `s`, cut at every `c`.
pub fn split(s: &str, c: char) -> (r: Vec<String>)
    ensures
        texts(r@) == pieces(s@, c),
        r.len() >= 1,
{
    let chars = chars_of(s);
    let mut out: Vec<String> = Vec::new();
    let mut from: usize = 0;
    loop
        invariant
            chars@ == s@,
            from <= chars.len(),
            texts(out@) + pieces_from(s@, c, from as int) == pieces(s@, c),
        decreases chars.len() - from,
    {
        let k = find_from(&chars, c, from);
        let ghost before = out@;
        out.push(string_of(&chars, from, k));
        assert(texts(out@) =~= texts(before).push(s@.subrange(from as int, k as int)));
        if k == chars.len() {
            assert(texts(out@) =~= texts(before) + pieces_from(s@, c, from as int));
            return out;
        }
        assert(texts(out@) + pieces_from(s@, c, k + 1) =~= texts(before) + pieces_from(
            s@,
            c,
            from as int,
        ));
        from = k + 1;
    }
}

/// A line without the carriage return before its line feed.
pub open spec fn without_cr(s: Seq<char>) -> Seq<char> {
    if s.len() > 0 && s.last() == '\r' {
        s.drop_last()
    } else {
        s
    }
}

/// The lines of `s` from position `from` on. A line ends with a line feed, or
/// with a carriage return and a line feed; the last one may have no end.
pub open spec fn lines_from(s: Seq<char>, from: int) -> Seq<Seq<char>>
    decreases s.len() - from,
{
    let k = next_at(s, '\n', from);
    if 0 <= from <= k < s.len() {
        seq![without_cr(s.subrange(from, k))] + lines_from(s, k + 1)
    } else if 0 <= from < s.len() {
        seq![s.subrange(from, s.len() as int)]
    } else {
        seq![]
    }
}

/// The lines of `s`.
pub open spec fn lines_of(s: Seq<char>) -> Seq<Seq<char>> {
    lines_from(s, 0)
}

/// The lines of `s`.
pub fn lines(s: &str) -> (r: Vec<String>)
    ensures
        texts(r@) == lines_of(s@),
{
    let chars = chars_of(s);
    let mut out: Vec<String> = Vec::new();
    let mut from: usize = 0;
    while from < chars.len()
        invariant
            chars@ == s@,
            from <= chars.len(),
            texts(out@) + lines_from(s@, from as int) == lines_of(s@),
        decreases chars.len() - from,
    {
        let k = find_from(&chars, '\n', from);
        let ghost before = out@;
        if k == chars.len() {
            out.push(string_of(&chars, from, k));
            assert(texts(out@) =~= texts(before).push(s@.subrange(from as int, k as int)));
            assert(texts(out@) =~= texts(before) + lines_from(s@, from as int));
            return out;
        }
        let to: usize = if k > from && chars[k - 1] == '\r' {
            k - 1
        } else {
            k
        };
        out.push(string_of(&chars, from, to));
        assert(without_cr(s@.subrange(from as int, k as int)) =~= s@.subrange(
            from as int,
            to as int,
        ));
        assert(texts(out@) =~= texts(before).push(s@.subrange(from as int, to as int)));
        assert(texts(out@) + lines_from(s@, k + 1) =~= texts(before) + lines_from(s@, from as int));
        from = k + 1;
    }
    assert(texts(out@) =~= texts(out@) + lines_from(s@, from as int));
    out
}

/// The position of the last `c` in `s`, or -1.
pub open spec fn last_at(s: Seq<char>, c: char) -> int
    decreases s.len(),
{
    if s.len() == 0 {
        -1
    } else if s.last() == c {
        s.len() - 1
    } else {
        last_at(s.drop_last(), c)
    }
}

/// What follows the last `c` of a text, where it has one.
pub open spec fn after_last(s: Seq<char>, c: char) -> Option<Seq<char>> {
    if 0 <= last_at(s, c) < s.len() {
        Some(s.skip(last_at(s, c) + 1))
    } else {
        None
    }
}

/// What follows the last `c` of `s`, where it has one.
pub fn text_after_last(s: &str, c: char) -> (r: Option<String>)
    ensures
        opt_text(r) == after_last(s@, c),
{
    let chars = chars_of(s);
    let mut n: usize = chars.len();
    assert(chars@.take(n as int) =~= chars@);
    while n > 0
        invariant
            chars@ == s@,
            n <= chars.len(),
            last_at(s@, c) == last_at(s@.take(n as int), c),
        decreases n,
    {
        if chars[n - 1] == c {
            assert(s@.subrange(n as int, s@.len() as int) =~= s@.skip(n as int));
            return Some(string_of(&chars, n, chars.len()));
        }
        assert(s@.take(n as int).drop_last() =~= s@.take(n - 1));
        n -= 1;
    }
    None
}

/// A text with every `from` character replaced by `to`.
pub open spec fn replaced(s: Seq<char>, from: char, to: char) -> Seq<char> {
    s.map_values(|c: char| if c == from { to } else { c })
}

/// `s` with every `from` replaced by `to`.
pub fn replace_char(s: &str, from: char, to: char) -> (r: String)
    ensures
        r@ == replaced(s@, from, to),
{
    let chars = chars_of(s);
    let mut out = String::new();
    let mut i: usize = 0;
    while i < chars.len()
        invariant
            i <= chars.len(),
            out@ == replaced(chars@.take(i as int), from, to),
        decreases chars.len() - i,
    {
        let c = chars[i];
        out.push(if c == from { to } else { c });
        assert(replaced(chars@.take(i + 1), from, to) =~= replaced(chars@.take(i as int), from, to).push(
            if c == from { to } else { c },
        ));
        i += 1;
    }
    assert(chars@.take(i as int) =~= chars@);
    out
}

/// `a` comes before `b` in the order of characters, from position `i` on.
pub open spec fn text_lt_from(a: Seq<char>, b: Seq<char>, i: int) -> bool
    decreases b.len() - i,
{
    if i < 0 || i >= b.len() {
        false
    } else if i >= a.len() {
        true
    } else {
        a[i] < b[i] || (a[i] == b[i] && text_lt_from(a, b, i + 1))
    }
}

/// `a` comes before `b` in the order of characters.
pub open spec fn text_lt(a: Seq<char>, b: Seq<char>) -> bool {
    text_lt_from(a, b, 0)
}

/// Whether `a` comes before `b` in the order of characters.
pub fn precedes(a: &str, b: &str) -> (r: bool)
    ensures
        r == text_lt(a@, b@),
{
    let x = chars_of(a);
    let y = chars_of(b);
    let mut i: usize = 0;
    while i < y.len()
        invariant
            x@ == a@,
            y@ == b@,
            i <= y.len(),
            text_lt(a@, b@) == text_lt_from(a@, b@, i as int),
        decreases y.len() - i,
    {
        if i >= x.len() {
            return true;
        }
        if x[i] < y[i] {
            return true;
        }
        if x[i] != y[i] {
            return false;
        }
        i += 1;
    }
    false
}

proof fn lemma_lt_from_transitive(a: Seq<char>, b: Seq<char>, c: Seq<char>, i: int)
    requires
        0 <= i,
        text_lt_from(a, b, i),
        text_lt_from(b, c, i),
    ensures
        text_lt_from(a, c, i),
    decreases c.len() - i,
{
    if i < a.len() && i < b.len() && i < c.len() && a[i] == b[i] && b[i] == c[i] {
        lemma_lt_from_transitive(a, b, c, i + 1);
    }
}

proof fn lemma_lt_from_total(a: Seq<char>, b: Seq<char>, i: int)
    requires
        0 <= i <= a.len(),
        i <= b.len(),
        forall|k: int| 0 <= k < i ==> a[k] == b[k],
    ensures
        text_lt_from(a, b, i) || text_lt_from(b, a, i) || a == b,
        !(text_lt_from(a, b, i) && text_lt_from(b, a, i)),
        a == b ==> !text_lt_from(a, b, i),
    decreases a.len() - i,
{
    if i < a.len() && i < b.len() {
        if a[i] == b[i] {
            lemma_lt_from_total(a, b, i + 1);
        }
    } else if i == a.len() && i == b.len() {
        assert(a =~= b);
    }
}

/// The order of characters is a strict total order on texts.
pub proof fn lemma_text_order(a: Seq<char>, b: Seq<char>)
    ensures
        text_lt(a, b) || text_lt(b, a) || a == b,
        !(text_lt(a, b) && text_lt(b, a)),
        a == b ==> !text_lt(a, b),
{
    lemma_lt_from_total(a, b, 0);
}

/// What comes before something comes before what follows it.
pub proof fn lemma_text_order_transitive(a: Seq<char>, b: Seq<char>, c: Seq<char>)
    requires
        text_lt(a, b),
        text_lt(b, c),
    ensures
        text_lt(a, c),
{
    lemma_lt_from_transitive(a, b, c, 0);
}

/// Each text comes before those after it, so none occurs twice.
pub open spec fn in_order(list: Seq<Seq<char>>) -> bool {
    forall|i: int, j: int| 0 <= i < j < list.len() ==> text_lt(#[trigger] list[i], #[trigger] list[j])
}

/// An ordered list of texts with one more: still in order, and each text once.
pub fn insert_in_order(list: Vec<String>, s: String) -> (r: Vec<String>)
    requires
        in_order(texts(list@)),
    ensures
        in_order(texts(r@)),
        texts(r@).to_set() == texts(list@).to_set().insert(s@),
{
    let mut list = list;
    let ghost before = texts(list@);
    let mut p: usize = 0;
    while p < list.len() && precedes(list[p].as_str(), s.as_str())
        invariant
            p <= list.len(),
            before == texts(list@),
            forall|k: int| 0 <= k < p ==> text_lt(#[trigger] before[k], s@),
        decreases list.len() - p,
    {
        assert(before[p as int] == list@[p as int]@);
        p += 1;
    }
    if p < list.len() {
        assert(before[p as int] == list@[p as int]@);
        if same(list[p].as_str(), s.as_str()) {
            assert(before.to_set().contains(s@));
            assert(before.to_set().insert(s@) =~= before.to_set());
            return list;
        }
    }
    let ghost text = s@;
    list.insert(p, s);
    let ghost after = texts(list@);
    proof {
        assert(after =~= before.insert(p as int, text));
        assert forall|k: int| p <= k < before.len() implies text_lt(text, #[trigger] before[k]) by {
            lemma_text_order(before[p as int], text);
            if k > p {
                lemma_text_order_transitive(text, before[p as int], before[k]);
            }
        }
        assert forall|i: int, j: int| 0 <= i < j < after.len() implies text_lt(
            #[trigger] after[i],
            #[trigger] after[j],
        ) by {
            if j < p {
                assert(after[i] == before[i] && after[j] == before[j]);
            } else if j == p {
                assert(after[i] == before[i]);
            } else if i == p {
                assert(after[j] == before[j - 1]);
            } else if i < p {
                assert(after[i] == before[i] && after[j] == before[j - 1]);
            } else {
                assert(after[i] == before[i - 1] && after[j] == before[j - 1]);
            }
        }
        assert forall|x: Seq<char>| before.to_set().insert(text).contains(x) implies
            #[trigger] after.to_set().contains(x) by {
            if x == text {
                assert(after[p as int] == x);
            } else {
                let k = choose|k: int| 0 <= k < before.len() && before[k] == x;
                if k < p {
                    assert(after[k] == x);
                } else {
                    assert(after[k + 1] == x);
                }
            }
        }
        assert forall|x: Seq<char>| #[trigger] after.to_set().contains(x) implies before.to_set().insert(
            text,
        ).contains(x) by {
            let k = choose|k: int| 0 <= k < after.len() && after[k] == x;
            if k < p {
                assert(before[k] == x);
            } else if k > p {
                assert(before[k - 1] == x);
            }
        }
        assert(after.to_set() =~= before.to_set().insert(text));
    }
    list
}

// Laws.

/// Trimming takes away the white space at both ends and nothing else: what is
/// left is a run of the text with only white space around it, and neither begins
/// nor ends with any.
pub proof fn law_trimming(s: Seq<char>)
    ensures
        exists|a: int, b: int|
            #![trigger s.subrange(a, b)]
            {
                &&& 0 <= a <= b <= s.len()
                &&& trimmed(s) == s.subrange(a, b)
                &&& forall|k: int| 0 <= k < a ==> white_space(#[trigger] s[k])
                &&& forall|k: int| b <= k < s.len() ==> white_space(#[trigger] s[k])
            },
        trimmed(s).len() > 0 ==> !white_space(trimmed(s)[0]) && !white_space(trimmed(s).last()),
{
    lemma_trimmed_start(s);
    let t = trimmed_start(s);
    lemma_trimmed_end(t);
    let a = (s.len() - t.len()) as int;
    let b = a + trimmed(s).len();
    assert(trimmed(s) =~= s.subrange(a, b));
    assert forall|k: int| b <= k < s.len() implies white_space(#[trigger] s[k]) by {
        assert(s[k] == t[k - a]);
    }
}

proof fn lemma_trimmed_start(s: Seq<char>)
    ensures
        trimmed_start(s).len() <= s.len(),
        trimmed_start(s) == s.skip(s.len() - trimmed_start(s).len()),
        forall|k: int|
            0 <= k < s.len() - trimmed_start(s).len() ==> white_space(#[trigger] s[k]),
        trimmed_start(s).len() > 0 ==> !white_space(trimmed_start(s)[0]),
    decreases s.len(),
{
    if s.len() > 0 && white_space(s[0]) {
        let rest = s.skip(1);
        lemma_trimmed_start(rest);
        let n = s.len() - trimmed_start(s).len();
        assert(rest.skip(n - 1) =~= s.skip(n));
        assert forall|k: int| 0 <= k < n implies white_space(#[trigger] s[k]) by {
            if k > 0 {
                assert(rest[k - 1] == s[k]);
            }
        }
    } else {
        assert(s.skip(0) =~= s);
    }
}

proof fn lemma_trimmed_end(s: Seq<char>)
    ensures
        trimmed_end(s).len() <= s.len(),
        trimmed_end(s) == s.take(trimmed_end(s).len() as int),
        forall|k: int| trimmed_end(s).len() <= k < s.len() ==> white_space(#[trigger] s[k]),
        trimmed_end(s).len() > 0 ==> !white_space(trimmed_end(s).last()),
    decreases s.len(),
{
    if s.len() > 0 && white_space(s.last()) {
        let front = s.drop_last();
        lemma_trimmed_end(front);
        let n = trimmed_end(s).len() as int;
        assert(front.take(n) =~= s.take(n));
        assert forall|k: int| n <= k < s.len() implies white_space(#[trigger] s[k]) by {
            if k < front.len() {
                assert(front[k] == s[k]);
            }
        }
    } else {
        assert(s.take(s.len() as int) =~= s);
    }
}

/// Of ASCII, the blank, the tab and what breaks a line or a page are white
/// space; so is the ideographic space. No ideograph is.
pub proof fn law_white_space(c: char)
    ensures
        c as u32 <= 0x7f ==> (white_space(c) <==> c == ' ' || c == '\t' || c == '\n' || c
            == '\u{b}' || c == '\u{c}' || c == '\r'),
        white_space('\u{3000}'),
        c as u32 > 0x3000 ==> !white_space(c),
        0x205f < c as u32 && (c as u32) < 0x3000 ==> !white_space(c),
        0xa0 < c as u32 && (c as u32) < 0x1680 ==> !white_space(c),
{
}

/// Lowering changes the capital letters of ASCII to the small ones, each in its
/// place, and leaves every other character alone.
pub proof fn law_lowering(s: Seq<char>, i: int)
    requires
        0 <= i < s.len(),
    ensures
        lowered(s).len() == s.len(),
        'A' <= s[i] <= 'Z' ==> lowered(s)[i] as int == s[i] as int + ('a' as int - 'A' as int),
        !('A' <= s[i] <= 'Z') ==> lowered(s)[i] == s[i],
{
}

/// A text is cut at every line feed: the line before it, without the carriage
/// return that may end it, and then the lines of the rest. What follows the last
/// line feed is a line where it is not empty.
pub proof fn law_lines(line: Seq<char>, rest: Seq<char>)
    requires
        !line.contains('\n'),
    ensures
        lines_of(line.push('\n') + rest) == seq![
            if line.len() > 0 && line.last() == '\r' {
                line.drop_last()
            } else {
                line
            },
        ] + lines_of(rest),
        line.len() > 0 ==> lines_of(line) == seq![line],
        lines_of(seq![]) == Seq::<Seq<char>>::empty(),
{
    let s = line.push('\n') + rest;
    let n = line.len() as int;
    lemma_next_at(s, '\n', 0);
    lemma_next_at(line, '\n', 0);
    assert(s[n] == '\n');
    assert forall|k: int| 0 <= k < n implies s[k] != '\n' by {
        assert(s[k] == line[k]);
    }
    assert(next_at(s, '\n', 0) == n);
    assert(s.subrange(0, n) =~= line);
    lemma_lines_shift(line.push('\n'), rest, 0);
    assert(next_at(line, '\n', 0) == n);
    assert(line.subrange(0, n) =~= line);
}

/// `next_at` is the first place of the character, or the end.
proof fn lemma_next_at(s: Seq<char>, c: char, from: int)
    requires
        0 <= from <= s.len(),
    ensures
        from <= next_at(s, c, from) <= s.len(),
        next_at(s, c, from) < s.len() ==> s[next_at(s, c, from)] == c,
        forall|k: int| from <= k < next_at(s, c, from) ==> #[trigger] s[k] != c,
    decreases s.len() - from,
{
    if from < s.len() && s[from] != c {
        lemma_next_at(s, c, from + 1);
    }
}

proof fn lemma_next_at_shift(a: Seq<char>, b: Seq<char>, c: char, from: int)
    requires
        0 <= from <= b.len(),
    ensures
        next_at(a + b, c, a.len() + from) == a.len() + next_at(b, c, from),
    decreases b.len() - from,
{
    if from < b.len() {
        assert((a + b)[a.len() + from] == b[from]);
        if b[from] != c {
            lemma_next_at_shift(a, b, c, from + 1);
        }
    }
}

proof fn lemma_lines_shift(a: Seq<char>, b: Seq<char>, from: int)
    requires
        0 <= from <= b.len(),
    ensures
        lines_from(a + b, a.len() + from) == lines_from(b, from),
    decreases b.len() - from,
{
    let s = a + b;
    let n = a.len() as int;
    lemma_next_at(b, '\n', from);
    lemma_next_at_shift(a, b, '\n', from);
    let k = next_at(b, '\n', from);
    if k < b.len() {
        lemma_lines_shift(a, b, k + 1);
        assert(s.subrange(n + from, n + k) =~= b.subrange(from, k));
    } else if from < b.len() {
        assert(s.subrange(n + from, s.len() as int) =~= b.subrange(from, b.len() as int));
    }
}

/// Cutting a text at a character and putting that character back between the
/// pieces gives the text again, and no piece holds it: there is one way only to
/// cut.
pub proof fn law_pieces(s: Seq<char>, c: char)
    ensures
        joined(pieces(s, c), seq![c]) == s,
        pieces(s, c).len() > 0,
        forall|i: int| 0 <= i < pieces(s, c).len() ==> !(#[trigger] pieces(s, c)[i]).contains(c),
{
    lemma_pieces_from(s, c, 0);
    assert(s.skip(0) =~= s);
}

proof fn lemma_joined_front(first: Seq<char>, rest: Seq<Seq<char>>, sep: Seq<char>)
    requires
        rest.len() > 0,
    ensures
        joined(seq![first] + rest, sep) == first + sep + joined(rest, sep),
    decreases rest.len(),
{
    let all = seq![first] + rest;
    if rest.len() == 1 {
        assert(all.drop_last() =~= seq![first]);
        assert(joined(seq![first], sep) == first);
        assert(joined(rest, sep) == rest[0]);
        assert(all.last() == rest[0]);
        assert(joined(all, sep) =~= first + sep + rest[0]);
    } else {
        assert(all.drop_last() =~= seq![first] + rest.drop_last());
        lemma_joined_front(first, rest.drop_last(), sep);
        assert(joined(all, sep) =~= first + sep + joined(rest, sep));
    }
}

proof fn lemma_pieces_from(s: Seq<char>, c: char, from: int)
    requires
        0 <= from <= s.len(),
    ensures
        joined(pieces_from(s, c, from), seq![c]) == s.skip(from),
        pieces_from(s, c, from).len() > 0,
        forall|i: int|
            0 <= i < pieces_from(s, c, from).len() ==> !(#[trigger] pieces_from(
                s,
                c,
                from,
            )[i]).contains(c),
    decreases s.len() - from,
{
    lemma_next_at(s, c, from);
    let k = next_at(s, c, from);
    let all = pieces_from(s, c, from);
    let first = s.subrange(from, k);
    assert(!first.contains(c)) by {
        if first.contains(c) {
            let i = choose|i: int| 0 <= i < first.len() && first[i] == c;
            assert(s[from + i] == c);
        }
    }
    if k < s.len() {
        let rest = pieces_from(s, c, k + 1);
        lemma_pieces_from(s, c, k + 1);
        lemma_joined_front(first, rest, seq![c]);
        assert(first + seq![c] + s.skip(k + 1) =~= s.skip(from));
        assert forall|i: int| 0 <= i < all.len() implies !(#[trigger] all[i]).contains(c) by {
            if i > 0 {
                assert(all[i] == rest[i - 1]);
            }
        }
    } else {
        assert(first =~= s.skip(from));
    }
}

/// What follows the last occurrence of a character holds no further one, and
/// there is such a part exactly where the character occurs.
pub proof fn law_after_last(s: Seq<char>, c: char)
    ensures
        after_last(s, c) is Some <==> s.contains(c),
        after_last(s, c) is Some ==> {
            let tail = after_last(s, c)->Some_0;
            &&& !tail.contains(c)
            &&& tail.len() < s.len()
            &&& s.skip(s.len() - tail.len() - 1) == seq![c] + tail
        },
{
    lemma_last_at(s, c);
    let k = last_at(s, c);
    if 0 <= k < s.len() {
        let tail = s.skip(k + 1);
        assert(s[k] == c);
        if tail.contains(c) {
            let i = choose|i: int| 0 <= i < tail.len() && tail[i] == c;
            assert(s[k + 1 + i] == c);
        }
        assert(s.skip(k) =~= seq![c] + tail);
    } else if s.contains(c) {
        let i = choose|i: int| 0 <= i < s.len() && s[i] == c;
        assert(s[i] == c);
    }
}

proof fn lemma_last_at(s: Seq<char>, c: char)
    ensures
        -1 <= last_at(s, c) < s.len(),
        last_at(s, c) >= 0 ==> s[last_at(s, c)] == c,
        forall|k: int| last_at(s, c) < k < s.len() ==> #[trigger] s[k] != c,
    decreases s.len(),
{
    if s.len() > 0 && s.last() != c {
        let front = s.drop_last();
        lemma_last_at(front, c);
        assert forall|k: int| last_at(s, c) < k < s.len() implies #[trigger] s[k] != c by {
            if k < front.len() {
                assert(front[k] == s[k]);
            }
        }
    }
}

/// Texts are ordered as in a dictionary: by the first character in which they
/// differ, and a text before those that it begins.
pub proof fn law_texts_are_ordered_as_in_a_dictionary(a: Seq<char>, b: Seq<char>, i: int)
    requires
        0 <= i <= a.len(),
        i <= b.len(),
        a.take(i) == b.take(i),
        i < a.len() && i < b.len() ==> a[i] != b[i],
    ensures
        text_lt(a, b) <==> i < b.len() && (i == a.len() || a[i] < b[i]),
{
    assert forall|k: int| 0 <= k < i implies a[k] == b[k] by {
        assert(a[k] == a.take(i)[k]);
        assert(b[k] == b.take(i)[k]);
    }
    lemma_lt_common(a, b, 0, i);
}

proof fn lemma_lt_common(a: Seq<char>, b: Seq<char>, from: int, i: int)
    requires
        0 <= from <= i <= a.len(),
        i <= b.len(),
        forall|k: int| from <= k < i ==> a[k] == b[k],
    ensures
        text_lt_from(a, b, from) == text_lt_from(a, b, i),
    decreases i - from,
{
    if from < i {
        lemma_lt_common(a, b, from + 1, i);
    }
}

/// A number is written in decimal digits, without a zero before them: one digit
/// for what is below ten, and one more for each factor of ten.
pub proof fn law_decimal_digits(n: nat, d: nat)
    requires
        d < 10,
    ensures
        dec(d).len() == 1 && dec(d)[0] as nat == '0' as nat + d,
        n > 0 ==> dec(n * 10 + d).drop_last() == dec(n) && dec(n * 10 + d).last() as nat
            == '0' as nat + d,
{
    if n > 0 {
        let m = n * 10 + d;
        assert(m / 10 == n && m % 10 == d);
        assert(dec(m).drop_last() =~= dec(n));
    }
}

/// What is written as a number reads back as that number, with or without a plus
/// sign.
pub proof fn law_numbers_read_back(n: usize)
    ensures
        usize_of_text(dec(n as nat)) == Some(n),
        usize_of_text(seq!['+'] + dec(n as nat)) == Some(n),
{
    lemma_dec_value(n as nat);
    let digits = dec(n as nat);
    assert('0' <= digits[0] <= '9');
    assert((seq!['+'] + digits).skip(1) =~= digits);
}

proof fn lemma_dec_value(n: nat)
    ensures
        all_digits(dec(n)),
        digits_value(dec(n)) == n,
    decreases n,
{
    if n >= 10 {
        lemma_dec_value(n / 10);
        let front = dec(n / 10);
        let s = dec(n);
        assert(s.drop_last() =~= front);
        assert forall|i: int| 0 <= i < s.len() implies '0' <= #[trigger] s[i] <= '9' by {
            if i < front.len() {
                assert(s[i] == front[i]);
            }
        }
    } else {
        let s = dec(n);
        assert(s.drop_last() =~= seq![]);
        assert(digits_value(seq![]) == 0);
    }
}

/// A text reads as a number exactly where it holds digits only, after a plus
/// sign or none, and its value fits; each digit further on counts a tenth of the
/// one before it.
pub proof fn law_what_reads_as_a_number(s: Seq<char>, c: char)
    ensures
        s.len() == 0 ==> usize_of_text(s) is None,
        usize_of_text(s) is Some ==> forall|i: int|
            0 <= i < s.len() ==> '0' <= #[trigger] s[i] <= '9' || (i == 0 && s[i] == '+' && s.len()
                > 1),
        usize_of_text(s.push(c)) is Some && usize_of_text(s) is Some ==> usize_of_text(
            s.push(c),
        )->Some_0 == usize_of_text(s)->Some_0 * 10 + (c as int - '0' as int),
        usize_of_text(s) is Some && '0' <= c <= '9' && usize_of_text(s)->Some_0 * 10 + (c as int
            - '0' as int) <= usize::MAX ==> usize_of_text(s.push(c)) is Some,
{
    let body = unsigned_body(s);
    let longer = unsigned_body(s.push(c));
    if usize_of_text(s) is Some {
        assert(longer =~= body.push(c)) by {
            assert(s.len() > 0);
            assert(s.push(c)[0] == s[0]);
        }
        assert(longer.drop_last() =~= body);
        assert(longer.last() == c);
        if '0' <= c <= '9' {
            assert forall|i: int| 0 <= i < longer.len() implies '0' <= #[trigger] longer[i]
                <= '9' by {
                if i < body.len() {
                    assert(longer[i] == body[i]);
                }
            }
        }
        if usize_of_text(s.push(c)) is Some {
            assert('0' <= longer[body.len() as int] <= '9');
        }
        assert forall|i: int| 0 <= i < s.len() implies '0' <= #[trigger] s[i] <= '9' || (i == 0
            && s[i] == '+' && s.len() > 1) by {
            if s[0] == '+' {
                if i > 0 {
                    assert(body[i - 1] == s[i]);
                }
            } else {
                assert(body[i] == s[i]);
            }
        }
    }
}

/// Joining puts the separator between neighbours and nowhere else.
pub proof fn law_joining(parts: Seq<Seq<char>>, last: Seq<char>, sep: Seq<char>)
    ensures
        joined(seq![], sep) == Seq::<char>::empty(),
        joined(seq![last], sep) == last,
        parts.len() > 0 ==> joined(parts.push(last), sep) == joined(parts, sep) + sep + last,
{
    assert(parts.push(last).drop_last() =~= parts);
}

/// Replacing changes one character to another wherever it stands, and nothing
/// else.
pub proof fn law_replacing(s: Seq<char>, from: char, to: char, i: int)
    requires
        0 <= i < s.len(),
    ensures
        replaced(s, from, to).len() == s.len(),
        s[i] == from ==> replaced(s, from, to)[i] == to,
        s[i] != from ==> replaced(s, from, to)[i] == s[i],
{
}

/// A text occurs in another exactly where that one is it with something, or
/// nothing, before and after it.
pub proof fn law_occurring(before: Seq<char>, p: Seq<char>, after: Seq<char>, s: Seq<char>)
    ensures
        occurs(before + p + after, p),
        occurs(s, p) ==> exists|i: int| 0 <= i <= s.len() && #[trigger] s.take(i) + p + s.skip(
            i + p.len(),
        ) == s,
{
    let whole = before + p + after;
    assert(whole.subrange(before.len() as int, (before.len() + p.len()) as int) =~= p);
    assert(occurs_at(whole, p, before.len() as int));
    if occurs(s, p) {
        let i = choose|i: int| occurs_at(s, p, i);
        assert(s.take(i) + s.subrange(i, i + p.len()) + s.skip(i + p.len()) =~= s);
    }
}

/// What each argument is, by its place.
pub proof fn law_arguments_by_place(args: Seq<Seq<char>>, i: int)
    ensures
        arg_at(args, i) is Some <==> 0 <= i < args.len(),
        0 <= i < args.len() ==> arg_at(args, i) == Some(args[i]),
{
}

/// In a list that is in order, each text comes before all that follow it, and so
/// none occurs twice.
pub proof fn law_a_list_in_order(list: Seq<Seq<char>>, i: int, j: int)
    requires
        in_order(list),
        0 <= i < j < list.len(),
    ensures
        text_lt(list[i], list[j]),
        list[i] != list[j],
{
    lemma_text_order(list[i], list[j]);
}

/// Inserting a text into a list that is in order keeps the order, and adds that
/// text only, where it was not there.
pub proof fn law_inserting_in_order(list: Vec<String>, s: String, r: Vec<String>, t: Seq<char>)
    requires
        call_ensures(insert_in_order, (list, s), r),
    ensures
        in_order(texts(r@)),
        texts(r@).contains(t) <==> t == s@ || texts(list@).contains(t),
{
    assert(texts(r@).to_set().contains(t) <==> texts(list@).to_set().insert(s@).contains(t));
    assert(texts(list@).to_set().contains(t) <==> texts(list@).contains(t));
    assert(texts(r@).to_set().contains(t) <==> texts(r@).contains(t));
}

} // verus!
