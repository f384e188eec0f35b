//! JSON text: quoted strings, and what makes them self-delimiting.

use vstd::prelude::*;

verus! {

/// A hexadecimal digit in lower case.
pub open spec fn hex_digit(n: nat) -> char {
    if n < 10 {
        (48 + n) as char
    } else {
        (87 + n) as char
    }
}

/// The characters below the space.
pub open spec fn is_control(c: char) -> bool {
    (c as nat) <= 31
}

/// A character inside a JSON string: quote, backslash and control characters
/// are escaped, every other character stands for itself.
pub open spec fn json_escape(c: char) -> Seq<char> {
    if c == '"' {
        seq!['\\', '"']
    } else if c == '\\' {
        seq!['\\', '\\']
    } else if c == '\u{8}' {
        seq!['\\', 'b']
    } else if c == '\t' {
        seq!['\\', 't']
    } else if c == '\n' {
        seq!['\\', 'n']
    } else if c == '\u{c}' {
        seq!['\\', 'f']
    } else if c == '\r' {
        seq!['\\', 'r']
    } else if is_control(c) {
        seq!['\\', 'u', '0', '0', hex_digit(c as nat / 16), hex_digit(c as nat % 16)]
    } else {
        seq![c]
    }
}

/// The inside of a JSON string.
pub open spec fn json_escaped(s: Seq<char>) -> Seq<char>
    decreases s.len(),
{
    if s.len() == 0 {
        seq![]
    } else {
        json_escape(s[0]) + json_escaped(s.skip(1))
    }
}

/// A text as a JSON string.
pub open spec fn json_quoted(s: Seq<char>) -> Seq<char> {
    seq!['"'] + json_escaped(s) + seq!['"']
}

/// `serde_json::to_string` on a string: its JSON form, quoted and escaped as
/// `json_quoted` says.
#[verifier::external_body]
pub(crate) fn json_text(s: &str) -> (r: String)
    ensures
        r@ == json_quoted(s@),
{
    serde_json::to_string(s).expect("a string is serializable")
}

/// A boolean in JSON.
pub open spec fn json_bool(b: bool) -> Seq<char> {
    if b {
        "true"@
    } else {
        "false"@
    }
}

/// A boolean in JSON.
pub fn bool_text(b: bool) -> (r: &'static str)
    ensures
        r@ == json_bool(b),
{
    if b {
        "true"
    } else {
        "false"
    }
}

/// What follows a common beginning is the same in both.
pub proof fn lemma_strip(p: Seq<char>, x: Seq<char>, y: Seq<char>)
    requires
        p + x == p + y,
    ensures
        x == y,
{
    assert((p + x).skip(p.len() as int) =~= x);
    assert((p + y).skip(p.len() as int) =~= y);
}

proof fn lemma_escape_prefix_free(c: char, d: char, x: Seq<char>, y: Seq<char>)
    requires
        json_escape(c) + x == json_escape(d) + y,
    ensures
        c == d,
        x == y,
{
    let l = json_escape(c) + x;
    let r = json_escape(d) + y;
    assert(l[0] == json_escape(c)[0] && r[0] == json_escape(d)[0]);
    if json_escape(c).len() > 1 && json_escape(d).len() > 1 {
        assert(l[1] == json_escape(c)[1] && r[1] == json_escape(d)[1]);
        if json_escape(c).len() > 2 && json_escape(d).len() > 2 {
            assert(l[4] == json_escape(c)[4] && r[4] == json_escape(d)[4]);
            assert(l[5] == json_escape(c)[5] && r[5] == json_escape(d)[5]);
            assert(c as nat == c as nat / 16 * 16 + c as nat % 16);
            assert(d as nat == d as nat / 16 * 16 + d as nat % 16);
        }
    }
    assert(c == d);
    lemma_strip(json_escape(c), x, y);
}

proof fn lemma_inside_self_delimiting(a: Seq<char>, b: Seq<char>, x: Seq<char>, y: Seq<char>)
    requires
        json_escaped(a) + (seq!['"'] + x) == json_escaped(b) + (seq!['"'] + y),
    ensures
        a == b,
        x == y,
    decreases a.len(),
{
    let l = json_escaped(a) + (seq!['"'] + x);
    let r = json_escaped(b) + (seq!['"'] + y);
    if a.len() > 0 {
        assert(l =~= json_escape(a[0]) + (json_escaped(a.skip(1)) + (seq!['"'] + x)));
        assert(l[0] == json_escape(a[0])[0]);
    } else {
        assert(l =~= seq!['"'] + x);
        assert(l[0] == '"');
    }
    if b.len() > 0 {
        assert(r =~= json_escape(b[0]) + (json_escaped(b.skip(1)) + (seq!['"'] + y)));
        assert(r[0] == json_escape(b[0])[0]);
    } else {
        assert(r =~= seq!['"'] + y);
        assert(r[0] == '"');
    }
    if a.len() > 0 && b.len() > 0 {
        lemma_escape_prefix_free(
            a[0],
            b[0],
            json_escaped(a.skip(1)) + (seq!['"'] + x),
            json_escaped(b.skip(1)) + (seq!['"'] + y),
        );
        lemma_inside_self_delimiting(a.skip(1), b.skip(1), x, y);
        assert(a =~= seq![a[0]] + a.skip(1));
        assert(b =~= seq![b[0]] + b.skip(1));
    } else {
        assert(a.len() == 0 && b.len() == 0);
        assert(a =~= b);
        lemma_strip(seq!['"'], x, y);
    }
}

/// A JSON string shows where it ends: two texts that begin with one agree on
/// the string and on what follows it.
pub proof fn lemma_quoted_self_delimiting(a: Seq<char>, b: Seq<char>, x: Seq<char>, y: Seq<char>)
    requires
        json_quoted(a) + x == json_quoted(b) + y,
    ensures
        a == b,
        x == y,
{
    assert(json_quoted(a) + x =~= seq!['"'] + (json_escaped(a) + (seq!['"'] + x)));
    assert(json_quoted(b) + y =~= seq!['"'] + (json_escaped(b) + (seq!['"'] + y)));
    lemma_strip(
        seq!['"'],
        json_escaped(a) + (seq!['"'] + x),
        json_escaped(b) + (seq!['"'] + y),
    );
    lemma_inside_self_delimiting(a, b, x, y);
}

/// A field whose value is a string determines the string and what follows.
pub proof fn lemma_text_field(
    key: Seq<char>,
    a: Seq<char>,
    b: Seq<char>,
    x: Seq<char>,
    y: Seq<char>,
)
    requires
        key + json_quoted(a) + x == key + json_quoted(b) + y,
    ensures
        a == b,
        x == y,
{
    assert(key + json_quoted(a) + x =~= key + (json_quoted(a) + x));
    assert(key + json_quoted(b) + y =~= key + (json_quoted(b) + y));
    lemma_strip(key, json_quoted(a) + x, json_quoted(b) + y);
    lemma_quoted_self_delimiting(a, b, x, y);
}

/// A field whose value is a boolean determines it and what follows.
pub proof fn lemma_bool_field(key: Seq<char>, a: bool, b: bool, x: Seq<char>, y: Seq<char>)
    requires
        key + json_bool(a) + x == key + json_bool(b) + y,
    ensures
        a == b,
        x == y,
{
    reveal_strlit("true");
    reveal_strlit("false");
    assert(key + json_bool(a) + x =~= key + (json_bool(a) + x));
    assert(key + json_bool(b) + y =~= key + (json_bool(b) + y));
    lemma_strip(key, json_bool(a) + x, json_bool(b) + y);
    assert((json_bool(a) + x)[0] == json_bool(a)[0]);
    assert((json_bool(b) + y)[0] == json_bool(b)[0]);
    assert(a == b);
    lemma_strip(json_bool(a), x, y);
}

/// A truth value is written as JSON writes it.
pub proof fn law_truth_values(b: bool, r: &'static str)
    requires
        call_ensures(bool_text, (b,), r),
    ensures
        b ==> r@ == "true"@,
        !b ==> r@ == "false"@,
{
}

} // verus!
