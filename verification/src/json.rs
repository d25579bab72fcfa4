//! Texts as JSON strings.

use crate::cache::hex_digit;
use vstd::prelude::*;

verus! {

/// A character as it stands in a JSON string: quotes, backslashes and control characters are escaped.
pub open spec fn json_escape(c: char) -> Seq<char> {
    if c == '"' || c == '\\' {
        seq!['\\', c]
    } else if c == '\u{8}' {
        seq!['\\', 'b']
    } else if c == '\t' {
        seq!['\\', 't']
    } else if c == '\n' {
        seq!['\\', 'n']
    } else if c == '\u{c}' {
        seq!['\\', 'f']
    } else if c == '\r' {
        seq!['\\', 'r']
    } else if (c as u32) < 0x20 {
        seq!['\\', 'u', '0', '0', hex_digit(c as nat / 16), hex_digit(c as nat % 16)]
    } else {
        seq![c]
    }
}

/// The characters of a text as they stand in a JSON string.
pub open spec fn json_escaped(s: Seq<char>) -> Seq<char>
    decreases s.len(),
{
    if s.len() == 0 {
        Seq::empty()
    } else {
        json_escape(s.first()) + json_escaped(s.drop_first())
    }
}

/// The text `s` as a JSON string, quotes included.
pub open spec fn json_string(s: Seq<char>) -> Seq<char> {
    seq!['"'] + json_escaped(s) + seq!['"']
}

/// [`serde_json::Value`], written out by its `Display`: the JSON string for the text `s`, with the
/// short escapes where JSON has one, four hexadecimal digits for the other control characters, and
/// every other character as it is.
#[verifier::external_body]
pub(crate) fn json_quoted(s: &str) -> (r: String)
    ensures
        r@ == json_string(s@),
{
    serde_json::Value::from(s).to_string()
}

/// What follows one and the same beginning.
pub(crate) proof fn lemma_same_beginning(p: Seq<char>, x: Seq<char>, y: Seq<char>)
    requires
        p + x == p + y,
    ensures
        x == y,
{
    assert((p + x).skip(p.len() as int) =~= x);
    assert((p + y).skip(p.len() as int) =~= y);
}

proof fn lemma_hex_digit(m: nat, n: nat)
    requires
        m < 16,
        n < 16,
        hex_digit(m) == hex_digit(n),
    ensures
        m == n,
{
}

/// What a character is escaped to tells where it ends.
proof fn lemma_escape_ends(c: char, d: char, x: Seq<char>, y: Seq<char>)
    requires
        json_escape(c) + x == json_escape(d) + y,
    ensures
        c == d,
        x == y,
{
    let p = json_escape(c);
    let q = json_escape(d);
    assert((p + x)[0] == p[0] && (q + y)[0] == q[0]);
    if p.len() > 1 && q.len() > 1 {
        assert((p + x)[1] == p[1] && (q + y)[1] == q[1]);
        if p.len() > 2 && q.len() > 2 {
            assert((p + x)[4] == p[4] && (q + y)[4] == q[4]);
            assert((p + x)[5] == p[5] && (q + y)[5] == q[5]);
            lemma_hex_digit(c as nat / 16, d as nat / 16);
            lemma_hex_digit(c as nat % 16, d as nat % 16);
        }
    }
    assert(c == d);
    lemma_same_beginning(p, x, y);
}

proof fn lemma_escaped_ends(a: Seq<char>, b: Seq<char>, x: Seq<char>, y: Seq<char>)
    requires
        json_escaped(a) + (seq!['"'] + x) == json_escaped(b) + (seq!['"'] + y),
    ensures
        a == b,
        x == y,
    decreases a.len(),
{
    let u = seq!['"'] + x;
    let v = seq!['"'] + y;
    if a.len() == 0 && b.len() == 0 {
        assert(json_escaped(a) + u =~= u);
        assert(json_escaped(b) + v =~= v);
        lemma_same_beginning(seq!['"'], x, y);
        assert(a =~= b);
    } else if a.len() == 0 {
        assert(u[0] == '"');
        assert((json_escaped(a) + u)[0] == u[0]);
        assert((json_escaped(b) + v)[0] == json_escape(b.first())[0]);
    } else if b.len() == 0 {
        assert(v[0] == '"');
        assert((json_escaped(b) + v)[0] == v[0]);
        assert((json_escaped(a) + u)[0] == json_escape(a.first())[0]);
    } else {
        let c = json_escape(a.first());
        let d = json_escape(b.first());
        let rest_a = json_escaped(a.drop_first()) + u;
        let rest_b = json_escaped(b.drop_first()) + v;
        assert(json_escaped(a) + u =~= c + rest_a);
        assert(json_escaped(b) + v =~= d + rest_b);
        lemma_escape_ends(a.first(), b.first(), rest_a, rest_b);
        lemma_escaped_ends(a.drop_first(), b.drop_first(), x, y);
        assert(a =~= seq![a.first()] + a.drop_first());
        assert(b =~= seq![b.first()] + b.drop_first());
    }
}

/// A JSON string tells where it ends and which text it stands for.
pub proof fn law_json_string_is_unambiguous(a: Seq<char>, b: Seq<char>, x: Seq<char>, y: Seq<char>)
    requires
        json_string(a) + x == json_string(b) + y,
    ensures
        a == b,
        x == y,
{
    let rest_a = json_escaped(a) + (seq!['"'] + x);
    let rest_b = json_escaped(b) + (seq!['"'] + y);
    assert(json_string(a) + x =~= seq!['"'] + rest_a);
    assert(json_string(b) + y =~= seq!['"'] + rest_b);
    lemma_same_beginning(seq!['"'], rest_a, rest_b);
    lemma_escaped_ends(a, b, x, y);
}

} // verus!
