//! JSON text for error documents: string literals with full escaping, and
//! flat objects whose members are string literals.
use vstd::prelude::*;

verus! {

/// The lowercase hexadecimal digit for `n` (`n < 16`).
pub open spec fn hex_digit(n: u32) -> char {
    if n == 0 { '0' }
    else if n == 1 { '1' }
    else if n == 2 { '2' }
    else if n == 3 { '3' }
    else if n == 4 { '4' }
    else if n == 5 { '5' }
    else if n == 6 { '6' }
    else if n == 7 { '7' }
    else if n == 8 { '8' }
    else if n == 9 { '9' }
    else if n == 10 { 'a' }
    else if n == 11 { 'b' }
    else if n == 12 { 'c' }
    else if n == 13 { 'd' }
    else if n == 14 { 'e' }
    else { 'f' }
}

/// How one character is written inside a JSON string literal.
pub open spec fn escape_char(c: char) -> Seq<char> {
    if c == '"' {
        seq!['\\', '"']
    } else if c == '\\' {
        seq!['\\', '\\']
    } else if c == '\n' {
        seq!['\\', 'n']
    } else if c == '\r' {
        seq!['\\', 'r']
    } else if c == '\t' {
        seq!['\\', 't']
    } else if c == '\x08' {
        seq!['\\', 'b']
    } else if c == '\x0c' {
        seq!['\\', 'f']
    } else if (c as u32) < 0x20 {
        seq!['\\', 'u', '0', '0', hex_digit((c as u32) / 16), hex_digit((c as u32) % 16)]
    } else {
        seq![c]
    }
}

/// The escaped form of a whole text, character by character.
pub open spec fn escape(s: Seq<char>) -> Seq<char>
    decreases s.len(),
{
    if s.len() == 0 {
        Seq::empty()
    } else {
        escape(s.drop_last()) + escape_char(s.last())
    }
}

/// The JSON string literal that denotes `s`.
pub open spec fn quoted(s: Seq<char>) -> Seq<char> {
    seq!['"'] + escape(s) + seq!['"']
}

pub open spec fn is_hex_char(c: char) -> bool {
    (0x30 <= (c as u32) && (c as u32) <= 0x39) || (0x61 <= (c as u32) && (c as u32) <= 0x66)
        || (0x41 <= (c as u32) && (c as u32) <= 0x46)
}

/// The characters that may follow a backslash in a two-character escape.
pub open spec fn is_short_escape(c: char) -> bool {
    c == '"' || c == '\\' || c == '/' || c == 'b' || c == 'f' || c == 'n' || c == 'r' || c == 't'
}

/// JSON's grammar for the characters between the quotes of a string literal.
pub open spec fn valid_string_chars(t: Seq<char>) -> bool
    decreases t.len(),
{
    if t.len() == 0 {
        true
    } else if t[0] == '\\' {
        if t.len() >= 2 && is_short_escape(t[1]) {
            valid_string_chars(t.skip(2))
        } else if t.len() >= 6 && t[1] == 'u' && is_hex_char(t[2]) && is_hex_char(t[3])
            && is_hex_char(t[4]) && is_hex_char(t[5]) {
            valid_string_chars(t.skip(6))
        } else {
            false
        }
    } else {
        t[0] != '"' && (t[0] as u32) >= 0x20 && valid_string_chars(t.skip(1))
    }
}

/// The value of a hexadecimal digit.
pub open spec fn hex_value(c: char) -> int {
    if 0x30 <= (c as u32) && (c as u32) <= 0x39 {
        (c as u32) - 0x30
    } else if 0x61 <= (c as u32) && (c as u32) <= 0x66 {
        (c as u32) - 0x57
    } else {
        (c as u32) - 0x37
    }
}

/// The code point of a character.
pub open spec fn char_code(c: char) -> int {
    c as u32 as int
}

/// The character that a two-character escape stands for.
pub open spec fn short_escape_value(c: char) -> char {
    if c == 'b' {
        '\x08'
    } else if c == 'f' {
        '\x0c'
    } else if c == 'n' {
        '\n'
    } else if c == 'r' {
        '\r'
    } else if c == 't' {
        '\t'
    } else {
        c
    }
}

/// What the characters between the quotes of a string literal denote, as a
/// JSON reader takes them; `None` where they break JSON's grammar or a `\u`
/// escape names no character on its own.
pub open spec fn unescape(t: Seq<char>) -> Option<Seq<char>>
    decreases t.len(),
{
    if t.len() == 0 {
        Some(Seq::empty())
    } else if t[0] == '\\' {
        if t.len() >= 2 && is_short_escape(t[1]) {
            match unescape(t.skip(2)) {
                Some(r) => Some(seq![short_escape_value(t[1])] + r),
                None => None,
            }
        } else if t.len() >= 6 && t[1] == 'u' && is_hex_char(t[2]) && is_hex_char(t[3])
            && is_hex_char(t[4]) && is_hex_char(t[5]) {
            let v = 4096 * hex_value(t[2]) + 256 * hex_value(t[3]) + 16 * hex_value(t[4])
                + hex_value(t[5]);
            if exists|c: char| #[trigger] char_code(c) == v {
                match unescape(t.skip(6)) {
                    Some(r) => Some(seq![choose|c: char| #[trigger] char_code(c) == v] + r),
                    None => None,
                }
            } else {
                None
            }
        } else {
            None
        }
    } else if t[0] == '"' || (t[0] as u32) < 0x20 {
        None
    } else {
        match unescape(t.skip(1)) {
            Some(r) => Some(seq![t[0]] + r),
            None => None,
        }
    }
}

proof fn lemma_escape_concat(a: Seq<char>, b: Seq<char>)
    ensures
        escape(a + b) == escape(a) + escape(b),
    decreases b.len(),
{
    if b.len() == 0 {
        assert(a + b =~= a);
        assert(escape(a) + escape(b) =~= escape(a));
    } else {
        lemma_escape_concat(a, b.drop_last());
        assert((a + b).drop_last() =~= a + b.drop_last());
        assert(escape(a) + escape(b) =~= escape(a) + escape(b.drop_last()) + escape_char(b.last()));
    }
}

proof fn lemma_hex_round_trip(n: u32)
    requires
        n < 16,
    ensures
        hex_value(hex_digit(n)) == n,
{
}

proof fn lemma_unescape_char(c: char, rest: Seq<char>, r: Seq<char>)
    requires
        unescape(rest) == Some(r),
    ensures
        unescape(escape_char(c) + rest) == Some(seq![c] + r),
{
    let t = escape_char(c) + rest;
    if c == '"' || c == '\\' || c == '\n' || c == '\r' || c == '\t' || c == '\x08' || c == '\x0c' {
        assert(t.skip(2) =~= rest);
    } else if (c as u32) < 0x20 {
        let n = c as u32;
        lemma_hex_round_trip(n / 16);
        lemma_hex_round_trip(n % 16);
        assert(t.skip(6) =~= rest);
        assert(!is_short_escape(t[1]));
        lemma_hex_digit(n / 16);
        lemma_hex_digit(n % 16);
        let v = 4096 * hex_value(t[2]) + 256 * hex_value(t[3]) + 16 * hex_value(t[4])
            + hex_value(t[5]);
        assert(hex_value(t[2]) == 0 && hex_value(t[3]) == 0);
        assert(16 * (n / 16) + n % 16 == n) by (nonlinear_arith);
        assert(v == n);
        assert(char_code(c) == v);
        let d = choose|d: char| #[trigger] char_code(d) == v;
        vstd::utf8::char_u32_cast(d, d as u32);
        vstd::utf8::char_u32_cast(c, c as u32);
        assert(d == c);
    } else {
        assert(t.skip(1) =~= rest);
    }
}

/// Reading back the escaped form of a text gives the text itself.
pub proof fn lemma_unescape_escape(s: Seq<char>)
    ensures
        unescape(escape(s)) == Some(s),
    decreases s.len(),
{
    if s.len() > 0 {
        let head = seq![s[0]];
        let tail = s.skip(1);
        assert(s =~= head + tail);
        lemma_escape_concat(head, tail);
        assert(head.drop_last() =~= Seq::<char>::empty());
        assert(escape(Seq::<char>::empty()) =~= Seq::<char>::empty());
        assert(head.last() == s[0]);
        assert(escape(head) =~= escape_char(s[0]));
        lemma_unescape_escape(tail);
        lemma_unescape_char(s[0], escape(tail), tail);
    }
}

/// A complete JSON string literal.
pub open spec fn is_string_literal(t: Seq<char>) -> bool {
    t.len() >= 2 && t[0] == '"' && t[t.len() - 1] == '"' && valid_string_chars(
        t.subrange(1, t.len() - 1),
    )
}

/// What a string literal denotes; `None` if `t` is not one.
pub open spec fn literal_value(t: Seq<char>) -> Option<Seq<char>> {
    if is_string_literal(t) {
        unescape(t.subrange(1, t.len() - 1))
    } else {
        None
    }
}

/// One member `"key": "value"` of an object, from its two literals.
pub open spec fn member_text(key_lit: Seq<char>, value_lit: Seq<char>) -> Seq<char> {
    key_lit + seq![':', ' '] + value_lit
}

/// The members joined by `", "`.
pub open spec fn members_text(members: Seq<(Seq<char>, Seq<char>)>) -> Seq<char>
    decreases members.len(),
{
    if members.len() == 0 {
        Seq::empty()
    } else if members.len() == 1 {
        member_text(members[0].0, members[0].1)
    } else {
        members_text(members.drop_last()) + seq![',', ' '] + member_text(
            members.last().0,
            members.last().1,
        )
    }
}

/// The text of a JSON object with the given member literals.
pub open spec fn object_text(members: Seq<(Seq<char>, Seq<char>)>) -> Seq<char> {
    seq!['{'] + members_text(members) + seq!['}']
}

/// A JSON object whose keys and values are all string literals.
pub open spec fn is_flat_json_object(t: Seq<char>) -> bool {
    exists|members: Seq<(Seq<char>, Seq<char>)>|
        t == object_text(members) && forall|i: int|
            0 <= i < members.len() ==> is_string_literal(#[trigger] members[i].0)
                && is_string_literal(members[i].1)
}

proof fn lemma_valid_concat(a: Seq<char>, b: Seq<char>)
    requires
        valid_string_chars(a),
        valid_string_chars(b),
    ensures
        valid_string_chars(a + b),
    decreases a.len(),
{
    if a.len() == 0 {
        assert(a + b =~= b);
    } else if a[0] == '\\' {
        if a.len() >= 2 && is_short_escape(a[1]) {
            lemma_valid_concat(a.skip(2), b);
            assert((a + b).skip(2) =~= a.skip(2) + b);
        } else {
            lemma_valid_concat(a.skip(6), b);
            assert((a + b).skip(6) =~= a.skip(6) + b);
        }
    } else {
        lemma_valid_concat(a.skip(1), b);
        assert((a + b).skip(1) =~= a.skip(1) + b);
    }
}

proof fn lemma_hex_digit(n: u32)
    requires
        n < 16,
    ensures
        is_hex_char(hex_digit(n)),
{
}

proof fn lemma_escape_char_valid(c: char)
    ensures
        valid_string_chars(escape_char(c)),
{
    let e = escape_char(c);
    let empty = Seq::<char>::empty();
    assert(valid_string_chars(empty));
    if c == '"' || c == '\\' || c == '\n' || c == '\r' || c == '\t' || c == '\x08' || c == '\x0c' {
        assert(e.skip(2) =~= empty);
        assert(is_short_escape(e[1]));
    } else if (c as u32) < 0x20 {
        lemma_hex_digit((c as u32) / 16);
        lemma_hex_digit((c as u32) % 16);
        assert(e.skip(6) =~= empty);
        assert(!is_short_escape(e[1]));
    } else {
        assert(e.skip(1) =~= empty);
    }
}

/// Every escaped text is valid content of a JSON string literal.
pub proof fn lemma_escape_valid(s: Seq<char>)
    ensures
        valid_string_chars(escape(s)),
    decreases s.len(),
{
    if s.len() > 0 {
        lemma_escape_valid(s.drop_last());
        lemma_escape_char_valid(s.last());
        lemma_valid_concat(escape(s.drop_last()), escape_char(s.last()));
    }
}

/// Whatever a text holds, quoting it gives a JSON string literal that
/// denotes exactly that text.
pub proof fn lemma_quoted_is_literal(s: Seq<char>)
    ensures
        is_string_literal(quoted(s)),
        literal_value(quoted(s)) == Some(s),
{
    lemma_escape_valid(s);
    lemma_unescape_escape(s);
    let q = quoted(s);
    assert(q.subrange(1, q.len() - 1) =~= escape(s));
}

fn push_hex_digit(out: &mut String, n: u32)
    requires
        n < 16,
    ensures
        final(out)@ == old(out)@.push(hex_digit(n)),
{
    proof {
        reveal_strlit("0123456789abcdef");
    }
    let k = n as usize;
    let digits = "0123456789abcdef";
    let d = digits.substring_char(k, k + 1);
    assert(d@ =~= seq![hex_digit(n)]);
    out.append(d);
}

/// Appends to `out` the escaped form of the one character `s@[i]`.
fn push_escaped_char(out: &mut String, s: &str, i: usize)
    requires
        i < s@.len(),
        s@.len() <= usize::MAX,
    ensures
        final(out)@ == old(out)@ + escape_char(s@[i as int]),
{
    let c = s.get_char(i);
    if c == '"' {
        proof { reveal_strlit("\\\""); }
        out.append("\\\"");
    } else if c == '\\' {
        proof { reveal_strlit("\\\\"); }
        out.append("\\\\");
    } else if c == '\n' {
        proof { reveal_strlit("\\n"); }
        out.append("\\n");
    } else if c == '\r' {
        proof { reveal_strlit("\\r"); }
        out.append("\\r");
    } else if c == '\t' {
        proof { reveal_strlit("\\t"); }
        out.append("\\t");
    } else if c == '\x08' {
        proof { reveal_strlit("\\b"); }
        out.append("\\b");
    } else if c == '\x0c' {
        proof { reveal_strlit("\\f"); }
        out.append("\\f");
    } else if (c as u32) < 0x20 {
        proof { reveal_strlit("\\u00"); }
        out.append("\\u00");
        push_hex_digit(out, (c as u32) / 16);
        push_hex_digit(out, (c as u32) % 16);
    } else {
        out.append(s.substring_char(i, i + 1));
    }
    assert(final(out)@ =~= old(out)@ + escape_char(c));
}

/// Appends the JSON string literal of `s` to `out`.
pub fn push_quoted(out: &mut String, s: &str)
    ensures
        final(out)@ == old(out)@ + quoted(s@),
{
    proof { reveal_strlit("\""); }
    let ghost start = out@;
    out.append("\"");
    let n = s.unicode_len();
    let mut i: usize = 0;
    while i < n
        invariant
            n == s@.len(),
            i <= n,
            out@ == start + seq!['"'] + escape(s@.subrange(0, i as int)),
        decreases n - i,
    {
        push_escaped_char(out, s, i);
        proof {
            let pre = s@.subrange(0, i as int + 1);
            assert(pre.drop_last() =~= s@.subrange(0, i as int));
        }
        i = i + 1;
    }
    assert(s@.subrange(0, n as int) =~= s@);
    out.append("\"");
    assert(out@ =~= start + quoted(s@));
}

/// The JSON string literal of `s`.
pub fn quote(s: &str) -> (r: String)
    ensures
        r@ == quoted(s@),
{
    let mut out = String::new();
    push_quoted(&mut out, s);
    assert(out@ =~= quoted(s@));
    out
}

} // verus!
