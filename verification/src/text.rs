//! Decimal rendering of integers and booleans, as `Display` writes them.

use vstd::prelude::*;

verus! {

/// `String::push` appends one character.
pub assume_specification[ std::string::String::push ](s: &mut std::string::String, ch: char)
    ensures
        final(s)@ == old(s)@.push(ch),
;

/// The ASCII digit of a number below ten.
pub open spec fn digit_char(d: nat) -> char {
    if d == 0 {
        '0'
    } else if d == 1 {
        '1'
    } else if d == 2 {
        '2'
    } else if d == 3 {
        '3'
    } else if d == 4 {
        '4'
    } else if d == 5 {
        '5'
    } else if d == 6 {
        '6'
    } else if d == 7 {
        '7'
    } else if d == 8 {
        '8'
    } else {
        '9'
    }
}

/// The decimal digits of a natural number, most significant first, without
/// leading zeros (zero itself is `"0"`).
pub open spec fn decimal_digits(n: nat) -> Seq<char>
    decreases n,
{
    if n < 10 {
        seq![digit_char(n)]
    } else {
        decimal_digits(n / 10).push(digit_char(n % 10))
    }
}

/// The decimal text of an integer: a leading `-` for negative numbers.
pub open spec fn decimal_text(i: int) -> Seq<char> {
    if i < 0 {
        seq!['-'] + decimal_digits((-i) as nat)
    } else {
        decimal_digits(i as nat)
    }
}

/// The text that `Display` writes for a `bool`.
pub open spec fn bool_text(b: bool) -> Seq<char> {
    if b {
        seq!['t', 'r', 'u', 'e']
    } else {
        seq!['f', 'a', 'l', 's', 'e']
    }
}

fn digit(d: u64) -> (c: char)
    requires
        d < 10,
    ensures
        c == digit_char(d as nat),
{
    if d == 0 {
        '0'
    } else if d == 1 {
        '1'
    } else if d == 2 {
        '2'
    } else if d == 3 {
        '3'
    } else if d == 4 {
        '4'
    } else if d == 5 {
        '5'
    } else if d == 6 {
        '6'
    } else if d == 7 {
        '7'
    } else if d == 8 {
        '8'
    } else {
        '9'
    }
}

/// Appends the decimal digits of `n` to `s`.
pub fn push_decimal(s: &mut String, n: u64)
    ensures
        final(s)@ == old(s)@ + decimal_digits(n as nat),
    decreases n,
{
    if n >= 10 {
        push_decimal(s, n / 10);
    }
    s.push(digit(n % 10));
    proof {
        if n >= 10 {
            assert(decimal_digits(n as nat) == decimal_digits((n / 10) as nat).push(
                digit_char((n % 10) as nat),
            ));
        }
    }
}

/// Appends the decimal text of `i` to `s`.
pub fn push_signed_decimal(s: &mut String, i: i64)
    ensures
        final(s)@ == old(s)@ + decimal_text(i as int),
{
    if i < 0 {
        s.push('-');
        let magnitude: u64 = (0i128 - (i as i128)) as u64;
        push_decimal(s, magnitude);
    } else {
        push_decimal(s, i as u64);
    }
}

/// The decimal text of an `i64`, as `i64::to_string` writes it.
pub fn i64_to_string(i: i64) -> (r: String)
    ensures
        r@ == decimal_text(i as int),
{
    let mut s = String::new();
    push_signed_decimal(&mut s, i);
    s
}

/// The text of a `bool`, as `bool::to_string` writes it.
pub fn bool_to_string(b: bool) -> (r: String)
    ensures
        r@ == bool_text(b),
{
    let mut s = String::new();
    if b {
        s.push('t');
        s.push('r');
        s.push('u');
        s.push('e');
    } else {
        s.push('f');
        s.push('a');
        s.push('l');
        s.push('s');
        s.push('e');
    }
    s
}

/// The lower-case hexadecimal digit of a number below sixteen.
pub open spec fn hex_char(d: nat) -> char {
    if d < 10 {
        digit_char(d)
    } else if d == 10 {
        'a'
    } else if d == 11 {
        'b'
    } else if d == 12 {
        'c'
    } else if d == 13 {
        'd'
    } else if d == 14 {
        'e'
    } else {
        'f'
    }
}

/// How one character stands inside a JSON string: `"` and `\` behind a
/// backslash, the control characters below U+0020 as `\b`, `\t`, `\n`,
/// `\f`, `\r` or `\u00XX`, every other character as itself.
pub open spec fn json_escaped_char(c: char) -> Seq<char> {
    let n = c as nat;
    if c == '"' {
        seq!['\\', '"']
    } else if c == '\\' {
        seq!['\\', '\\']
    } else if n == 8 {
        seq!['\\', 'b']
    } else if n == 9 {
        seq!['\\', 't']
    } else if n == 10 {
        seq!['\\', 'n']
    } else if n == 12 {
        seq!['\\', 'f']
    } else if n == 13 {
        seq!['\\', 'r']
    } else if n < 32 {
        seq!['\\', 'u', '0', '0', hex_char(n / 16), hex_char(n % 16)]
    } else {
        seq![c]
    }
}

/// The contents of the JSON string literal that holds a text.
pub open spec fn json_escaped(s: Seq<char>) -> Seq<char>
    decreases s.len(),
{
    if s.len() == 0 {
        seq![]
    } else {
        json_escaped(s.drop_last()) + json_escaped_char(s.last())
    }
}

/// The character a two-character escape `\x` stands for in a JSON string.
pub open spec fn json_simple_escape(x: char) -> Option<char> {
    if x == '"' {
        Some('"')
    } else if x == '\\' {
        Some('\\')
    } else if x == '/' {
        Some('/')
    } else if x == 'b' {
        Some('\u{8}')
    } else if x == 't' {
        Some('\t')
    } else if x == 'n' {
        Some('\n')
    } else if x == 'f' {
        Some('\u{c}')
    } else if x == 'r' {
        Some('\r')
    } else {
        None
    }
}

/// The value of a hexadecimal digit, of either case.
pub open spec fn hex_value(c: char) -> Option<nat> {
    let n = c as nat;
    if 48 <= n <= 57 {
        Some((n - 48) as nat)
    } else if 97 <= n <= 102 {
        Some((n - 87) as nat)
    } else if 65 <= n <= 70 {
        Some((n - 55) as nat)
    } else {
        None
    }
}

/// The character that the four digits of a `\uXXXX` escape stand for; a
/// code of the surrogate range stands for none on its own.
pub open spec fn unicode_escape(d: Seq<char>) -> Option<char> {
    match (hex_value(d[0]), hex_value(d[1]), hex_value(d[2]), hex_value(d[3])) {
        (Some(a), Some(b), Some(c), Some(e)) => {
            let code = a * 4096 + b * 256 + c * 16 + e;
            if code < 0xD800 || code >= 0xE000 {
                Some(code as char)
            } else {
                None
            }
        },
        _ => None,
    }
}

/// The text that `c` followed by the text read from the rest stands for.
pub open spec fn prepend_read(c: char, rest: Option<Seq<char>>) -> Option<Seq<char>> {
    match rest {
        Some(r) => Some(seq![c] + r),
        None => None,
    }
}

/// The text that the contents of a JSON string literal stand for, or `None`
/// where they are no valid contents: an unescaped `"` or control character,
/// or a broken escape. (A surrogate pair, written as two `\u` escapes, is
/// not read.)
pub open spec fn json_unescaped(t: Seq<char>) -> Option<Seq<char>>
    decreases t.len(),
{
    if t.len() == 0 {
        Some(seq![])
    } else if t[0] == '\\' {
        if t.len() < 2 {
            None
        } else {
            match json_simple_escape(t[1]) {
                Some(c) => prepend_read(c, json_unescaped(t.skip(2))),
                None => if t[1] == 'u' && t.len() >= 6 {
                    match unicode_escape(t.subrange(2, 6)) {
                        Some(c) => prepend_read(c, json_unescaped(t.skip(6))),
                        None => None,
                    }
                } else {
                    None
                },
            }
        }
    } else if t[0] == '"' || (t[0] as nat) < 32 {
        None
    } else {
        prepend_read(t[0], json_unescaped(t.drop_first()))
    }
}

/// Escaping a concatenation escapes each part.
proof fn lemma_json_escaped_append(a: Seq<char>, b: Seq<char>)
    ensures
        json_escaped(a + b) == json_escaped(a) + json_escaped(b),
    decreases b.len(),
{
    if b.len() == 0 {
        assert(a + b =~= a);
        assert(json_escaped(a) + json_escaped(b) =~= json_escaped(a));
    } else {
        assert((a + b).drop_last() =~= a + b.drop_last());
        assert((a + b).last() == b.last());
        lemma_json_escaped_append(a, b.drop_last());
        assert(json_escaped(a) + json_escaped(b) =~= json_escaped(a) + json_escaped(b.drop_last())
            + json_escaped_char(b.last()));
    }
}

proof fn lemma_hex_value_of_hex_char(d: nat)
    requires
        d < 16,
    ensures
        hex_value(hex_char(d)) == Some(d),
{
}

/// Reading an escaped character gives the character back.
proof fn lemma_read_escaped_char(c: char, rest: Seq<char>)
    ensures
        json_unescaped(json_escaped_char(c) + rest) == prepend_read(c, json_unescaped(rest)),
{
    let t = json_escaped_char(c) + rest;
    let n = c as nat;
    if c == '"' || c == '\\' || n == 8 || n == 9 || n == 10 || n == 12 || n == 13 {
        assert(t.skip(2) =~= rest);
    } else if n < 32 {
        lemma_hex_value_of_hex_char(n / 16);
        lemma_hex_value_of_hex_char(n % 16);
        assert(t.subrange(2, 6) =~= seq!['0', '0', hex_char(n / 16), hex_char(n % 16)]);
        assert(t.skip(6) =~= rest);
        assert((n / 16) * 16 + n % 16 == n);
        assert(unicode_escape(t.subrange(2, 6)) == Some(c));
    } else {
        assert(t.drop_first() =~= rest);
    }
}

/// The contents that `json_escaped` writes read back as the text itself.
pub proof fn lemma_json_unescaped_escaped(s: Seq<char>)
    ensures
        json_unescaped(json_escaped(s)) == Some(s),
    decreases s.len(),
{
    if s.len() == 0 {
    } else {
        let a = seq![s[0]];
        let b = s.drop_first();
        assert(a + b =~= s);
        lemma_json_escaped_append(a, b);
        assert(a.drop_last() =~= Seq::<char>::empty());
        assert(json_escaped(a.drop_last()) =~= Seq::<char>::empty());
        assert(a.last() == s[0]);
        assert(json_escaped(a) =~= json_escaped_char(s[0]));
        lemma_read_escaped_char(s[0], json_escaped(b));
        lemma_json_unescaped_escaped(b);
        assert(seq![s[0]] + b =~= s);
    }
}

fn hex(d: u32) -> (c: char)
    requires
        d < 16,
    ensures
        c == hex_char(d as nat),
{
    if d < 10 {
        digit(d as u64)
    } else if d == 10 {
        'a'
    } else if d == 11 {
        'b'
    } else if d == 12 {
        'c'
    } else if d == 13 {
        'd'
    } else if d == 14 {
        'e'
    } else {
        'f'
    }
}

fn push_escaped_char(s: &mut String, c: char)
    ensures
        final(s)@ == old(s)@ + json_escaped_char(c),
{
    let n = c as u32;
    if c == '"' {
        s.push('\\');
        s.push('"');
    } else if c == '\\' {
        s.push('\\');
        s.push('\\');
    } else if n == 8 {
        s.push('\\');
        s.push('b');
    } else if n == 9 {
        s.push('\\');
        s.push('t');
    } else if n == 10 {
        s.push('\\');
        s.push('n');
    } else if n == 12 {
        s.push('\\');
        s.push('f');
    } else if n == 13 {
        s.push('\\');
        s.push('r');
    } else if n < 32 {
        s.push('\\');
        s.push('u');
        s.push('0');
        s.push('0');
        s.push(hex(n / 16));
        s.push(hex(n % 16));
    } else {
        s.push(c);
    }
    assert(final(s)@ =~= old(s)@ + json_escaped_char(c));
}

/// Appends the text to `s`, escaped as the contents of a JSON string literal.
pub fn push_json_escaped(s: &mut String, text: &str)
    ensures
        final(s)@ == old(s)@ + json_escaped(text@),
{
    let ghost start = s@;
    let n = text.unicode_len();
    let mut i: usize = 0;
    proof {
        assert(text@.take(0) =~= Seq::<char>::empty());
        assert(start + seq![] =~= start);
    }
    while i < n
        invariant
            n == text@.len(),
            i <= n,
            s@ == start + json_escaped(text@.take(i as int)),
        decreases n - i,
    {
        let c = text.get_char(i);
        push_escaped_char(s, c);
        proof {
            assert(text@.take(i + 1).drop_last() =~= text@.take(i as int));
            assert(text@.take(i + 1).last() == c);
        }
        i = i + 1;
    }
    proof {
        assert(text@.take(n as int) =~= text@);
    }
}

} // verus!
