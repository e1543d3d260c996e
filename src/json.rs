use vstd::prelude::*;
use vstd::string::*;

verus! {

/// The lower-case hexadecimal digit for a value below sixteen.
pub open spec fn hex_digit(d: nat) -> char {
    if d == 0 { '0' }
    else if d == 1 { '1' }
    else if d == 2 { '2' }
    else if d == 3 { '3' }
    else if d == 4 { '4' }
    else if d == 5 { '5' }
    else if d == 6 { '6' }
    else if d == 7 { '7' }
    else if d == 8 { '8' }
    else if d == 9 { '9' }
    else if d == 10 { 'a' }
    else if d == 11 { 'b' }
    else if d == 12 { 'c' }
    else if d == 13 { 'd' }
    else if d == 14 { 'e' }
    else { 'f' }
}

/// How one character stands inside a JSON string literal: quote and
/// backslash get a backslash, the five named control characters their
/// letter, the other control characters a `\u00XX` form, the rest themselves.
pub open spec fn escape_char(c: char) -> Seq<char> {
    if c == '"' {
        seq!['\\', '"']
    } else if c == '\\' {
        seq!['\\', '\\']
    } else if c == '\x08' {
        seq!['\\', 'b']
    } else if c == '\x0c' {
        seq!['\\', 'f']
    } else if c == '\n' {
        seq!['\\', 'n']
    } else if c == '\r' {
        seq!['\\', 'r']
    } else if c == '\t' {
        seq!['\\', 't']
    } else if (c as u32) < 0x20 {
        seq!['\\', 'u', '0', '0', hex_digit((c as u32 / 16) as nat), hex_digit((c as u32 % 16) as nat)]
    } else {
        seq![c]
    }
}

/// The characters of `s`, each escaped.
pub open spec fn escaped(s: Seq<char>) -> Seq<char>
    decreases s.len(),
{
    if s.len() == 0 {
        Seq::empty()
    } else {
        escape_char(s[0]) + escaped(s.drop_first())
    }
}

/// `s` as a JSON string literal.
pub open spec fn quoted(s: Seq<char>) -> Seq<char> {
    seq!['"'] + escaped(s) + seq!['"']
}

/// The elements of a JSON array of strings, comma separated.
pub open spec fn joined(v: Seq<Seq<char>>) -> Seq<char>
    decreases v.len(),
{
    if v.len() == 0 {
        Seq::empty()
    } else if v.len() == 1 {
        quoted(v[0])
    } else {
        quoted(v[0]) + seq![','] + joined(v.drop_first())
    }
}

/// `v` as a compact JSON array of strings.
pub open spec fn array_text(v: Seq<Seq<char>>) -> Seq<char> {
    seq!['['] + joined(v) + seq![']']
}

/// The decimal digit for a value below ten.
pub open spec fn digit(d: nat) -> char {
    hex_digit(d)
}

/// The decimal numeral of `n`, without leading zeros.
pub open spec fn decimal(n: nat) -> Seq<char>
    decreases n,
{
    if n < 10 {
        seq![digit(n)]
    } else {
        decimal(n / 10) + seq![digit(n % 10)]
    }
}

/// What `serde_json::from_str::<u32>` makes of a text: the number, or `None`
/// where the text is not a JSON number that fits in a `u32`.
pub uninterp spec fn json_u32(s: Seq<char>) -> Option<u32>;

/// Relies on `serde_json::from_str::<u32>`: the outcome depends on the text
/// alone.
#[verifier::external_body]
pub(crate) fn parse_u32(s: &str) -> (r: Option<u32>)
    ensures
        r == json_u32(s@),
{
    serde_json::from_str::<u32>(s).ok()
}

/// Relies on `serde_json::to_string` of a `str`: a quote, each character
/// escaped as `format_escaped_str_contents` does, and a quote. The writer is a
/// `Vec<u8>`, whose writes never fail, so the `Err` arm is never taken.
#[verifier::external_body]
pub(crate) fn quote(s: &str) -> (r: String)
    ensures
        r@ == quoted(s@),
{
    serde_json::to_string(s).unwrap_or_default()
}

fn digit_str(d: u64) -> (r: &'static str)
    requires
        d < 10,
    ensures
        r@ == seq![digit(d as nat)],
{
    if d == 0 {
        proof { reveal_strlit("0"); }
        "0"
    } else if d == 1 {
        proof { reveal_strlit("1"); }
        "1"
    } else if d == 2 {
        proof { reveal_strlit("2"); }
        "2"
    } else if d == 3 {
        proof { reveal_strlit("3"); }
        "3"
    } else if d == 4 {
        proof { reveal_strlit("4"); }
        "4"
    } else if d == 5 {
        proof { reveal_strlit("5"); }
        "5"
    } else if d == 6 {
        proof { reveal_strlit("6"); }
        "6"
    } else if d == 7 {
        proof { reveal_strlit("7"); }
        "7"
    } else if d == 8 {
        proof { reveal_strlit("8"); }
        "8"
    } else {
        proof { reveal_strlit("9"); }
        "9"
    }
}

/// The decimal numeral of `n`.
pub fn decimal_string(n: u64) -> (r: String)
    ensures
        r@ == decimal(n as nat),
    decreases n,
{
    if n < 10 {
        String::from_str(digit_str(n))
    } else {
        let mut s = decimal_string(n / 10);
        s.append(digit_str(n % 10));
        s
    }
}

/// The strings of `items` as a compact JSON array.
pub fn array_of_strings(items: &Vec<String>) -> (r: String)
    ensures
        r@ == array_text(items@.map_values(|s: String| s@)),
{
    let ghost v = items@.map_values(|s: String| s@);
    let mut body = String::new();
    let mut i: usize = 0;
    while i < items.len()
        invariant
            0 <= i <= items.len(),
            v == items@.map_values(|s: String| s@),
            body@ == joined(v.take(i as int)),
        decreases items.len() - i,
    {
        proof { lemma_joined_push(v.take(i as int), v[i as int]); }
        if i > 0 {
            proof { reveal_strlit(","); }
            body.append(",");
        }
        let q = quote(items[i].as_str());
        body.append(q.as_str());
        assert(v.take(i as int).push(v[i as int]) =~= v.take(i + 1));
        i = i + 1;
    }
    assert(v.take(items.len() as int) =~= v);
    proof { reveal_strlit("["); reveal_strlit("]"); }
    let mut r = String::from_str("[");
    r.append(body.as_str());
    r.append("]");
    r
}

/// Appending one string to an array's elements adds a separator and its
/// literal.
proof fn lemma_joined_push(v: Seq<Seq<char>>, s: Seq<char>)
    ensures
        joined(v.push(s)) == if v.len() == 0 {
            quoted(s)
        } else {
            joined(v) + seq![','] + quoted(s)
        },
    decreases v.len(),
{
    if v.len() == 0 {
        assert(v.push(s) =~= seq![s]);
    } else if v.len() == 1 {
        assert(v.push(s).drop_first() =~= seq![s]);
        assert(joined(seq![s]) == quoted(s));
        assert(v.push(s)[0] == v[0]);
    } else {
        lemma_joined_push(v.drop_first(), s);
        assert(v.push(s).drop_first() =~= v.drop_first().push(s));
        assert(v.push(s)[0] == v[0]);
        let a = quoted(v[0]);
        let b = joined(v.drop_first());
        assert(a + seq![','] + (b + seq![','] + quoted(s)) =~= (a + seq![','] + b) + seq![',']
            + quoted(s));
    }
}

/// The value of a hexadecimal digit of either case.
pub open spec fn hex_value(c: char) -> Option<nat> {
    if '0' <= c && c <= '9' {
        Some((c as u32 - '0' as u32) as nat)
    } else if 'a' <= c && c <= 'f' {
        Some((c as u32 - 'a' as u32 + 10) as nat)
    } else if 'A' <= c && c <= 'F' {
        Some((c as u32 - 'A' as u32 + 10) as nat)
    } else {
        None
    }
}

/// The character of a `\uXXXX` escape below the surrogate range.
pub open spec fn code_char(t: Seq<char>) -> Option<char> {
    match (hex_value(t[0]), hex_value(t[1]), hex_value(t[2]), hex_value(t[3])) {
        (Some(a), Some(b), Some(c), Some(d)) => {
            let v = a * 4096 + b * 256 + c * 16 + d;
            if v < 0xd800 {
                Some((v as u32) as char)
            } else {
                None
            }
        },
        _ => None,
    }
}

/// The character that a two-character escape `\e` stands for.
pub open spec fn short_escape(e: char) -> Option<char> {
    if e == '"' || e == '\\' || e == '/' {
        Some(e)
    } else if e == 'b' {
        Some('\x08')
    } else if e == 'f' {
        Some('\x0c')
    } else if e == 'n' {
        Some('\n')
    } else if e == 'r' {
        Some('\r')
    } else if e == 't' {
        Some('\t')
    } else {
        None
    }
}

/// Reads the rest of a JSON string literal whose opening quote is already
/// read: its characters, and the text after the closing quote.
pub open spec fn string_body(t: Seq<char>) -> Option<(Seq<char>, Seq<char>)>
    decreases t.len(),
{
    if t.len() == 0 {
        None
    } else if t[0] == '"' {
        Some((Seq::empty(), t.drop_first()))
    } else if t[0] == '\\' {
        if t.len() >= 2 && short_escape(t[1]) is Some {
            match string_body(t.subrange(2, t.len() as int)) {
                Some((s, rest)) => Some((seq![short_escape(t[1])->Some_0] + s, rest)),
                None => None,
            }
        } else if t.len() >= 6 && t[1] == 'u' && code_char(t.subrange(2, 6)) is Some {
            match string_body(t.subrange(6, t.len() as int)) {
                Some((s, rest)) => Some((seq![code_char(t.subrange(2, 6))->Some_0] + s, rest)),
                None => None,
            }
        } else {
            None
        }
    } else if (t[0] as u32) < 0x20 {
        None
    } else {
        match string_body(t.drop_first()) {
            Some((s, rest)) => Some((seq![t[0]] + s, rest)),
            None => None,
        }
    }
}

/// Reads string literals separated by commas up to the closing bracket, at
/// most `fuel` of them.
pub open spec fn array_elements(t: Seq<char>, fuel: nat) -> Option<Seq<Seq<char>>>
    decreases fuel,
{
    if fuel == 0 || t.len() == 0 || t[0] != '"' {
        None
    } else {
        match string_body(t.drop_first()) {
            Some((s, rest)) => if rest == seq![']'] {
                Some(seq![s])
            } else if rest.len() > 0 && rest[0] == ',' {
                match array_elements(rest.drop_first(), (fuel - 1) as nat) {
                    Some(v) => Some(seq![s] + v),
                    None => None,
                }
            } else {
                None
            },
            None => None,
        }
    }
}

/// Reads a compact JSON array of strings.
pub open spec fn parse_string_array(t: Seq<char>) -> Option<Seq<Seq<char>>> {
    if t == seq!['[', ']'] {
        Some(Seq::empty())
    } else if t.len() > 0 && t[0] == '[' {
        array_elements(t.drop_first(), t.len())
    } else {
        None
    }
}

proof fn lemma_hex_round_trip(d: nat)
    requires
        d < 16,
    ensures
        hex_value(hex_digit(d)) == Some(d),
{
}

proof fn lemma_escape_char_read(c: char, u: Seq<char>)
    ensures
        string_body(escape_char(c) + u) == match string_body(u) {
            Some((s, rest)) => Some((seq![c] + s, rest)),
            None => None::<(Seq<char>, Seq<char>)>,
        },
{
    let t = escape_char(c) + u;
    if c == '"' || c == '\\' || c == '\x08' || c == '\x0c' || c == '\n' || c == '\r' || c
        == '\t' {
        assert(t.subrange(2, t.len() as int) =~= u);
    } else if (c as u32) < 0x20 {
        let v = c as u32;
        lemma_hex_round_trip((v / 16) as nat);
        lemma_hex_round_trip((v % 16) as nat);
        lemma_hex_round_trip(0);
        assert(t.subrange(6, t.len() as int) =~= u);
        let h = t.subrange(2, 6);
        assert(h =~= seq!['0', '0', hex_digit((v / 16) as nat), hex_digit((v % 16) as nat)]);
        assert(0 * 4096 + 0 * 256 + (v / 16) as nat * 16 + (v % 16) as nat == v);
        vstd::utf8::char_u32_cast(c, v);
        assert(code_char(h) == Some(c));
    } else {
        assert(t.drop_first() =~= u);
    }
}

/// The escaped characters of `s`, then a closing quote, read back as `s`.
proof fn lemma_string_body_escaped(s: Seq<char>, rest: Seq<char>)
    ensures
        string_body(escaped(s) + seq!['"'] + rest) == Some((s, rest)),
    decreases s.len(),
{
    if s.len() == 0 {
        let t = escaped(s) + seq!['"'] + rest;
        assert(t =~= seq!['"'] + rest);
        assert(t.drop_first() =~= rest);
    } else {
        lemma_string_body_escaped(s.drop_first(), rest);
        let u = escaped(s.drop_first()) + seq!['"'] + rest;
        lemma_escape_char_read(s[0], u);
        assert(escaped(s) + seq!['"'] + rest =~= escape_char(s[0]) + u);
        assert(seq![s[0]] + s.drop_first() =~= s);
    }
}

proof fn lemma_array_elements(v: Seq<Seq<char>>, fuel: nat)
    requires
        v.len() > 0,
        fuel >= v.len(),
    ensures
        array_elements(joined(v) + seq![']'], fuel) == Some(v),
    decreases v.len(),
{
    let t = joined(v) + seq![']'];
    if v.len() == 1 {
        lemma_string_body_escaped(v[0], seq![']']);
        assert(t.drop_first() =~= escaped(v[0]) + seq!['"'] + seq![']']);
        assert(seq![v[0]] =~= v);
    } else {
        let tail = v.drop_first();
        let rest = seq![','] + joined(tail) + seq![']'];
        lemma_string_body_escaped(v[0], rest);
        assert(t.drop_first() =~= escaped(v[0]) + seq!['"'] + rest);
        assert(rest.drop_first() =~= joined(tail) + seq![']']);
        assert(rest != seq![']']);
        lemma_array_elements(tail, (fuel - 1) as nat);
        assert(seq![v[0]] + tail =~= v);
    }
}

/// The array text of a sequence of strings reads back as that sequence.
pub proof fn law_array_round_trip(v: Seq<Seq<char>>)
    ensures
        parse_string_array(array_text(v)) == Some(v),
{
    let t = array_text(v);
    if v.len() == 0 {
        assert(t =~= seq!['[', ']']);
        assert(v =~= Seq::<Seq<char>>::empty());
    } else {
        assert(t.drop_first() =~= joined(v) + seq![']']);
        lemma_joined_len(v);
        assert(t != seq!['[', ']']);
        lemma_array_elements(v, t.len());
    }
}

proof fn lemma_joined_len(v: Seq<Seq<char>>)
    ensures
        joined(v).len() >= v.len(),
        v.len() > 0 ==> joined(v).len() >= 2,
    decreases v.len(),
{
    if v.len() > 1 {
        lemma_joined_len(v.drop_first());
    }
}

} // verus!
