//! The JSON shapes the API speaks, written and read by hand: an object with
//! one string field `data`, a user record, and the user-plus-body envelope
//! of the authenticated route. The serialisers emit compact JSON; the parser
//! accepts exactly the `data` object, with optional whitespace between
//! tokens and the usual string escapes.

use vstd::prelude::*;

verus! {

// --- characters and digits ---

/// The lower-case hexadecimal digit character for a value below 16.
pub open spec fn spec_hex_digit(v: nat) -> char {
    if v == 0 {
        '0'
    } else if v == 1 {
        '1'
    } else if v == 2 {
        '2'
    } else if v == 3 {
        '3'
    } else if v == 4 {
        '4'
    } else if v == 5 {
        '5'
    } else if v == 6 {
        '6'
    } else if v == 7 {
        '7'
    } else if v == 8 {
        '8'
    } else if v == 9 {
        '9'
    } else if v == 10 {
        'a'
    } else if v == 11 {
        'b'
    } else if v == 12 {
        'c'
    } else if v == 13 {
        'd'
    } else if v == 14 {
        'e'
    } else {
        'f'
    }
}

/// The numeric value of a hexadecimal digit character, if it is one.
pub open spec fn spec_hex_val(c: char) -> Option<nat> {
    if c == '0' {
        Some(0 as nat)
    } else if c == '1' {
        Some(1 as nat)
    } else if c == '2' {
        Some(2 as nat)
    } else if c == '3' {
        Some(3 as nat)
    } else if c == '4' {
        Some(4 as nat)
    } else if c == '5' {
        Some(5 as nat)
    } else if c == '6' {
        Some(6 as nat)
    } else if c == '7' {
        Some(7 as nat)
    } else if c == '8' {
        Some(8 as nat)
    } else if c == '9' {
        Some(9 as nat)
    } else if c == 'a' || c == 'A' {
        Some(10 as nat)
    } else if c == 'b' || c == 'B' {
        Some(11 as nat)
    } else if c == 'c' || c == 'C' {
        Some(12 as nat)
    } else if c == 'd' || c == 'D' {
        Some(13 as nat)
    } else if c == 'e' || c == 'E' {
        Some(14 as nat)
    } else if c == 'f' || c == 'F' {
        Some(15 as nat)
    } else {
        None
    }
}

/// Reading back an emitted hexadecimal digit gives the value it stood for.
pub proof fn lemma_hex_digit_val(v: nat)
    requires
        v < 16,
    ensures
        spec_hex_val(spec_hex_digit(v)) == Some(v),
{
}

/// The decimal digits of a number, most significant first, no leading zeros.
pub open spec fn spec_dec_digits(n: nat) -> Seq<char>
    decreases n,
{
    if n < 10 {
        seq![spec_hex_digit(n)]
    } else {
        spec_dec_digits(n / 10) + seq![spec_hex_digit(n % 10)]
    }
}

// --- string escaping ---

/// One character of a JSON string, escaped: quote and backslash get a
/// backslash, control characters become `\u00XX`, all else stands as is.
pub open spec fn spec_escape_char(c: char) -> Seq<char> {
    if c == '"' {
        seq!['\\', '"']
    } else if c == '\\' {
        seq!['\\', '\\']
    } else if (c as u32) < 0x20 {
        seq![
            '\\',
            'u',
            '0',
            '0',
            spec_hex_digit(((c as u32) / 16) as nat),
            spec_hex_digit(((c as u32) % 16) as nat),
        ]
    } else {
        seq![c]
    }
}

/// A whole string escaped, character by character.
pub open spec fn spec_escape(s: Seq<char>) -> Seq<char>
    decreases s.len(),
{
    if s.len() == 0 {
        Seq::empty()
    } else {
        spec_escape_char(s[0]) + spec_escape(s.drop_first())
    }
}

// --- the serialised shapes ---

/// The object `{"data":"<escaped>"}`.
pub open spec fn spec_serialize_data(data: Seq<char>) -> Seq<char> {
    seq!['{', '"', 'd', 'a', 't', 'a', '"', ':', '"'] + spec_escape(data) + seq!['"', '}']
}

/// The object `{"id":<id>,"name":"<escaped>"}`.
pub open spec fn spec_serialize_user(id: nat, name: Seq<char>) -> Seq<char> {
    seq!['{', '"', 'i', 'd', '"', ':'] + spec_dec_digits(id) + seq![',', '"', 'n', 'a', 'm', 'e', '"', ':', '"']
        + spec_escape(name) + seq!['"', '}']
}

/// The envelope `{"user":<user>,"body":<body>}`.
pub open spec fn spec_serialize_with_auth(id: nat, name: Seq<char>, data: Seq<char>) -> Seq<char> {
    seq!['{', '"', 'u', 's', 'e', 'r', '"', ':'] + spec_serialize_user(id, name) + seq![',', '"', 'b', 'o', 'd', 'y', '"', ':']
        + spec_serialize_data(data) + seq!['}']
}

// --- trusted edges ---

/// Relies on `String::push`: appends the one character to the end of the string.
#[verifier::external_body]
pub(crate) fn push_char(s: &mut String, c: char)
    ensures
        final(s)@ == old(s)@.push(c),
{
    s.push(c);
}

/// Relies on `char::from_u32`: `Some` exactly for Unicode scalar values,
/// that is every value up to 0x10FFFF outside the surrogate range.
#[verifier::external_body]
fn char_from_u32(v: u32) -> (r: Option<char>)
    ensures
        r == (if v < 0xD800 || (0xE000 <= v && v <= 0x10FFFF) {
            Some(v as char)
        } else {
            None::<char>
        }),
{
    char::from_u32(v)
}

// --- executable serialisation ---

/// The characters of a string slice, as a vector.
pub(crate) fn str_to_chars(s: &str) -> (r: Vec<char>)
    ensures
        r@ == s@,
{
    let n = s.unicode_len();
    let mut v: Vec<char> = Vec::new();
    let mut i: usize = 0;
    while i < n
        invariant
            i <= n,
            n == s@.len(),
            v@ == s@.take(i as int),
        decreases n - i,
    {
        let c = s.get_char(i);
        v.push(c);
        i = i + 1;
        proof {
            assert(v@ =~= s@.take(i as int));
        }
    }
    proof {
        assert(s@.take(n as int) =~= s@);
    }
    v
}

fn hex_digit(v: u8) -> (r: char)
    requires
        v < 16,
    ensures
        r == spec_hex_digit(v as nat),
{
    if v == 0 {
        '0'
    } else if v == 1 {
        '1'
    } else if v == 2 {
        '2'
    } else if v == 3 {
        '3'
    } else if v == 4 {
        '4'
    } else if v == 5 {
        '5'
    } else if v == 6 {
        '6'
    } else if v == 7 {
        '7'
    } else if v == 8 {
        '8'
    } else if v == 9 {
        '9'
    } else if v == 10 {
        'a'
    } else if v == 11 {
        'b'
    } else if v == 12 {
        'c'
    } else if v == 13 {
        'd'
    } else if v == 14 {
        'e'
    } else {
        'f'
    }
}

fn escape_char(c: char) -> (r: String)
    ensures
        r@ == spec_escape_char(c),
{
    let mut s = String::new();
    let u = c as u32;
    if c == '"' {
        push_char(&mut s, '\\');
        push_char(&mut s, '"');
    } else if c == '\\' {
        push_char(&mut s, '\\');
        push_char(&mut s, '\\');
    } else if u < 0x20 {
        push_char(&mut s, '\\');
        push_char(&mut s, 'u');
        push_char(&mut s, '0');
        push_char(&mut s, '0');
        push_char(&mut s, hex_digit((u / 16) as u8));
        push_char(&mut s, hex_digit((u % 16) as u8));
    } else {
        push_char(&mut s, c);
    }
    proof {
        assert(s@ =~= spec_escape_char(c));
    }
    s
}

fn escape_from(s: &Vec<char>, i: usize) -> (r: String)
    requires
        i <= s.len(),
    ensures
        r@ == spec_escape(s@.skip(i as int)),
    decreases s.len() - i,
{
    if i == s.len() {
        proof {
            assert(s@.skip(i as int) =~= Seq::<char>::empty());
        }
        String::new()
    } else {
        let mut head = escape_char(s[i]);
        let rest = escape_from(s, i + 1);
        head.append(rest.as_str());
        proof {
            let t = s@.skip(i as int);
            assert(t[0] == s@[i as int]);
            assert(t.drop_first() =~= s@.skip(i as int + 1));
        }
        head
    }
}

fn u64_to_string(n: u64) -> (r: String)
    ensures
        r@ == spec_dec_digits(n as nat),
    decreases n,
{
    if n < 10 {
        let mut s = String::new();
        push_char(&mut s, hex_digit(n as u8));
        proof {
            assert(s@ =~= spec_dec_digits(n as nat));
        }
        s
    } else {
        let mut s = u64_to_string(n / 10);
        push_char(&mut s, hex_digit((n % 10) as u8));
        proof {
            assert(s@ =~= spec_dec_digits(n as nat));
        }
        s
    }
}

/// Writes the object `{"data":"..."}` for one string value.
pub fn serialize_data(data: &str) -> (r: String)
    ensures
        r@ == spec_serialize_data(data@),
{
    let chars = str_to_chars(data);
    let mut s = String::from_str("{\"data\":\"");
    let esc = escape_from(&chars, 0);
    s.append(esc.as_str());
    s.append("\"}");
    proof {
        reveal_strlit("{\"data\":\"");
        reveal_strlit("\"}");
        assert(chars@.skip(0) =~= chars@);
        assert(s@ =~= spec_serialize_data(data@));
    }
    s
}

/// Writes the object `{"id":...,"name":"..."}` for one user record.
pub fn serialize_user(id: u64, name: &str) -> (r: String)
    ensures
        r@ == spec_serialize_user(id as nat, name@),
{
    let chars = str_to_chars(name);
    let mut s = String::from_str("{\"id\":");
    let digits = u64_to_string(id);
    s.append(digits.as_str());
    s.append(",\"name\":\"");
    let esc = escape_from(&chars, 0);
    s.append(esc.as_str());
    s.append("\"}");
    proof {
        reveal_strlit("{\"id\":");
        reveal_strlit(",\"name\":\"");
        reveal_strlit("\"}");
        assert(chars@.skip(0) =~= chars@);
        assert(s@ =~= spec_serialize_user(id as nat, name@));
    }
    s
}

/// Writes the envelope `{"user":...,"body":...}` for an authenticated echo.
pub fn serialize_with_auth(id: u64, name: &str, data: &str) -> (r: String)
    ensures
        r@ == spec_serialize_with_auth(id as nat, name@, data@),
{
    let mut s = String::from_str("{\"user\":");
    let user = serialize_user(id, name);
    s.append(user.as_str());
    s.append(",\"body\":");
    let body = serialize_data(data);
    s.append(body.as_str());
    s.append("}");
    proof {
        reveal_strlit("{\"user\":");
        reveal_strlit(",\"body\":");
        reveal_strlit("}");
        assert(s@ =~= spec_serialize_with_auth(id as nat, name@, data@));
    }
    s
}

// --- parsing the data object ---

/// JSON insignificant whitespace.
pub open spec fn spec_is_ws(c: char) -> bool {
    c == ' ' || c == '\t' || c == '\n' || c == '\r'
}

/// The first position at or after `i` that does not hold whitespace.
pub open spec fn spec_skip_ws(s: Seq<char>, i: int) -> int
    decreases s.len() - i,
{
    if 0 <= i && i < s.len() && spec_is_ws(s[i]) {
        spec_skip_ws(s, i + 1)
    } else {
        i
    }
}

/// What a single-character escape stands for, if it is one.
pub open spec fn spec_unescape_simple(e: char) -> Option<char> {
    if e == '"' {
        Some('"')
    } else if e == '\\' {
        Some('\\')
    } else if e == '/' {
        Some('/')
    } else if e == 'n' {
        Some('\n')
    } else if e == 't' {
        Some('\t')
    } else if e == 'r' {
        Some('\r')
    } else if e == 'b' {
        Some('\u{8}')
    } else if e == 'f' {
        Some('\u{c}')
    } else {
        None
    }
}

/// The value of the four hexadecimal digits at `i`, if they are ones.
pub open spec fn spec_hex4(s: Seq<char>, i: int) -> Option<nat> {
    if 0 <= i && i + 4 <= s.len() {
        match (spec_hex_val(s[i]), spec_hex_val(s[i + 1]), spec_hex_val(s[i + 2]), spec_hex_val(
            s[i + 3],
        )) {
            (Some(a), Some(b), Some(c), Some(d)) => Some(
                ((a * 4096) + (b * 256) + (c * 16) + d) as nat,
            ),
            _ => None,
        }
    } else {
        None
    }
}

/// Reads the rest of a JSON string, from just after the opening quote to a
/// closing quote, resolving escapes; gives the content and the position
/// after the closing quote. Unescaped control characters, lone backslashes,
/// bad hex and surrogate `\u` values are refused.
pub open spec fn spec_parse_string_rest(s: Seq<char>, i: int) -> Option<(Seq<char>, int)>
    decreases s.len() - i,
{
    if i < 0 || i >= s.len() {
        None
    } else if s[i] == '"' {
        Some((Seq::empty(), i + 1))
    } else if s[i] == '\\' {
        if i + 1 >= s.len() {
            None
        } else {
            match spec_unescape_simple(s[i + 1]) {
                Some(u) => match spec_parse_string_rest(s, i + 2) {
                    Some((t, j)) => Some((seq![u] + t, j)),
                    None => None,
                },
                None => if s[i + 1] == 'u' {
                    match spec_hex4(s, i + 2) {
                        Some(v) => if v < 0xD800 || (0xE000 <= v && v <= 0x10FFFF) {
                            match spec_parse_string_rest(s, i + 6) {
                                Some((t, j)) => Some((seq![(v as u32) as char] + t, j)),
                                None => None,
                            }
                        } else {
                            None
                        },
                        None => None,
                    }
                } else {
                    None
                },
            }
        }
    } else if (s[i] as u32) < 0x20 {
        None
    } else {
        match spec_parse_string_rest(s, i + 1) {
            Some((t, j)) => Some((seq![s[i]] + t, j)),
            None => None,
        }
    }
}

proof fn lemma_parse_string_rest_bounds(s: Seq<char>, i: int)
    ensures
        match spec_parse_string_rest(s, i) {
            Some((t, j)) => i < j <= s.len(),
            None => true,
        },
    decreases s.len() - i,
{
    if 0 <= i && i < s.len() {
        lemma_parse_string_rest_bounds(s, i + 1);
        if i + 2 <= s.len() {
            lemma_parse_string_rest_bounds(s, i + 2);
        }
        if i + 6 <= s.len() {
            lemma_parse_string_rest_bounds(s, i + 6);
        }
    }
}

/// Reads a whole body as the one object `{"data":"<string>"}`, with optional
/// whitespace between tokens, and gives the string. Anything else is refused.
pub open spec fn spec_parse_data(s: Seq<char>) -> Option<Seq<char>> {
    let i = spec_skip_ws(s, 0);
    if i < s.len() && s[i] == '{' {
        let j = spec_skip_ws(s, i + 1);
        if j + 6 <= s.len() && s[j] == '"' && s[j + 1] == 'd' && s[j + 2] == 'a' && s[j + 3] == 't'
            && s[j + 4] == 'a' && s[j + 5] == '"' {
            let k = spec_skip_ws(s, j + 6);
            if k < s.len() && s[k] == ':' {
                let m = spec_skip_ws(s, k + 1);
                if m < s.len() && s[m] == '"' {
                    match spec_parse_string_rest(s, m + 1) {
                        Some((t, p)) => {
                            let q = spec_skip_ws(s, p);
                            if q < s.len() && s[q] == '}' && spec_skip_ws(s, q + 1) == s.len() {
                                Some(t)
                            } else {
                                None
                            }
                        },
                        None => None,
                    }
                } else {
                    None
                }
            } else {
                None
            }
        } else {
            None
        }
    } else {
        None
    }
}

// --- the round trip ---

/// Reading an escaped string back gives the original: inside a larger text,
/// the characters of `spec_escape(d)` followed by a closing quote parse to
/// exactly `d`, ending just after that quote.
proof fn lemma_parse_escaped(d: Seq<char>, a: Seq<char>, b: Seq<char>)
    ensures
        spec_parse_string_rest(a + spec_escape(d) + seq!['"'] + b, a.len() as int) == Some(
            (d, a.len() + spec_escape(d).len() + 1 as int),
        ),
    decreases d.len(),
{
    let s = a + spec_escape(d) + seq!['"'] + b;
    let i = a.len() as int;
    if d.len() == 0 {
        assert(spec_escape(d) =~= Seq::<char>::empty());
        assert(s[i] == '"');
        assert(d =~= Seq::<char>::empty());
    } else {
        let c = d[0];
        let d2 = d.drop_first();
        let ec = spec_escape_char(c);
        assert(spec_escape(d) == ec + spec_escape(d2));
        let a2 = a + ec;
        lemma_parse_escaped(d2, a2, b);
        assert(a2 + spec_escape(d2) + seq!['"'] + b =~= s);
        let j: int = a.len() + spec_escape(d).len() + 1 as int;
        assert(seq![c] + d2 =~= d);
        if c == '"' {
            assert(s[i] == '\\');
            assert(s[i + 1] == '"');
            assert(a2.len() == i + 2);
            assert(spec_parse_string_rest(s, i) == Some((d, j)));
        } else if c == '\\' {
            assert(s[i] == '\\');
            assert(s[i + 1] == '\\');
            assert(a2.len() == i + 2);
            assert(spec_parse_string_rest(s, i) == Some((d, j)));
        } else if (c as u32) < 0x20 {
            let u = c as u32;
            assert(s[i] == '\\');
            assert(s[i + 1] == 'u');
            assert(s[i + 2] == '0');
            assert(s[i + 3] == '0');
            assert(s[i + 4] == spec_hex_digit((u / 16) as nat));
            assert(s[i + 5] == spec_hex_digit((u % 16) as nat));
            lemma_hex_digit_val((u / 16) as nat);
            lemma_hex_digit_val((u % 16) as nat);
            assert((u / 16) * 16 + (u % 16) == u);
            assert(spec_hex4(s, i + 2) == Some(u as nat));
            vstd::utf8::char_u32_cast(c, u);
            assert(a2.len() == i + 6);
            assert(spec_parse_string_rest(s, i) == Some((d, j)));
        } else {
            assert(s[i] == c);
            assert(a2.len() == i + 1);
            assert(spec_parse_string_rest(s, i) == Some((d, j)));
        }
    }
}

/// Round trip: any string, written as `{"data":"..."}` by the serialiser,
/// parses back to itself.
pub proof fn lemma_parse_serialize_data(data: Seq<char>)
    ensures
        spec_parse_data(spec_serialize_data(data)) == Some(data),
{
    let pre = seq!['{', '"', 'd', 'a', 't', 'a', '"', ':', '"'];
    let s = spec_serialize_data(data);
    assert(s =~= pre + spec_escape(data) + seq!['"'] + seq!['}']);
    lemma_parse_escaped(data, pre, seq!['}']);
    assert(s[0] == '{');
    assert(spec_skip_ws(s, 0) == 0);
    assert(s[1] == '"');
    assert(spec_skip_ws(s, 1) == 1);
    assert(s[2] == 'd');
    assert(s[3] == 'a');
    assert(s[4] == 't');
    assert(s[5] == 'a');
    assert(s[6] == '"');
    assert(s[7] == ':');
    assert(spec_skip_ws(s, 7) == 7);
    assert(s[8] == '"');
    assert(spec_skip_ws(s, 8) == 8);
    let p: int = 9 + spec_escape(data).len() + 1 as int;
    assert(spec_parse_string_rest(s, 9) == Some((data, p)));
    assert(s[p] == '}');
    assert(spec_skip_ws(s, p) == p);
    assert(spec_skip_ws(s, p + 1 as int) == s.len());
}

// --- executable parsing ---

fn hex_val(c: char) -> (r: Option<u8>)
    ensures
        match r {
            Some(v) => spec_hex_val(c) == Some(v as nat) && v < 16,
            None => spec_hex_val(c) == None::<nat>,
        },
{
    if c == '0' {
        Some(0)
    } else if c == '1' {
        Some(1)
    } else if c == '2' {
        Some(2)
    } else if c == '3' {
        Some(3)
    } else if c == '4' {
        Some(4)
    } else if c == '5' {
        Some(5)
    } else if c == '6' {
        Some(6)
    } else if c == '7' {
        Some(7)
    } else if c == '8' {
        Some(8)
    } else if c == '9' {
        Some(9)
    } else if c == 'a' || c == 'A' {
        Some(10)
    } else if c == 'b' || c == 'B' {
        Some(11)
    } else if c == 'c' || c == 'C' {
        Some(12)
    } else if c == 'd' || c == 'D' {
        Some(13)
    } else if c == 'e' || c == 'E' {
        Some(14)
    } else if c == 'f' || c == 'F' {
        Some(15)
    } else {
        None
    }
}

fn skip_ws(s: &Vec<char>, i: usize) -> (r: usize)
    requires
        i <= s.len(),
    ensures
        r as int == spec_skip_ws(s@, i as int),
        i <= r <= s.len(),
    decreases s.len() - i,
{
    if i < s.len() {
        let c = s[i];
        if c == ' ' || c == '\t' || c == '\n' || c == '\r' {
            skip_ws(s, i + 1)
        } else {
            i
        }
    } else {
        i
    }
}

fn unescape_simple(e: char) -> (r: Option<char>)
    ensures
        r == spec_unescape_simple(e),
{
    if e == '"' {
        Some('"')
    } else if e == '\\' {
        Some('\\')
    } else if e == '/' {
        Some('/')
    } else if e == 'n' {
        Some('\n')
    } else if e == 't' {
        Some('\t')
    } else if e == 'r' {
        Some('\r')
    } else if e == 'b' {
        Some('\u{8}')
    } else if e == 'f' {
        Some('\u{c}')
    } else {
        None
    }
}

fn parse_string_rest(s: &Vec<char>, i: usize) -> (r: Option<(Vec<char>, usize)>)
    requires
        i <= s.len(),
    ensures
        match (r, spec_parse_string_rest(s@, i as int)) {
            (Some((t, j)), Some((st, sj))) => t@ == st && j as int == sj && j <= s.len(),
            (None, None) => true,
            _ => false,
        },
    decreases s.len() - i,
{
    proof {
        lemma_parse_string_rest_bounds(s@, i as int);
    }
    if i >= s.len() {
        return None;
    }
    let c = s[i];
    if c == '"' {
        let v: Vec<char> = Vec::new();
        proof {
            assert(v@ =~= Seq::<char>::empty());
        }
        Some((v, i + 1))
    } else if c == '\\' {
        if i + 1 >= s.len() {
            return None;
        }
        let e = s[i + 1];
        match unescape_simple(e) {
            Some(u) => match parse_string_rest(s, i + 2) {
                Some((t, j)) => {
                    let mut t2 = t;
                    t2.insert(0, u);
                    proof {
                        assert(t2@ =~= seq![u] + t@);
                    }
                    Some((t2, j))
                },
                None => None,
            },
            None => {
                if e != 'u' {
                    return None;
                }
                if s.len() - i < 6 {
                    return None;
                }
                let va = hex_val(s[i + 2]);
                let vb = hex_val(s[i + 3]);
                let vc = hex_val(s[i + 4]);
                let vd = hex_val(s[i + 5]);
                match (va, vb, vc, vd) {
                    (Some(a), Some(b), Some(cc), Some(d)) => {
                        let v: u32 = (a as u32) * 4096 + (b as u32) * 256 + (cc as u32) * 16 + (
                        d as u32);
                        match char_from_u32(v) {
                            Some(ch) => match parse_string_rest(s, i + 6) {
                                Some((t, j)) => {
                                    let mut t2 = t;
                                    t2.insert(0, ch);
                                    proof {
                                        assert(t2@ =~= seq![ch] + t@);
                                    }
                                    Some((t2, j))
                                },
                                None => None,
                            },
                            None => None,
                        }
                    },
                    _ => None,
                }
            },
        }
    } else if (c as u32) < 0x20 {
        None
    } else {
        match parse_string_rest(s, i + 1) {
            Some((t, j)) => {
                let mut t2 = t;
                t2.insert(0, c);
                proof {
                    assert(t2@ =~= seq![c] + t@);
                }
                Some((t2, j))
            },
            None => None,
        }
    }
}

/// The characters of a vector, as one string.
fn chars_to_string(v: &Vec<char>) -> (r: String)
    ensures
        r@ == v@,
{
    let mut s = String::new();
    let mut i: usize = 0;
    while i < v.len()
        invariant
            i <= v.len(),
            s@ == v@.take(i as int),
        decreases v.len() - i,
    {
        push_char(&mut s, v[i]);
        i = i + 1;
        proof {
            assert(s@ =~= v@.take(i as int));
        }
    }
    proof {
        assert(v@.take(v.len() as int) =~= v@);
    }
    s
}

/// Reads a request body as the one object `{"data":"<string>"}` and gives
/// the string, or nothing where the body is not of that shape.
pub fn parse_data(text: &str) -> (r: Option<String>)
    ensures
        match r {
            Some(d) => spec_parse_data(text@) == Some(d@),
            None => spec_parse_data(text@) == None::<Seq<char>>,
        },
{
    let s = str_to_chars(text);
    let i = skip_ws(&s, 0);
    if !(i < s.len() && s[i] == '{') {
        return None;
    }
    let j = skip_ws(&s, i + 1);
    if !(s.len() - j >= 6 && s[j] == '"' && s[j + 1] == 'd' && s[j + 2] == 'a' && s[j + 3] == 't'
        && s[j + 4] == 'a' && s[j + 5] == '"') {
        return None;
    }
    let k = skip_ws(&s, j + 6);
    if !(k < s.len() && s[k] == ':') {
        return None;
    }
    let m = skip_ws(&s, k + 1);
    if !(m < s.len() && s[m] == '"') {
        return None;
    }
    match parse_string_rest(&s, m + 1) {
        Some((t, p)) => {
            let q = skip_ws(&s, p);
            if q < s.len() && s[q] == '}' {
                let e = skip_ws(&s, q + 1);
                if e == s.len() {
                    Some(chars_to_string(&t))
                } else {
                    None
                }
            } else {
                None
            }
        },
        None => None,
    }
}

} // verus!
