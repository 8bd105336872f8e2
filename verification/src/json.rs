//! The W3C WebDriver wire form of an element reference: a JSON object with a
//! single well-known key whose value is the element id, e.g.
//! `{"element-6066-11e4-a52e-4f735466cecf":"abc"}`.
//!
//! This module states that form exactly, over sequences of characters, and
//! provides a verified renderer and parser for it. The escaping rules mirror
//! the compact JSON string encoding: `"` and `\` get a backslash escape,
//! the five control characters with short forms get those, every other
//! control character below 0x20 becomes `\u00` followed by two lowercase
//! hex digits, and all remaining characters stand for themselves.

use vstd::prelude::*;

verus! {

/// The hex digit character for a value below 16, lowercase.
pub open spec fn hex_digit(n: int) -> char {
    if n == 0 { '0' } else if n == 1 { '1' } else if n == 2 { '2' } else if n == 3 { '3' }
    else if n == 4 { '4' } else if n == 5 { '5' } else if n == 6 { '6' } else if n == 7 { '7' }
    else if n == 8 { '8' } else if n == 9 { '9' } else if n == 10 { 'a' } else if n == 11 { 'b' }
    else if n == 12 { 'c' } else if n == 13 { 'd' } else if n == 14 { 'e' } else { 'f' }
}

/// The value of a lowercase hex digit character, or -1 where it is none.
pub open spec fn hex_val(c: char) -> int {
    if c == '0' { 0 } else if c == '1' { 1 } else if c == '2' { 2 } else if c == '3' { 3 }
    else if c == '4' { 4 } else if c == '5' { 5 } else if c == '6' { 6 } else if c == '7' { 7 }
    else if c == '8' { 8 } else if c == '9' { 9 } else if c == 'a' { 10 } else if c == 'b' { 11 }
    else if c == 'c' { 12 } else if c == 'd' { 13 } else if c == 'e' { 14 } else if c == 'f' { 15 }
    else { -1 }
}

pub open spec fn is_hex_lower(c: char) -> bool {
    hex_val(c) >= 0
}

/// The escape letter of a control character that has a two-character escape.
pub open spec fn short_escape(c: char) -> Option<char> {
    if c == '\u{8}' { Some('b') }
    else if c == '\t' { Some('t') }
    else if c == '\n' { Some('n') }
    else if c == '\u{c}' { Some('f') }
    else if c == '\r' { Some('r') }
    else { None }
}

/// The control character behind a two-character escape letter.
pub open spec fn short_unescape(e: char) -> Option<char> {
    if e == 'b' { Some('\u{8}') }
    else if e == 't' { Some('\t') }
    else if e == 'n' { Some('\n') }
    else if e == 'f' { Some('\u{c}') }
    else if e == 'r' { Some('\r') }
    else { None }
}

/// What one character of a JSON string becomes in its compact encoding.
pub open spec fn escaped_char(c: char) -> Seq<char> {
    if c == '"' {
        seq!['\\', '"']
    } else if c == '\\' {
        seq!['\\', '\\']
    } else if short_escape(c) is Some {
        seq!['\\', short_escape(c).unwrap()]
    } else if (c as int) < 0x20 {
        seq!['\\', 'u', '0', '0', hex_digit((c as int) / 16), hex_digit((c as int) % 16)]
    } else {
        seq![c]
    }
}

/// The compact JSON string encoding of a sequence of characters.
pub open spec fn escaped(s: Seq<char>) -> Seq<char>
    decreases s.len(),
{
    if s.len() == 0 {
        Seq::empty()
    } else {
        escaped_char(s[0]) + escaped(s.drop_first())
    }
}

pub open spec fn ref_prefix() -> Seq<char> {
    "{\"element-6066-11e4-a52e-4f735466cecf\":\""@
}

pub open spec fn ref_suffix() -> Seq<char> {
    "\"}"@
}

/// The full wire form of an element reference with the given id.
pub open spec fn element_ref_json(id: Seq<char>) -> Seq<char> {
    ref_prefix() + escaped(id) + ref_suffix()
}

pub open spec fn prepend(c: char, rest: Option<Seq<char>>) -> Option<Seq<char>> {
    match rest {
        Some(t) => Some(seq![c] + t),
        None => None,
    }
}

/// The inverse of `escaped`: decodes a compact JSON string body, and rejects
/// anything `escaped` cannot have produced (a bare quote or control
/// character, an unknown escape, a non-canonical `\u` form).
pub open spec fn unescape(s: Seq<char>) -> Option<Seq<char>>
    decreases s.len(),
{
    if s.len() == 0 {
        Some(Seq::empty())
    } else if s[0] == '\\' {
        if s.len() < 2 {
            None
        } else if s[1] == '"' || s[1] == '\\' {
            prepend(s[1], unescape(s.skip(2)))
        } else if short_unescape(s[1]) is Some {
            prepend(short_unescape(s[1]).unwrap(), unescape(s.skip(2)))
        } else if s[1] == 'u' {
            if s.len() >= 6 && s[2] == '0' && s[3] == '0' && is_hex_lower(s[4]) && is_hex_lower(s[5]) {
                let n = hex_val(s[4]) * 16 + hex_val(s[5]);
                if n < 0x20 && short_escape(n as char) is None {
                    prepend(n as char, unescape(s.skip(6)))
                } else {
                    None
                }
            } else {
                None
            }
        } else {
            None
        }
    } else if s[0] == '"' || (s[0] as int) < 0x20 {
        None
    } else {
        prepend(s[0], unescape(s.skip(1)))
    }
}

/// What a text must look like to denote an element reference, and the id it
/// then denotes: the well-known prefix, an encoded id, and the closing
/// quote and brace.
pub open spec fn spec_parse_element_ref(s: Seq<char>) -> Option<Seq<char>> {
    if s.len() >= ref_prefix().len() + ref_suffix().len()
        && s.subrange(0, ref_prefix().len() as int) == ref_prefix()
        && s.subrange(s.len() - ref_suffix().len(), s.len() as int) == ref_suffix() {
        unescape(s.subrange(ref_prefix().len() as int, s.len() - ref_suffix().len()))
    } else {
        None
    }
}

/// The element id a JSON value denotes, where the value is the W3C element
/// reference object; `None` on any other value.
pub fn element_id_from_value(v: &serde_json::Value) -> (r: Option<String>)
    ensures
        (match r {
            Some(id) => spec_parse_element_ref(json_text_of(*v)) == Some(id@),
            None => spec_parse_element_ref(json_text_of(*v)) is None,
        }),
{
    let text = match value_to_text(v) {
        Ok(t) => t,
        Err(_) => {
            return None;
        },
    };
    parse_element_ref(text.as_str())
}

/// The element ids a JSON value denotes, where the value is an array of
/// W3C element reference objects; `None` on any other value. This is the
/// value-level core of `ScriptRet::get_elements`.
pub fn element_ids_from_value(v: serde_json::Value) -> (r: Option<Vec<String>>)
    ensures
        r is Some <==> (json_is_array(v) && (forall|j: int|
            0 <= j < json_items_of(v).len() ==> spec_parse_element_ref(
                json_text_of(#[trigger] json_items_of(v)[j]),
            ) is Some)),
        (r matches Some(ids) ==> ids@.len() == json_items_of(v).len() && (forall|j: int|
            0 <= j < ids@.len() ==> Some(#[trigger] ids@[j]@) == spec_parse_element_ref(
                json_text_of(json_items_of(v)[j]),
            ))),
{
    let ghost gval = v;
    let mut items = match value_into_array(v) {
        Ok(it) => it,
        Err(_) => {
            return None;
        },
    };
    let ghost orig = items@;
    let mut out: Vec<String> = Vec::new();
    while items.len() > 0
        invariant
            gval == v,
            json_is_array(gval),
            orig == json_items_of(gval),
            out@.len() + items@.len() == orig.len(),
            items@ == orig.skip(out@.len() as int),
            forall|j: int|
                0 <= j < out@.len() ==> Some(#[trigger] out@[j]@) == spec_parse_element_ref(
                    json_text_of(orig[j]),
                ),
        decreases items@.len(),
    {
        let ghost k = out@.len() as int;
        let item = items.remove(0);
        proof {
            assert(item == orig[k]);
            assert(items@ =~= orig.skip(k + 1));
        }
        match element_id_from_value(&item) {
            Some(id) => {
                out.push(id);
            },
            None => {
                proof {
                    assert(spec_parse_element_ref(json_text_of(json_items_of(gval)[k])) is None);
                }
                return None;
            },
        }
    }
    proof {
        assert(out@.len() == orig.len());
        assert forall|j: int|
            0 <= j < json_items_of(v).len() implies spec_parse_element_ref(
            json_text_of(#[trigger] json_items_of(v)[j]),
        ) is Some by {
            assert(Some(out@[j]@) == spec_parse_element_ref(json_text_of(orig[j])));
        }
    }
    Some(out)
}

/// `hex_digit` and `hex_val` invert each other.
proof fn lemma_hex_digit_val(m: int)
    requires
        0 <= m < 16,
    ensures
        hex_val(hex_digit(m)) == m,
        is_hex_lower(hex_digit(m)),
{
}

/// Decoding undoes encoding, one character at a time: the decoder, applied
/// to `escaped_char(c)` followed by anything, peels off exactly `c`.
proof fn lemma_unescape_escaped_char(c: char, t: Seq<char>)
    ensures
        unescape(escaped_char(c) + t) == prepend(c, unescape(t)),
{
    let x = escaped_char(c) + t;
    if c == '"' || c == '\\' {
        assert(x.skip(2) =~= t);
    } else if short_escape(c) is Some {
        assert(x.skip(2) =~= t);
        assert(short_unescape(x[1]) == Some(c));
    } else if (c as int) < 0x20 {
        let n = c as int;
        vstd::arithmetic::div_mod::lemma_fundamental_div_mod(n, 16);
        lemma_hex_digit_val(n / 16);
        lemma_hex_digit_val(n % 16);
        assert(x.len() >= 6 && x[0] == '\\' && x[1] == 'u' && x[2] == '0' && x[3] == '0');
        assert(hex_val(x[4]) * 16 + hex_val(x[5]) == n);
        assert(((c as int) as char) == c);
        assert(x.skip(6) =~= t);
    } else {
        assert(x.skip(1) =~= t);
    }
}

/// Decoding undoes encoding: `unescape` recovers any encoded sequence.
pub proof fn lemma_unescape_escaped(id: Seq<char>)
    ensures
        unescape(escaped(id)) == Some(id),
    decreases id.len(),
{
    if id.len() == 0 {
        assert(escaped(id) =~= Seq::<char>::empty());
    } else {
        lemma_unescape_escaped(id.drop_first());
        lemma_unescape_escaped_char(id[0], escaped(id.drop_first()));
        assert(seq![id[0]] + id.drop_first() =~= id);
    }
}

/// Round trip: parsing the rendered wire form of an id gives that id back.
pub proof fn lemma_element_ref_round_trip(id: Seq<char>)
    ensures
        spec_parse_element_ref(element_ref_json(id)) == Some(id),
{
    let s = element_ref_json(id);
    assert(s.subrange(0, ref_prefix().len() as int) =~= ref_prefix());
    assert(s.subrange(s.len() - ref_suffix().len(), s.len() as int) =~= ref_suffix());
    assert(s.subrange(ref_prefix().len() as int, s.len() - ref_suffix().len()) =~= escaped(id));
    lemma_unescape_escaped(id);
}

/// `unescape` accepts nothing but the output of `escaped`: a decoded
/// sequence re-encodes to the original text.
pub proof fn lemma_escaped_unescape(m: Seq<char>)
    ensures
        (unescape(m) matches Some(u) ==> m == escaped(u)),
    decreases m.len(),
{
    if unescape(m) is Some {
        let u = unescape(m).unwrap();
        if m.len() == 0 {
            assert(m =~= escaped(u));
        } else if m[0] == '\\' {
            if m[1] == '"' || m[1] == '\\' {
                lemma_escaped_unescape(m.skip(2));
                let u1 = unescape(m.skip(2)).unwrap();
                assert(u == seq![m[1]] + u1);
                assert(u.drop_first() =~= u1);
                assert(escaped_char(m[1]) =~= m.take(2));
                assert(m =~= m.take(2) + m.skip(2));
                assert(m =~= escaped(u));
            } else if short_unescape(m[1]) is Some {
                lemma_escaped_unescape(m.skip(2));
                let c = short_unescape(m[1]).unwrap();
                let u1 = unescape(m.skip(2)).unwrap();
                assert(u == seq![c] + u1);
                assert(u.drop_first() =~= u1);
                assert(short_escape(c) == Some(m[1]));
                assert(escaped_char(c) =~= m.take(2));
                assert(m =~= m.take(2) + m.skip(2));
                assert(m =~= escaped(u));
            } else {
                let n = hex_val(m[4]) * 16 + hex_val(m[5]);
                let c = n as char;
                lemma_escaped_unescape(m.skip(6));
                let u1 = unescape(m.skip(6)).unwrap();
                assert(u == seq![c] + u1);
                assert(u.drop_first() =~= u1);
                assert(0 <= hex_val(m[4]) < 16 && 0 <= hex_val(m[5]) < 16);
                assert((c as int) == n);
                vstd::arithmetic::div_mod::lemma_fundamental_div_mod_converse(
                    n,
                    16,
                    hex_val(m[4]),
                    hex_val(m[5]),
                );
                assert(hex_digit(n / 16) == m[4] && hex_digit(n % 16) == m[5]) by {
                    lemma_hex_val_digit(m[4]);
                    lemma_hex_val_digit(m[5]);
                }
                assert(c != '"' && c != '\\');
                assert(escaped_char(c) =~= m.take(6));
                assert(m =~= m.take(6) + m.skip(6));
                assert(m =~= escaped(u));
            }
        } else {
            lemma_escaped_unescape(m.skip(1));
            let u1 = unescape(m.skip(1)).unwrap();
            assert(u == seq![m[0]] + u1);
            assert(u.drop_first() =~= u1);
            assert(escaped_char(m[0]) =~= m.take(1));
            assert(m =~= m.take(1) + m.skip(1));
            assert(m =~= escaped(u));
        }
    }
}

/// `hex_val` and `hex_digit` invert each other.
proof fn lemma_hex_val_digit(c: char)
    requires
        is_hex_lower(c),
    ensures
        hex_digit(hex_val(c)) == c,
{
}

/// A text that parses as an element reference is the rendered wire form of
/// the id it parses to: the wire form is unambiguous.
pub proof fn lemma_parse_element_ref_sound(s: Seq<char>)
    ensures
        (spec_parse_element_ref(s) matches Some(id) ==> s == element_ref_json(id)),
{
    if spec_parse_element_ref(s) is Some {
        let id = spec_parse_element_ref(s).unwrap();
        let mid = s.subrange(ref_prefix().len() as int, s.len() - ref_suffix().len());
        lemma_escaped_unescape(mid);
        assert(s =~= ref_prefix() + mid + ref_suffix());
    }
}

/// Relies on std's `String::push`: appends one character at the end.
#[verifier::external_body]
fn push_char(s: &mut String, c: char)
    ensures
        final(s)@ == old(s)@.push(c),
{
    s.push(c);
}

/// The hex digit character for a value below 16, lowercase.
fn hex_digit_char(n: u32) -> (r: char)
    requires
        n < 16,
    ensures
        r == hex_digit(n as int),
{
    match n {
        0 => '0', 1 => '1', 2 => '2', 3 => '3',
        4 => '4', 5 => '5', 6 => '6', 7 => '7',
        8 => '8', 9 => '9', 10 => 'a', 11 => 'b',
        12 => 'c', 13 => 'd', 14 => 'e', _ => 'f',
    }
}

/// `escaped` distributes over concatenation.
pub proof fn lemma_escaped_concat(a: Seq<char>, b: Seq<char>)
    ensures
        escaped(a + b) == escaped(a) + escaped(b),
    decreases a.len(),
{
    if a.len() == 0 {
        assert(a + b =~= b);
        assert(escaped(a) + escaped(b) =~= escaped(b));
    } else {
        lemma_escaped_concat(a.drop_first(), b);
        assert((a + b).drop_first() =~= a.drop_first() + b);
        assert(escaped(a + b) =~= escaped(a) + escaped(b));
    }
}

/// The encoding of a single character is `escaped_char`.
pub proof fn lemma_escaped_singleton(c: char)
    ensures
        escaped(seq![c]) == escaped_char(c),
{
    assert(seq![c].drop_first() =~= Seq::<char>::empty());
    assert(escaped(Seq::<char>::empty()) =~= Seq::<char>::empty());
    assert(escaped(seq![c]) == escaped_char(c) + escaped(seq![c].drop_first()));
    assert(escaped(seq![c]) =~= escaped_char(c));
}

/// Appends `escaped_char(c)` to the string being built.
fn append_escaped_char(r: &mut String, c: char)
    ensures
        final(r)@ == old(r)@ + escaped_char(c),
{
    if c == '"' {
        r.append("\\\"");
        proof {
            reveal_strlit("\\\"");
            assert(final(r)@ =~= old(r)@ + escaped_char(c));
        }
    } else if c == '\\' {
        r.append("\\\\");
        proof {
            reveal_strlit("\\\\");
            assert(final(r)@ =~= old(r)@ + escaped_char(c));
        }
    } else if c == '\u{8}' {
        r.append("\\b");
        proof {
            reveal_strlit("\\b");
            assert(final(r)@ =~= old(r)@ + escaped_char(c));
        }
    } else if c == '\t' {
        r.append("\\t");
        proof {
            reveal_strlit("\\t");
            assert(final(r)@ =~= old(r)@ + escaped_char(c));
        }
    } else if c == '\n' {
        r.append("\\n");
        proof {
            reveal_strlit("\\n");
            assert(final(r)@ =~= old(r)@ + escaped_char(c));
        }
    } else if c == '\u{c}' {
        r.append("\\f");
        proof {
            reveal_strlit("\\f");
            assert(final(r)@ =~= old(r)@ + escaped_char(c));
        }
    } else if c == '\r' {
        r.append("\\r");
        proof {
            reveal_strlit("\\r");
            assert(final(r)@ =~= old(r)@ + escaped_char(c));
        }
    } else if (c as u32) < 0x20 {
        let n = c as u32;
        r.append("\\u00");
        push_char(r, hex_digit_char(n / 16));
        push_char(r, hex_digit_char(n % 16));
        proof {
            reveal_strlit("\\u00");
            assert(final(r)@ =~= old(r)@ + escaped_char(c));
        }
    } else {
        push_char(r, c);
        proof {
            assert(final(r)@ =~= old(r)@ + escaped_char(c));
        }
    }
}

#[verifier::external_type_specification]
#[verifier::external_body]
pub struct ExValue(serde_json::Value);

#[verifier::external_type_specification]
#[verifier::external_body]
pub struct ExJsonError(serde_json::Error);

// The compact JSON text of a value, as serialization prints it.
pub uninterp spec fn json_text_of(v: serde_json::Value) -> Seq<char>;

// Whether a JSON value is an array.
pub uninterp spec fn json_is_array(v: serde_json::Value) -> bool;

// The items a JSON array value holds, in order.
pub uninterp spec fn json_items_of(v: serde_json::Value) -> Seq<serde_json::Value>;

/// Relies on serde_json's `to_string`: prints the compact JSON text of the
/// value. On a `Value` it cannot fail: every key of a JSON object is a
/// string, and a `Value` serializes without side conditions.
#[verifier::external_body]
pub(crate) fn value_to_text(v: &serde_json::Value) -> (r: Result<String, serde_json::Error>)
    ensures
        r is Ok,
        (r matches Ok(s) ==> s@ == json_text_of(*v)),
{
    serde_json::to_string(v)
}

/// Relies on serde_json's `from_value` for `Vec<Value>`: succeeds exactly on
/// an array value, handing out its items in order.
#[verifier::external_body]
pub(crate) fn value_into_array(v: serde_json::Value) -> (r: Result<
    Vec<serde_json::Value>,
    serde_json::Error,
>)
    ensures
        r is Ok <==> json_is_array(v),
        (r matches Ok(items) ==> items@ == json_items_of(v)),
{
    serde_json::from_value(v)
}

/// The value of a lowercase hex digit character.
fn hex_val_char(c: char) -> (r: Option<u32>)
    ensures
        (match r {
            Some(v) => hex_val(c) == v && v < 16,
            None => hex_val(c) == -1,
        }),
{
    match c {
        '0' => Some(0), '1' => Some(1), '2' => Some(2), '3' => Some(3),
        '4' => Some(4), '5' => Some(5), '6' => Some(6), '7' => Some(7),
        '8' => Some(8), '9' => Some(9), 'a' => Some(10), 'b' => Some(11),
        'c' => Some(12), 'd' => Some(13), 'e' => Some(14), 'f' => Some(15),
        _ => None,
    }
}

/// The control character with the given value, for values whose escape is
/// the six-character `\u00` form.
fn control_char(v: u32) -> (r: char)
    requires
        v < 0x20,
        v != 8 && v != 9 && v != 10 && v != 12 && v != 13,
    ensures
        r == (v as char),
{
    match v {
        0 => '\u{0}', 1 => '\u{1}', 2 => '\u{2}', 3 => '\u{3}',
        4 => '\u{4}', 5 => '\u{5}', 6 => '\u{6}', 7 => '\u{7}',
        11 => '\u{b}', 14 => '\u{e}', 15 => '\u{f}', 16 => '\u{10}',
        17 => '\u{11}', 18 => '\u{12}', 19 => '\u{13}', 20 => '\u{14}',
        21 => '\u{15}', 22 => '\u{16}', 23 => '\u{17}', 24 => '\u{18}',
        25 => '\u{19}', 26 => '\u{1a}', 27 => '\u{1b}', 28 => '\u{1c}',
        29 => '\u{1d}', 30 => '\u{1e}', 31 => '\u{1f}',
        _ => unreached(),
    }
}

/// The character a two-character escape `\c2` stands for, or `None` where
/// `c2` opens no such escape.
fn unescape_two(c2: char) -> (r: Option<char>)
    ensures
        (match r {
            Some(u) => (if c2 == '"' || c2 == '\\' {
                u == c2
            } else {
                short_unescape(c2) == Some(u)
            }) && c2 != 'u',
            None => c2 == 'u' || (c2 != '"' && c2 != '\\' && short_unescape(c2) is None),
        }),
{
    match c2 {
        '"' => Some('"'),
        '\\' => Some('\\'),
        'b' => Some('\u{8}'),
        't' => Some('\t'),
        'n' => Some('\n'),
        'f' => Some('\u{c}'),
        'r' => Some('\r'),
        _ => None,
    }
}

/// `unescape` of the text still ahead, prefixed by what is already decoded.
pub open spec fn unescape_with(done: Seq<char>, rest: Seq<char>) -> Option<Seq<char>> {
    match unescape(rest) {
        Some(t) => Some(done + t),
        None => None,
    }
}

/// Parses the wire form of an element reference: returns the id it denotes,
/// or `None` where the text is no such form.
pub fn parse_element_ref(s: &str) -> (r: Option<String>)
    ensures
        (match r {
            Some(id) => spec_parse_element_ref(s@) == Some(id@),
            None => spec_parse_element_ref(s@) is None,
        }),
{
    let p = "{\"element-6066-11e4-a52e-4f735466cecf\":\"";
    proof {
        reveal_strlit("{\"element-6066-11e4-a52e-4f735466cecf\":\"");
        reveal_strlit("\"}");
    }
    let n = s.unicode_len();
    let plen = p.unicode_len();
    if n < plen + 2 {
        return None;
    }
    let mut i: usize = 0;
    while i < plen
        invariant
            i <= plen,
            plen == ref_prefix().len(),
            n == s@.len(),
            n >= plen + 2,
            p@ == ref_prefix(),
            forall|j: int| 0 <= j < i ==> s@[j] == ref_prefix()[j],
        decreases plen - i,
    {
        if s.get_char(i) != p.get_char(i) {
            proof {
                assert(s@.subrange(0, plen as int)[i as int] == s@[i as int]);
                assert(s@.subrange(0, plen as int) != ref_prefix());
            }
            return None;
        }
        i = i + 1;
    }
    proof {
        assert(s@.subrange(0, plen as int) =~= ref_prefix());
    }
    let end = n - 2;
    if s.get_char(end) != '"' || s.get_char(n - 1) != '}' {
        proof {
            let suf = s@.subrange(n - 2, n as int);
            assert(suf[0] == s@[n - 2] && suf[1] == s@[n - 1]);
            assert(ref_suffix()[0] == '"' && ref_suffix()[1] == '}');
            assert(s@.subrange(n - 2, n as int) != ref_suffix());
        }
        return None;
    }
    proof {
        assert(s@.subrange(n - 2, n as int) =~= ref_suffix());
        assert(spec_parse_element_ref(s@) == unescape(
            s@.subrange(plen as int, n - 2),
        ));
    }
    let ghost mid = s@.subrange(plen as int, n - 2);
    let mut out = String::new();
    let mut i: usize = plen;
    while i < end
        invariant
            plen <= i <= end,
            end == n - 2,
            n == s@.len(),
            plen == ref_prefix().len(),
            mid == s@.subrange(plen as int, n - 2),
            spec_parse_element_ref(s@) == unescape(mid),
            unescape(mid) == unescape_with(out@, s@.subrange(i as int, end as int)),
        decreases end - i,
    {
        let ghost t = s@.subrange(i as int, end as int);
        let c = s.get_char(i);
        if c == '\\' {
            if end - i < 2 {
                proof {
                    assert(t.len() < 2 && t[0] == '\\');
                    assert(unescape(t) is None);
                }
                return None;
            }
            let c2 = s.get_char(i + 1);
            proof {
                assert(t[1] == c2);
            }
            match unescape_two(c2) {
                Some(u) => {
                    let ghost out0 = out@;
                    push_char(&mut out, u);
                    proof {
                        let t2 = s@.subrange(i + 2, end as int);
                        assert(t.skip(2) =~= t2);
                        assert(unescape(t) == prepend(u, unescape(t2)));
                        assert(out@ =~= out0 + seq![u]);
                        if unescape(t2) is Some {
                            let rest = unescape(t2).unwrap();
                            assert(out0 + (seq![u] + rest) =~= (out0 + seq![u]) + rest);
                        }
                        assert(unescape(mid) == unescape_with(out@, t2));
                    }
                    i = i + 2;
                },
                None => {
                    if c2 != 'u' {
                        proof {
                            assert(unescape(t) is None);
                        }
                        return None;
                    }
                    if end - i < 6 {
                        proof {
                            assert(t.len() < 6);
                            assert(unescape(t) is None);
                        }
                        return None;
                    }
                    proof {
                        assert(t.len() >= 6);
                        assert(t[2] == s@[i + 2] && t[3] == s@[i + 3] && t[4] == s@[i + 4]
                            && t[5] == s@[i + 5]);
                    }
                    if s.get_char(i + 2) != '0' || s.get_char(i + 3) != '0' {
                        proof {
                            assert(unescape(t) is None);
                        }
                        return None;
                    }
                    let h1 = hex_val_char(s.get_char(i + 4));
                    let h2 = hex_val_char(s.get_char(i + 5));
                    match (h1, h2) {
                        (Some(v1), Some(v2)) => {
                            let v = v1 * 16 + v2;
                            if v >= 0x20 || v == 8 || v == 9 || v == 10 || v == 12 || v == 13 {
                                proof {
                                    assert(v >= 0x20 || short_escape(v as char) is Some);
                                    assert(unescape(t) is None);
                                }
                                return None;
                            }
                            let u = control_char(v);
                            let ghost out0 = out@;
                            push_char(&mut out, u);
                            proof {
                                assert(short_escape(v as char) is None);
                                let t6 = s@.subrange(i + 6, end as int);
                                assert(t.skip(6) =~= t6);
                                assert(unescape(t) == prepend(u, unescape(t6)));
                                assert(out@ =~= out0 + seq![u]);
                                if unescape(t6) is Some {
                                    let rest = unescape(t6).unwrap();
                                    assert(out0 + (seq![u] + rest) =~= (out0 + seq![u]) + rest);
                                }
                                assert(unescape(mid) == unescape_with(out@, t6));
                            }
                            i = i + 6;
                        },
                        _ => {
                            proof {
                                assert(!(is_hex_lower(t[4]) && is_hex_lower(t[5])));
                                assert(unescape(t) is None);
                            }
                            return None;
                        },
                    }
                },
            }
        } else if c == '"' {
            proof {
                assert(unescape(t) is None);
            }
            return None;
        } else {
            let cv = c as u32;
            if cv < 0x20 {
                proof {
                    assert(unescape(t) is None);
                }
                return None;
            }
            let ghost out0 = out@;
            push_char(&mut out, c);
            proof {
                assert((t[0] as int) >= 0x20);
                let t1 = s@.subrange(i + 1, end as int);
                assert(t.skip(1) =~= t1);
                assert(unescape(t) == prepend(c, unescape(t1)));
                assert(out@ =~= out0 + seq![c]);
                if unescape(t1) is Some {
                    let rest = unescape(t1).unwrap();
                    assert(out0 + (seq![c] + rest) =~= (out0 + seq![c]) + rest);
                }
                assert(unescape(mid) == unescape_with(out@, t1));
            }
            i = i + 1;
        }
    }
    proof {
        assert(s@.subrange(end as int, end as int) =~= Seq::<char>::empty());
        assert(unescape(Seq::<char>::empty()) == Some(Seq::<char>::empty()));
        assert(out@ + Seq::<char>::empty() =~= out@);
        assert(spec_parse_element_ref(s@) == Some(out@));
    }
    Some(out)
}

/// Renders the wire form of an element reference with the given id.
pub fn render_element_ref(id: &str) -> (r: String)
    ensures
        r@ == element_ref_json(id@),
{
    let mut r = String::from_str("{\"element-6066-11e4-a52e-4f735466cecf\":\"");
    proof {
        assert(r@ =~= ref_prefix() + escaped(id@.take(0)));
    }
    let n = id.unicode_len();
    let mut i: usize = 0;
    while i < n
        invariant
            n == id@.len(),
            i <= n,
            r@ == ref_prefix() + escaped(id@.take(i as int)),
        decreases n - i,
    {
        let c = id.get_char(i);
        append_escaped_char(&mut r, c);
        proof {
            assert(id@.take(i + 1) =~= id@.take(i as int) + seq![id@[i as int]]);
            lemma_escaped_concat(id@.take(i as int), seq![id@[i as int]]);
            lemma_escaped_singleton(id@[i as int]);
            assert(r@ =~= ref_prefix() + escaped(id@.take(i + 1)));
        }
        i = i + 1;
    }
    r.append("\"}");
    proof {
        assert(id@.take(n as int) =~= id@);
        assert(r@ =~= element_ref_json(id@));
    }
    r
}

} // verus!
