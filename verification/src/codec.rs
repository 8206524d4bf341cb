//! The Hash Store's on-disk document: one JSON object holding the
//! path-to-digest map (digests written as lowercase hex, paths with `"` and
//! `\` escaped) and the tracked storage location. Both directions are
//! verified, and decoding what encoding produced yields the original store.

use vstd::prelude::*;

use crate::hash_store::copy_bytes;
use crate::hash_store::unique_paths;
use crate::hash_store::HashEntry;
use crate::hash_store::HashStorage;
use crate::text::chars_to_string;
use crate::text::push_char;
use crate::text::push_str;
use crate::text::str_eq;
use crate::text::str_to_chars;

verus! {

// ---------------------------------------------------------------------------
// The document's fixed parts.
// ---------------------------------------------------------------------------
/// The opening of the document: `{"hashes":{`.
pub open spec fn header_text() -> Seq<char> {
    seq!['{', '"', 'h', 'a', 's', 'h', 'e', 's', '"', ':', '{']
}

/// Between the map and the tracked location: `},"dir_path":"`.
pub open spec fn mid_text() -> Seq<char> {
    seq!['}', ',', '"', 'd', 'i', 'r', '_', 'p', 'a', 't', 'h', '"', ':', '"']
}

/// The closing of the document: `"}`.
pub open spec fn tail_text() -> Seq<char> {
    seq!['"', '}']
}

// ---------------------------------------------------------------------------
// Encoding, as spec functions.
// ---------------------------------------------------------------------------
/// How one character is written inside a JSON string: `"` and `\` get a
/// backslash in front, every other character stands as itself.
pub open spec fn esc_char(c: char) -> Seq<char> {
    if c == '"' || c == '\\' {
        seq!['\\', c]
    } else {
        seq![c]
    }
}

/// A whole string, escaped.
pub open spec fn escape(s: Seq<char>) -> Seq<char>
    decreases s.len(),
{
    if s.len() == 0 {
        Seq::empty()
    } else {
        esc_char(s[0]) + escape(s.drop_first())
    }
}

/// The lowercase hex digit for a value below 16.
pub open spec fn hex_digit(v: int) -> char {
    if v == 0 {
        '0'
    } else if v == 1 {
        '1'
    } else if v == 2 {
        '2'
    } else if v == 3 {
        '3'
    } else if v == 4 {
        '4'
    } else if v == 5 {
        '5'
    } else if v == 6 {
        '6'
    } else if v == 7 {
        '7'
    } else if v == 8 {
        '8'
    } else if v == 9 {
        '9'
    } else if v == 10 {
        'a'
    } else if v == 11 {
        'b'
    } else if v == 12 {
        'c'
    } else if v == 13 {
        'd'
    } else if v == 14 {
        'e'
    } else {
        'f'
    }
}

/// One byte as two hex digits.
pub open spec fn hex_pair(b: u8) -> Seq<char> {
    seq![hex_digit(b as int / 16), hex_digit(b as int % 16)]
}

/// A byte sequence as hex text.
pub open spec fn hex_text(bs: Seq<u8>) -> Seq<char>
    decreases bs.len(),
{
    if bs.len() == 0 {
        Seq::empty()
    } else {
        hex_pair(bs[0]) + hex_text(bs.drop_first())
    }
}

/// One map entry: `"path":"hexdigest"`.
pub open spec fn entry_text(e: (Seq<char>, Seq<u8>)) -> Seq<char> {
    seq!['"'] + escape(e.0) + seq!['"', ':', '"'] + hex_text(e.1) + seq!['"']
}

/// All map entries, comma separated.
pub open spec fn entries_text(s: Seq<(Seq<char>, Seq<u8>)>) -> Seq<char>
    decreases s.len(),
{
    if s.len() == 0 {
        Seq::empty()
    } else if s.len() == 1 {
        entry_text(s[0])
    } else {
        entry_text(s[0]) + seq![','] + entries_text(s.drop_first())
    }
}

/// The whole document for a store with entries `s` and tracked location
/// `dir`.
pub open spec fn encode_text(s: Seq<(Seq<char>, Seq<u8>)>, dir: Seq<char>) -> Seq<char> {
    header_text() + entries_text(s) + mid_text() + escape(dir) + tail_text()
}

// ---------------------------------------------------------------------------
// Append lemmas, used by the encoder's loops.
// ---------------------------------------------------------------------------
pub proof fn lemma_escape_push(a: Seq<char>, c: char)
    ensures
        escape(a.push(c)) == escape(a) + esc_char(c),
    decreases a.len(),
{
    if a.len() == 0 {
        assert(a.push(c).drop_first() =~= Seq::<char>::empty());
        assert(a.push(c)[0] == c);
        assert(escape(a.push(c)) == esc_char(c) + escape(Seq::<char>::empty()));
        assert(esc_char(c) + Seq::<char>::empty() =~= esc_char(c));
        assert(escape(a) + esc_char(c) =~= esc_char(c));
    } else {
        assert(a.push(c).drop_first() =~= a.drop_first().push(c));
        lemma_escape_push(a.drop_first(), c);
        assert(escape(a.push(c)) == esc_char(a[0]) + (escape(a.drop_first()) + esc_char(c)));
        assert(esc_char(a[0]) + (escape(a.drop_first()) + esc_char(c)) =~= (esc_char(a[0]) + escape(
            a.drop_first(),
        )) + esc_char(c));
    }
}

pub proof fn lemma_hex_text_push(a: Seq<u8>, b: u8)
    ensures
        hex_text(a.push(b)) == hex_text(a) + hex_pair(b),
    decreases a.len(),
{
    if a.len() == 0 {
        assert(a.push(b).drop_first() =~= Seq::<u8>::empty());
        assert(a.push(b)[0] == b);
        assert(hex_text(a.push(b)) == hex_pair(b) + hex_text(Seq::<u8>::empty()));
        assert(hex_pair(b) + Seq::<char>::empty() =~= hex_pair(b));
        assert(hex_text(a) + hex_pair(b) =~= hex_pair(b));
    } else {
        assert(a.push(b).drop_first() =~= a.drop_first().push(b));
        lemma_hex_text_push(a.drop_first(), b);
        assert(hex_text(a.push(b)) == hex_pair(a[0]) + (hex_text(a.drop_first()) + hex_pair(b)));
        assert(hex_pair(a[0]) + (hex_text(a.drop_first()) + hex_pair(b)) =~= (hex_pair(a[0])
            + hex_text(a.drop_first())) + hex_pair(b));
    }
}

pub proof fn lemma_entries_text_push(s: Seq<(Seq<char>, Seq<u8>)>, e: (Seq<char>, Seq<u8>))
    ensures
        s.len() == 0 ==> entries_text(s.push(e)) == entry_text(e),
        s.len() > 0 ==> entries_text(s.push(e)) == entries_text(s) + seq![','] + entry_text(e),
    decreases s.len(),
{
    if s.len() == 0 {
        assert(s.push(e)[0] == e);
    } else if s.len() == 1 {
        assert(s.push(e).drop_first() =~= s.drop_first().push(e));
        assert(s.drop_first().len() == 0);
        lemma_entries_text_push(s.drop_first(), e);
        assert(entries_text(s.push(e)) == entry_text(s[0]) + seq![','] + entry_text(e));
        assert(entries_text(s) == entry_text(s[0]));
    } else {
        assert(s.push(e).drop_first() =~= s.drop_first().push(e));
        lemma_entries_text_push(s.drop_first(), e);
        assert(entries_text(s.push(e)) == entry_text(s[0]) + seq![','] + (entries_text(
            s.drop_first(),
        ) + seq![','] + entry_text(e)));
        assert(entry_text(s[0]) + seq![','] + (entries_text(s.drop_first()) + seq![','] + entry_text(
            e,
        )) =~= (entry_text(s[0]) + seq![','] + entries_text(s.drop_first())) + seq![',']
            + entry_text(e));
    }
}

// ---------------------------------------------------------------------------
// The encoder.
// ---------------------------------------------------------------------------
fn hex_digit_exec(v: u8) -> (r: char)
    requires
        v < 16,
    ensures
        r == hex_digit(v as int),
{
    if v == 0 {
        '0'
    } else if v == 1 {
        '1'
    } else if v == 2 {
        '2'
    } else if v == 3 {
        '3'
    } else if v == 4 {
        '4'
    } else if v == 5 {
        '5'
    } else if v == 6 {
        '6'
    } else if v == 7 {
        '7'
    } else if v == 8 {
        '8'
    } else if v == 9 {
        '9'
    } else if v == 10 {
        'a'
    } else if v == 11 {
        'b'
    } else if v == 12 {
        'c'
    } else if v == 13 {
        'd'
    } else if v == 14 {
        'e'
    } else {
        'f'
    }
}

/// Appends the escaped form of `s`.
pub fn push_escaped(out: &mut String, s: &str)
    ensures
        final(out)@ == old(out)@ + escape(s@),
{
    let n = s.unicode_len();
    let mut i: usize = 0;
    while i < n
        invariant
            n == s@.len(),
            0 <= i <= n,
            out@ == old(out)@ + escape(s@.subrange(0, i as int)),
        decreases n - i,
    {
        let c = s.get_char(i);
        if c == '"' || c == '\\' {
            push_char(out, '\\');
            push_char(out, c);
        } else {
            push_char(out, c);
        }
        proof {
            assert(s@.subrange(0, i as int + 1) =~= s@.subrange(0, i as int).push(s@[i as int]));
            lemma_escape_push(s@.subrange(0, i as int), s@[i as int]);
            assert(out@ =~= old(out)@ + escape(s@.subrange(0, i as int + 1)));
        }
        i += 1;
    }
    proof {
        assert(s@.subrange(0, n as int) =~= s@);
    }
}

/// Appends the hex form of `bs`.
pub fn push_hex(out: &mut String, bs: &Vec<u8>)
    ensures
        final(out)@ == old(out)@ + hex_text(bs@),
{
    let mut i: usize = 0;
    while i < bs.len()
        invariant
            0 <= i <= bs@.len(),
            out@ == old(out)@ + hex_text(bs@.subrange(0, i as int)),
        decreases bs@.len() - i,
    {
        let b = bs[i];
        push_char(out, hex_digit_exec(b / 16));
        push_char(out, hex_digit_exec(b % 16));
        proof {
            assert(bs@.subrange(0, i as int + 1) =~= bs@.subrange(0, i as int).push(bs@[i as int]));
            lemma_hex_text_push(bs@.subrange(0, i as int), bs@[i as int]);
            assert(out@ =~= old(out)@ + hex_text(bs@.subrange(0, i as int + 1)));
        }
        i += 1;
    }
    proof {
        assert(bs@.subrange(0, bs@.len() as int) =~= bs@);
    }
}

// ---------------------------------------------------------------------------
// Decoding, as spec functions: a recursive-descent parser over the
// character sequence. Each parse function returns the parsed value and the
// unconsumed rest.
// ---------------------------------------------------------------------------
/// The value of a lowercase hex digit, or -1 for any other character.
pub open spec fn hex_val(c: char) -> int {
    if c == '0' {
        0
    } else if c == '1' {
        1
    } else if c == '2' {
        2
    } else if c == '3' {
        3
    } else if c == '4' {
        4
    } else if c == '5' {
        5
    } else if c == '6' {
        6
    } else if c == '7' {
        7
    } else if c == '8' {
        8
    } else if c == '9' {
        9
    } else if c == 'a' {
        10
    } else if c == 'b' {
        11
    } else if c == 'c' {
        12
    } else if c == 'd' {
        13
    } else if c == 'e' {
        14
    } else if c == 'f' {
        15
    } else {
        -1
    }
}

pub open spec fn is_hex_char(c: char) -> bool {
    hex_val(c) != -1
}

/// Parses an escaped string body up to and including its closing quote.
pub open spec fn parse_string_body(s: Seq<char>) -> Option<(Seq<char>, Seq<char>)>
    decreases s.len(),
{
    if s.len() == 0 {
        None
    } else if s[0] == '"' {
        Some((Seq::empty(), s.drop_first()))
    } else if s[0] == '\\' {
        if s.len() >= 2 && (s[1] == '"' || s[1] == '\\') {
            match parse_string_body(s.skip(2)) {
                Some((t, r)) => Some((seq![s[1]] + t, r)),
                None => None,
            }
        } else {
            None
        }
    } else {
        match parse_string_body(s.drop_first()) {
            Some((t, r)) => Some((seq![s[0]] + t, r)),
            None => None,
        }
    }
}

/// Parses pairs of hex digits until the first non-hex character.
pub open spec fn parse_hex_body(s: Seq<char>) -> Option<(Seq<u8>, Seq<char>)>
    decreases s.len(),
{
    if s.len() >= 1 && is_hex_char(s[0]) {
        if s.len() >= 2 && is_hex_char(s[1]) {
            match parse_hex_body(s.skip(2)) {
                Some((bs, r)) => Some((seq![(hex_val(s[0]) * 16 + hex_val(s[1])) as u8] + bs, r)),
                None => None,
            }
        } else {
            None
        }
    } else {
        Some((Seq::empty(), s))
    }
}

/// Parses one `"path":"hexdigest"` entry.
pub open spec fn parse_entry(s: Seq<char>) -> Option<((Seq<char>, Seq<u8>), Seq<char>)> {
    if s.len() >= 1 && s[0] == '"' {
        match parse_string_body(s.drop_first()) {
            Some((p, r1)) => if r1.len() >= 2 && r1[0] == ':' && r1[1] == '"' {
                match parse_hex_body(r1.skip(2)) {
                    Some((d, r2)) => if r2.len() >= 1 && r2[0] == '"' {
                        Some(((p, d), r2.drop_first()))
                    } else {
                        None
                    },
                    None => None,
                }
            } else {
                None
            },
            None => None,
        }
    } else {
        None
    }
}

pub proof fn lemma_parse_string_body_len(s: Seq<char>)
    ensures
        parse_string_body(s) is Some ==> parse_string_body(s).unwrap().1.len() < s.len(),
    decreases s.len(),
{
    if s.len() > 0 && s[0] != '"' {
        if s[0] == '\\' {
            if s.len() >= 2 && (s[1] == '"' || s[1] == '\\') {
                lemma_parse_string_body_len(s.skip(2));
            }
        } else {
            lemma_parse_string_body_len(s.drop_first());
        }
    }
}

pub proof fn lemma_parse_hex_body_len(s: Seq<char>)
    ensures
        parse_hex_body(s) is Some ==> parse_hex_body(s).unwrap().1.len() <= s.len(),
    decreases s.len(),
{
    if s.len() >= 2 && is_hex_char(s[0]) && is_hex_char(s[1]) {
        lemma_parse_hex_body_len(s.skip(2));
    }
}

pub proof fn lemma_parse_entry_len(s: Seq<char>)
    requires
        s.len() >= 1,
        s[0] == '"',
    ensures
        parse_entry(s) is Some ==> parse_entry(s).unwrap().1.len() < s.len(),
{
    lemma_parse_string_body_len(s.drop_first());
    if parse_string_body(s.drop_first()) is Some {
        let r1 = parse_string_body(s.drop_first()).unwrap().1;
        if r1.len() >= 2 && r1[0] == ':' && r1[1] == '"' {
            lemma_parse_hex_body_len(r1.skip(2));
        }
    }
}

/// Parses a comma-separated list of entries; the list ends at the first
/// position that does not start another entry.
pub open spec fn parse_entries(s: Seq<char>) -> Option<(Seq<(Seq<char>, Seq<u8>)>, Seq<char>)>
    decreases s.len(),
    via parse_entries_dec
{
    if s.len() >= 1 && s[0] == '"' {
        match parse_entry(s) {
            Some((e, r)) => if r.len() >= 1 && r[0] == ',' {
                match parse_entries(r.drop_first()) {
                    Some((es, rr)) => if es.len() >= 1 {
                        Some((seq![e] + es, rr))
                    } else {
                        None
                    },
                    None => None,
                }
            } else {
                Some((seq![e], r))
            },
            None => None,
        }
    } else {
        Some((Seq::empty(), s))
    }
}

#[via_fn]
proof fn parse_entries_dec(s: Seq<char>) {
    if s.len() >= 1 && s[0] == '"' {
        lemma_parse_entry_len(s);
    }
}

/// Parses a whole store document into its entries and tracked location.
pub open spec fn spec_decode(s: Seq<char>) -> Option<(Seq<(Seq<char>, Seq<u8>)>, Seq<char>)> {
    if s.len() >= 11 && s.subrange(0, 11) == header_text() {
        match parse_entries(s.skip(11)) {
            Some((es, r)) => if r.len() >= 14 && r.subrange(0, 14) == mid_text() {
                match parse_string_body(r.skip(14)) {
                    Some((dp, rr)) => if rr.len() == 1 && rr[0] == '}' {
                        Some((es, dp))
                    } else {
                        None
                    },
                    None => None,
                }
            } else {
                None
            },
            None => None,
        }
    } else {
        None
    }
}

// ---------------------------------------------------------------------------
// Round trip: parsing what the encoder wrote yields the original value.
// ---------------------------------------------------------------------------
pub proof fn lemma_parse_string_of_encoding(p: Seq<char>, rest: Seq<char>)
    ensures
        parse_string_body(escape(p) + seq!['"'] + rest) == Some((p, rest)),
    decreases p.len(),
{
    let s = escape(p) + seq!['"'] + rest;
    if p.len() == 0 {
        assert(s =~= seq!['"'] + rest);
        assert(s[0] == '"');
        assert(s.drop_first() =~= rest);
        assert(p =~= Seq::<char>::empty());
    } else {
        let c = p[0];
        let pp = p.drop_first();
        assert(escape(p) == esc_char(c) + escape(pp));
        lemma_parse_string_of_encoding(pp, rest);
        if c == '"' || c == '\\' {
            assert(esc_char(c) == seq!['\\', c]);
            assert(s =~= seq!['\\', c] + (escape(pp) + seq!['"'] + rest));
            assert(s[0] == '\\');
            assert(s[1] == c);
            assert(s.skip(2) =~= escape(pp) + seq!['"'] + rest);
            assert(parse_string_body(s) == Some((seq![c] + pp, rest)));
            assert(seq![c] + pp =~= p);
        } else {
            assert(esc_char(c) == seq![c]);
            assert(s =~= seq![c] + (escape(pp) + seq!['"'] + rest));
            assert(s[0] == c);
            assert(s.drop_first() =~= escape(pp) + seq!['"'] + rest);
            assert(parse_string_body(s) == Some((seq![c] + pp, rest)));
            assert(seq![c] + pp =~= p);
        }
    }
}

pub proof fn lemma_hex_digit_inverse()
    ensures
        forall|v: int|
            0 <= v < 16 ==> is_hex_char(#[trigger] hex_digit(v)) && hex_val(hex_digit(v)) == v,
{
    assert forall|v: int| 0 <= v < 16 implies is_hex_char(#[trigger] hex_digit(v)) && hex_val(
        hex_digit(v),
    ) == v by {}
}

pub proof fn lemma_parse_hex_of_encoding(bs: Seq<u8>, rest: Seq<char>)
    requires
        rest.len() >= 1,
        !is_hex_char(rest[0]),
    ensures
        parse_hex_body(hex_text(bs) + rest) == Some((bs, rest)),
    decreases bs.len(),
{
    lemma_hex_digit_inverse();
    let s = hex_text(bs) + rest;
    if bs.len() == 0 {
        assert(s =~= rest);
        assert(bs =~= Seq::<u8>::empty());
    } else {
        let b = bs[0];
        let bb = bs.drop_first();
        assert(hex_text(bs) == hex_pair(b) + hex_text(bb));
        lemma_parse_hex_of_encoding(bb, rest);
        assert(s =~= seq![hex_digit(b as int / 16), hex_digit(b as int % 16)] + (hex_text(bb)
            + rest));
        assert(0 <= b as int / 16 < 16);
        assert(0 <= b as int % 16 < 16);
        assert(s[0] == hex_digit(b as int / 16));
        assert(s[1] == hex_digit(b as int % 16));
        assert(is_hex_char(s[0]));
        assert(is_hex_char(s[1]));
        assert(s.skip(2) =~= hex_text(bb) + rest);
        assert(hex_val(s[0]) * 16 + hex_val(s[1]) == (b as int / 16) * 16 + b as int % 16);
        assert((b as int / 16) * 16 + b as int % 16 == b as int);
        assert(parse_hex_body(s) == Some((seq![b] + bb, rest)));
        assert(seq![b] + bb =~= bs);
    }
}

pub proof fn lemma_parse_entry_of_encoding(e: (Seq<char>, Seq<u8>), rest: Seq<char>)
    ensures
        parse_entry(entry_text(e) + rest) == Some((e, rest)),
{
    let s = entry_text(e) + rest;
    assert(s =~= seq!['"'] + (escape(e.0) + seq!['"'] + (seq![':', '"'] + (hex_text(e.1) + (
    seq!['"'] + rest)))));
    assert(s[0] == '"');
    assert(s.drop_first() =~= escape(e.0) + seq!['"'] + (seq![':', '"'] + (hex_text(e.1) + (
    seq!['"'] + rest))));
    lemma_parse_string_of_encoding(e.0, seq![':', '"'] + (hex_text(e.1) + (seq!['"'] + rest)));
    let r1 = seq![':', '"'] + (hex_text(e.1) + (seq!['"'] + rest));
    assert(parse_string_body(s.drop_first()) == Some((e.0, r1)));
    assert(r1.len() >= 2 && r1[0] == ':' && r1[1] == '"');
    assert(r1.skip(2) =~= hex_text(e.1) + (seq!['"'] + rest));
    assert((seq!['"'] + rest)[0] == '"');
    assert(!is_hex_char('"'));
    lemma_parse_hex_of_encoding(e.1, seq!['"'] + rest);
    let r2 = seq!['"'] + rest;
    assert(parse_hex_body(r1.skip(2)) == Some((e.1, r2)));
    assert(r2.len() >= 1 && r2[0] == '"');
    assert(r2.drop_first() =~= rest);
    assert(parse_entry(s) == Some(((e.0, e.1), rest)));
    assert((e.0, e.1) == e);
}

pub proof fn lemma_parse_entries_of_encoding(es: Seq<(Seq<char>, Seq<u8>)>, rest: Seq<char>)
    requires
        rest.len() >= 1,
        rest[0] == '}',
    ensures
        parse_entries(entries_text(es) + rest) == Some((es, rest)),
    decreases es.len(),
{
    let s = entries_text(es) + rest;
    if es.len() == 0 {
        assert(s =~= rest);
        assert(s[0] == '}');
        assert(es =~= Seq::<(Seq<char>, Seq<u8>)>::empty());
    } else if es.len() == 1 {
        assert(entries_text(es) == entry_text(es[0]));
        lemma_parse_entry_of_encoding(es[0], rest);
        assert(s =~= entry_text(es[0]) + rest);
        assert(s[0] == '"');
        assert(parse_entry(s) == Some((es[0], rest)));
        assert(rest[0] != ',');
        assert(parse_entries(s) == Some((seq![es[0]], rest)));
        assert(seq![es[0]] =~= es);
    } else {
        let tail = es.drop_first();
        assert(entries_text(es) == entry_text(es[0]) + seq![','] + entries_text(tail));
        let after = seq![','] + (entries_text(tail) + rest);
        assert(s =~= entry_text(es[0]) + after);
        lemma_parse_entry_of_encoding(es[0], after);
        assert(s[0] == '"');
        assert(parse_entry(s) == Some((es[0], after)));
        assert(after.len() >= 1 && after[0] == ',');
        assert(after.drop_first() =~= entries_text(tail) + rest);
        lemma_parse_entries_of_encoding(tail, rest);
        assert(parse_entries(after.drop_first()) == Some((tail, rest)));
        assert(tail.len() >= 1);
        assert(parse_entries(s) == Some((seq![es[0]] + tail, rest)));
        assert(seq![es[0]] + tail =~= es);
    }
}

/// Decoding what the encoder wrote yields the original entries and tracked
/// location, for every store.
pub proof fn lemma_decode_encode(es: Seq<(Seq<char>, Seq<u8>)>, dp: Seq<char>)
    ensures
        spec_decode(encode_text(es, dp)) == Some((es, dp)),
{
    let s = encode_text(es, dp);
    let after_header = entries_text(es) + (mid_text() + (escape(dp) + tail_text()));
    assert(s =~= header_text() + after_header);
    assert(s.len() >= 11);
    assert(s.subrange(0, 11) =~= header_text());
    assert(s.skip(11) =~= after_header);
    let mid_rest = mid_text() + (escape(dp) + tail_text());
    assert(mid_rest.len() >= 1 && mid_rest[0] == '}');
    assert(after_header =~= entries_text(es) + mid_rest);
    lemma_parse_entries_of_encoding(es, mid_rest);
    assert(parse_entries(s.skip(11)) == Some((es, mid_rest)));
    assert(mid_rest.len() >= 14);
    assert(mid_rest.subrange(0, 14) =~= mid_text());
    assert(mid_rest.skip(14) =~= escape(dp) + tail_text());
    assert(tail_text() =~= seq!['"'] + seq!['}']);
    assert(mid_rest.skip(14) =~= escape(dp) + seq!['"'] + seq!['}']);
    lemma_parse_string_of_encoding(dp, seq!['}']);
    assert(parse_string_body(mid_rest.skip(14)) == Some((dp, seq!['}'])));
    assert(seq!['}'].len() == 1 && seq!['}'][0] == '}');
    assert(spec_decode(s) == Some((es, dp)));
}

// ---------------------------------------------------------------------------
// The decoder: executable scanners proved against the parse functions.
// ---------------------------------------------------------------------------
spec fn prepend_string(a: Seq<char>, o: Option<(Seq<char>, Seq<char>)>) -> Option<
    (Seq<char>, Seq<char>),
> {
    match o {
        Some((t, r)) => Some((a + t, r)),
        None => None,
    }
}

spec fn prepend_hex(a: Seq<u8>, o: Option<(Seq<u8>, Seq<char>)>) -> Option<(Seq<u8>, Seq<char>)> {
    match o {
        Some((t, r)) => Some((a + t, r)),
        None => None,
    }
}

fn scan_string_body(s: &Vec<char>, start: usize) -> (r: Option<(Vec<char>, usize)>)
    requires
        start <= s@.len(),
    ensures
        match r {
            Some((t, j)) => start <= j <= s@.len() && parse_string_body(s@.skip(start as int))
                == Some((t@, s@.skip(j as int))),
            None => parse_string_body(s@.skip(start as int)) is None,
        },
{
    let mut out: Vec<char> = Vec::new();
    let mut i: usize = start;
    loop
        invariant
            start <= i <= s@.len(),
            parse_string_body(s@.skip(start as int)) == prepend_string(
                out@,
                parse_string_body(s@.skip(i as int)),
            ),
        decreases s@.len() - i,
    {
        if i >= s.len() {
            proof {
                assert(s@.skip(i as int).len() == 0);
            }
            return None;
        }
        let c = s[i];
        proof {
            assert(s@.skip(i as int)[0] == s@[i as int]);
        }
        if c == '"' {
            proof {
                assert(s@.skip(i as int).drop_first() =~= s@.skip(i as int + 1));
                assert(out@ + Seq::<char>::empty() =~= out@);
            }
            return Some((out, i + 1));
        } else if c == '\\' {
            if i + 1 >= s.len() {
                proof {
                    assert(s@.skip(i as int).len() < 2);
                }
                return None;
            }
            let c2 = s[i + 1];
            proof {
                assert(s@.skip(i as int)[1] == s@[i as int + 1]);
            }
            if c2 == '"' || c2 == '\\' {
                let ghost prev = out@;
                out.push(c2);
                proof {
                    assert(s@.skip(i as int).skip(2) =~= s@.skip(i as int + 2));
                    match parse_string_body(s@.skip(i as int + 2)) {
                        Some((t, r)) => {
                            assert(prev + (seq![c2] + t) =~= out@ + t);
                        },
                        None => {},
                    }
                }
                i += 2;
            } else {
                return None;
            }
        } else {
            let ghost prev = out@;
            out.push(c);
            proof {
                assert(s@.skip(i as int).drop_first() =~= s@.skip(i as int + 1));
                match parse_string_body(s@.skip(i as int + 1)) {
                    Some((t, r)) => {
                        assert(prev + (seq![c] + t) =~= out@ + t);
                    },
                    None => {},
                }
            }
            i += 1;
        }
    }
}

fn hex_val_exec(c: char) -> (r: Option<u8>)
    ensures
        r is Some <==> is_hex_char(c),
        r is Some ==> r.unwrap() == hex_val(c) && r.unwrap() < 16,
{
    if c == '0' {
        Some(0)
    } else if c == '1' {
        Some(1)
    } else if c == '2' {
        Some(2)
    } else if c == '3' {
        Some(3)
    } else if c == '4' {
        Some(4)
    } else if c == '5' {
        Some(5)
    } else if c == '6' {
        Some(6)
    } else if c == '7' {
        Some(7)
    } else if c == '8' {
        Some(8)
    } else if c == '9' {
        Some(9)
    } else if c == 'a' {
        Some(10)
    } else if c == 'b' {
        Some(11)
    } else if c == 'c' {
        Some(12)
    } else if c == 'd' {
        Some(13)
    } else if c == 'e' {
        Some(14)
    } else if c == 'f' {
        Some(15)
    } else {
        None
    }
}

fn scan_hex_body(s: &Vec<char>, start: usize) -> (r: Option<(Vec<u8>, usize)>)
    requires
        start <= s@.len(),
    ensures
        match r {
            Some((bs, j)) => start <= j <= s@.len() && parse_hex_body(s@.skip(start as int))
                == Some((bs@, s@.skip(j as int))),
            None => parse_hex_body(s@.skip(start as int)) is None,
        },
{
    let mut out: Vec<u8> = Vec::new();
    let mut i: usize = start;
    loop
        invariant
            start <= i <= s@.len(),
            parse_hex_body(s@.skip(start as int)) == prepend_hex(
                out@,
                parse_hex_body(s@.skip(i as int)),
            ),
        decreases s@.len() - i,
    {
        if i >= s.len() {
            proof {
                assert(s@.skip(i as int).len() == 0);
                assert(out@ + Seq::<u8>::empty() =~= out@);
            }
            return Some((out, i));
        }
        let c = s[i];
        proof {
            assert(s@.skip(i as int)[0] == s@[i as int]);
        }
        let v1 = match hex_val_exec(c) {
            Some(v) => v,
            None => {
                proof {
                    assert(out@ + Seq::<u8>::empty() =~= out@);
                }
                return Some((out, i));
            },
        };
        if i + 1 >= s.len() {
            proof {
                assert(s@.skip(i as int).len() < 2);
            }
            return None;
        }
        let c2 = s[i + 1];
        proof {
            assert(s@.skip(i as int)[1] == s@[i as int + 1]);
        }
        let v2 = match hex_val_exec(c2) {
            Some(v) => v,
            None => {
                return None;
            },
        };
        let b: u8 = v1 * 16 + v2;
        let ghost prev = out@;
        out.push(b);
        proof {
            assert(s@.skip(i as int).skip(2) =~= s@.skip(i as int + 2));
            assert(b as int == hex_val(s@.skip(i as int)[0]) * 16 + hex_val(s@.skip(i as int)[1]));
            match parse_hex_body(s@.skip(i as int + 2)) {
                Some((t, r)) => {
                    assert(prev + (seq![b] + t) =~= out@ + t);
                },
                None => {},
            }
        }
        i += 2;
    }
}

fn scan_entry(s: &Vec<char>, start: usize) -> (r: Option<((Vec<char>, Vec<u8>), usize)>)
    requires
        start <= s@.len(),
    ensures
        match r {
            Some(((p, d), j)) => start <= j <= s@.len() && parse_entry(s@.skip(start as int))
                == Some(((p@, d@), s@.skip(j as int))),
            None => parse_entry(s@.skip(start as int)) is None,
        },
{
    if start >= s.len() || s[start] != '"' {
        proof {
            if start < s@.len() {
                assert(s@.skip(start as int)[0] == s@[start as int]);
            }
        }
        return None;
    }
    proof {
        assert(s@.skip(start as int)[0] == s@[start as int]);
        assert(s@.skip(start as int).drop_first() =~= s@.skip(start as int + 1));
    }
    let (p, j1) = match scan_string_body(s, start + 1) {
        Some(x) => x,
        None => {
            return None;
        },
    };
    if j1 >= s.len() || j1 + 1 >= s.len() {
        proof {
            assert(s@.skip(j1 as int).len() < 2);
        }
        return None;
    }
    proof {
        assert(s@.skip(j1 as int)[0] == s@[j1 as int]);
        assert(s@.skip(j1 as int)[1] == s@[j1 as int + 1]);
    }
    if s[j1] != ':' {
        return None;
    }
    if s[j1 + 1] != '"' {
        return None;
    }
    proof {
        assert(s@.skip(j1 as int).skip(2) =~= s@.skip(j1 as int + 2));
    }
    let (d, j2) = match scan_hex_body(s, j1 + 2) {
        Some(x) => x,
        None => {
            return None;
        },
    };
    if j2 >= s.len() {
        proof {
            assert(s@.skip(j2 as int).len() == 0);
        }
        return None;
    }
    proof {
        assert(s@.skip(j2 as int)[0] == s@[j2 as int]);
    }
    if s[j2] != '"' {
        return None;
    }
    proof {
        assert(s@.skip(j2 as int).drop_first() =~= s@.skip(j2 as int + 1));
    }
    Some(((p, d), j2 + 1))
}

/// The entries a vector of scanned (path, digest) pairs denotes.
pub open spec fn scanned_entries(v: Seq<(Vec<char>, Vec<u8>)>) -> Seq<(Seq<char>, Seq<u8>)> {
    v.map_values(|pr: (Vec<char>, Vec<u8>)| (pr.0@, pr.1@))
}

spec fn glue_entries(
    a: Seq<(Seq<char>, Seq<u8>)>,
    o: Option<(Seq<(Seq<char>, Seq<u8>)>, Seq<char>)>,
) -> Option<(Seq<(Seq<char>, Seq<u8>)>, Seq<char>)> {
    match o {
        Some((es, rr)) => if es.len() >= 1 {
            Some((a + es, rr))
        } else {
            None
        },
        None => None,
    }
}

proof fn lemma_parse_entries_nonempty(s: Seq<char>)
    requires
        s.len() >= 1,
        s[0] == '"',
        parse_entries(s) is Some,
    ensures
        parse_entries(s).unwrap().0.len() >= 1,
{
}

fn scan_entries(s: &Vec<char>, start: usize) -> (r: Option<(Vec<(Vec<char>, Vec<u8>)>, usize)>)
    requires
        start <= s@.len(),
    ensures
        match r {
            Some((es, j)) => start <= j <= s@.len() && parse_entries(s@.skip(start as int))
                == Some((scanned_entries(es@), s@.skip(j as int))),
            None => parse_entries(s@.skip(start as int)) is None,
        },
{
    if start >= s.len() || s[start] != '"' {
        proof {
            if start < s@.len() {
                assert(s@.skip(start as int)[0] == s@[start as int]);
            }
            assert(scanned_entries(Seq::empty()) =~= Seq::<(Seq<char>, Seq<u8>)>::empty());
        }
        return Some((Vec::new(), start));
    }
    let mut acc: Vec<(Vec<char>, Vec<u8>)> = Vec::new();
    let mut i: usize = start;
    proof {
        assert(s@.skip(start as int)[0] == s@[start as int]);
        assert(scanned_entries(acc@) =~= Seq::<(Seq<char>, Seq<u8>)>::empty());
        if parse_entries(s@.skip(start as int)) is Some {
            lemma_parse_entries_nonempty(s@.skip(start as int));
            let es0 = parse_entries(s@.skip(start as int)).unwrap().0;
            assert(scanned_entries(acc@) + es0 =~= es0);
        }
    }
    loop
        invariant
            start <= i < s@.len(),
            s@[i as int] == '"',
            parse_entries(s@.skip(start as int)) == glue_entries(
                scanned_entries(acc@),
                parse_entries(s@.skip(i as int)),
            ),
        decreases s@.len() - i,
    {
        proof {
            assert(s@.skip(i as int)[0] == s@[i as int]);
        }
        let (e, j) = match scan_entry(s, i) {
            Some(x) => x,
            None => {
                return None;
            },
        };
        let ghost prev = acc@;
        let ghost ev = (e.0@, e.1@);
        acc.push(e);
        proof {
            assert(scanned_entries(acc@) =~= scanned_entries(prev).push(ev));
        }
        if j < s.len() && s[j] == ',' {
            proof {
                assert(s@.skip(j as int)[0] == s@[j as int]);
                assert(s@.skip(j as int).drop_first() =~= s@.skip(j as int + 1));
            }
            if j + 1 < s.len() && s[j + 1] == '"' {
                proof {
                    assert(s@.skip(j as int + 1)[0] == s@[j as int + 1]);
                    if parse_entries(s@.skip(j as int + 1)) is Some {
                        lemma_parse_entries_nonempty(s@.skip(j as int + 1));
                        let es = parse_entries(s@.skip(j as int + 1)).unwrap().0;
                        assert(scanned_entries(prev) + (seq![ev] + es) =~= scanned_entries(acc@)
                            + es);
                    }
                }
                i = j + 1;
            } else {
                proof {
                    if j + 1 < s@.len() {
                        assert(s@.skip(j as int + 1)[0] == s@[j as int + 1]);
                    }
                    assert(parse_entries(s@.skip(j as int + 1)) == Some((
                        Seq::<(Seq<char>, Seq<u8>)>::empty(),
                        s@.skip(j as int + 1),
                    )));
                }
                return None;
            }
        } else {
            proof {
                if j < s@.len() {
                    assert(s@.skip(j as int)[0] == s@[j as int]);
                }
                assert(parse_entries(s@.skip(i as int)) == Some((seq![ev], s@.skip(j as int))));
                assert(scanned_entries(prev) + seq![ev] =~= scanned_entries(acc@));
            }
            return Some((acc, j));
        }
    }
}

fn match_header(s: &Vec<char>) -> (r: bool)
    ensures
        r == (s@.len() >= 11 && s@.subrange(0, 11) == header_text()),
{
    if s.len() < 11 {
        return false;
    }
    let ok = s[0] == '{' && s[1] == '"' && s[2] == 'h' && s[3] == 'a' && s[4] == 's' && s[5] == 'h'
        && s[6] == 'e' && s[7] == 's' && s[8] == '"' && s[9] == ':' && s[10] == '{';
    proof {
        if ok {
            assert(s@.subrange(0, 11) =~= header_text());
        } else {
            if s@.subrange(0, 11) == header_text() {
                assert(forall|k: int|
                    0 <= k < 11 ==> s@[k] == #[trigger] s@.subrange(0, 11)[k]);
                assert(false);
            }
        }
    }
    ok
}

fn match_mid(s: &Vec<char>, at: usize) -> (r: bool)
    requires
        at <= s@.len(),
    ensures
        r == (s@.len() - at >= 14 && s@.skip(at as int).subrange(0, 14) == mid_text()),
{
    if s.len() - at < 14 {
        return false;
    }
    let ok = s[at] == '}' && s[at + 1] == ',' && s[at + 2] == '"' && s[at + 3] == 'd' && s[at + 4]
        == 'i' && s[at + 5] == 'r' && s[at + 6] == '_' && s[at + 7] == 'p' && s[at + 8] == 'a'
        && s[at + 9] == 't' && s[at + 10] == 'h' && s[at + 11] == '"' && s[at + 12] == ':' && s[at
        + 13] == '"';
    proof {
        assert(forall|k: int|
            0 <= k < 14 ==> #[trigger] s@.skip(at as int).subrange(0, 14)[k] == s@[at + k]);
        if ok {
            assert(s@.skip(at as int).subrange(0, 14) =~= mid_text());
        } else {
            if s@.skip(at as int).subrange(0, 14) == mid_text() {
                assert(false);
            }
        }
    }
    ok
}

/// Decodes a whole store document into its (path, digest) pairs and tracked
/// location; any text the grammar rejects yields `None`.
pub fn decode_document(text: &Vec<char>) -> (r: Option<(Vec<(Vec<char>, Vec<u8>)>, Vec<char>)>)
    ensures
        match r {
            Some((es, dp)) => spec_decode(text@) == Some((scanned_entries(es@), dp@)),
            None => spec_decode(text@) is None,
        },
{
    if !match_header(text) {
        return None;
    }
    let (es, j) = match scan_entries(text, 11) {
        Some(x) => x,
        None => {
            return None;
        },
    };
    if !match_mid(text, j) {
        return None;
    }
    let n = text.len();
    proof {
        assert(j + 14 <= n);
    }
    let (dp, k) = match scan_string_body(text, j + 14) {
        Some(x) => x,
        None => {
            proof {
                assert(s_skip_skip(text@, j as int, 14) =~= text@.skip(j as int + 14));
            }
            return None;
        },
    };
    proof {
        assert(s_skip_skip(text@, j as int, 14) =~= text@.skip(j as int + 14));
    }
    if k < text.len() && k == text.len() - 1 && text[k] == '}' {
        proof {
            let rr = text@.skip(k as int);
            assert(rr.len() == 1);
            assert(rr[0] == text@[k as int]);
        }
        Some((es, dp))
    } else {
        proof {
            let rr = text@.skip(k as int);
            if rr.len() == 1 && rr[0] == '}' {
                assert(rr[0] == text@[k as int]);
                assert(false);
            }
        }
        None
    }
}

/// The suffix of a suffix.
spec fn s_skip_skip(s: Seq<char>, a: int, b: int) -> Seq<char> {
    s.skip(a).skip(b)
}

fn entries_unique(hashes: &Vec<HashEntry>) -> (r: bool)
    ensures
        r == unique_paths(hashes@.map_values(|e: HashEntry| e.view())),
{
    let ghost s = hashes@.map_values(|e: HashEntry| e.view());
    if hashes.len() <= 1 {
        return true;
    }
    let mut i: usize = 1;
    while i < hashes.len()
        invariant
            1 <= i <= hashes@.len(),
            s == hashes@.map_values(|e: HashEntry| e.view()),
            forall|a: int, b: int| 0 <= a < b < i ==> (#[trigger] s[a]).0 != (#[trigger] s[b]).0,
        decreases hashes@.len() - i,
    {
        let mut j: usize = 0;
        while j < i
            invariant
                0 <= j <= i < hashes@.len(),
                s == hashes@.map_values(|e: HashEntry| e.view()),
                forall|a: int| 0 <= a < j ==> (#[trigger] s[a]).0 != s[i as int].0,
            decreases i - j,
        {
            if str_eq(hashes[j].path.as_str(), hashes[i].path.as_str()) {
                proof {
                    assert(s[j as int].0 == s[i as int].0);
                    assert(!unique_paths(s));
                }
                return false;
            }
            j += 1;
        }
        i += 1;
    }
    true
}

impl HashStorage {
    /// Serializes the store to its one-document on-disk form. Persisting is
    /// synchronous: the caller writes this text to the tracked location
    /// right after every recorded change.
    pub fn save(&self) -> (r: String)
        ensures
            r@ == encode_text(self.entries(), self.dir_path@),
    {
        let mut out = String::new();
        push_str(&mut out, "{\"hashes\":{");
        proof {
            reveal_strlit("{\"hashes\":{");
            assert("{\"hashes\":{"@ =~= header_text());
            assert(entries_text(self.entries().subrange(0, 0)) =~= Seq::<char>::empty());
            assert(out@ =~= header_text() + entries_text(self.entries().subrange(0, 0)));
        }
        let mut i: usize = 0;
        while i < self.hashes.len()
            invariant
                0 <= i <= self.hashes@.len(),
                out@ == header_text() + entries_text(self.entries().subrange(0, i as int)),
            decreases self.hashes@.len() - i,
        {
            let ghost prefix = out@;
            if i > 0 {
                push_char(&mut out, ',');
            }
            push_char(&mut out, '"');
            push_escaped(&mut out, self.hashes[i].path.as_str());
            push_str(&mut out, "\":\"");
            push_hex(&mut out, &self.hashes[i].digest);
            push_char(&mut out, '"');
            proof {
                reveal_strlit("\":\"");
                assert("\":\""@ =~= seq!['"', ':', '"']);
                let e = self.entries()[i as int];
                assert(e.0 == self.hashes@[i as int].path@);
                assert(e.1 == self.hashes@[i as int].digest@);
                assert(self.entries().subrange(0, i as int + 1) =~= self.entries().subrange(
                    0,
                    i as int,
                ).push(e));
                lemma_entries_text_push(self.entries().subrange(0, i as int), e);
                if i == 0 {
                    assert(out@ =~= prefix + entry_text(e));
                    assert(out@ =~= header_text() + entries_text(
                        self.entries().subrange(0, i as int + 1),
                    ));
                } else {
                    assert(out@ =~= prefix + seq![','] + entry_text(e));
                    assert(out@ =~= header_text() + entries_text(
                        self.entries().subrange(0, i as int + 1),
                    ));
                }
            }
            i += 1;
        }
        push_str(&mut out, "},\"dir_path\":\"");
        push_escaped(&mut out, self.dir_path.as_str());
        push_str(&mut out, "\"}");
        proof {
            reveal_strlit("},\"dir_path\":\"");
            reveal_strlit("\"}");
            assert("},\"dir_path\":\""@ =~= mid_text());
            assert("\"}"@ =~= tail_text());
            assert(self.entries().subrange(0, self.hashes@.len() as int) =~= self.entries());
            assert(out@ =~= encode_text(self.entries(), self.dir_path@));
        }
        out
    }

    /// Rebuilds a store from the document text read from disk. A text the
    /// grammar rejects — or one whose entries repeat a path — yields the
    /// empty map rather than an error, and the tracked location is set to
    /// where the store now lives, as when the document moved.
    pub fn load(contents: &str, dir_path: &str) -> (r: Self)
        ensures
            r.wf(),
            r.dir_path@ == dir_path@,
            match spec_decode(contents@) {
                Some((es, dp)) => if unique_paths(es) {
                    r.entries() == es
                } else {
                    r.hashes@.len() == 0
                },
                None => r.hashes@.len() == 0,
            },
    {
        let text = str_to_chars(contents);
        match decode_document(&text) {
            Some((pairs, _dp)) => {
                let mut hashes: Vec<HashEntry> = Vec::new();
                let mut i: usize = 0;
                while i < pairs.len()
                    invariant
                        0 <= i <= pairs@.len(),
                        hashes@.len() == i,
                        forall|k: int|
                            0 <= k < i ==> (#[trigger] hashes@[k]).view() == scanned_entries(
                                pairs@,
                            )[k],
                    decreases pairs@.len() - i,
                {
                    let path = chars_to_string(&pairs[i].0);
                    let digest = copy_bytes(&pairs[i].1);
                    hashes.push(HashEntry { path, digest });
                    i += 1;
                }
                proof {
                    assert(hashes@.map_values(|e: HashEntry| e.view()) =~= scanned_entries(pairs@));
                }
                if entries_unique(&hashes) {
                    let st = HashStorage { hashes, dir_path: dir_path.to_owned() };
                    st
                } else {
                    HashStorage { hashes: Vec::new(), dir_path: dir_path.to_owned() }
                }
            },
            None => HashStorage { hashes: Vec::new(), dir_path: dir_path.to_owned() },
        }
    }
}

/// The Hash Store round trip: the document `save` writes decodes back to
/// exactly the entries and tracked location it was written from, so
/// persisting the store and then reloading it yields an identical mapping.
pub proof fn lemma_save_load_round_trip(st: HashStorage)
    ensures
        spec_decode(encode_text(st.entries(), st.dir_path@)) == Some((st.entries(), st.dir_path@)),
{
    lemma_decode_encode(st.entries(), st.dir_path@);
}

} // verus!
