//! Request URLs: the endpoint followed by the form-encoded parameters.

use vstd::prelude::*;
use crate::builder::{GeocodeBuilder, SearchBuilder};
use crate::decimal::digit_char;
use crate::place::pairs_view;
use crate::text::{push_char, push_text};

verus! {

/// The reverse geocode endpoint.
pub const REVERSE_GEOCODE: &'static str = "https://api.twitter.com/1.1/geo/reverse_geocode.json";

/// The place search endpoint.
pub const SEARCH: &'static str = "https://api.twitter.com/1.1/geo/search.json";

/// An upper-case hexadecimal digit.
pub open spec fn hex_char(n: int) -> char {
    if n < 10 {
        digit_char(n)
    } else if n == 10 {
        'A'
    } else if n == 11 {
        'B'
    } else if n == 12 {
        'C'
    } else if n == 13 {
        'D'
    } else if n == 14 {
        'E'
    } else {
        'F'
    }
}

/// The UTF-8 encoding of a character.
pub open spec fn utf8_of(c: char) -> Seq<u8> {
    let n = c as u32 as int;
    if n < 0x80 {
        seq![n as u8]
    } else if n < 0x800 {
        seq![(0xC0 + n / 64) as u8, (0x80 + n % 64) as u8]
    } else if n < 0x10000 {
        seq![(0xE0 + n / 4096) as u8, (0x80 + (n / 64) % 64) as u8, (0x80 + n % 64) as u8]
    } else {
        seq![
            (0xF0 + n / 262144) as u8,
            (0x80 + (n / 4096) % 64) as u8,
            (0x80 + (n / 64) % 64) as u8,
            (0x80 + n % 64) as u8,
        ]
    }
}

/// Characters that form encoding leaves as they are.
pub open spec fn is_unreserved(c: char) -> bool {
    ('a' <= c && c <= 'z') || ('A' <= c && c <= 'Z') || ('0' <= c && c <= '9') || c == '*' || c
        == '-' || c == '.' || c == '_'
}

/// Each byte as `%` and two hexadecimal digits.
pub open spec fn percent_bytes(bs: Seq<u8>) -> Seq<char>
    decreases bs.len(),
{
    if bs.len() == 0 {
        Seq::empty()
    } else {
        seq!['%', hex_char((bs[0] / 16) as int), hex_char((bs[0] % 16) as int)] + percent_bytes(
            bs.drop_first(),
        )
    }
}

/// The form encoding of one character: itself, `+` for a space, else its
/// UTF-8 bytes percent-encoded.
pub open spec fn form_char(c: char) -> Seq<char> {
    if is_unreserved(c) {
        seq![c]
    } else if c == ' ' {
        seq!['+']
    } else {
        percent_bytes(utf8_of(c))
    }
}

/// The form encoding of a text.
pub open spec fn form_text(s: Seq<char>) -> Seq<char>
    decreases s.len(),
{
    if s.len() == 0 {
        Seq::empty()
    } else {
        form_text(s.drop_last()) + form_char(s.last())
    }
}

/// One `key=value` pair, both form-encoded.
pub open spec fn pair_text(p: (Seq<char>, Seq<char>)) -> Seq<char> {
    form_text(p.0) + seq!['='] + form_text(p.1)
}

/// The pairs joined by `&`.
pub open spec fn query_text(ps: Seq<(Seq<char>, Seq<char>)>) -> Seq<char>
    decreases ps.len(),
{
    if ps.len() == 0 {
        Seq::empty()
    } else if ps.len() == 1 {
        pair_text(ps[0])
    } else {
        query_text(ps.drop_last()) + seq!['&'] + pair_text(ps.last())
    }
}

fn hex(n: u8) -> (c: char)
    requires
        n < 16,
    ensures
        c == hex_char(n as int),
{
    if n == 0 {
        '0'
    } else if n == 1 {
        '1'
    } else if n == 2 {
        '2'
    } else if n == 3 {
        '3'
    } else if n == 4 {
        '4'
    } else if n == 5 {
        '5'
    } else if n == 6 {
        '6'
    } else if n == 7 {
        '7'
    } else if n == 8 {
        '8'
    } else if n == 9 {
        '9'
    } else if n == 10 {
        'A'
    } else if n == 11 {
        'B'
    } else if n == 12 {
        'C'
    } else if n == 13 {
        'D'
    } else if n == 14 {
        'E'
    } else {
        'F'
    }
}

fn push_percent(out: &mut String, b: u8)
    ensures
        final(out)@ == old(out)@ + seq!['%', hex_char((b / 16) as int), hex_char((b % 16) as int)],
{
    push_char(out, '%');
    push_char(out, hex(b / 16));
    push_char(out, hex(b % 16));
    assert(final(out)@ =~= old(out)@ + seq!['%', hex_char((b / 16) as int), hex_char((b % 16) as int)]);
}

fn push_form_char(out: &mut String, c: char)
    ensures
        final(out)@ == old(out)@ + form_char(c),
{
    if ('a' <= c && c <= 'z') || ('A' <= c && c <= 'Z') || ('0' <= c && c <= '9') || c == '*' || c
        == '-' || c == '.' || c == '_' {
        push_char(out, c);
        assert(final(out)@ =~= old(out)@ + form_char(c));
        return ;
    }
    if c == ' ' {
        push_char(out, '+');
        assert(final(out)@ =~= old(out)@ + form_char(c));
        return ;
    }
    let n: u32 = c as u32;
    let ghost bs = utf8_of(c);
    if n < 0x80 {
        push_percent(out, n as u8);
    } else if n < 0x800 {
        push_percent(out, (0xC0 + n / 64) as u8);
        push_percent(out, (0x80 + n % 64) as u8);
    } else if n < 0x10000 {
        push_percent(out, (0xE0 + n / 4096) as u8);
        push_percent(out, (0x80 + (n / 64) % 64) as u8);
        push_percent(out, (0x80 + n % 64) as u8);
    } else {
        push_percent(out, (0xF0 + n / 262144) as u8);
        push_percent(out, (0x80 + (n / 4096) % 64) as u8);
        push_percent(out, (0x80 + (n / 64) % 64) as u8);
        push_percent(out, (0x80 + n % 64) as u8);
    }
    proof {
        reveal_with_fuel(percent_bytes, 5);
    }
    assert(final(out)@ =~= old(out)@ + form_char(c));
}

fn push_form_text(out: &mut String, s: &str)
    ensures
        final(out)@ == old(out)@ + form_text(s@),
{
    let n = s.unicode_len();
    let mut i: usize = 0;
    let ghost start = out@;
    while i < n
        invariant
            n == s@.len(),
            i <= n,
            out@ == start + form_text(s@.subrange(0, i as int)),
        decreases n - i,
    {
        let c = s.get_char(i);
        push_form_char(out, c);
        assert(s@.subrange(0, i + 1).drop_last() =~= s@.subrange(0, i as int));
        i = i + 1;
    }
    assert(s@.subrange(0, n as int) =~= s@);
}

/// The form-encoded query string of a parameter list.
pub fn query_string(ps: &Vec<(String, String)>) -> (r: String)
    ensures
        r@ == query_text(pairs_view(ps@)),
{
    let mut out = String::new();
    let n = ps.len();
    let mut i: usize = 0;
    while i < n
        invariant
            n == ps@.len(),
            i <= n,
            out@ == query_text(pairs_view(ps@).subrange(0, i as int)),
        decreases n - i,
    {
        let ghost before = out@;
        if i > 0 {
            push_char(&mut out, '&');
        }
        push_form_text(&mut out, ps[i].0.as_str());
        push_char(&mut out, '=');
        push_form_text(&mut out, ps[i].1.as_str());
        proof {
            let pre = pairs_view(ps@).subrange(0, i + 1);
            assert(pre.drop_last() =~= pairs_view(ps@).subrange(0, i as int));
            assert(pre.last() == (ps@[i as int].0@, ps@[i as int].1@));
            if i == 0 {
                assert(out@ =~= pair_text(pre[0]));
            } else {
                assert(out@ =~= before + seq!['&'] + pair_text(pre.last()));
            }
        }
        i = i + 1;
    }
    assert(pairs_view(ps@).subrange(0, n as int) =~= pairs_view(ps@));
    out
}

fn with_query(endpoint: &str, ps: &Vec<(String, String)>) -> (r: String)
    ensures
        r@ == endpoint@ + seq!['?'] + query_text(pairs_view(ps@)),
{
    let mut out = endpoint.to_owned();
    push_char(&mut out, '?');
    let q = query_string(ps);
    push_text(&mut out, q.as_str());
    out
}

/// The URL of a reverse geocode request, query string included.
pub fn reverse_geocode_url(b: &GeocodeBuilder) -> (r: String)
    ensures
        r@ == REVERSE_GEOCODE@ + seq!['?'] + query_text(b.params_spec()),
{
    with_query(REVERSE_GEOCODE, &b.params())
}

/// The URL of a search request, query string included.
pub fn search_url(b: &SearchBuilder) -> (r: String)
    ensures
        r@ == SEARCH@ + seq!['?'] + query_text(b.params_spec()),
{
    with_query(SEARCH, &b.params())
}

} // verus!
