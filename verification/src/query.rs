//! Percent-encoding of query components and the query strings built from them.
use vstd::prelude::*;
use vstd::utf8::{encode_scalar, encode_utf8, leading_byte_width_1};

verus! {

/// Bytes that percent-encoding keeps as they are: ASCII letters, digits and `-`, `.`, `_`, `~`.
pub open spec fn is_unreserved(b: u8) -> bool {
    ||| 48 <= b <= 57
    ||| 65 <= b <= 90
    ||| 97 <= b <= 122
    ||| b == 45
    ||| b == 46
    ||| b == 95
    ||| b == 126
}

/// The upper-case hexadecimal digit of a value below sixteen.
pub open spec fn hex_digit(d: int) -> char {
    if d < 10 {
        (48 + d) as char
    } else {
        (55 + d) as char
    }
}

/// How one byte is written: itself when unreserved, else `%` and two
/// upper-case hexadecimal digits.
pub open spec fn encoded_byte(b: u8) -> Seq<char> {
    if is_unreserved(b) {
        seq![b as char]
    } else {
        seq!['%', hex_digit(b as int / 16), hex_digit(b as int % 16)]
    }
}

/// The percent-encoding of a byte sequence.
pub open spec fn url_encoded(bytes: Seq<u8>) -> Seq<char>
    decreases bytes.len(),
{
    if bytes.len() == 0 {
        Seq::empty()
    } else {
        encoded_byte(bytes[0]) + url_encoded(bytes.drop_first())
    }
}

/// The percent-encoding of the UTF-8 bytes of a text.
pub open spec fn url_encoded_text(s: Seq<char>) -> Seq<char> {
    url_encoded(encode_utf8(s))
}

/// One `key=value` component of a query, both sides percent-encoded.
pub open spec fn query_pair(key: Seq<char>, value: Seq<char>) -> Seq<char> {
    url_encoded_text(key) + seq!['='] + url_encoded_text(value)
}

/// What a list of parameters adds to a path: nothing when it is empty, else
/// `?` before the first component and `&` before each further one.
pub open spec fn query_suffix(params: Seq<(Seq<char>, Seq<char>)>) -> Seq<char>
    decreases params.len(),
{
    if params.len() == 0 {
        Seq::empty()
    } else {
        let sep = if params.len() == 1 {
            '?'
        } else {
            '&'
        };
        query_suffix(params.drop_last()) + seq![sep] + query_pair(
            params.last().0,
            params.last().1,
        )
    }
}

/// The parameters of a query, each side taken by its characters.
pub open spec fn param_views(params: Seq<(String, String)>) -> Seq<(Seq<char>, Seq<char>)> {
    params.map_values(|p: (String, String)| (p.0@, p.1@))
}

/// The path that a request for `path` with `query` goes to.
pub open spec fn full_path(path: Seq<char>, query: Option<Seq<(Seq<char>, Seq<char>)>>) -> Seq<
    char,
> {
    match query {
        Some(params) => path + query_suffix(params),
        None => path,
    }
}

/// Calls `urlencoding::encode(s)`. The contract claims what its source does:
/// each byte of the UTF-8 form of `s` that is not an ASCII letter, digit, `-`,
/// `.`, `_` or `~` becomes `%` and two upper-case hexadecimal digits, and every
/// other byte stays as it is.
#[verifier::external_body]
fn url_encode(s: &str) -> (r: String)
    ensures
        r@ == url_encoded_text(s@),
{
    urlencoding::encode(s).into_owned()
}

/// Appends `?key=value&key=value...` to `path`, each key and value
/// percent-encoded; a missing or empty list adds nothing.
pub fn path_with_query(path: &str, query: &Option<Vec<(String, String)>>) -> (r: String)
    ensures
        r@ == full_path(
            path@,
            match query {
                Some(ps) => Some(param_views(ps@)),
                None => None,
            },
        ),
{
    let mut full = String::from_str(path);
    match query {
        None => {},
        Some(params) => {
            let ghost views = param_views(params@);
            let mut i: usize = 0;
            while i < params.len()
                invariant
                    i <= params.len(),
                    views == param_views(params@),
                    full@ == path@ + query_suffix(views.take(i as int)),
                decreases params.len() - i,
            {
                if i == 0 {
                    full.append("?");
                    proof {
                        reveal_strlit("?");
                    }
                } else {
                    full.append("&");
                    proof {
                        reveal_strlit("&");
                    }
                }
                let key = url_encode(params[i].0.as_str());
                full.append(key.as_str());
                full.append("=");
                proof {
                    reveal_strlit("=");
                }
                let value = url_encode(params[i].1.as_str());
                full.append(value.as_str());
                proof {
                    let t = views.take(i + 1);
                    assert(t.drop_last() =~= views.take(i as int));
                    assert(t.last() == views[i as int]);
                    if i == 0 {
                        assert(views.take(0) =~= Seq::<(Seq<char>, Seq<char>)>::empty());
                    }
                }
                i = i + 1;
            }
            proof {
                assert(views.take(params.len() as int) =~= views);
            }
        },
    }
    full
}

/// The value of a hexadecimal digit.
pub open spec fn hex_value(c: char) -> int {
    if '0' <= c && c <= '9' {
        c as int - 48
    } else {
        c as int - 55
    }
}

/// Undoes percent-encoding: `%` and two hexadecimal digits stand for one
/// byte, any other character for the byte of its code.
pub open spec fn url_decoded(s: Seq<char>) -> Seq<u8>
    decreases s.len(),
{
    if s.len() == 0 {
        Seq::empty()
    } else if s[0] == '%' && s.len() >= 3 {
        seq![(hex_value(s[1]) * 16 + hex_value(s[2])) as u8] + url_decoded(s.skip(3))
    } else {
        seq![s[0] as u8] + url_decoded(s.drop_first())
    }
}

/// Characters that separate the parts of a query.
pub open spec fn is_query_separator(c: char) -> bool {
    c == '?' || c == '&'
}

/// The position of the last separator in `s`, or -1 when there is none.
pub open spec fn last_separator(s: Seq<char>) -> int
    decreases s.len(),
{
    if s.len() == 0 {
        -1
    } else if is_query_separator(s.last()) {
        s.len() - 1
    } else {
        last_separator(s.drop_last())
    }
}

/// The last separator of a text lies inside it, if there is one.
pub proof fn lemma_last_separator_bound(s: Seq<char>)
    ensures
        -1 <= last_separator(s) < s.len(),
    decreases s.len(),
{
    if s.len() > 0 && !is_query_separator(s.last()) {
        lemma_last_separator_bound(s.drop_last());
    }
}

/// The position of the first `=` in `s`, or its length when there is none.
pub open spec fn first_equals(s: Seq<char>) -> int
    decreases s.len(),
{
    if s.len() == 0 {
        0
    } else if s[0] == '=' {
        0
    } else {
        1 + first_equals(s.drop_first())
    }
}

/// A `key=value` component, read back as the bytes of its key and value.
pub open spec fn parse_pair(s: Seq<char>) -> (Seq<u8>, Seq<u8>) {
    let i = first_equals(s);
    (url_decoded(s.take(i)), url_decoded(s.skip(i + 1)))
}

/// Reads a query back: its components, each after a `?` or `&`, as the
/// bytes of their keys and values.
pub open spec fn parse_query(s: Seq<char>) -> Seq<(Seq<u8>, Seq<u8>)>
    decreases s.len(),
{
    let i = last_separator(s);
    if s.len() == 0 || i < 0 {
        Seq::empty()
    } else {
        proof {
            lemma_last_separator_bound(s);
        }
        parse_query(s.take(i)).push(parse_pair(s.skip(i + 1)))
    }
}

/// Whether `c` can stand in a percent-encoded text.
pub open spec fn is_encoded_char(c: char) -> bool {
    ||| ('0' <= c && c <= '9')
    ||| ('A' <= c && c <= 'Z')
    ||| ('a' <= c && c <= 'z')
    ||| c == '-'
    ||| c == '.'
    ||| c == '_'
    ||| c == '~'
    ||| c == '%'
}

proof fn lemma_encoded_byte_chars(b: u8)
    ensures
        forall|j: int|
            0 <= j < encoded_byte(b).len() ==> is_encoded_char(#[trigger] encoded_byte(b)[j]),
{
}

/// Percent-encoded text holds only letters, digits, `-`, `.`, `_`, `~` and `%`.
pub proof fn lemma_url_encoded_chars(bytes: Seq<u8>)
    ensures
        forall|j: int|
            0 <= j < url_encoded(bytes).len() ==> is_encoded_char(#[trigger] url_encoded(bytes)[j]),
    decreases bytes.len(),
{
    if bytes.len() > 0 {
        lemma_encoded_byte_chars(bytes[0]);
        lemma_url_encoded_chars(bytes.drop_first());
        let e = encoded_byte(bytes[0]);
        let r = url_encoded(bytes.drop_first());
        assert forall|j: int| 0 <= j < url_encoded(bytes).len() implies is_encoded_char(
            #[trigger] url_encoded(bytes)[j],
        ) by {
            if j < e.len() {
                assert(url_encoded(bytes)[j] == e[j]);
            } else {
                assert(url_encoded(bytes)[j] == r[j - e.len()]);
            }
        }
    }
}

proof fn lemma_decode_encoded_byte(b: u8, rest: Seq<char>)
    ensures
        url_decoded(encoded_byte(b) + rest) == seq![b] + url_decoded(rest),
{
    let s = encoded_byte(b) + rest;
    if is_unreserved(b) {
        assert(s.drop_first() =~= rest);
        assert(s[0] == b as char);
        assert((b as char) as u8 == b);
    } else {
        assert(s.skip(3) =~= rest);
        assert(s[0] == '%');
        let hi = b as int / 16;
        let lo = b as int % 16;
        assert(hex_value(hex_digit(hi)) == hi);
        assert(hex_value(hex_digit(lo)) == lo);
        assert((hi * 16 + lo) as u8 == b);
    }
}

/// Decoding a percent-encoding gives back the bytes that were encoded.
pub proof fn lemma_url_decode_encode(bytes: Seq<u8>)
    ensures
        url_decoded(url_encoded(bytes)) == bytes,
    decreases bytes.len(),
{
    if bytes.len() > 0 {
        lemma_decode_encoded_byte(bytes[0], url_encoded(bytes.drop_first()));
        lemma_url_decode_encode(bytes.drop_first());
        assert(seq![bytes[0]] + bytes.drop_first() =~= bytes);
    }
}

proof fn lemma_last_separator_append(a: Seq<char>, b: Seq<char>)
    requires
        forall|j: int| 0 <= j < b.len() ==> !is_query_separator(#[trigger] b[j]),
    ensures
        last_separator(a + b) == last_separator(a),
    decreases b.len(),
{
    if b.len() > 0 {
        assert((a + b).drop_last() =~= a + b.drop_last());
        assert((a + b).last() == b[b.len() - 1]);
        lemma_last_separator_append(a, b.drop_last());
    } else {
        assert(a + b =~= a);
    }
}

proof fn lemma_first_equals_append(a: Seq<char>, b: Seq<char>)
    requires
        forall|j: int| 0 <= j < a.len() ==> #[trigger] a[j] != '=',
    ensures
        first_equals(a + b) == a.len() + first_equals(b),
    decreases a.len(),
{
    if a.len() > 0 {
        assert((a + b).drop_first() =~= a.drop_first() + b);
        assert((a + b)[0] == a[0]);
        lemma_first_equals_append(a.drop_first(), b);
    } else {
        assert(a + b =~= b);
    }
}

/// Reading back one component gives the bytes of its key and its value.
pub proof fn lemma_pair_roundtrip(key: Seq<char>, value: Seq<char>)
    ensures
        parse_pair(query_pair(key, value)) == (encode_utf8(key), encode_utf8(value)),
        forall|j: int|
            0 <= j < query_pair(key, value).len() ==> !is_query_separator(
                #[trigger] query_pair(key, value)[j],
            ),
{
    let ek = url_encoded_text(key);
    let ev = url_encoded_text(value);
    let pair = query_pair(key, value);
    lemma_url_encoded_chars(encode_utf8(key));
    lemma_url_encoded_chars(encode_utf8(value));
    assert forall|j: int| 0 <= j < ek.len() implies #[trigger] ek[j] != '=' by {
        assert(is_encoded_char(ek[j]));
    }
    lemma_first_equals_append(ek, seq!['='] + ev);
    assert(pair =~= ek + (seq!['='] + ev));
    assert(first_equals(seq!['='] + ev) == 0);
    assert(pair.take(ek.len() as int) =~= ek);
    assert(pair.skip(ek.len() as int + 1) =~= ev);
    lemma_url_decode_encode(encode_utf8(key));
    lemma_url_decode_encode(encode_utf8(value));
    assert forall|j: int| 0 <= j < pair.len() implies !is_query_separator(#[trigger] pair[j]) by {
        if j < ek.len() {
            assert(pair[j] == ek[j]);
            assert(is_encoded_char(ek[j]));
        } else if j > ek.len() {
            assert(pair[j] == ev[j - ek.len() - 1]);
            assert(is_encoded_char(ev[j - ek.len() - 1]));
        }
    }
}

/// The parameters of a query, each side taken by its UTF-8 bytes.
pub open spec fn param_bytes(params: Seq<(Seq<char>, Seq<char>)>) -> Seq<(Seq<u8>, Seq<u8>)> {
    params.map_values(|p: (Seq<char>, Seq<char>)| (encode_utf8(p.0), encode_utf8(p.1)))
}

/// Reading back the query written for a list of parameters gives each key
/// and value, in order: no text a parameter holds can break the query apart.
pub proof fn lemma_query_roundtrip(params: Seq<(Seq<char>, Seq<char>)>)
    ensures
        parse_query(query_suffix(params)) == param_bytes(params),
    decreases params.len(),
{
    if params.len() == 0 {
        assert(param_bytes(params) =~= Seq::<(Seq<u8>, Seq<u8>)>::empty());
    } else {
        let rest = params.drop_last();
        let last = params.last();
        let prefix = query_suffix(rest);
        let sep = if params.len() == 1 {
            '?'
        } else {
            '&'
        };
        let pair = query_pair(last.0, last.1);
        let head = prefix + seq![sep];
        let s = query_suffix(params);
        assert(s =~= head + pair);
        lemma_pair_roundtrip(last.0, last.1);
        lemma_last_separator_append(head, pair);
        assert(head.drop_last() =~= prefix);
        assert(last_separator(head) == prefix.len());
        assert(s.take(prefix.len() as int) =~= prefix);
        assert(s.skip(prefix.len() as int + 1) =~= pair);
        lemma_query_roundtrip(rest);
        assert(param_bytes(params) =~= param_bytes(rest).push(
            (encode_utf8(last.0), encode_utf8(last.1)),
        ));
    }
}

/// Characters that percent-encoding leaves as they are: ASCII letters and
/// digits, `-`, `.`, `_` and `~`.
pub open spec fn is_plain_char(c: char) -> bool {
    ||| ('0' <= c && c <= '9')
    ||| ('A' <= c && c <= 'Z')
    ||| ('a' <= c && c <= 'z')
    ||| c == '-'
    ||| c == '.'
    ||| c == '_'
    ||| c == '~'
}

/// Whether every character of `s` is left as it is by percent-encoding.
pub open spec fn is_plain(s: Seq<char>) -> bool {
    forall|i: int| 0 <= i < s.len() ==> is_plain_char(#[trigger] s[i])
}

proof fn lemma_ascii_scalar(c: char)
    requires
        (c as u32) < 128,
    ensures
        encode_scalar(c as u32) == seq![c as u32 as u8],
{
    let x = c as u32;
    assert(x <= 0x7f ==> x & 0x7f == x) by (bit_vector);
    assert(leading_byte_width_1(x) == x as u8);
}

/// Percent-encoding leaves a text of plain characters as it is.
pub proof fn lemma_plain_text_unchanged(s: Seq<char>)
    requires
        is_plain(s),
    ensures
        url_encoded_text(s) == s,
    decreases s.len(),
{
    if s.len() > 0 {
        let c = s[0];
        assert(is_plain_char(s[0]));
        lemma_ascii_scalar(c);
        let b = c as u32 as u8;
        let rest = s.drop_first();
        assert(is_plain(rest)) by {
            assert forall|i: int| 0 <= i < rest.len() implies is_plain_char(#[trigger] rest[i]) by {
                assert(rest[i] == s[i + 1]);
            }
        }
        lemma_plain_text_unchanged(rest);
        let bytes = encode_utf8(s);
        assert(bytes == seq![b] + encode_utf8(rest));
        assert(bytes[0] == b);
        assert(bytes.drop_first() =~= encode_utf8(rest));
        assert(is_unreserved(b));
        assert((b as char) == c);
        assert(encoded_byte(b) == seq![c]);
        assert(s =~= seq![c] + rest);
    } else {
        assert(encode_utf8(s) =~= Seq::<u8>::empty());
        assert(url_encoded(Seq::<u8>::empty()) =~= Seq::<char>::empty());
        assert(s =~= Seq::<char>::empty());
    }
}

/// A query of one plain parameter is `?key=value`.
pub proof fn lemma_one_plain_param(k: Seq<char>, v: Seq<char>)
    requires
        is_plain(k),
        is_plain(v),
    ensures
        query_suffix(seq![(k, v)]) == seq!['?'] + k + seq!['='] + v,
{
    lemma_plain_text_unchanged(k);
    lemma_plain_text_unchanged(v);
    let ps = seq![(k, v)];
    assert(ps.drop_last() =~= Seq::<(Seq<char>, Seq<char>)>::empty());
    assert(query_suffix(ps.drop_last()) =~= Seq::<char>::empty());
    assert(query_suffix(ps) =~= seq!['?'] + k + seq!['='] + v);
}

/// A query of two plain parameters is `?key=value&key=value`.
pub proof fn lemma_two_plain_params(k1: Seq<char>, v1: Seq<char>, k2: Seq<char>, v2: Seq<char>)
    requires
        is_plain(k1),
        is_plain(v1),
        is_plain(k2),
        is_plain(v2),
    ensures
        query_suffix(seq![(k1, v1), (k2, v2)]) == seq!['?'] + k1 + seq!['='] + v1 + seq!['&'] + k2
            + seq!['='] + v2,
{
    lemma_one_plain_param(k1, v1);
    lemma_plain_text_unchanged(k2);
    lemma_plain_text_unchanged(v2);
    let ps = seq![(k1, v1), (k2, v2)];
    assert(ps.drop_last() =~= seq![(k1, v1)]);
    assert(query_suffix(ps) =~= seq!['?'] + k1 + seq!['='] + v1 + seq!['&'] + k2 + seq!['=']
        + v2);
}

} // verus!
