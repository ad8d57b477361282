//! Parsing of `application/x-www-form-urlencoded` bodies and query strings
//! for the subscription endpoints.
//!
//! The grammar accepted here: components are separated by `&`, and empty
//! components are skipped. A component splits at its first `=` into a key
//! and a value; a component without `=` is a key with an empty value. Keys
//! and values are percent-decoded to bytes — `%XY` with two hex digits is
//! the byte `XY`, `+` is a space, any other character contributes its UTF-8
//! bytes — and the bytes are then decoded as UTF-8. An incomplete escape, a
//! non-hex digit, or bytes that are not valid UTF-8 make the component
//! malformed. Unknown keys are ignored, a repeated required key is
//! malformed, and a missing required key rejects the input.

use vstd::prelude::*;
use vstd::utf8::{decode_utf8, encode_scalar, valid_utf8};

verus! {

/// A create request: both fields are required.
pub struct FormData {
    pub email: String,
    pub user_name: String,
}

/// A lookup request: the email to search for.
pub struct Info {
    pub email: String,
}

/// Whether `c` is an ASCII hex digit.
pub open spec fn is_hex_char(c: char) -> bool {
    ('0' as u32 <= c as u32 && c as u32 <= '9' as u32) || ('a' as u32 <= c as u32 && c as u32
        <= 'f' as u32) || ('A' as u32 <= c as u32 && c as u32 <= 'F' as u32)
}

/// The value of an ASCII hex digit.
pub open spec fn hex_char_val(c: char) -> int {
    if '0' as u32 <= c as u32 && c as u32 <= '9' as u32 {
        c as u32 - '0' as u32
    } else if 'a' as u32 <= c as u32 && c as u32 <= 'f' as u32 {
        c as u32 - 'a' as u32 + 10
    } else {
        c as u32 - 'A' as u32 + 10
    }
}

/// The bytes a component's characters stand for: `%XY` with two hex digits
/// is the byte `XY`, `+` is a space, and every other character contributes
/// its own UTF-8 encoding. An incomplete escape or a non-hex digit makes
/// the component malformed.
pub open spec fn decode_bytes(s: Seq<char>) -> Option<Seq<u8>>
    decreases s.len(),
{
    if s.len() == 0 {
        Some(Seq::empty())
    } else if s[0] == '%' {
        if s.len() >= 3 && is_hex_char(s[1]) && is_hex_char(s[2]) {
            match decode_bytes(s.skip(3)) {
                Some(rest) => Some(
                    seq![((hex_char_val(s[1]) * 16 + hex_char_val(s[2])) as u8)] + rest,
                ),
                None => None,
            }
        } else {
            None
        }
    } else if s[0] == '+' {
        match decode_bytes(s.skip(1)) {
            Some(rest) => Some(seq![32u8] + rest),
            None => None,
        }
    } else {
        match decode_bytes(s.skip(1)) {
            Some(rest) => Some(encode_scalar(s[0] as u32) + rest),
            None => None,
        }
    }
}

/// Percent-decoding of one key or value: the component's bytes, decoded as
/// UTF-8. Bytes that are not valid UTF-8 make the component malformed.
pub open spec fn percent_decode(s: Seq<char>) -> Option<Seq<char>> {
    match decode_bytes(s) {
        Some(bytes) => if valid_utf8(bytes) {
            Some(decode_utf8(bytes))
        } else {
            None
        },
        None => None,
    }
}

/// Index of the first occurrence of `c` in `s`, or `s.len()` if absent.
pub open spec fn first_idx(s: Seq<char>, c: char) -> int
    decreases s.len(),
{
    if s.len() == 0 {
        0
    } else if s[0] == c {
        0
    } else {
        1 + first_idx(s.skip(1), c)
    }
}

/// One `key=value` component: the key ends at the first `=`; a component
/// without `=` is a key with an empty value; both halves are
/// percent-decoded.
pub open spec fn parse_component(s: Seq<char>) -> Option<(Seq<char>, Seq<char>)> {
    let q = first_idx(s, '=');
    if q == s.len() {
        match percent_decode(s) {
            Some(k) => Some((k, Seq::empty())),
            None => None,
        }
    } else {
        match (percent_decode(s.take(q)), percent_decode(s.skip(q + 1))) {
            (Some(k), Some(v)) => Some((k, v)),
            _ => None,
        }
    }
}

/// Walk the components of a create body, accumulating the two required
/// fields. Empty components are skipped; a malformed component or a
/// repeated required key fails; unknown keys are ignored; at the end both
/// fields must have been seen.
pub open spec fn scan_form(
    s: Seq<char>,
    email: Option<Seq<char>>,
    name: Option<Seq<char>>,
) -> Option<(Seq<char>, Seq<char>)>
    decreases s.len(),
{
    let a = first_idx(s, '&');
    if a == 0 {
        if 0 < s.len() {
            scan_form(s.skip(1), email, name)
        } else {
            match (email, name) {
                (Some(e), Some(n)) => Some((e, n)),
                _ => None,
            }
        }
    } else {
        match parse_component(s.take(a)) {
            None => None,
            Some(kv) => {
                if kv.0 == "email"@ && email is Some {
                    None
                } else if kv.0 == "user_name"@ && name is Some {
                    None
                } else {
                    let email2 = if kv.0 == "email"@ {
                        Some(kv.1)
                    } else {
                        email
                    };
                    let name2 = if kv.0 == "user_name"@ {
                        Some(kv.1)
                    } else {
                        name
                    };
                    if 0 <= a && a < s.len() {
                        scan_form(s.skip(a + 1), email2, name2)
                    } else {
                        match (email2, name2) {
                            (Some(e), Some(n)) => Some((e, n)),
                            _ => None,
                        }
                    }
                }
            },
        }
    }
}

/// What a create body means: the decoded `email` and `user_name`, or `None`
/// when the body is malformed or a required field is missing.
pub open spec fn parse_form(s: Seq<char>) -> Option<(Seq<char>, Seq<char>)> {
    scan_form(s, None, None)
}

/// Walk the components of a lookup query string, looking for `email`.
pub open spec fn scan_query(s: Seq<char>, email: Option<Seq<char>>) -> Option<Seq<char>>
    decreases s.len(),
{
    let a = first_idx(s, '&');
    if a == 0 {
        if 0 < s.len() {
            scan_query(s.skip(1), email)
        } else {
            email
        }
    } else {
        match parse_component(s.take(a)) {
            None => None,
            Some(kv) => {
                if kv.0 == "email"@ && email is Some {
                    None
                } else {
                    let email2 = if kv.0 == "email"@ {
                        Some(kv.1)
                    } else {
                        email
                    };
                    if 0 <= a && a < s.len() {
                        scan_query(s.skip(a + 1), email2)
                    } else {
                        email2
                    }
                }
            },
        }
    }
}

/// What a lookup query string means: the decoded `email`, or `None` when the
/// query is malformed or the parameter is missing.
pub open spec fn parse_query(s: Seq<char>) -> Option<Seq<char>> {
    scan_query(s, None)
}

/// Index of the first occurrence of `c` in `v` at or after `start`, or
/// `v.len()` if there is none.
fn find_char(v: &Vec<char>, start: usize, c: char) -> (j: usize)
    requires
        start <= v.len(),
    ensures
        start <= j <= v.len(),
        j - start == first_idx(v@.skip(start as int), c),
    decreases v.len() - start,
{
    if start == v.len() {
        start
    } else if v[start] == c {
        proof {
            assert(v@.skip(start as int)[0] == v@[start as int]);
        }
        start
    } else {
        proof {
            assert(v@.skip(start as int)[0] == v@[start as int]);
            assert(v@.skip(start as int).skip(1) =~= v@.skip(start as int + 1));
        }
        find_char(v, start + 1, c)
    }
}

/// Whether `c` is an ASCII hex digit.
fn is_hex(c: char) -> (b: bool)
    ensures
        b == is_hex_char(c),
{
    let u = c as u32;
    ('0' as u32 <= u && u <= '9' as u32) || ('a' as u32 <= u && u <= 'f' as u32) || ('A' as u32 <= u
        && u <= 'F' as u32)
}

/// The value of an ASCII hex digit.
fn hex_val(c: char) -> (n: u32)
    requires
        is_hex_char(c),
    ensures
        n == hex_char_val(c),
        n < 16,
{
    let u = c as u32;
    if '0' as u32 <= u && u <= '9' as u32 {
        u - '0' as u32
    } else if 'a' as u32 <= u && u <= 'f' as u32 {
        u - 'a' as u32 + 10
    } else {
        u - 'A' as u32 + 10
    }
}

/// Append the UTF-8 encoding of `c` to `out`.
fn push_scalar_bytes(out: &mut Vec<u8>, c: char)
    ensures
        final (out)@ == old(out)@ + encode_scalar(c as u32),
{
    proof {
        vstd::utf8::char_is_scalar(c);
    }
    let ghost o0 = out@;
    let u = c as u32;
    if u <= 0x7F {
        out.push((u & 0x7F) as u8);
    } else if u <= 0x7FF {
        out.push(0xC0 | ((u >> 6) & 0x1F) as u8);
        out.push(0x80 | (u & 0x3F) as u8);
    } else if u <= 0xFFFF {
        out.push(0xE0 | ((u >> 12) & 0x0F) as u8);
        out.push(0x80 | ((u >> 6) & 0x3F) as u8);
        out.push(0x80 | (u & 0x3F) as u8);
    } else {
        out.push(0xF0 | ((u >> 18) & 0x7) as u8);
        out.push(0x80 | ((u >> 12) & 0x3F) as u8);
        out.push(0x80 | ((u >> 6) & 0x3F) as u8);
        out.push(0x80 | (u & 0x3F) as u8);
    }
    proof {
        assert(out@ =~= o0 + encode_scalar(c as u32));
    }
}

/// Decode the characters of `v` from position `i` on into bytes, appending
/// them to `out`. Returns whether the decoding succeeded.
fn decode_into(v: &Vec<char>, i: usize, out: &mut Vec<u8>) -> (ok: bool)
    requires
        i <= v.len(),
    ensures
        ok == decode_bytes(v@.skip(i as int)) is Some,
        ok ==> final (out)@ == old(out)@ + decode_bytes(v@.skip(i as int)).unwrap(),
    decreases v.len() - i,
{
    let ghost s = v@.skip(i as int);
    if i == v.len() {
        proof {
            assert(s =~= Seq::<char>::empty());
            assert(out@ =~= out@ + Seq::<u8>::empty());
        }
        true
    } else {
        let c0 = v[i];
        proof {
            assert(s[0] == v@[i as int]);
        }
        if c0 == '%' {
            if v.len() - i >= 3 {
                let c1 = v[i + 1];
                let c2 = v[i + 2];
                proof {
                    assert(s[1] == v@[i + 1]);
                    assert(s[2] == v@[i + 2]);
                }
                if is_hex(c1) && is_hex(c2) {
                    let b: u32 = hex_val(c1) * 16 + hex_val(c2);
                    out.push(b as u8);
                    proof {
                        assert(v@.skip(i + 3) =~= s.skip(3));
                    }
                    let ghost mid = out@;
                    let ok = decode_into(v, i + 3, out);
                    proof {
                        if ok {
                            assert(out@ =~= old(out)@ + (seq![(b as u8)] + decode_bytes(
                                s.skip(3),
                            ).unwrap()));
                        }
                    }
                    ok
                } else {
                    false
                }
            } else {
                false
            }
        } else if c0 == '+' {
            out.push(32u8);
            proof {
                assert(v@.skip(i + 1) =~= s.skip(1));
            }
            let ok = decode_into(v, i + 1, out);
            proof {
                if ok {
                    assert(out@ =~= old(out)@ + (seq![32u8] + decode_bytes(s.skip(1)).unwrap()));
                }
            }
            ok
        } else {
            push_scalar_bytes(out, c0);
            proof {
                assert(v@.skip(i + 1) =~= s.skip(1));
            }
            let ok = decode_into(v, i + 1, out);
            proof {
                if ok {
                    assert(out@ =~= old(out)@ + (encode_scalar(s[0] as u32) + decode_bytes(
                        s.skip(1),
                    ).unwrap()));
                }
            }
            ok
        }
    }
}

/// Percent-decode one whole component to a string.
fn decode_component(comp: &Vec<char>) -> (r: Option<String>)
    ensures
        r is Some <==> percent_decode(comp@) is Some,
        r is Some ==> r.unwrap()@ == percent_decode(comp@).unwrap(),
{
    let mut bytes: Vec<u8> = Vec::new();
    proof {
        assert(comp@.skip(0) =~= comp@);
    }
    let ok = decode_into(comp, 0, &mut bytes);
    if !ok {
        return None;
    }
    proof {
        assert(bytes@ =~= decode_bytes(comp@).unwrap());
    }
    crate::text::string_from_utf8(bytes)
}

/// Split one component at its first `=` and decode both halves.
fn parse_component_exec(comp: &Vec<char>) -> (r: Option<(String, String)>)
    ensures
        r is Some <==> parse_component(comp@) is Some,
        r is Some ==> r.unwrap().0@ == parse_component(comp@).unwrap().0,
        r is Some ==> r.unwrap().1@ == parse_component(comp@).unwrap().1,
{
    proof {
        assert(comp@.skip(0) =~= comp@);
    }
    let q = find_char(comp, 0, '=');
    if q == comp.len() {
        match decode_component(comp) {
            Some(k) => Some((k, String::new())),
            None => None,
        }
    } else {
        let key_part = crate::text::subvec(comp, 0, q);
        let val_part = crate::text::subvec(comp, q + 1, comp.len());
        proof {
            assert(key_part@ =~= comp@.take(q as int));
            assert(val_part@ =~= comp@.skip(q + 1));
        }
        match (decode_component(&key_part), decode_component(&val_part)) {
            (Some(k), Some(v)) => Some((k, v)),
            _ => None,
        }
    }
}

/// The view of an optional string.
pub open spec fn opt_view(o: Option<String>) -> Option<Seq<char>> {
    match o {
        Some(s) => Some(s@),
        None => None,
    }
}

/// Walk the components of a create body from position `i` on.
fn scan_form_exec(v: &Vec<char>, i: usize, email: Option<String>, name: Option<String>) -> (r:
    Option<(String, String)>)
    requires
        i <= v.len(),
    ensures
        r is Some <==> scan_form(v@.skip(i as int), opt_view(email), opt_view(name)) is Some,
        r is Some ==> r.unwrap().0@ == scan_form(
            v@.skip(i as int),
            opt_view(email),
            opt_view(name),
        ).unwrap().0,
        r is Some ==> r.unwrap().1@ == scan_form(
            v@.skip(i as int),
            opt_view(email),
            opt_view(name),
        ).unwrap().1,
    decreases v.len() - i,
{
    let ghost s = v@.skip(i as int);
    let a = find_char(v, i, '&');
    if a == i {
        if i < v.len() {
            proof {
                assert(v@.skip(i + 1) =~= s.skip(1));
            }
            scan_form_exec(v, i + 1, email, name)
        } else {
            match (email, name) {
                (Some(e), Some(n)) => Some((e, n)),
                _ => None,
            }
        }
    } else {
        let comp = crate::text::subvec(v, i, a);
        proof {
            assert(comp@ =~= s.take(first_idx(s, '&')));
        }
        match parse_component_exec(&comp) {
            None => None,
            Some((k, val)) => {
                proof {
                    broadcast use vstd::string::group_string_axioms;

                    reveal_strlit("email");
                    reveal_strlit("user_name");
                    assert("email"@.len() == 5);
                    assert("user_name"@.len() == 9);
                    assert("email"@ != "user_name"@);
                }
                let is_email = crate::text::str_eq(k.as_str(), "email");
                let is_name = crate::text::str_eq(k.as_str(), "user_name");
                if is_email && email.is_some() {
                    None
                } else if is_name && name.is_some() {
                    None
                } else {
                    let email2: Option<String>;
                    let name2: Option<String>;
                    if is_email {
                        email2 = Some(val);
                        name2 = name;
                    } else if is_name {
                        email2 = email;
                        name2 = Some(val);
                    } else {
                        email2 = email;
                        name2 = name;
                    }
                    if a < v.len() {
                        proof {
                            assert(v@.skip(a + 1) =~= s.skip(first_idx(s, '&') + 1));
                        }
                        scan_form_exec(v, a + 1, email2, name2)
                    } else {
                        match (email2, name2) {
                            (Some(e), Some(n)) => Some((e, n)),
                            _ => None,
                        }
                    }
                }
            },
        }
    }
}

/// Walk the components of a lookup query string from position `i` on.
fn scan_query_exec(v: &Vec<char>, i: usize, email: Option<String>) -> (r: Option<String>)
    requires
        i <= v.len(),
    ensures
        r is Some <==> scan_query(v@.skip(i as int), opt_view(email)) is Some,
        r is Some ==> r.unwrap()@ == scan_query(v@.skip(i as int), opt_view(email)).unwrap(),
    decreases v.len() - i,
{
    let ghost s = v@.skip(i as int);
    let a = find_char(v, i, '&');
    if a == i {
        if i < v.len() {
            proof {
                assert(v@.skip(i + 1) =~= s.skip(1));
            }
            scan_query_exec(v, i + 1, email)
        } else {
            email
        }
    } else {
        let comp = crate::text::subvec(v, i, a);
        proof {
            assert(comp@ =~= s.take(first_idx(s, '&')));
        }
        match parse_component_exec(&comp) {
            None => None,
            Some((k, val)) => {
                let is_email = crate::text::str_eq(k.as_str(), "email");
                if is_email && email.is_some() {
                    None
                } else {
                    let email2: Option<String> = if is_email {
                        Some(val)
                    } else {
                        email
                    };
                    if a < v.len() {
                        proof {
                            assert(v@.skip(a + 1) =~= s.skip(first_idx(s, '&') + 1));
                        }
                        scan_query_exec(v, a + 1, email2)
                    } else {
                        email2
                    }
                }
            },
        }
    }
}

impl FormData {
    /// Parse a create body. `None` exactly when `parse_form` rejects it:
    /// malformed encoding, or `email` or `user_name` missing or repeated.
    pub fn parse(body: &str) -> (r: Option<FormData>)
        ensures
            r is Some <==> parse_form(body@) is Some,
            r is Some ==> r.unwrap().email@ == parse_form(body@).unwrap().0,
            r is Some ==> r.unwrap().user_name@ == parse_form(body@).unwrap().1,
    {
        let v = crate::text::str_to_chars(body);
        proof {
            assert(v@.skip(0) =~= v@);
        }
        match scan_form_exec(&v, 0, None, None) {
            Some((e, n)) => Some(FormData { email: e, user_name: n }),
            None => None,
        }
    }
}

impl Info {
    /// Parse a lookup query string. `None` exactly when `parse_query`
    /// rejects it: malformed encoding, or `email` missing or repeated.
    pub fn parse(query: &str) -> (r: Option<Info>)
        ensures
            r is Some <==> parse_query(query@) is Some,
            r is Some ==> r.unwrap().email@ == parse_query(query@).unwrap(),
    {
        let v = crate::text::str_to_chars(query);
        proof {
            assert(v@.skip(0) =~= v@);
        }
        match scan_query_exec(&v, 0, None) {
            Some(e) => Some(Info { email: e }),
            None => None,
        }
    }
}

} // verus!
