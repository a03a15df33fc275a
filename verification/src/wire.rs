//! Framing of the messages the registry and the dispatcher put on the wire.
//!
//! The status reply and the per-target workflow message are small JSON
//! objects with a fixed shape; this module builds them character by
//! character, with the escaping stated exactly. The quote, the backslash
//! and the three named control characters get their short escapes, every
//! other control character its `\u00XX` escape; all other characters pass
//! through unchanged.

use crate::status::TriggerStatus;
use crate::status::lemma_status_name_has_no_quote;
use crate::status::spec_status_string;
use crate::status::status_name_lookup;
use crate::status::trigger_status_to_string;
use vstd::prelude::*;
use vstd::string::StringExecFns;

verus! {

/// Relies on str::chars: the characters of a string, in order.
#[verifier::external_body]
pub fn str_chars(s: &str) -> (r: Vec<char>)
    ensures
        r@ == s@,
{
    s.chars().collect()
}

/// Relies on String's FromIterator impl: collecting characters builds the
/// string holding exactly those characters.
#[verifier::external_body]
pub fn chars_string(v: &Vec<char>) -> (r: String)
    ensures
        r@ == v@,
{
    v.iter().collect()
}

/// The lowercase hexadecimal digit writing `d`.
pub open spec fn hex_digit_char(d: int) -> char {
    if d == 0 {
        '0'
    } else if d == 1 {
        '1'
    } else if d == 2 {
        '2'
    } else if d == 3 {
        '3'
    } else if d == 4 {
        '4'
    } else if d == 5 {
        '5'
    } else if d == 6 {
        '6'
    } else if d == 7 {
        '7'
    } else if d == 8 {
        '8'
    } else if d == 9 {
        '9'
    } else if d == 10 {
        'a'
    } else if d == 11 {
        'b'
    } else if d == 12 {
        'c'
    } else if d == 13 {
        'd'
    } else if d == 14 {
        'e'
    } else {
        'f'
    }
}

/// How one character is written inside a JSON string value.
pub open spec fn json_escape_char(c: char) -> Seq<char> {
    if c == '"' {
        seq!['\\', '"']
    } else if c == '\\' {
        seq!['\\', '\\']
    } else if c == '\n' {
        seq!['\\', 'n']
    } else if c == '\r' {
        seq!['\\', 'r']
    } else if c == '\t' {
        seq!['\\', 't']
    } else if (c as u32) < 32 {
        seq!['\\', 'u', '0', '0', hex_digit_char(c as u32 as int / 16), hex_digit_char(
            c as u32 as int % 16,
        )]
    } else {
        seq![c]
    }
}

/// The lowercase hexadecimal digit writing `d`.
fn hex_char(d: u32) -> (r: char)
    requires
        d < 16,
    ensures
        r == hex_digit_char(d as int),
{
    if d == 0 {
        '0'
    } else if d == 1 {
        '1'
    } else if d == 2 {
        '2'
    } else if d == 3 {
        '3'
    } else if d == 4 {
        '4'
    } else if d == 5 {
        '5'
    } else if d == 6 {
        '6'
    } else if d == 7 {
        '7'
    } else if d == 8 {
        '8'
    } else if d == 9 {
        '9'
    } else if d == 10 {
        'a'
    } else if d == 11 {
        'b'
    } else if d == 12 {
        'c'
    } else if d == 13 {
        'd'
    } else if d == 14 {
        'e'
    } else {
        'f'
    }
}

/// The value a lowercase hexadecimal digit writes, if `c` is one.
fn hex_val(c: char) -> (r: Option<u32>)
    ensures
        r matches Some(v) ==> v < 16 && c == hex_digit_char(v as int),
        forall|d: u32| d < 16 && c == hex_digit_char(d as int) ==> r == Some(d),
{
    if c == '0' {
        Some(0)
    } else if c == '1' {
        Some(1)
    } else if c == '2' {
        Some(2)
    } else if c == '3' {
        Some(3)
    } else if c == '4' {
        Some(4)
    } else if c == '5' {
        Some(5)
    } else if c == '6' {
        Some(6)
    } else if c == '7' {
        Some(7)
    } else if c == '8' {
        Some(8)
    } else if c == '9' {
        Some(9)
    } else if c == 'a' {
        Some(10)
    } else if c == 'b' {
        Some(11)
    } else if c == 'c' {
        Some(12)
    } else if c == 'd' {
        Some(13)
    } else if c == 'e' {
        Some(14)
    } else if c == 'f' {
        Some(15)
    } else {
        None
    }
}

/// Characters with equal code points are equal.
proof fn lemma_char_code_injective(a: char, b: char)
    requires
        a as u32 == b as u32,
    ensures
        a == b,
{
}

/// The character with code point `code`.
fn char_of_code(code: u32) -> (r: char)
    requires
        code < 32,
    ensures
        r as u32 == code,
{
    match code {
        0 => '\u{00}',
        1 => '\u{01}',
        2 => '\u{02}',
        3 => '\u{03}',
        4 => '\u{04}',
        5 => '\u{05}',
        6 => '\u{06}',
        7 => '\u{07}',
        8 => '\u{08}',
        9 => '\u{09}',
        10 => '\u{0a}',
        11 => '\u{0b}',
        12 => '\u{0c}',
        13 => '\u{0d}',
        14 => '\u{0e}',
        15 => '\u{0f}',
        16 => '\u{10}',
        17 => '\u{11}',
        18 => '\u{12}',
        19 => '\u{13}',
        20 => '\u{14}',
        21 => '\u{15}',
        22 => '\u{16}',
        23 => '\u{17}',
        24 => '\u{18}',
        25 => '\u{19}',
        26 => '\u{1a}',
        27 => '\u{1b}',
        28 => '\u{1c}',
        29 => '\u{1d}',
        30 => '\u{1e}',
        _ => '\u{1f}',
    }
}

/// How a whole string is written inside a JSON string value.
pub open spec fn json_escape(s: Seq<char>) -> Seq<char>
    decreases s.len(),
{
    if s.len() == 0 {
        Seq::empty()
    } else {
        json_escape_char(s[0]) + json_escape(s.drop_first())
    }
}

/// Escaping distributes over extending the input by one character.
pub proof fn lemma_json_escape_push(s: Seq<char>, c: char)
    ensures
        json_escape(s.push(c)) == json_escape(s) + json_escape_char(c),
    decreases s.len(),
{
    let e = s.push(c);
    if s.len() == 0 {
        assert(e[0] == c);
        assert(e.drop_first() =~= Seq::<char>::empty());
        assert(json_escape(e) == json_escape_char(c) + json_escape(Seq::<char>::empty()));
        assert(json_escape_char(c) + Seq::<char>::empty() =~= json_escape_char(c));
        assert(Seq::<char>::empty() + json_escape_char(c) =~= json_escape_char(c));
    } else {
        assert(e[0] == s[0]);
        assert(e.drop_first() =~= s.drop_first().push(c));
        lemma_json_escape_push(s.drop_first(), c);
        assert(json_escape(e) == json_escape_char(s[0]) + (json_escape(s.drop_first())
            + json_escape_char(c)));
        assert(json_escape_char(s[0]) + (json_escape(s.drop_first()) + json_escape_char(c))
            =~= (json_escape_char(s[0]) + json_escape(s.drop_first())) + json_escape_char(c));
    }
}

/// Write `s` as it stands inside a JSON string value.
pub fn escape_json(s: &str) -> (r: String)
    ensures
        r@ == json_escape(s@),
{
    let chars = str_chars(s);
    let mut out: Vec<char> = Vec::new();
    let n = chars.len();
    for i in 0..n
        invariant
            n == chars@.len(),
            chars@ == s@,
            out@ == json_escape(s@.take(i as int)),
    {
        let c = chars[i];
        proof {
            lemma_json_escape_push(s@.take(i as int), s@[i as int]);
            assert(s@.take(i as int).push(s@[i as int]) =~= s@.take(i + 1 as int));
        }
        if c == '"' {
            out.push('\\');
            out.push('"');
        } else if c == '\\' {
            out.push('\\');
            out.push('\\');
        } else if c == '\n' {
            out.push('\\');
            out.push('n');
        } else if c == '\r' {
            out.push('\\');
            out.push('r');
        } else if c == '\t' {
            out.push('\\');
            out.push('t');
        } else if (c as u32) < 32 {
            let code = c as u32;
            out.push('\\');
            out.push('u');
            out.push('0');
            out.push('0');
            out.push(hex_char(code / 16));
            out.push(hex_char(code % 16));
        } else {
            out.push(c);
        }
        proof {
            assert(out@ =~= json_escape(s@.take(i as int)) + json_escape_char(s@[i as int]));
        }
    }
    proof {
        assert(s@.take(n as int) =~= s@);
    }
    chars_string(&out)
}

/// The reply the registry gives to a status query: a two-field JSON object
/// carrying the status name and the error message, if any.
pub open spec fn spec_status_reply(status: TriggerStatus, status_msg: Seq<char>) -> Seq<char> {
    "{\"status\":\""@ + spec_status_string(status) + "\",\"status_msg\":\""@
        + json_escape(status_msg) + "\"}"@
}

/// Read a status-reply object back into its parts. Sound: whatever comes
/// back, the input is exactly its encoding. Complete: every well-formed
/// reply — the encoding of some status and message — is read back.
#[verifier::rlimit(100)]
pub fn parse_status_reply(reply: &str) -> (r: Option<(TriggerStatus, String)>)
    ensures
        r matches Some(v) ==> reply@ == spec_status_reply(v.0, v.1@),
        forall|st: TriggerStatus, msg: Seq<char>|
            reply@ == #[trigger] spec_status_reply(st, msg) ==> r is Some,
{
    let ghost encodable = exists|st: TriggerStatus, msg: Seq<char>|
        reply@ == #[trigger] spec_status_reply(st, msg);
    let ghost (gst, gmsg): (TriggerStatus, Seq<char>) = if encodable {
        choose|st: TriggerStatus, msg: Seq<char>| reply@ == spec_status_reply(st, msg)
    } else {
        (TriggerStatus::Starting, Seq::empty())
    };
    let ghost gname = spec_status_string(gst);
    let ghost gesc = json_escape(gmsg);
    proof {
        reveal_strlit("{\"status\":\"");
        reveal_strlit("\",\"status_msg\":\"");
        reveal_strlit("\"}");
        if encodable {
            lemma_status_name_has_no_quote(gst);
            assert(reply@ == "{\"status\":\""@ + gname + "\",\"status_msg\":\""@ + gesc + "\"}"@);
            assert(reply@.len() == 11 + gname.len() + 16 + gesc.len() + 2);
        }
    }
    let chars = str_chars(reply);
    let n = chars.len();

    // The opening of the object and of the status field.
    let head = str_chars("{\"status\":\"");
    if n < 11 {
        proof {
            if encodable {
                assert(false);
            }
            assert(!encodable);
        }
        return None;
    }
    for k in 0..11usize
        invariant
            encodable == (exists|st: TriggerStatus, msg: Seq<char>|
                reply@ == #[trigger] spec_status_reply(st, msg)),
            chars@ == reply@,
            head@ == "{\"status\":\""@,
            head@.len() == 11,
            n == chars@.len(),
            n >= 11,
            encodable ==> reply@ == "{\"status\":\""@ + gname + "\",\"status_msg\":\""@ + gesc
                + "\"}"@,
            forall|t: int| 0 <= t < k ==> chars@[t] == head@[t],
    {
        if chars[k] != head[k] {
            proof {
                if encodable {
                    assert(reply@[k as int] == "{\"status\":\""@[k as int]);
                    assert(false);
                }
                assert(!encodable);
            }
            return None;
        }
    }

    // The status name runs to the next quote.
    let mut name_end: usize = 11;
    while name_end < n && chars[name_end] != '"'
        invariant
            chars@ == reply@,
            n == chars@.len(),
            11 <= name_end <= n,
            forall|t: int| 11 <= t < name_end ==> chars@[t] != '"',
        decreases n - name_end,
    {
        name_end = name_end + 1;
    }
    proof {
        if encodable {
            let q0 = 11 + gname.len() as int;
            assert(reply@[q0] == "\",\"status_msg\":\""@[0]);
            assert(reply@[q0] == '"');
            assert forall|t: int| 0 <= t < gname.len() implies reply@[11 + t] == gname[t] by {}
            if name_end < q0 {
                assert(reply@[name_end as int] == gname[name_end - 11]);
            }
            assert(name_end == q0);
        }
    }
    if name_end >= n {
        proof {
            if encodable {
                assert(false);
            }
            assert(!encodable);
        }
        return None;
    }

    let mut name_chars: Vec<char> = Vec::new();
    for k in 11..name_end
        invariant
            chars@ == reply@,
            n == chars@.len(),
            name_end < n,
            name_chars@.len() + 11 == k,
            forall|t: int| 0 <= t < name_chars@.len() ==> name_chars@[t] == chars@[11 + t],
    {
        name_chars.push(chars[k]);
    }
    let name = chars_string(&name_chars);
    proof {
        if encodable {
            assert(name@ =~= gname);
        }
    }
    let status = match status_name_lookup(&name) {
        Some(st) => st,
        None => {
            proof {
                if encodable {
                    assert(name@ != spec_status_string(gst));
                    assert(false);
                }
                assert(!encodable);
            }
            return None;
        },
    };

    // The separator between the two fields.
    let mid = str_chars("\",\"status_msg\":\"");
    if n - name_end < 16 {
        proof {
            if encodable {
                assert(false);
            }
            assert(!encodable);
        }
        return None;
    }
    for k in 0..16usize
        invariant
            encodable == (exists|st: TriggerStatus, msg: Seq<char>|
                reply@ == #[trigger] spec_status_reply(st, msg)),
            chars@ == reply@,
            mid@ == "\",\"status_msg\":\""@,
            mid@.len() == 16,
            "{\"status\":\""@.len() == 11,
            "\"}"@.len() == 2,
            n == chars@.len(),
            name_end + 16 <= n,
            11 <= name_end < n,
            encodable ==> reply@ == "{\"status\":\""@ + gname + "\",\"status_msg\":\""@ + gesc
                + "\"}"@,
            encodable ==> name_end == 11 + gname.len(),
            forall|t: int| 0 <= t < k ==> chars@[name_end + t] == mid@[t],
    {
        if chars[name_end + k] != mid[k] {
            proof {
                if encodable {
                    assert(reply@[name_end + k] == "\",\"status_msg\":\""@[k as int]);
                    assert(false);
                }
                assert(!encodable);
            }
            return None;
        }
    }

    // The escaped message, closed by a quote and the end of the object.
    let body_start = name_end + 16;
    let ghost p0 = body_start as int;
    let mut out: Vec<char> = Vec::new();
    let ghost mut gj: int = 0;
    proof {
        if encodable {
            assert(reply@.skip(p0) =~= gesc + "\"}"@);
            assert(gmsg.skip(0) =~= gmsg);
            assert(out@ =~= gmsg.take(0));
        }
        assert(json_escape(out@) =~= reply@.subrange(p0, p0));
    }
    let mut i = body_start;
    while i < n
        invariant
            encodable == (exists|st: TriggerStatus, msg: Seq<char>|
                reply@ == #[trigger] spec_status_reply(st, msg)),
            chars@ == reply@,
            n == chars@.len(),
            p0 == body_start as int,
            body_start <= i <= n,
            body_start == name_end + 16,
            11 <= name_end < n,
            json_escape(out@) =~= reply@.subrange(p0, i as int),
            "{\"status\":\""@.len() == 11,
            "\",\"status_msg\":\""@.len() == 16,
            "\"}"@.len() == 2,
            forall|t: int| 0 <= t < 11 ==> chars@[t] == "{\"status\":\""@[t],
            forall|t: int| 0 <= t < name_chars@.len() ==> name_chars@[t] == chars@[11 + t],
            name_chars@.len() + 11 == name_end,
            name@ == name_chars@,
            name@ == spec_status_string(status),
            forall|t: int| 0 <= t < 16 ==> chars@[name_end + t] == "\",\"status_msg\":\""@[t],
            encodable ==> {
                &&& 0 <= gj <= gmsg.len()
                &&& out@ == gmsg.take(gj)
                &&& reply@.skip(i as int) == json_escape(gmsg.skip(gj)) + "\"}"@
            },
        decreases n - i,
    {
        proof {
            reveal_strlit("{\"status\":\"");
            reveal_strlit("\",\"status_msg\":\"");
            reveal_strlit("\"}");
            if encodable {
                assert(reply@.skip(i as int).len() == n - i);
                if gj < gmsg.len() {
                    assert(gmsg.skip(gj)[0] == gmsg[gj]);
                    assert(gmsg.skip(gj).drop_first() =~= gmsg.skip(gj + 1));
                    assert(json_escape(gmsg.skip(gj)) == json_escape_char(gmsg[gj])
                        + json_escape(gmsg.skip(gj + 1)));
                    assert(json_escape_char(gmsg[gj]).len() == 1 || json_escape_char(
                        gmsg[gj],
                    ).len() == 2 || json_escape_char(gmsg[gj]).len() == 6);
                    assert(reply@.skip(i as int)[0] == reply@[i as int]);
                    assert(reply@[i as int] == json_escape_char(gmsg[gj])[0]);
                    if json_escape_char(gmsg[gj]).len() == 2 {
                        assert(n - i >= 4);
                        assert(reply@.skip(i as int)[1] == reply@[i + 1]);
                        assert(reply@[i + 1] == json_escape_char(gmsg[gj])[1]);
                    } else if json_escape_char(gmsg[gj]).len() == 6 {
                        assert(n - i >= 8);
                        assert(reply@.skip(i as int)[1] == reply@[i + 1]);
                        assert(reply@[i + 1] == json_escape_char(gmsg[gj])[1]);
                        assert(reply@.skip(i as int)[2] == reply@[i + 2]);
                        assert(reply@[i + 2] == json_escape_char(gmsg[gj])[2]);
                        assert(reply@.skip(i as int)[3] == reply@[i + 3]);
                        assert(reply@[i + 3] == json_escape_char(gmsg[gj])[3]);
                        assert(reply@.skip(i as int)[4] == reply@[i + 4]);
                        assert(reply@[i + 4] == json_escape_char(gmsg[gj])[4]);
                        assert(reply@.skip(i as int)[5] == reply@[i + 5]);
                        assert(reply@[i + 5] == json_escape_char(gmsg[gj])[5]);
                    } else {
                        assert(n - i >= 3);
                    }
                } else {
                    assert(gmsg.skip(gj) =~= Seq::<char>::empty());
                    assert(json_escape(gmsg.skip(gj)) == Seq::<char>::empty());
                    assert(reply@.skip(i as int) =~= "\"}"@);
                    assert(n - i == 2);
                    assert(reply@.skip(i as int)[0] == reply@[i as int]);
                    assert(reply@.skip(i as int)[1] == reply@[i + 1]);
                    assert(reply@[i as int] == '"');
                    assert(reply@[i + 1] == '}');
                }
            }
        }
        let c = chars[i];
        if c == '"' {
            // The closing quote: the object must end right after it.
            if n - i == 2 && chars[i + 1] == '}' {
                proof {
                    reveal_strlit("{\"status\":\"");
                    reveal_strlit("\",\"status_msg\":\"");
                    reveal_strlit("\"}");
                    assert(reply@.take(11) =~= "{\"status\":\""@);
                    assert(reply@.subrange(11, name_end as int) =~= name@);
                    assert(reply@.subrange(name_end as int, p0) =~= "\",\"status_msg\":\""@);
                    assert(reply@.subrange(n - 2, n as int) =~= "\"}"@);
                    assert(reply@.subrange(p0, i as int) == json_escape(out@));
                    assert(reply@ =~= reply@.take(11) + reply@.subrange(11, name_end as int)
                        + reply@.subrange(name_end as int, p0) + reply@.subrange(p0, i as int)
                        + reply@.subrange(n - 2, n as int));
                    assert(reply@ =~= spec_status_reply(status, out@));
                }
                let message = chars_string(&out);
                return Some((status, message));
            }
            proof {
                if encodable {
                    if gj < gmsg.len() {
                        assert(json_escape_char(gmsg[gj])[0] != '"') by {
                            if (gmsg[gj] as u32) >= 32 && gmsg[gj] != '"' && gmsg[gj] != '\\' {
                                assert(json_escape_char(gmsg[gj]) =~= seq![gmsg[gj]]);
                            }
                        }
                        assert(false);
                    } else {
                        assert(false);
                    }
                }
                assert(!encodable);
            }
            return None;
        } else if c == '\\' {
            proof {
                if encodable {
                    if gj >= gmsg.len() {
                        assert(false);
                    }
                    // Its escape starts with the backslash just read, so the
                    // character here cannot be one that stands for itself.
                    if (gmsg[gj] as u32) >= 32 && gmsg[gj] != '"' && gmsg[gj] != '\\' {
                        assert(json_escape_char(gmsg[gj]) =~= seq![gmsg[gj]]);
                        assert(false);
                    }
                }
            }
            if i + 1 >= n {
                proof {
                    if encodable {
                        assert(json_escape_char(gmsg[gj]).len() >= 2);
                        assert(reply@.skip(i as int).len() >= 4);
                        assert(false);
                    }
                    assert(!encodable);
                }
                return None;
            }
            let d = chars[i + 1];
            if d == 'u' {
                // A `\u00XX` escape: two zero digits, then a low code point
                // outside the short escapes.
                proof {
                    if encodable {
                        assert(json_escape_char(gmsg[gj]).len() == 6);
                        assert((gmsg[gj] as u32) < 32);
                    }
                }
                if n - i < 6 {
                    proof {
                        if encodable {
                            assert(false);
                        }
                        assert(!encodable);
                    }
                    return None;
                }
                if chars[i + 2] != '0' || chars[i + 3] != '0' {
                    proof {
                        if encodable {
                            assert(false);
                        }
                        assert(!encodable);
                    }
                    return None;
                }
                let ghost gcode = gmsg[gj] as u32;
                proof {
                    if encodable {
                        assert(reply@[i + 4] == hex_digit_char(gcode as int / 16));
                        assert(reply@[i + 5] == hex_digit_char(gcode as int % 16));
                    }
                }
                let h1 = match hex_val(chars[i + 4]) {
                    Some(v) => v,
                    None => {
                        proof {
                            if encodable {
                                assert(false);
                            }
                            assert(!encodable);
                        }
                        return None;
                    },
                };
                let h2 = match hex_val(chars[i + 5]) {
                    Some(v) => v,
                    None => {
                        proof {
                            if encodable {
                                assert(false);
                            }
                            assert(!encodable);
                        }
                        return None;
                    },
                };
                if h1 >= 2 {
                    proof {
                        if encodable {
                            assert(h1 == gcode / 16);
                            assert(false);
                        }
                        assert(!encodable);
                    }
                    return None;
                }
                let code = h1 * 16 + h2;
                let u_decoded = char_of_code(code);
                if u_decoded == '\n' || u_decoded == '\r' || u_decoded == '\t' {
                    proof {
                        if encodable {
                            assert(h1 == gcode / 16 && h2 == gcode % 16);
                            assert(code == gcode) by {
                                assert(gcode == 16 * (gcode / 16) + (gcode % 16));
                            }
                            assert(u_decoded as u32 == gcode);
                            assert(gmsg[gj] as u32 == gcode);
                            lemma_char_code_injective(u_decoded, gmsg[gj]);
                            assert(false);
                        }
                        assert(!encodable);
                    }
                    return None;
                }
                proof {
                    assert((u_decoded as u32) < 32);
                    assert(json_escape_char(u_decoded) =~= seq![
                        reply@[i as int],
                        reply@[i + 1],
                        reply@[i + 2],
                        reply@[i + 3],
                        reply@[i + 4],
                        reply@[i + 5],
                    ]) by {
                        assert(code / 16 == h1 && code % 16 == h2);
                    }
                    lemma_json_escape_push(out@, u_decoded);
                    assert(json_escape(out@.push(u_decoded)) =~= reply@.subrange(p0, i + 6)) by {
                        assert(reply@.subrange(p0, i + 6) =~= reply@.subrange(p0, i as int)
                            + seq![
                            reply@[i as int],
                            reply@[i + 1],
                            reply@[i + 2],
                            reply@[i + 3],
                            reply@[i + 4],
                            reply@[i + 5],
                        ]);
                    }
                    if encodable {
                        assert(h1 == gcode / 16 && h2 == gcode % 16);
                        assert(code == gcode) by {
                            assert(gcode == 16 * (gcode / 16) + (gcode % 16));
                        }
                        assert(u_decoded as u32 == gcode);
                        assert(gmsg[gj] as u32 == gcode);
                        lemma_char_code_injective(u_decoded, gmsg[gj]);
                        assert(out@.push(u_decoded) =~= gmsg.take(gj + 1));
                        let erest = json_escape(gmsg.skip(gj + 1));
                        assert(reply@.skip(i as int) == (json_escape_char(gmsg[gj]) + erest)
                            + "\"}"@);
                        assert(((json_escape_char(gmsg[gj]) + erest) + "\"}"@).skip(6) =~= erest
                            + "\"}"@);
                        assert(reply@.skip(i + 6) =~= reply@.skip(i as int).skip(6));
                        assert(reply@.skip(i + 6) =~= erest + "\"}"@);
                        gj = gj + 1;
                    }
                }
                out.push(u_decoded);
                i = i + 6;
            } else {
                let decoded: char = if d == '"' {
                    '"'
                } else if d == '\\' {
                    '\\'
                } else if d == 'n' {
                    '\n'
                } else if d == 'r' {
                    '\r'
                } else if d == 't' {
                    '\t'
                } else {
                    proof {
                        if encodable {
                            assert(reply@[i + 1] == json_escape_char(gmsg[gj])[1]);
                            assert(false);
                        }
                        assert(!encodable);
                    }
                    return None;
                };
                proof {
                    lemma_json_escape_push(out@, decoded);
                    assert(json_escape_char(decoded) =~= seq![reply@[i as int], reply@[i + 1]]);
                    assert(json_escape(out@.push(decoded)) =~= reply@.subrange(p0, i + 2)) by {
                        assert(reply@.subrange(p0, i + 2) =~= reply@.subrange(p0, i as int)
                            + seq![reply@[i as int], reply@[i + 1]]);
                    }
                    if encodable {
                        assert(json_escape_char(gmsg[gj]).len() == 2) by {
                            if (gmsg[gj] as u32) < 32 && gmsg[gj] != '\n' && gmsg[gj] != '\r'
                                && gmsg[gj] != '\t' {
                                assert(json_escape_char(gmsg[gj])[1] == 'u');
                            }
                        }
                        assert(reply@[i + 1] == json_escape_char(gmsg[gj])[1]);
                        assert(decoded == gmsg[gj]);
                        assert(out@.push(decoded) =~= gmsg.take(gj + 1));
                        let erest = json_escape(gmsg.skip(gj + 1));
                        assert(reply@.skip(i as int) == (json_escape_char(gmsg[gj]) + erest)
                            + "\"}"@);
                        assert(((json_escape_char(gmsg[gj]) + erest) + "\"}"@).skip(2) =~= erest
                            + "\"}"@);
                        assert(reply@.skip(i + 2) =~= reply@.skip(i as int).skip(2));
                        assert(reply@.skip(i + 2) =~= erest + "\"}"@);
                        gj = gj + 1;
                    }
                }
                out.push(decoded);
                i = i + 2;
            }
        } else if (c as u32) < 32 {
            // A bare control character: never part of a well-formed reply.
            proof {
                if encodable {
                    if gj < gmsg.len() {
                        assert(json_escape_char(gmsg[gj])[0] == '\\' || (json_escape_char(
                            gmsg[gj],
                        )[0] as u32) >= 32) by {
                            if (gmsg[gj] as u32) >= 32 && gmsg[gj] != '"' && gmsg[gj] != '\\' {
                                assert(json_escape_char(gmsg[gj]) =~= seq![gmsg[gj]]);
                            }
                        }
                        assert(false);
                    } else {
                        assert(false);
                    }
                }
                assert(!encodable);
            }
            return None;
        } else {
            proof {
                lemma_json_escape_push(out@, c);
                assert(json_escape_char(c) =~= seq![c]);
                assert(json_escape(out@.push(c)) =~= reply@.subrange(p0, i + 1)) by {
                    assert(reply@.subrange(p0, i + 1) =~= reply@.subrange(p0, i as int)
                        + seq![reply@[i as int]]);
                }
                if encodable {
                    if gj >= gmsg.len() {
                        assert(false);
                    }
                    assert(json_escape_char(gmsg[gj]) =~= seq![gmsg[gj]]) by {
                        if gmsg[gj] == '"' || gmsg[gj] == '\\' || gmsg[gj] == '\n' || gmsg[gj]
                            == '\r' || gmsg[gj] == '\t' || (gmsg[gj] as u32) < 32 {
                            assert(json_escape_char(gmsg[gj])[0] == '\\');
                        }
                    }
                    assert(c == gmsg[gj]);
                    assert(out@.push(c) =~= gmsg.take(gj + 1));
                    let erest = json_escape(gmsg.skip(gj + 1));
                    assert(reply@.skip(i as int) == (json_escape_char(gmsg[gj]) + erest)
                        + "\"}"@);
                    assert(((json_escape_char(gmsg[gj]) + erest) + "\"}"@).skip(1) =~= erest
                        + "\"}"@);
                    assert(reply@.skip(i + 1) =~= reply@.skip(i as int).skip(1));
                    assert(reply@.skip(i + 1) =~= erest + "\"}"@);
                    gj = gj + 1;
                }
            }
            out.push(c);
            i = i + 1;
        }
    }
    proof {
        if encodable {
            assert(reply@.skip(n as int).len() == 0);
            assert((json_escape(gmsg.skip(gj)) + "\"}"@).len() >= 2);
            assert(false);
        }
        assert(!encodable);
    }
    None
}

/// Build the status-reply object for `status` and `status_msg`.
pub fn make_status_reply(status: &TriggerStatus, status_msg: &str) -> (r: String)
    ensures
        r@ == spec_status_reply(*status, status_msg@),
{
    let mut out = "{\"status\":\"".to_owned();
    let name = trigger_status_to_string(status);
    out.append(name.as_str());
    out.append("\",\"status_msg\":\"");
    let escaped = escape_json(status_msg);
    out.append(escaped.as_str());
    out.append("\"}");
    proof {
        assert(out@ =~= spec_status_reply(*status, status_msg@));
    }
    out
}

} // verus!
