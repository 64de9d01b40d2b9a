//! Verified JSON text rendering for the library's own values: decimal
//! integers, escaped strings and string arrays. The bank writer builds whole
//! files out of these pieces.

use vstd::prelude::*;

use crate::strutil::spec_join;

verus! {

/// The decimal digit character for a value below ten.
pub open spec fn spec_digit(d: int) -> char {
    if d == 0 {
        '0'
    } else if d == 1 {
        '1'
    } else if d == 2 {
        '2'
    } else if d == 3 {
        '3'
    } else if d == 4 {
        '4'
    } else if d == 5 {
        '5'
    } else if d == 6 {
        '6'
    } else if d == 7 {
        '7'
    } else if d == 8 {
        '8'
    } else {
        '9'
    }
}

/// The decimal rendering of a nonnegative number, most significant digit
/// first.
pub open spec fn spec_dec_nat(n: nat) -> Seq<char>
    decreases n,
{
    if n < 10 {
        seq![spec_digit(n as int)]
    } else {
        spec_dec_nat(n / 10).push(spec_digit((n % 10) as int))
    }
}

/// The decimal rendering of an integer, with a leading minus sign when
/// negative.
pub open spec fn spec_dec_int(n: int) -> Seq<char> {
    if n < 0 {
        seq!['-'] + spec_dec_nat((-n) as nat)
    } else {
        spec_dec_nat(n as nat)
    }
}

fn digit_str(d: u64) -> (r: &'static str)
    requires
        d < 10,
    ensures
        r@ == seq![spec_digit(d as int)],
{
    let r: &'static str = if d == 0 {
        "0"
    } else if d == 1 {
        "1"
    } else if d == 2 {
        "2"
    } else if d == 3 {
        "3"
    } else if d == 4 {
        "4"
    } else if d == 5 {
        "5"
    } else if d == 6 {
        "6"
    } else if d == 7 {
        "7"
    } else if d == 8 {
        "8"
    } else {
        "9"
    };
    proof {
        reveal_strlit("0");
        reveal_strlit("1");
        reveal_strlit("2");
        reveal_strlit("3");
        reveal_strlit("4");
        reveal_strlit("5");
        reveal_strlit("6");
        reveal_strlit("7");
        reveal_strlit("8");
        reveal_strlit("9");
        assert(r@ =~= seq![spec_digit(d as int)]);
    }
    r
}

/// Render a nonnegative number in decimal.
pub fn u64_string(n: u64) -> (r: String)
    ensures
        r@ == spec_dec_nat(n as nat),
    decreases n,
{
    if n < 10 {
        digit_str(n).to_owned()
    } else {
        let mut s = u64_string(n / 10);
        s.append(digit_str(n % 10));
        proof {
            assert(s@ =~= spec_dec_nat((n / 10) as nat).push(spec_digit((n % 10) as int)));
        }
        s
    }
}

/// Render a count in decimal.
pub fn usize_string(n: usize) -> (r: String)
    ensures
        r@ == spec_dec_nat(n as nat),
{
    u64_string(n as u64)
}

/// Render a signed number in decimal.
pub fn i64_string(n: i64) -> (r: String)
    ensures
        r@ == spec_dec_int(n as int),
{
    if n >= 0 {
        u64_string(n as u64)
    } else {
        let m: u64 = (-(n + 1)) as u64 + 1;
        proof {
            assert(m as int == -(n as int));
        }
        let mut s = String::from_str("-");
        proof {
            reveal_strlit("-");
            assert(s@ =~= seq!['-']);
        }
        s.append(u64_string(m).as_str());
        proof {
            assert(s@ =~= seq!['-'] + spec_dec_nat(m as nat));
        }
        s
    }
}

/// The hexadecimal digit character for a value below sixteen.
pub open spec fn spec_hex_digit(d: int) -> char {
    if d < 10 {
        spec_digit(d)
    } else if d == 10 {
        'a'
    } else if d == 11 {
        'b'
    } else if d == 12 {
        'c'
    } else if d == 13 {
        'd'
    } else if d == 14 {
        'e'
    } else {
        'f'
    }
}

fn hex_digit_str(d: u32) -> (r: &'static str)
    requires
        d < 16,
    ensures
        r@ == seq![spec_hex_digit(d as int)],
{
    if d < 10 {
        digit_str(d as u64)
    } else {
        let r: &'static str = if d == 10 {
            "a"
        } else if d == 11 {
            "b"
        } else if d == 12 {
            "c"
        } else if d == 13 {
            "d"
        } else if d == 14 {
            "e"
        } else {
            "f"
        };
        proof {
            reveal_strlit("a");
            reveal_strlit("b");
            reveal_strlit("c");
            reveal_strlit("d");
            reveal_strlit("e");
            reveal_strlit("f");
            assert(r@ =~= seq![spec_hex_digit(d as int)]);
        }
        r
    }
}

/// The JSON escape of a single character: the named escapes for quotes,
/// backslashes and common control characters, a `\u00..` escape for the other
/// control characters, and the character itself otherwise.
pub open spec fn spec_escape_char(c: char) -> Seq<char> {
    if c == '"' {
        seq!['\\', '"']
    } else if c == '\\' {
        seq!['\\', '\\']
    } else if c == '\n' {
        seq!['\\', 'n']
    } else if c == '\r' {
        seq!['\\', 'r']
    } else if c == '\t' {
        seq!['\\', 't']
    } else if (c as u32) < 0x20 {
        seq!['\\', 'u', '0', '0', spec_hex_digit((c as u32 / 16) as int), spec_hex_digit(
            (c as u32 % 16) as int,
        )]
    } else {
        seq![c]
    }
}

/// The JSON escape of a whole string body.
pub open spec fn spec_escape(s: Seq<char>) -> Seq<char>
    decreases s.len(),
{
    if s.len() == 0 {
        Seq::empty()
    } else {
        spec_escape(s.drop_last()) + spec_escape_char(s.last())
    }
}

/// A JSON string literal: the escaped body between double quotes.
pub open spec fn spec_json_string(s: Seq<char>) -> Seq<char> {
    seq!['"'] + spec_escape(s) + seq!['"']
}

/// Render a string as a JSON string literal.
pub fn json_string(s: &str) -> (r: String)
    ensures
        r@ == spec_json_string(s@),
{
    let mut out = String::from_str("\"");
    proof {
        reveal_strlit("\"");
        assert(out@ =~= seq!['"']);
        assert(s@.take(0).len() == 0);
        assert(spec_escape(s@.take(0)) =~= Seq::<char>::empty());
        assert(out@ =~= seq!['"'] + spec_escape(s@.take(0)));
    }
    let len = s.unicode_len();
    let mut i: usize = 0;
    while i < len
        invariant
            len == s@.len(),
            0 <= i <= len,
            out@ == seq!['"'] + spec_escape(s@.take(i as int)),
        decreases len - i,
    {
        let c = s.get_char(i);
        if c == '"' {
            out.append("\\\"");
            proof {
                reveal_strlit("\\\"");
                assert("\\\""@ =~= seq!['\\', '"']);
            }
        } else if c == '\\' {
            out.append("\\\\");
            proof {
                reveal_strlit("\\\\");
                assert("\\\\"@ =~= seq!['\\', '\\']);
            }
        } else if c == '\n' {
            out.append("\\n");
            proof {
                reveal_strlit("\\n");
                assert("\\n"@ =~= seq!['\\', 'n']);
            }
        } else if c == '\r' {
            out.append("\\r");
            proof {
                reveal_strlit("\\r");
                assert("\\r"@ =~= seq!['\\', 'r']);
            }
        } else if c == '\t' {
            out.append("\\t");
            proof {
                reveal_strlit("\\t");
                assert("\\t"@ =~= seq!['\\', 't']);
            }
        } else if (c as u32) < 0x20 {
            out.append("\\u00");
            out.append(hex_digit_str((c as u32) / 16));
            out.append(hex_digit_str((c as u32) % 16));
            proof {
                reveal_strlit("\\u00");
                assert("\\u00"@ =~= seq!['\\', 'u', '0', '0']);
            }
        } else {
            let cs = s.substring_char(i, i + 1);
            out.append(cs);
            proof {
                assert(cs@ =~= seq![c]);
            }
        }
        i = i + 1;
        proof {
            let t = s@.take(i as int);
            assert(t.drop_last() =~= s@.take(i - 1));
            assert(t.last() == s@[i - 1]);
            assert(spec_escape(t) == spec_escape(s@.take(i - 1)) + spec_escape_char(s@[i - 1]));
            assert(out@ =~= seq!['"'] + spec_escape(t));
        }
    }
    proof {
        assert(s@.take(len as int) =~= s@);
    }
    out.append("\"");
    proof {
        reveal_strlit("\"");
        assert(out@ =~= spec_json_string(s@));
    }
    out
}

/// A JSON array of string literals.
pub open spec fn spec_json_string_array(ws: Seq<Seq<char>>) -> Seq<char> {
    seq!['['] + spec_join(ws.map_values(|w: Seq<char>| spec_json_string(w)), ","@) + seq![']']
}

/// Render a list of strings as a JSON array.
pub fn json_string_array(ws: &Vec<String>) -> (r: String)
    ensures
        r@ == spec_json_string_array(ws.deep_view()),
{
    let mut parts: Vec<String> = Vec::new();
    let mut i: usize = 0;
    while i < ws.len()
        invariant
            0 <= i <= ws@.len(),
            ws.deep_view().len() == ws@.len(),
            parts.deep_view().len() == i,
            forall|j: int|
                0 <= j < i ==> parts.deep_view()[j] == spec_json_string(
                    #[trigger] ws.deep_view()[j],
                ),
        decreases ws@.len() - i,
    {
        proof {
            assert(ws.deep_view()[i as int] == ws@[i as int]@);
        }
        parts.push(json_string(ws[i].as_str()));
        i = i + 1;
    }
    proof {
        assert(parts.deep_view() =~= ws.deep_view().map_values(
            |w: Seq<char>| spec_json_string(w),
        ));
    }
    let body = crate::strutil::join_strs(&parts, ",");
    let mut out = String::from_str("[");
    out.append(body.as_str());
    out.append("]");
    proof {
        reveal_strlit("[");
        reveal_strlit("]");
        assert("["@ =~= seq!['[']);
        assert("]"@ =~= seq![']']);
        assert(out@ =~= spec_json_string_array(ws.deep_view()));
    }
    out
}

} // verus!
