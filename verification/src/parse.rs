//! The JSON parser.
//!
//! [`parse_json_spec`] says what a byte sequence decodes to; the executable
//! parser returns exactly that. A number that is a plain integer in the
//! 64-bit signed range becomes an integer value; every other number —
//! fractional, exponent-form, or out of range — is carried as its raw
//! literal bytes and re-serialized verbatim. Strings decode the short
//! escapes and `\uXXXX` (each such escape as the UTF-8 bytes of its code
//! unit), and insignificant whitespace is allowed between tokens. A
//! document the serializer wrote from a well-formed value always parses
//! back; see [`lemma_parse_ser_round_trip`].

use vstd::prelude::*;

use crate::digits::{dec_digits, is_digit, read_digits};
use crate::frame::{is_ws, skip_ws_spec};
use crate::json::{Json, JsonV};
use crate::ser::{escape_byte, ser, ser_fields, ser_field, ser_int, ser_items, ser_str_bytes};

verus! {

/// The value of a hexadecimal digit byte, if it is one.
pub open spec fn hex_val(b: u8) -> Option<nat> {
    if 48 <= b <= 57 {
        Some((b - 48) as nat)
    } else if 97 <= b <= 102 {
        Some((b - 87) as nat)
    } else if 65 <= b <= 70 {
        Some((b - 55) as nat)
    } else {
        None
    }
}

/// The UTF-8 bytes of a code unit below `0x10000`.
pub open spec fn utf8_of(v: nat) -> Seq<u8> {
    if v < 0x80 {
        seq![v as u8]
    } else if v < 0x800 {
        seq![(0xc0 + v / 64) as u8, (0x80 + v % 64) as u8]
    } else {
        seq![(0xe0 + v / 4096) as u8, (0x80 + (v / 64) % 64) as u8, (0x80 + v % 64) as u8]
    }
}

/// Scans a string body from `i` (after the opening quote), accumulating
/// decoded bytes; yields the decoded string and the position after the
/// closing quote.
pub open spec fn parse_string_spec(s: Seq<u8>, i: int, acc: Seq<u8>) -> Option<(Seq<u8>, int)>
    decreases s.len() - i,
{
    if i < 0 || i >= s.len() {
        None
    } else if s[i] == 34 {
        Some((acc, i + 1))
    } else if s[i] == 92 {
        if i + 1 >= s.len() {
            None
        } else {
            let e = s[i + 1];
            if e == 34 || e == 92 || e == 47 {
                parse_string_spec(s, i + 2, acc.push(e))
            } else if e == 98 {
                parse_string_spec(s, i + 2, acc.push(8))
            } else if e == 102 {
                parse_string_spec(s, i + 2, acc.push(12))
            } else if e == 110 {
                parse_string_spec(s, i + 2, acc.push(10))
            } else if e == 114 {
                parse_string_spec(s, i + 2, acc.push(13))
            } else if e == 116 {
                parse_string_spec(s, i + 2, acc.push(9))
            } else if e == 117 {
                if i + 6 > s.len() {
                    None
                } else {
                    match (hex_val(s[i + 2]), hex_val(s[i + 3]), hex_val(s[i + 4]), hex_val(
                        s[i + 5],
                    )) {
                        (Some(a), Some(b), Some(c), Some(d)) => parse_string_spec(
                            s,
                            i + 6,
                            acc + utf8_of(a * 4096 + b * 256 + c * 16 + d),
                        ),
                        _ => None,
                    }
                }
            } else {
                None
            }
        }
    } else if s[i] < 32 {
        None
    } else {
        parse_string_spec(s, i + 1, acc.push(s[i]))
    }
}

/// True when `b` could extend a number literal that ends just before it:
/// a digit, a decimal point, or an exponent marker.
pub open spec fn extends_number(b: u8) -> bool {
    is_digit(b) || b == 46 || b == 101 || b == 69
}

/// The end of the number literal starting at `i`: an optional minus sign,
/// integer digits, an optional fraction (a point with digits) and an
/// optional exponent (`e` or `E`, an optional sign, digits). Yields `i`
/// itself when no integer digits follow the sign.
pub open spec fn num_end(s: Seq<u8>, i: int) -> int {
    if i < 0 || i >= s.len() {
        i
    } else {
        let p = if s[i] == 45 {
            i + 1
        } else {
            i
        };
        let d1 = read_digits(s, p, 0).1;
        if d1 == p {
            i
        } else {
            let d2 = if d1 < s.len() && s[d1] == 46 && read_digits(s, d1 + 1, 0).1 > d1 + 1 {
                read_digits(s, d1 + 1, 0).1
            } else {
                d1
            };
            if d2 < s.len() && (s[d2] == 101 || s[d2] == 69) {
                let q = if d2 + 1 < s.len() && (s[d2 + 1] == 43 || s[d2 + 1] == 45) {
                    d2 + 2
                } else {
                    d2 + 1
                };
                if read_digits(s, q, 0).1 > q {
                    read_digits(s, q, 0).1
                } else {
                    d2
                }
            } else {
                d2
            }
        }
    }
}

/// Reads the number literal at `i`: a plain integer in the 64-bit signed
/// range becomes an integer value; any other literal — fractional,
/// exponent-form, or out of range — is carried as its raw bytes.
pub open spec fn parse_number_spec(s: Seq<u8>, i: int) -> Option<(JsonV, int)> {
    let end = num_end(s, i);
    if end <= i {
        None
    } else {
        let neg = s[i] == 45;
        let p = if neg {
            i + 1
        } else {
            i
        };
        let read = read_digits(s, p, 0);
        if read.1 == end && (if neg {
            read.0 <= 0x8000_0000_0000_0000
        } else {
            read.0 <= i64::MAX
        }) {
            Some(
                (
                    JsonV::Int(
                        if neg {
                            (-(read.0 as int)) as i64
                        } else {
                            read.0 as i64
                        },
                    ),
                    end,
                ),
            )
        } else {
            Some((JsonV::Num(s.subrange(i, end)), end))
        }
    }
}

/// Reads one JSON value at `i`; yields the value and the position after it.
pub open spec fn parse_val_spec(s: Seq<u8>, i: int) -> Option<(JsonV, int)>
    decreases s.len() - i, 0nat,
{
    if i < 0 || i >= s.len() {
        None
    } else {
        let b = s[i];
        if b == 110 {
            // null
            if i + 4 <= s.len() && s[i + 1] == 117 && s[i + 2] == 108 && s[i + 3] == 108 {
                Some((JsonV::Null, i + 4))
            } else {
                None
            }
        } else if b == 116 {
            // true
            if i + 4 <= s.len() && s[i + 1] == 114 && s[i + 2] == 117 && s[i + 3] == 101 {
                Some((JsonV::Bool(true), i + 4))
            } else {
                None
            }
        } else if b == 102 {
            // false
            if i + 5 <= s.len() && s[i + 1] == 97 && s[i + 2] == 108 && s[i + 3] == 115 && s[i + 4]
                == 101 {
                Some((JsonV::Bool(false), i + 5))
            } else {
                None
            }
        } else if b == 34 {
            match parse_string_spec(s, i + 1, Seq::empty()) {
                Some((str, j)) => Some((JsonV::Str(str), j)),
                None => None,
            }
        } else if b == 45 || is_digit(b) {
            parse_number_spec(s, i)
        } else if b == 91 {
            // array
            let j = skip_ws_spec(s, i + 1, s.len() as int);
            if j < s.len() && s[j] == 93 {
                Some((JsonV::Arr(Seq::empty()), j + 1))
            } else if j <= i || j > s.len() {
                None
            } else {
                parse_elems_spec(s, j, Seq::empty())
            }
        } else if b == 123 {
            // object
            let j = skip_ws_spec(s, i + 1, s.len() as int);
            if j < s.len() && s[j] == 125 {
                Some((JsonV::Obj(Seq::empty()), j + 1))
            } else if j <= i || j > s.len() {
                None
            } else {
                parse_members_spec(s, j, Seq::empty())
            }
        } else {
            None
        }
    }
}

/// Reads the elements of an array from the start of an element at `i`,
/// accumulating into `acc`; yields the whole array value and the position
/// after its closing bracket.
pub open spec fn parse_elems_spec(s: Seq<u8>, i: int, acc: Seq<JsonV>) -> Option<(JsonV, int)>
    decreases s.len() - i, 1nat,
{
    if i < 0 || i >= s.len() {
        None
    } else {
        match parse_val_spec(s, i) {
            None => None,
            Some((v, j)) => {
                if j <= i || j > s.len() {
                    None
                } else {
                    let k = skip_ws_spec(s, j, s.len() as int);
                    if k >= s.len() {
                        None
                    } else if s[k] == 44 {
                        let m = skip_ws_spec(s, k + 1, s.len() as int);
                        if m <= i || m > s.len() {
                            None
                        } else {
                            parse_elems_spec(s, m, acc.push(v))
                        }
                    } else if s[k] == 93 {
                        Some((JsonV::Arr(acc.push(v)), k + 1))
                    } else {
                        None
                    }
                }
            },
        }
    }
}

/// Reads the members of an object from the start of a member key at `i`,
/// accumulating into `acc`; yields the whole object value and the position
/// after its closing brace.
pub open spec fn parse_members_spec(s: Seq<u8>, i: int, acc: Seq<(Seq<u8>, JsonV)>) -> Option<
    (JsonV, int),
>
    decreases s.len() - i, 1nat,
{
    if i < 0 || i >= s.len() {
        None
    } else if s[i] != 34 {
        None
    } else {
        match parse_string_spec(s, i + 1, Seq::empty()) {
            None => None,
            Some((key, j)) => {
                if j <= i || j > s.len() {
                    None
                } else {
                    let k = skip_ws_spec(s, j, s.len() as int);
                    if k >= s.len() || s[k] != 58 {
                        None
                    } else {
                        let m = skip_ws_spec(s, k + 1, s.len() as int);
                        if m <= i || m > s.len() {
                            None
                        } else {
                            match parse_val_spec(s, m) {
                                None => None,
                                Some((v, j2)) => {
                                    if j2 <= m || j2 > s.len() {
                                        None
                                    } else {
                                        let k2 = skip_ws_spec(s, j2, s.len() as int);
                                        if k2 >= s.len() {
                                            None
                                        } else if s[k2] == 44 {
                                            let m2 = skip_ws_spec(s, k2 + 1, s.len() as int);
                                            if m2 <= i || m2 > s.len() {
                                                None
                                            } else {
                                                parse_members_spec(s, m2, acc.push((key, v)))
                                            }
                                        } else if s[k2] == 125 {
                                            Some((JsonV::Obj(acc.push((key, v))), k2 + 1))
                                        } else {
                                            None
                                        }
                                    }
                                },
                            }
                        }
                    }
                }
            },
        }
    }
}

/// Decodes a whole document: one value, with whitespace allowed around it
/// and nothing else.
pub open spec fn parse_json_spec(s: Seq<u8>) -> Option<JsonV> {
    let i = skip_ws_spec(s, 0, s.len() as int);
    match parse_val_spec(s, i) {
        Some((v, j)) => if skip_ws_spec(s, j, s.len() as int) == s.len() {
            Some(v)
        } else {
            None
        },
        None => None,
    }
}


/// The value of a hexadecimal digit byte, if it is one.
fn hex_digit_value(b: u8) -> (r: Option<u8>)
    ensures
        match r {
            Some(v) => hex_val(b) == Some(v as nat) && v < 16,
            None => hex_val(b) is None,
        },
{
    if 48 <= b && b <= 57 {
        Some(b - 48)
    } else if 97 <= b && b <= 102 {
        Some(b - 87)
    } else if 65 <= b && b <= 70 {
        Some(b - 55)
    } else {
        None
    }
}

/// Reads a string body from `i` (after the opening quote): the decoded
/// bytes and the position after the closing quote.
fn parse_string_body(s: &Vec<u8>, i: usize) -> (r: Option<(Vec<u8>, usize)>)
    requires
        i <= s@.len(),
    ensures
        match r {
            Some(p) => {
                &&& parse_string_spec(s@, i as int, Seq::empty()) == Some((p.0@, p.1 as int))
                &&& i < p.1 <= s@.len()
            },
            None => parse_string_spec(s@, i as int, Seq::empty()) is None,
        },
{
    let mut acc: Vec<u8> = Vec::new();
    let mut cur: usize = i;
    assert(acc@ =~= Seq::<u8>::empty());
    loop
        invariant
            i <= cur <= s@.len(),
            parse_string_spec(s@, i as int, Seq::empty()) == parse_string_spec(
                s@,
                cur as int,
                acc@,
            ),
        decreases s@.len() - cur,
    {
        if cur >= s.len() {
            return None;
        }
        let b = s[cur];
        if b == 34 {
            return Some((acc, cur + 1));
        }
        if b == 92 {
            if cur + 1 >= s.len() {
                return None;
            }
            let e = s[cur + 1];
            if e == 34 || e == 92 || e == 47 {
                acc.push(e);
                cur = cur + 2;
            } else if e == 98 {
                acc.push(8);
                cur = cur + 2;
            } else if e == 102 {
                acc.push(12);
                cur = cur + 2;
            } else if e == 110 {
                acc.push(10);
                cur = cur + 2;
            } else if e == 114 {
                acc.push(13);
                cur = cur + 2;
            } else if e == 116 {
                acc.push(9);
                cur = cur + 2;
            } else if e == 117 {
                if s.len() - cur < 6 {
                    return None;
                }
                let a = match hex_digit_value(s[cur + 2]) {
                    Some(v) => v,
                    None => {
                        return None;
                    },
                };
                let b2 = match hex_digit_value(s[cur + 3]) {
                    Some(v) => v,
                    None => {
                        return None;
                    },
                };
                let c = match hex_digit_value(s[cur + 4]) {
                    Some(v) => v,
                    None => {
                        return None;
                    },
                };
                let d = match hex_digit_value(s[cur + 5]) {
                    Some(v) => v,
                    None => {
                        return None;
                    },
                };
                let v: u32 = (a as u32) * 4096 + (b2 as u32) * 256 + (c as u32) * 16 + (d as u32);
                let ghost acc_pre = acc@;
                if v < 0x80 {
                    acc.push(v as u8);
                } else if v < 0x800 {
                    acc.push(0xc0 + (v / 64) as u8);
                    acc.push(0x80 + (v % 64) as u8);
                } else {
                    acc.push(0xe0 + (v / 4096) as u8);
                    acc.push(0x80 + ((v / 64) % 64) as u8);
                    acc.push(0x80 + (v % 64) as u8);
                }
                assert(acc@ =~= acc_pre + utf8_of(v as nat));
                cur = cur + 6;
            } else {
                return None;
            }
        } else if b < 32 {
            return None;
        } else {
            acc.push(b);
            cur = cur + 1;
        }
    }
}

/// Copies the bytes of `[a, b)`.
fn copy_range(s: &Vec<u8>, a: usize, b: usize) -> (r: Vec<u8>)
    requires
        a <= b <= s@.len(),
    ensures
        r@ == s@.subrange(a as int, b as int),
{
    let mut r: Vec<u8> = Vec::new();
    let mut i: usize = a;
    while i < b
        invariant
            a <= i <= b <= s@.len(),
            r@ == s@.subrange(a as int, i as int),
        decreases b - i,
    {
        r.push(s[i]);
        assert(r@ =~= s@.subrange(a as int, i as int + 1));
        i = i + 1;
    }
    r
}

/// Finds where the number literal at `i` ends.
fn scan_number_end(s: &Vec<u8>, i: usize) -> (end: usize)
    requires
        i < s@.len(),
    ensures
        end as int == num_end(s@, i as int),
        end == i || i < end <= s@.len(),
{
    let n = s.len();
    let p = if s[i] == 45 {
        i + 1
    } else {
        i
    };
    proof {
        crate::digits::lemma_read_digits_bounds(s@, p as int, 0);
    }
    let (_, d1) = crate::digits::scan_u64(s, p);
    if d1 == p {
        return i;
    }
    let d2 = if d1 < n && s[d1] == 46 {
        proof {
            crate::digits::lemma_read_digits_bounds(s@, d1 as int + 1, 0);
        }
        let (_, f) = crate::digits::scan_u64(s, d1 + 1);
        if f > d1 + 1 {
            f
        } else {
            d1
        }
    } else {
        d1
    };
    if d2 < n && (s[d2] == 101 || s[d2] == 69) {
        let q = if d2 + 1 < n && (s[d2 + 1] == 43 || s[d2 + 1] == 45) {
            d2 + 2
        } else {
            d2 + 1
        };
        proof {
            crate::digits::lemma_read_digits_bounds(s@, q as int, 0);
        }
        let (_, d3) = crate::digits::scan_u64(s, q);
        if d3 > q {
            d3
        } else {
            d2
        }
    } else {
        d2
    }
}

/// Reads the number literal at `i`: an integer value when it is a plain
/// integer in the 64-bit signed range, its raw bytes otherwise.
fn parse_number(s: &Vec<u8>, i: usize) -> (r: Option<(Json, usize)>)
    requires
        i < s@.len(),
    ensures
        match r {
            Some(p) => {
                &&& parse_number_spec(s@, i as int) == Some((p.0.jv(), p.1 as int))
                &&& i < p.1 <= s@.len()
            },
            None => parse_number_spec(s@, i as int) is None,
        },
{
    let end = scan_number_end(s, i);
    if end <= i {
        return None;
    }
    let neg = s[i] == 45;
    let p = if neg {
        i + 1
    } else {
        i
    };
    let (value, digits_end) = crate::digits::scan_u64(s, p);
    let fits = match value {
        Some(n) => if neg {
            n <= 0x8000_0000_0000_0000u64
        } else {
            n <= 0x7fff_ffff_ffff_ffffu64
        },
        None => false,
    };
    if digits_end == end && fits {
        let n = match value {
            Some(n) => n,
            None => {
                return None;  // unreachable: fits implies a value
            },
        };
        let signed: i64 = if !neg {
            n as i64
        } else if n == 0x8000_0000_0000_0000u64 {
            i64::MIN
        } else {
            -(n as i64)
        };
        assert(signed == if neg {
            (-(n as int)) as i64
        } else {
            n as i64
        });
        Some((Json::Int(signed), end))
    } else {
        Some((Json::Num(copy_range(s, i, end)), end))
    }
}

/// The elements decoded so far, as mathematical values.
pub open spec fn items_v(items: Seq<Json>) -> Seq<JsonV> {
    items.map(|_k: int, j: Json| j.jv())
}

/// The members decoded so far, as mathematical values.
pub open spec fn members_v(fields: Seq<(Vec<u8>, Json)>) -> Seq<(Seq<u8>, JsonV)> {
    fields.map(|_k: int, f: (Vec<u8>, Json)| (f.0@, f.1.jv()))
}

/// Reads one JSON value at `i`: exactly what [`parse_val_spec`] says.
pub fn parse_value(s: &Vec<u8>, i: usize) -> (r: Option<(Json, usize)>)
    requires
        i <= s@.len(),
    ensures
        match r {
            Some(p) => {
                &&& parse_val_spec(s@, i as int) == Some((p.0.jv(), p.1 as int))
                &&& i < p.1 <= s@.len()
            },
            None => parse_val_spec(s@, i as int) is None,
        },
    decreases s@.len() - i,
{
    if i >= s.len() {
        return None;
    }
    let b = s[i];
    if b == 110 {
        if s.len() - i >= 4 && s[i + 1] == 117 && s[i + 2] == 108 && s[i + 3] == 108 {
            return Some((Json::Null, i + 4));
        }
        return None;
    }
    if b == 116 {
        if s.len() - i >= 4 && s[i + 1] == 114 && s[i + 2] == 117 && s[i + 3] == 101 {
            return Some((Json::Bool(true), i + 4));
        }
        return None;
    }
    if b == 102 {
        if s.len() - i >= 5 && s[i + 1] == 97 && s[i + 2] == 108 && s[i + 3] == 115 && s[i + 4]
            == 101 {
            return Some((Json::Bool(false), i + 5));
        }
        return None;
    }
    if b == 34 {
        return match parse_string_body(s, i + 1) {
            Some((str, end)) => Some((Json::Str(str), end)),
            None => None,
        };
    }
    if b == 45 || (48 <= b && b <= 57) {
        return parse_number(s, i);
    }
    if b == 91 {
        let j = crate::frame::skip_ws_to(s, i + 1, s.len());
        if j < s.len() && s[j] == 93 {
            let arr = Json::Arr(Vec::new());
            assert(arr.jv()->Arr_0 =~= Seq::<JsonV>::empty());
            return Some((arr, j + 1));
        }
        let mut acc: Vec<Json> = Vec::new();
        let mut cur = j;
        assert(items_v(acc@) =~= Seq::<JsonV>::empty());
        loop
            invariant
                i < cur <= s@.len(),
                i < s@.len(),
                parse_val_spec(s@, i as int) == parse_elems_spec(s@, cur as int, items_v(acc@)),
            decreases s@.len() - cur,
        {
            let (v, end) = match parse_value(s, cur) {
                Some(p) => p,
                None => {
                    return None;
                },
            };
            let k = crate::frame::skip_ws_to(s, end, s.len());
            if k >= s.len() {
                return None;
            }
            let c = s[k];
            if c == 44 {
                let m = crate::frame::skip_ws_to(s, k + 1, s.len());
                let ghost acc_pre = items_v(acc@);
                acc.push(v);
                proof {
                    assert(items_v(acc@) =~= acc_pre.push(acc@.last().jv()));
                }
                cur = m;
            } else if c == 93 {
                let ghost acc_pre = items_v(acc@);
                acc.push(v);
                proof {
                    assert(items_v(acc@) =~= acc_pre.push(acc@.last().jv()));
                }
                let arr = Json::Arr(acc);
                assert(arr.jv()->Arr_0 =~= items_v(arr->Arr_0@));
                return Some((arr, k + 1));
            } else {
                return None;
            }
        }
    }
    if b == 123 {
        let j = crate::frame::skip_ws_to(s, i + 1, s.len());
        if j < s.len() && s[j] == 125 {
            let obj = Json::Obj(Vec::new());
            assert(obj.jv()->Obj_0 =~= Seq::<(Seq<u8>, JsonV)>::empty());
            return Some((obj, j + 1));
        }
        let mut acc: Vec<(Vec<u8>, Json)> = Vec::new();
        let mut cur = j;
        assert(members_v(acc@) =~= Seq::<(Seq<u8>, JsonV)>::empty());
        loop
            invariant
                i < cur <= s@.len(),
                i < s@.len(),
                parse_val_spec(s@, i as int) == parse_members_spec(
                    s@,
                    cur as int,
                    members_v(acc@),
                ),
            decreases s@.len() - cur,
        {
            if cur >= s.len() {
                return None;
            }
            if s[cur] != 34 {
                return None;
            }
            let (key, j1) = match parse_string_body(s, cur + 1) {
                Some(p) => p,
                None => {
                    return None;
                },
            };
            let k = crate::frame::skip_ws_to(s, j1, s.len());
            if k >= s.len() {
                return None;
            }
            if s[k] != 58 {
                return None;
            }
            let m = crate::frame::skip_ws_to(s, k + 1, s.len());
            let (v, j2) = match parse_value(s, m) {
                Some(p) => p,
                None => {
                    return None;
                },
            };
            let k2 = crate::frame::skip_ws_to(s, j2, s.len());
            if k2 >= s.len() {
                return None;
            }
            let c = s[k2];
            if c == 44 {
                let m2 = crate::frame::skip_ws_to(s, k2 + 1, s.len());
                let ghost acc_pre = members_v(acc@);
                acc.push((key, v));
                proof {
                    assert(members_v(acc@) =~= acc_pre.push(
                        (acc@.last().0@, acc@.last().1.jv()),
                    ));
                }
                cur = m2;
            } else if c == 125 {
                let ghost acc_pre = members_v(acc@);
                acc.push((key, v));
                proof {
                    assert(members_v(acc@) =~= acc_pre.push(
                        (acc@.last().0@, acc@.last().1.jv()),
                    ));
                }
                let obj = Json::Obj(acc);
                assert(obj.jv()->Obj_0 =~= members_v(obj->Obj_0@));
                return Some((obj, k2 + 1));
            } else {
                return None;
            }
        }
    }
    None
}

/// Decodes a whole document: exactly what [`parse_json_spec`] says.
pub fn parse_json(s: &Vec<u8>) -> (r: Option<Json>)
    ensures
        match r {
            Some(j) => parse_json_spec(s@) == Some(j.jv()),
            None => parse_json_spec(s@) is None,
        },
{
    let i = crate::frame::skip_ws_to(s, 0, s.len());
    let (v, j) = match parse_value(s, i) {
        Some(p) => p,
        None => {
            return None;
        },
    };
    let k = crate::frame::skip_ws_to(s, j, s.len());
    if k == s.len() {
        Some(v)
    } else {
        None
    }
}



/// A well-formed raw number literal: a complete number per [`num_end`]
/// that is not a plain integer in the 64-bit signed range (those are
/// carried as [`JsonV::Int`]).
pub open spec fn num_lit_wf(d: Seq<u8>) -> bool {
    &&& d.len() >= 1
    &&& (d[0] == 45 || is_digit(d[0]))
    &&& num_end(d, 0) == d.len()
    &&& ({
        let p: int = if d[0] == 45 {
            1
        } else {
            0
        };
        let read = read_digits(d, p, 0);
        !(read.1 == d.len() && (if d[0] == 45 {
            read.0 <= 0x8000_0000_0000_0000
        } else {
            read.0 <= i64::MAX
        }))
    })
}

/// A well-formed value: every raw number literal in it is well formed.
/// Values built by this crate and values the parser returns are well
/// formed; the round trip below holds of exactly these.
pub open spec fn jv_wf(v: JsonV) -> bool
    decreases v, 0nat,
{
    match v {
        JsonV::Num(d) => num_lit_wf(d),
        JsonV::Arr(items) => items_wf(items),
        JsonV::Obj(fields) => fields_wf(fields),
        _ => true,
    }
}

/// Well-formedness of array elements.
pub open spec fn items_wf(items: Seq<JsonV>) -> bool
    decreases items, 1nat,
{
    items.len() == 0 || (jv_wf(items[0]) && items_wf(items.drop_first()))
}

/// Well-formedness of object member values.
pub open spec fn fields_wf(fields: Seq<(Seq<u8>, JsonV)>) -> bool
    decreases fields, 1nat,
{
    fields.len() == 0 || (jv_wf(fields[0].1) && fields_wf(fields.drop_first()))
}

/// A digit run inside an embedded window, when the byte after the window
/// is no digit, reads the same value and the offset end position.
proof fn lemma_read_digits_window(s: Seq<u8>, i: int, d: Seq<u8>, p: int)
    requires
        0 <= i,
        i + d.len() <= s.len(),
        s.subrange(i, i + d.len()) == d,
        0 <= p <= d.len(),
        i + d.len() == s.len() || !is_digit(s[i + d.len()]),
    ensures
        read_digits(s, i + p, 0).0 == read_digits(d, p, 0).0,
        read_digits(s, i + p, 0).1 == i + read_digits(d, p, 0).1,
{
    let tail = s.skip(i + d.len() as int);
    assert(s.skip(i) =~= d + tail);
    if tail.len() > 0 {
        assert(tail[0] == s[i + d.len()]);
    }
    crate::digits::lemma_read_digits_bounds(d, p, 0);
    if read_digits(d, p, 0).1 == d.len() {
        crate::digits::lemma_read_digits_tail(d, tail, p, 0);
    } else {
        crate::digits::lemma_read_digits_prefix(d, tail, p, 0);
    }
    crate::digits::lemma_read_digits_offset(s, i, i + p, 0);
}

/// Every serialized value starts with a byte that is not whitespace and
/// not a closing token, and has at least one byte.
proof fn lemma_ser_first(v: JsonV)
    requires
        jv_wf(v),
    ensures
        ser(v).len() >= 1,
        !is_ws(ser(v)[0]),
        ser(v)[0] != 93,
        ser(v)[0] != 125,
        ser(v)[0] != 44,
        ser(v)[0] != 58,
{
    match v {
        JsonV::Int(n) => {
            if n >= 0 {
                crate::digits::lemma_dec_digits_shape(n as nat);
                assert(is_digit(ser(v)[0]));
            } else {
                assert(ser(v)[0] == 45);
            }
        },
        JsonV::Num(d) => {
            assert(d[0] == 45 || is_digit(d[0]));
        },
        _ => {},
    }
}

/// The hexadecimal digit byte of a value below sixteen reads back as that
/// value.
proof fn lemma_hex_val_of_hex_digit(d: nat)
    requires
        d < 16,
    ensures
        hex_val(crate::ser::hex_digit(d)) == Some(d),
{
}

/// A decimal rendering embedded in a longer sequence, followed by no
/// digit, reads back as its number.
proof fn lemma_read_digits_embed(s: Seq<u8>, i: int, n: nat)
    requires
        0 <= i,
        i + dec_digits(n).len() <= s.len(),
        s.subrange(i, i + dec_digits(n).len()) == dec_digits(n),
        i + dec_digits(n).len() == s.len() || !is_digit(s[i + dec_digits(n).len()]),
    ensures
        read_digits(s, i, 0) == (n, i + dec_digits(n).len()),
{
    let d = dec_digits(n);
    let ln = d.len() as int;
    let tail = s.skip(i + ln);
    assert(s.skip(i) =~= d + tail);
    crate::digits::lemma_dec_digits_read_back(n);
    if tail.len() > 0 {
        assert(tail[0] == s[i + ln]);
    }
    crate::digits::lemma_read_digits_tail(d, tail, 0, 0);
    crate::digits::lemma_read_digits_offset(s, i, i, 0);
}

/// A serialized string body embedded at `i`, followed by the closing
/// quote, parses to the body appended to the accumulator.
proof fn lemma_parse_str_ser(s: Seq<u8>, i: int, body: Seq<u8>, acc: Seq<u8>)
    requires
        0 <= i,
        i + ser_str_bytes(body).len() + 1 <= s.len(),
        s.subrange(i, i + ser_str_bytes(body).len() + 1) == ser_str_bytes(body) + seq![34u8],
    ensures
        parse_string_spec(s, i, acc) == Some((acc + body, i + ser_str_bytes(body).len() + 1)),
    decreases body.len(),
{
    let ssb = ser_str_bytes(body);
    let whole = ssb + seq![34u8];
    assert forall|k: int| 0 <= k < whole.len() implies s[i + k] == #[trigger] whole[k] by {
        assert(s.subrange(i, i + ssb.len() + 1)[k] == s[i + k]);
    }
    if body.len() == 0 {
        assert(whole[0] == 34);
        assert(s[i] == 34);
        assert(acc + body =~= acc);
    } else {
        let b = body[0];
        let e = escape_byte(b);
        let rest = ser_str_bytes(body.drop_first());
        assert(ssb == e + rest);
        assert(forall|k: int| 0 <= k < e.len() ==> whole[k] == #[trigger] e[k]);
        let j = i + e.len();
        assert(s.subrange(j, j + rest.len() + 1) =~= rest + seq![34u8]) by {
            assert forall|k: int| 0 <= k < rest.len() + 1 implies s.subrange(
                j,
                j + rest.len() + 1,
            )[k] == (rest + seq![34u8])[k] by {
                assert(s.subrange(j, j + rest.len() + 1)[k] == s[j + k]);
                assert(s[j + k] == whole[e.len() + k]);
            }
        }
        if b == 34 || b == 92 {
            assert(whole[0] == e[0] && whole[1] == e[1]);
            assert(s[i] == 92 && s[i + 1] == b);
            lemma_parse_str_ser(s, i + 2, body.drop_first(), acc.push(b));
            assert(acc.push(b) + body.drop_first() =~= acc + body);
        } else if b < 32 {
            assert(whole[0] == e[0] && whole[1] == e[1] && whole[2] == e[2] && whole[3] == e[3]
                && whole[4] == e[4] && whole[5] == e[5]);
            assert(s[i] == 92 && s[i + 1] == 117 && s[i + 2] == 48 && s[i + 3] == 48);
            assert(s[i + 4] == crate::ser::hex_digit((b / 16) as nat));
            assert(s[i + 5] == crate::ser::hex_digit((b % 16) as nat));
            lemma_hex_val_of_hex_digit((b / 16) as nat);
            lemma_hex_val_of_hex_digit((b % 16) as nat);
            assert(hex_val(s[i + 2]) == Some(0nat));
            assert(hex_val(s[i + 3]) == Some(0nat));
            let scalar = 0nat * 4096 + 0nat * 256 + ((b / 16) as nat) * 16 + (b % 16) as nat;
            assert(scalar == b as nat);
            assert(utf8_of(scalar) =~= seq![b]);
            assert(acc + utf8_of(scalar) =~= acc.push(b));
            lemma_parse_str_ser(s, i + 6, body.drop_first(), acc.push(b));
            assert(acc.push(b) + body.drop_first() =~= acc + body);
        } else {
            assert(whole[0] == e[0]);
            assert(s[i] == b);
            assert(b != 34 && b != 92 && b >= 32);
            lemma_parse_str_ser(s, i + 1, body.drop_first(), acc.push(b));
            assert(acc.push(b) + body.drop_first() =~= acc + body);
        }
    }
}


/// A well-formed raw number literal embedded at `i`, followed by the end
/// of the input or by a byte that cannot extend it, reads back as itself.
#[verifier::rlimit(100)]
proof fn lemma_parse_num_ser(s: Seq<u8>, i: int, d: Seq<u8>)
    requires
        num_lit_wf(d),
        0 <= i,
        i + d.len() <= s.len(),
        s.subrange(i, i + d.len()) == d,
        i + d.len() == s.len() || !extends_number(s[i + d.len()]),
    ensures
        parse_number_spec(s, i) == Some((JsonV::Num(d), i + d.len())),
{
    let dl = d.len() as int;
    assert forall|k: int| 0 <= k < dl implies s[i + k] == #[trigger] d[k] by {
        assert(s.subrange(i, i + dl)[k] == s[i + k]);
    }
    assert(s[i] == d[0]);
    let pd: int = if d[0] == 45 {
        1
    } else {
        0
    };
    lemma_read_digits_window(s, i, d, pd);
    crate::digits::lemma_read_digits_bounds(d, pd, 0);
    let d1d = read_digits(d, pd, 0).1;
    assert(read_digits(s, i + pd, 0).1 == i + d1d);
    assert(read_digits(s, i + pd, 0).0 == read_digits(d, pd, 0).0);
    assert(d1d > pd) by {
        if d1d == pd {
            assert(num_end(d, 0) == 0);
        }
    }
    if d1d == dl {
        // a plain run of digits to the end of the literal; the byte after
        // the window blocks fraction and exponent
        assert(num_end(s, i) == i + dl);
        // a well-formed literal of this shape is out of the i64 range
        assert(parse_number_spec(s, i) == Some((JsonV::Num(s.subrange(i, i + dl)), i + dl)));
    } else {
        // the literal continues past its integer digits: with a fraction,
        // an exponent, or both
        assert(d[d1d] == s[i + d1d]);
        let fracd = d[d1d] == 46 && read_digits(d, d1d + 1, 0).1 > d1d + 1;
        if d[d1d] == 46 && !fracd {
            // a point without digits would end the literal early
            assert(num_end(d, 0) == d1d);
            assert(false);
        }
        if fracd {
            lemma_read_digits_window(s, i, d, d1d + 1);
            crate::digits::lemma_read_digits_bounds(d, d1d + 1, 0);
        }
        let d2d = if fracd {
            read_digits(d, d1d + 1, 0).1
        } else {
            d1d
        };
        assert(d2d <= dl);
        if d2d == dl {
            // the fraction reaches the end; the terminator blocks an
            // exponent
            assert(fracd);
            assert(num_end(s, i) == i + dl);
        } else {
            // an exponent must follow, and must reach the end
            assert(d[d2d] == s[i + d2d]);
            if d[d2d] != 101 && d[d2d] != 69 {
                assert(num_end(d, 0) == d2d);
                assert(false);
            }
            let qd: int = if d2d + 1 < dl && (d[d2d + 1] == 43 || d[d2d + 1] == 45) {
                d2d + 2
            } else {
                d2d + 1
            };
            let d3d = read_digits(d, qd, 0).1;
            assert(qd <= dl);
            crate::digits::lemma_read_digits_bounds(d, qd, 0);
            assert(d3d > qd && num_end(d, 0) == d3d) by {
                if qd > dl || read_digits(d, qd, 0).1 <= qd {
                    assert(num_end(d, 0) == d2d);
                }
            }
            assert(qd < dl);
            assert(d2d + 1 < dl ==> d[d2d + 1] == s[i + d2d + 1]);
            assert(d2d + 1 < dl);
            lemma_read_digits_window(s, i, d, qd);
            assert(read_digits(s, i + qd, 0).1 == i + d3d);
            assert(d3d == dl);
            assert(num_end(s, i) == i + dl);
        }
        // the integer digits stop before the end, so the value is carried
        // raw
        assert(parse_number_spec(s, i) == Some((JsonV::Num(s.subrange(i, i + dl)), i + dl)));
    }
    assert(s.subrange(i, i + dl) == d);
}

/// A well-formed serialized value embedded at `i`, followed by the end of
/// the input or by a byte that cannot extend a number literal, parses back
/// as that value, consuming exactly its serialization.
#[verifier::rlimit(80)]
pub proof fn lemma_parse_val_ser(s: Seq<u8>, i: int, v: JsonV)
    requires
        jv_wf(v),
        0 <= i,
        i + ser(v).len() <= s.len(),
        s.subrange(i, i + ser(v).len()) == ser(v),
        i + ser(v).len() == s.len() || !extends_number(s[i + ser(v).len()]),
    ensures
        parse_val_spec(s, i) == Some((v, i + ser(v).len())),
    decreases v, 0nat,
{
    let w = ser(v);
    let lw = w.len() as int;
    assert forall|k: int| 0 <= k < lw implies s[i + k] == #[trigger] w[k] by {
        assert(s.subrange(i, i + lw)[k] == s[i + k]);
    }
    lemma_ser_first(v);
    match v {
        JsonV::Null => {
            assert(w[0] == 110 && w[1] == 117 && w[2] == 108 && w[3] == 108);
        },
        JsonV::Bool(b) => {
            if b {
                assert(w[0] == 116 && w[1] == 114 && w[2] == 117 && w[3] == 101);
            } else {
                assert(w[0] == 102 && w[1] == 97 && w[2] == 108 && w[3] == 115 && w[4] == 101);
            }
        },
        JsonV::Int(n) => {
            if n >= 0 {
                let d = dec_digits(n as nat);
                assert(w == d);
                assert(s.subrange(i, i + d.len()) == d);
                lemma_read_digits_embed(s, i, n as nat);
                crate::digits::lemma_dec_digits_shape(n as nat);
                assert(is_digit(s[i]));
                assert(s[i] != 45);
                assert(read_digits(s, i, 0) == (n as nat, i + lw));
                assert(num_end(s, i) == i + lw);
                assert(parse_number_spec(s, i) == Some((JsonV::Int(n), i + lw)));
            } else {
                let mag = (-(n as int)) as nat;
                let d = dec_digits(mag);
                assert(w == seq![45u8] + d);
                assert(w[0] == 45);
                assert(s[i] == 45);
                assert(s.subrange(i + 1, i + 1 + d.len()) =~= d) by {
                    assert forall|k: int| 0 <= k < d.len() implies s.subrange(
                        i + 1,
                        i + 1 + d.len(),
                    )[k] == d[k] by {
                        assert(s.subrange(i + 1, i + 1 + d.len())[k] == s[i + 1 + k]);
                        assert(s[i + 1 + k] == w[1 + k]);
                        assert(w[1 + k] == d[k]);
                    }
                }
                lemma_read_digits_embed(s, i + 1, mag);
                crate::digits::lemma_dec_digits_shape(mag);
                assert(read_digits(s, i + 1, 0) == (mag, i + lw));
                assert(mag <= 0x8000_0000_0000_0000);
                assert((-(mag as int)) as i64 == n);
                assert(!is_digit(s[i]));
                assert(num_end(s, i) == i + lw);
                assert(parse_number_spec(s, i) == Some((JsonV::Int(n), i + lw)));
            }
        },
        JsonV::Num(d) => {
            assert(w == d);
            assert(num_lit_wf(d));
            lemma_parse_num_ser(s, i, d);
            assert(s[i] == d[0]);
            assert(d[0] == 45 || is_digit(d[0]));
        },
        JsonV::Str(body) => {
            let ssb = ser_str_bytes(body);
            assert(w == seq![34u8] + ssb + seq![34u8]);
            assert(w[0] == 34);
            assert(s[i] == 34);
            assert(s.subrange(i + 1, i + 1 + ssb.len() + 1) =~= ssb + seq![34u8]) by {
                assert forall|k: int| 0 <= k < ssb.len() + 1 implies s.subrange(
                    i + 1,
                    i + 1 + ssb.len() + 1,
                )[k] == (ssb + seq![34u8])[k] by {
                    assert(s.subrange(i + 1, i + 1 + ssb.len() + 1)[k] == s[i + 1 + k]);
                    assert(s[i + 1 + k] == w[1 + k]);
                    assert(w[1 + k] == (ssb + seq![34u8])[k]);
                }
            }
            lemma_parse_str_ser(s, i + 1, body, Seq::empty());
            assert(Seq::empty() + body =~= body);
        },
        JsonV::Arr(items) => {
            assert(w == seq![91u8] + ser_items(items) + seq![93u8]);
            assert(w[0] == 91);
            assert(s[i] == 91);
            if items.len() == 0 {
                assert(ser_items(items) =~= Seq::<u8>::empty());
                assert(w[1] == 93);
                assert(s[i + 1] == 93);
                assert(!is_ws(s[i + 1]));
                assert(skip_ws_spec(s, i + 1, s.len() as int) == i + 1);
                assert(parse_val_spec(s, i) == Some((JsonV::Arr(Seq::empty()), i + 2)));
                assert(items =~= Seq::<JsonV>::empty());
                assert(JsonV::Arr(Seq::<JsonV>::empty()) == v);
            } else {
                let inner = ser_items(items);
                lemma_ser_first(items[0]);
                assert(inner.len() >= 1 && inner[0] == ser(items[0])[0]) by {
                    if items.len() == 1 {
                        assert(inner == ser(items[0]));
                    } else {
                        assert(inner == ser(items[0]) + seq![44u8] + ser_items(
                            items.drop_first(),
                        ));
                        assert(ser(items[0]).len() >= 1);
                    }
                }
                assert(w[1] == inner[0]) by {
                    assert(w == seq![91u8] + inner + seq![93u8]);
                    assert((seq![91u8] + inner + seq![93u8])[1] == inner[0]);
                }
                assert(s[i + 1] == inner[0]);
                assert(!is_ws(s[i + 1]) && s[i + 1] != 93);
                assert(skip_ws_spec(s, i + 1, s.len() as int) == i + 1);
                assert(s.subrange(i + 1, i + 1 + inner.len() + 1) =~= inner + seq![93u8]) by {
                    assert forall|k: int| 0 <= k < inner.len() + 1 implies s.subrange(
                        i + 1,
                        i + 1 + inner.len() + 1,
                    )[k] == (inner + seq![93u8])[k] by {
                        assert(s.subrange(i + 1, i + 1 + inner.len() + 1)[k] == s[i + 1 + k]);
                        assert(s[i + 1 + k] == w[1 + k]);
                        assert(w[1 + k] == (inner + seq![93u8])[k]);
                    }
                }
                lemma_parse_elems_ser(s, i + 1, items, Seq::empty());
                assert(Seq::empty() + items =~= items);
            }
        },
        JsonV::Obj(fields) => {
            assert(w == seq![123u8] + ser_fields(fields) + seq![125u8]);
            assert(w[0] == 123);
            assert(s[i] == 123);
            if fields.len() == 0 {
                assert(ser_fields(fields) =~= Seq::<u8>::empty());
                assert(w[1] == 125);
                assert(s[i + 1] == 125);
                assert(!is_ws(s[i + 1]));
                assert(skip_ws_spec(s, i + 1, s.len() as int) == i + 1);
                assert(parse_val_spec(s, i) == Some((JsonV::Obj(Seq::empty()), i + 2)));
                assert(fields =~= Seq::<(Seq<u8>, JsonV)>::empty());
                assert(JsonV::Obj(Seq::<(Seq<u8>, JsonV)>::empty()) == v);
            } else {
                let inner = ser_fields(fields);
                assert(inner.len() >= 1 && inner[0] == 34) by {
                    assert(ser_field(fields[0])[0] == 34);
                    if fields.len() == 1 {
                        assert(inner == ser_field(fields[0]));
                    } else {
                        assert(inner == ser_field(fields[0]) + seq![44u8] + ser_fields(
                            fields.drop_first(),
                        ));
                        assert(ser_field(fields[0]).len() >= 1);
                    }
                }
                assert(w[1] == inner[0]) by {
                    assert(w == seq![123u8] + inner + seq![125u8]);
                    assert((seq![123u8] + inner + seq![125u8])[1] == inner[0]);
                }
                assert(s[i + 1] == 34);
                assert(!is_ws(s[i + 1]) && s[i + 1] != 125);
                assert(skip_ws_spec(s, i + 1, s.len() as int) == i + 1);
                assert(s.subrange(i + 1, i + 1 + inner.len() + 1) =~= inner + seq![125u8]) by {
                    assert forall|k: int| 0 <= k < inner.len() + 1 implies s.subrange(
                        i + 1,
                        i + 1 + inner.len() + 1,
                    )[k] == (inner + seq![125u8])[k] by {
                        assert(s.subrange(i + 1, i + 1 + inner.len() + 1)[k] == s[i + 1 + k]);
                        assert(s[i + 1 + k] == w[1 + k]);
                        assert(w[1 + k] == (inner + seq![125u8])[k]);
                    }
                }
                lemma_parse_members_ser(s, i + 1, fields, Seq::empty());
                assert(Seq::empty() + fields =~= fields);
            }
        },
    }
}

/// Serialized array elements embedded at `i`, followed by the closing
/// bracket, parse back as the array of the accumulator and the elements.
#[verifier::rlimit(80)]
proof fn lemma_parse_elems_ser(s: Seq<u8>, i: int, items: Seq<JsonV>, acc: Seq<JsonV>)
    requires
        items_wf(items),
        items.len() >= 1,
        0 <= i,
        i + ser_items(items).len() + 1 <= s.len(),
        s.subrange(i, i + ser_items(items).len() + 1) == ser_items(items) + seq![93u8],
    ensures
        parse_elems_spec(s, i, acc) == Some(
            (JsonV::Arr(acc + items), i + ser_items(items).len() + 1),
        ),
    decreases items, 1nat,
{
    let inner = ser_items(items);
    let whole = inner + seq![93u8];
    assert forall|k: int| 0 <= k < whole.len() implies s[i + k] == #[trigger] whole[k] by {
        assert(s.subrange(i, i + inner.len() + 1)[k] == s[i + k]);
    }
    let e0 = items[0];
    let w0 = ser(e0);
    let l0 = w0.len() as int;
    assert(jv_wf(e0) && items_wf(items.drop_first()));
    lemma_ser_first(e0);
    if items.len() == 1 {
        assert(inner == w0);
        assert(s.subrange(i, i + l0) =~= w0) by {
            assert forall|k: int| 0 <= k < l0 implies s.subrange(i, i + l0)[k] == w0[k] by {
                assert(s.subrange(i, i + l0)[k] == s[i + k]);
                assert(s[i + k] == whole[k]);
            }
        }
        assert(whole[l0] == 93);
        assert(s[i + l0] == 93);
        assert(!extends_number(s[i + l0]));
        lemma_parse_val_ser(s, i, e0);
        assert(!is_ws(s[i + l0]));
        assert(skip_ws_spec(s, i + l0, s.len() as int) == i + l0);
        assert(acc.push(e0) =~= acc + items);
        assert(parse_elems_spec(s, i, acc) == Some((JsonV::Arr(acc.push(e0)), i + l0 + 1)));
    } else {
        let rest = items.drop_first();
        let wr = ser_items(rest);
        assert(inner == w0 + seq![44u8] + wr);
        assert(s.subrange(i, i + l0) =~= w0) by {
            assert forall|k: int| 0 <= k < l0 implies s.subrange(i, i + l0)[k] == w0[k] by {
                assert(s.subrange(i, i + l0)[k] == s[i + k]);
                assert(s[i + k] == whole[k]);
                assert(whole[k] == w0[k]);
            }
        }
        assert(whole[l0] == 44);
        assert(s[i + l0] == 44);
        assert(!extends_number(s[i + l0]));
        lemma_parse_val_ser(s, i, e0);
        assert(!is_ws(s[i + l0]));
        assert(skip_ws_spec(s, i + l0, s.len() as int) == i + l0);
        let m = i + l0 + 1;
        assert(jv_wf(rest[0]) && items_wf(rest.drop_first()));
        lemma_ser_first(rest[0]);
        assert(wr[0] == ser(rest[0])[0]) by {
            if rest.len() == 1 {
                assert(wr == ser(rest[0]));
            } else {
                assert(wr == ser(rest[0]) + seq![44u8] + ser_items(rest.drop_first()));
                assert(ser(rest[0]).len() >= 1);
            }
        }
        assert(whole[l0 + 1] == wr[0]);
        assert(s[m] == wr[0]);
        assert(!is_ws(s[m]));
        assert(skip_ws_spec(s, m, s.len() as int) == m);
        assert(s.subrange(m, m + wr.len() + 1) =~= wr + seq![93u8]) by {
            assert forall|k: int| 0 <= k < wr.len() + 1 implies s.subrange(
                m,
                m + wr.len() + 1,
            )[k] == (wr + seq![93u8])[k] by {
                assert(s.subrange(m, m + wr.len() + 1)[k] == s[m + k]);
                assert(s[m + k] == whole[l0 + 1 + k]);
                assert(whole[l0 + 1 + k] == (wr + seq![93u8])[k]);
            }
        }
        lemma_parse_elems_ser(s, m, rest, acc.push(e0));
        assert(acc.push(e0) + rest =~= acc + items);
    }
}

/// One serialized object member embedded at `i`, followed by a comma or a
/// closing token: where its pieces lie and what they parse to.
#[verifier::rlimit(80)]
proof fn lemma_parse_field_parts(s: Seq<u8>, i: int, key: Seq<u8>, val: JsonV, term: u8)
    requires
        jv_wf(val),
        0 <= i,
        i + ser_field((key, val)).len() + 1 <= s.len(),
        s.subrange(i, i + ser_field((key, val)).len()) == ser_field((key, val)),
        s[i + ser_field((key, val)).len()] == term,
        term == 44 || term == 125,
    ensures
        s[i] == 34,
        ({
            let j = i + 1 + ser_str_bytes(key).len() + 1;
            let m = j + 1;
            let j2 = i + ser_field((key, val)).len();
            &&& parse_string_spec(s, i + 1, Seq::empty()) == Some((key, j))
            &&& s[j] == 58
            &&& skip_ws_spec(s, j, s.len() as int) == j
            &&& parse_val_spec(s, m) == Some((val, j2))
            &&& skip_ws_spec(s, m, s.len() as int) == m
            &&& skip_ws_spec(s, j2, s.len() as int) == j2
            &&& i < j2 <= s.len()
        }),
    decreases val, 1nat,
{
    let wf = ser_field((key, val));
    let lf = wf.len() as int;
    let ssb = ser_str_bytes(key);
    let wv = ser(val);
    assert(wf == seq![34u8] + ssb + seq![34u8, 58u8] + wv);
    assert forall|k: int| 0 <= k < lf implies s[i + k] == #[trigger] wf[k] by {
        assert(s.subrange(i, i + lf)[k] == s[i + k]);
    }
    assert(wf[0] == 34);
    assert(s[i] == 34);
    // the key string: body then closing quote
    assert(s.subrange(i + 1, i + 1 + ssb.len() + 1) =~= ssb + seq![34u8]) by {
        assert forall|k: int| 0 <= k < ssb.len() + 1 implies s.subrange(
            i + 1,
            i + 1 + ssb.len() + 1,
        )[k] == (ssb + seq![34u8])[k] by {
            assert(s.subrange(i + 1, i + 1 + ssb.len() + 1)[k] == s[i + 1 + k]);
            assert(s[i + 1 + k] == wf[1 + k]);
            assert(wf[1 + k] == (ssb + seq![34u8])[k]);
        }
    }
    lemma_parse_str_ser(s, i + 1, key, Seq::empty());
    assert(Seq::empty() + key =~= key);
    let j = i + 1 + ssb.len() + 1;
    // the colon
    assert(wf[j - i] == 58);
    assert(s[j] == 58);
    assert(!is_ws(s[j]));
    assert(skip_ws_spec(s, j, s.len() as int) == j);
    // the member value, ended by the terminator byte
    let m = j + 1;
    lemma_ser_first(val);
    assert(wf[m - i] == wv[0]);
    assert(s[m] == wv[0]);
    assert(!is_ws(s[m]));
    assert(skip_ws_spec(s, m, s.len() as int) == m);
    assert(s.subrange(m, m + wv.len()) =~= wv) by {
        assert forall|k: int| 0 <= k < wv.len() implies s.subrange(m, m + wv.len())[k] == wv[k] by {
            assert(s.subrange(m, m + wv.len())[k] == s[m + k]);
            assert(s[m + k] == wf[m - i + k]);
            assert(wf[m - i + k] == wv[k]);
        }
    }
    let j2 = m + wv.len();
    assert(j2 == i + lf);
    assert(!extends_number(s[j2]));
    lemma_parse_val_ser(s, m, val);
    assert(!is_ws(s[j2]));
    assert(skip_ws_spec(s, j2, s.len() as int) == j2);
}

/// Serialized object members embedded at `i`, followed by the closing
/// brace, parse back as the object of the accumulator and the members.
#[verifier::rlimit(80)]
proof fn lemma_parse_members_ser(
    s: Seq<u8>,
    i: int,
    fields: Seq<(Seq<u8>, JsonV)>,
    acc: Seq<(Seq<u8>, JsonV)>,
)
    requires
        fields_wf(fields),
        fields.len() >= 1,
        0 <= i,
        i + ser_fields(fields).len() + 1 <= s.len(),
        s.subrange(i, i + ser_fields(fields).len() + 1) == ser_fields(fields) + seq![125u8],
    ensures
        parse_members_spec(s, i, acc) == Some(
            (JsonV::Obj(acc + fields), i + ser_fields(fields).len() + 1),
        ),
    decreases fields, 1nat,
{
    let inner = ser_fields(fields);
    let whole = inner + seq![125u8];
    assert forall|k: int| 0 <= k < whole.len() implies s[i + k] == #[trigger] whole[k] by {
        assert(s.subrange(i, i + inner.len() + 1)[k] == s[i + k]);
    }
    let f0 = fields[0];
    let key = f0.0;
    let val = f0.1;
    let wf = ser_field(f0);
    let lf = wf.len() as int;
    assert(f0 == (key, val));
    assert(jv_wf(val) && fields_wf(fields.drop_first()));
    if fields.len() == 1 {
        assert(inner == wf);
        assert(s.subrange(i, i + lf) =~= wf) by {
            assert forall|k: int| 0 <= k < lf implies s.subrange(i, i + lf)[k] == wf[k] by {
                assert(s.subrange(i, i + lf)[k] == s[i + k]);
                assert(s[i + k] == whole[k]);
            }
        }
        assert(whole[lf] == 125);
        assert(s[i + lf] == 125);
        lemma_parse_field_parts(s, i, key, val, 125);
        assert(acc.push((key, val)) =~= acc + fields);
        assert(parse_members_spec(s, i, acc) == Some(
            (JsonV::Obj(acc.push((key, val))), i + lf + 1),
        ));
    } else {
        let rest = fields.drop_first();
        let wr = ser_fields(rest);
        assert(inner == wf + seq![44u8] + wr);
        assert(s.subrange(i, i + lf) =~= wf) by {
            assert forall|k: int| 0 <= k < lf implies s.subrange(i, i + lf)[k] == wf[k] by {
                assert(s.subrange(i, i + lf)[k] == s[i + k]);
                assert(s[i + k] == whole[k]);
                assert(whole[k] == wf[k]);
            }
        }
        assert(whole[lf] == 44);
        assert(s[i + lf] == 44);
        lemma_parse_field_parts(s, i, key, val, 44);
        let j2 = i + lf;
        let m2 = j2 + 1;
        assert(wr.len() >= 1 && wr[0] == 34) by {
            assert(ser_field(rest[0])[0] == 34);
            if rest.len() == 1 {
                assert(wr == ser_field(rest[0]));
            } else {
                assert(wr == ser_field(rest[0]) + seq![44u8] + ser_fields(rest.drop_first()));
                assert(ser_field(rest[0]).len() >= 1);
            }
        }
        assert(whole[lf + 1] == wr[0]);
        assert(s[m2] == 34);
        assert(!is_ws(s[m2]));
        assert(skip_ws_spec(s, m2, s.len() as int) == m2);
        assert(s.subrange(m2, m2 + wr.len() + 1) =~= wr + seq![125u8]) by {
            assert forall|k: int| 0 <= k < wr.len() + 1 implies s.subrange(
                m2,
                m2 + wr.len() + 1,
            )[k] == (wr + seq![125u8])[k] by {
                assert(s.subrange(m2, m2 + wr.len() + 1)[k] == s[m2 + k]);
                assert(s[m2 + k] == whole[lf + 1 + k]);
                assert(whole[lf + 1 + k] == (wr + seq![125u8])[k]);
            }
        }
        lemma_parse_members_ser(s, m2, rest, acc.push((key, val)));
        assert(acc.push((key, val)) + rest =~= acc + fields);
    }
}

/// The round trip: a document the serializer wrote parses back to the
/// value it was written from, for every well-formed value — one whose raw
/// number literals are complete and not plain 64-bit integers, the only
/// values this crate constructs or returns.
pub proof fn lemma_parse_ser_round_trip(v: JsonV)
    requires
        jv_wf(v),
    ensures
        parse_json_spec(ser(v)) == Some(v),
{
    let s = ser(v);
    lemma_ser_first(v);
    assert(skip_ws_spec(s, 0, s.len() as int) == 0);
    assert(s.subrange(0, s.len() as int) =~= s);
    lemma_parse_val_ser(s, 0, v);
    assert(skip_ws_spec(s, s.len() as int, s.len() as int) == s.len());
}

} // verus!
