//! The JSON serializer.
//!
//! [`ser`] gives the exact byte sequence a value is written as; the
//! executable writer produces those bytes. The writer emits no insignificant
//! whitespace, escapes only the quote, the backslash and control bytes,
//! writes object members in their stored order, and copies the literal
//! bytes of a raw number verbatim.

use vstd::prelude::*;

use crate::digits::dec_digits;
use crate::json::{Json, JsonV};

verus! {

/// The lowercase hexadecimal digit of `d`.
pub open spec fn hex_digit(d: nat) -> u8 {
    if d < 10 {
        (48 + d) as u8
    } else {
        (87 + d) as u8
    }
}

/// The serialization of one string byte: quote and backslash get a
/// backslash escape, control bytes the `\u00XX` form, all others stand as
/// themselves.
pub open spec fn escape_byte(b: u8) -> Seq<u8> {
    if b == 34 {
        seq![92u8, 34u8]
    } else if b == 92 {
        seq![92u8, 92u8]
    } else if b < 32 {
        seq![92u8, 117u8, 48u8, 48u8, hex_digit((b / 16) as nat), hex_digit((b % 16) as nat)]
    } else {
        seq![b]
    }
}

/// The serialization of a string body, without the surrounding quotes.
pub open spec fn ser_str_bytes(s: Seq<u8>) -> Seq<u8>
    decreases s.len(),
{
    if s.len() == 0 {
        Seq::empty()
    } else {
        escape_byte(s[0]) + ser_str_bytes(s.drop_first())
    }
}

/// The serialization of a number: a minus sign for negative values, then
/// the decimal digits of the magnitude.
pub open spec fn ser_int(n: i64) -> Seq<u8> {
    if n >= 0 {
        dec_digits(n as nat)
    } else {
        seq![45u8] + dec_digits((-(n as int)) as nat)
    }
}

/// The exact bytes `v` is written as.
pub open spec fn ser(v: JsonV) -> Seq<u8>
    decreases v, 0nat,
{
    match v {
        JsonV::Null => seq![110u8, 117u8, 108u8, 108u8],
        JsonV::Bool(b) => if b {
            seq![116u8, 114u8, 117u8, 101u8]
        } else {
            seq![102u8, 97u8, 108u8, 115u8, 101u8]
        },
        JsonV::Int(n) => ser_int(n),
        JsonV::Num(d) => d,
        JsonV::Str(s) => seq![34u8] + ser_str_bytes(s) + seq![34u8],
        JsonV::Arr(items) => seq![91u8] + ser_items(items) + seq![93u8],
        JsonV::Obj(fields) => seq![123u8] + ser_fields(fields) + seq![125u8],
    }
}

/// The comma-separated serializations of array elements.
pub open spec fn ser_items(items: Seq<JsonV>) -> Seq<u8>
    decreases items, 0nat,
{
    if items.len() == 0 {
        Seq::empty()
    } else if items.len() == 1 {
        ser(items[0])
    } else {
        ser(items[0]) + seq![44u8] + ser_items(items.drop_first())
    }
}

/// The comma-separated serializations of object members, each a quoted key,
/// a colon and the member value.
pub open spec fn ser_fields(fields: Seq<(Seq<u8>, JsonV)>) -> Seq<u8>
    decreases fields, 0nat,
{
    if fields.len() == 0 {
        Seq::empty()
    } else if fields.len() == 1 {
        ser_field(fields[0])
    } else {
        ser_field(fields[0]) + seq![44u8] + ser_fields(fields.drop_first())
    }
}

/// The serialization of one object member.
pub open spec fn ser_field(field: (Seq<u8>, JsonV)) -> Seq<u8>
    decreases field, 1nat,
{
    seq![34u8] + ser_str_bytes(field.0) + seq![34u8, 58u8] + ser(field.1)
}

/// Splitting a string body at any position splits its serialization.
pub proof fn lemma_ser_str_bytes_split(s: Seq<u8>, i: int)
    requires
        0 <= i <= s.len(),
    ensures
        ser_str_bytes(s) == ser_str_bytes(s.take(i)) + ser_str_bytes(s.skip(i)),
    decreases i,
{
    if i == 0 {
        assert(s.take(0) =~= Seq::<u8>::empty());
        assert(s.skip(0) =~= s);
        assert(ser_str_bytes(s) =~= ser_str_bytes(s.take(0)) + ser_str_bytes(s.skip(0)));
    } else {
        lemma_ser_str_bytes_split(s.drop_first(), i - 1);
        assert(s.take(i).drop_first() =~= s.drop_first().take(i - 1));
        assert(s.skip(i) =~= s.drop_first().skip(i - 1));
        assert(s.take(i).len() == i);
        assert(s.take(i)[0] == s[0]);
        assert(ser_str_bytes(s.take(i)) == escape_byte(s[0]) + ser_str_bytes(
            s.drop_first().take(i - 1),
        ));
        assert(ser_str_bytes(s) =~= ser_str_bytes(s.take(i)) + ser_str_bytes(s.skip(i)));
    }
}

/// Appends the serialization of the string body `s` to `out`.
fn write_str_bytes(s: &Vec<u8>, out: &mut Vec<u8>)
    ensures
        final(out)@ == old(out)@ + ser_str_bytes(s@),
{
    let n = s.len();
    let mut i: usize = 0;
    while i < n
        invariant
            0 <= i <= n,
            n == s@.len(),
            out@ == old(out)@ + ser_str_bytes(s@.take(i as int)),
        decreases n - i,
    {
        let b = s[i];
        if b == 34 {
            out.push(92);
            out.push(34);
        } else if b == 92 {
            out.push(92);
            out.push(92);
        } else if b < 32 {
            out.push(92);
            out.push(117);
            out.push(48);
            out.push(48);
            let hi = b / 16;
            let lo = b % 16;
            out.push(if hi < 10 { 48 + hi } else { 87 + hi });
            out.push(if lo < 10 { 48 + lo } else { 87 + lo });
        } else {
            out.push(b);
        }
        proof {
            lemma_ser_str_bytes_split(s@.take(i as int + 1), i as int);
            assert(s@.take(i as int + 1).take(i as int) =~= s@.take(i as int));
            assert(s@.take(i as int + 1).skip(i as int) =~= seq![s@[i as int]]);
            assert(seq![s@[i as int]].drop_first() =~= Seq::<u8>::empty());
            assert(ser_str_bytes(Seq::<u8>::empty()) =~= Seq::<u8>::empty());
            assert(ser_str_bytes(seq![s@[i as int]]) =~= escape_byte(s@[i as int]));
            assert(out@ =~= old(out)@ + ser_str_bytes(s@.take(i as int + 1)));
        }
        i = i + 1;
    }
    assert(s@.take(n as int) =~= s@);
}

/// Appends the serialization of the number `n` to `out`.
fn write_int(n: i64, out: &mut Vec<u8>)
    ensures
        final(out)@ == old(out)@ + ser_int(n),
{
    if n >= 0 {
        let mut digits = crate::digits::render_u64(n as u64);
        out.append(&mut digits);
    } else {
        out.push(45);
        let magnitude: u64 = if n == i64::MIN {
            9223372036854775808u64
        } else {
            (-n) as u64
        };
        assert(magnitude as nat == (-(n as int)) as nat);
        let mut digits = crate::digits::render_u64(magnitude);
        out.append(&mut digits);
        assert(out@ =~= old(out)@ + ser_int(n));
    }
}

/// Appends the serialization of `j` to `out`.
pub fn write_json(j: &Json, out: &mut Vec<u8>)
    ensures
        final(out)@ == old(out)@ + ser(j.jv()),
    decreases *j, 0nat,
{
    match j {
        Json::Null => {
            out.push(110);
            out.push(117);
            out.push(108);
            out.push(108);
            assert(out@ =~= old(out)@ + ser(j.jv()));
        },
        Json::Bool(b) => {
            if *b {
                out.push(116);
                out.push(114);
                out.push(117);
                out.push(101);
            } else {
                out.push(102);
                out.push(97);
                out.push(108);
                out.push(115);
                out.push(101);
            }
            assert(out@ =~= old(out)@ + ser(j.jv()));
        },
        Json::Int(n) => {
            write_int(*n, out);
        },
        Json::Num(d) => {
            crate::json::extend_bytes(out, d);
        },
        Json::Str(s) => {
            out.push(34);
            write_str_bytes(s, out);
            out.push(34);
            assert(out@ =~= old(out)@ + ser(j.jv()));
        },
        Json::Arr(items) => {
            proof {
                assert(decreases_to!(*j => j->Arr_0));
            }
            out.push(91);
            write_items(items, 0, out);
            out.push(93);
            assert(items@.skip(0) =~= items@);
            assert(j.jv()->Arr_0 =~= items@.map(|_i: int, it: Json| it.jv()));
            assert(out@ =~= old(out)@ + ser(j.jv()));
        },
        Json::Obj(fields) => {
            proof {
                assert(decreases_to!(*j => j->Obj_0));
            }
            out.push(123);
            write_fields(fields, 0, out);
            out.push(125);
            assert(fields@.skip(0) =~= fields@);
            assert(j.jv()->Obj_0 =~= fields@.map(
                |_i: int, f: (Vec<u8>, Json)| (f.0@, f.1.jv()),
            ));
            assert(out@ =~= old(out)@ + ser(j.jv()));
        },
    }
}

/// Appends the serializations of the elements of `items` from position `i`
/// on, separated by commas, to `out`.
fn write_items(items: &Vec<Json>, i: usize, out: &mut Vec<u8>)
    requires
        i <= items@.len(),
    ensures
        final(out)@ == old(out)@ + ser_items(items@.skip(i as int).map(|_k: int, it: Json| it.jv())),
    decreases *items, items@.len() - i,
{
    let ghost rest = items@.skip(i as int).map(|_k: int, it: Json| it.jv());
    if i < items.len() {
        proof {
            assert(decreases_to!(*items => items@));
            assert(decreases_to!(items@ => items@[i as int]));
        }
        write_json(&items[i], out);
        if i + 1 < items.len() {
            out.push(44);
            write_items(items, i + 1, out);
            proof {
                let rest2 = items@.skip(i as int + 1).map(|_k: int, it: Json| it.jv());
                assert(rest.drop_first() =~= rest2);
                assert(rest[0] == items@[i as int].jv());
                assert(out@ =~= old(out)@ + ser_items(rest));
            }
        } else {
            proof {
                assert(rest.len() == 1);
                assert(rest[0] == items@[i as int].jv());
                assert(out@ =~= old(out)@ + ser_items(rest));
            }
        }
    } else {
        assert(rest.len() == 0);
        assert(out@ =~= old(out)@ + ser_items(rest));
    }
}

/// Appends the serializations of the members of `fields` from position `i`
/// on, separated by commas, to `out`.
fn write_fields(fields: &Vec<(Vec<u8>, Json)>, i: usize, out: &mut Vec<u8>)
    requires
        i <= fields@.len(),
    ensures
        final(out)@ == old(out)@ + ser_fields(
            fields@.skip(i as int).map(|_k: int, f: (Vec<u8>, Json)| (f.0@, f.1.jv())),
        ),
    decreases *fields, fields@.len() - i,
{
    let ghost rest = fields@.skip(i as int).map(|_k: int, f: (Vec<u8>, Json)| (f.0@, f.1.jv()));
    if i < fields.len() {
        let entry = &fields[i];
        out.push(34);
        write_str_bytes(&entry.0, out);
        out.push(34);
        out.push(58);
        proof {
            assert(decreases_to!(*fields => fields@));
            assert(decreases_to!(fields@ => fields@[i as int]));
            assert(decreases_to!(fields@[i as int] => fields@[i as int].1));
        }
        write_json(&entry.1, out);
        proof {
            assert(rest[0] == (fields@[i as int].0@, fields@[i as int].1.jv()));
            assert(ser_field(rest[0]) =~= seq![34u8] + ser_str_bytes(fields@[i as int].0@) + seq![
                34u8,
                58u8,
            ] + ser(fields@[i as int].1.jv()));
        }
        if i + 1 < fields.len() {
            out.push(44);
            write_fields(fields, i + 1, out);
            proof {
                let rest2 = fields@.skip(i as int + 1).map(
                    |_k: int, f: (Vec<u8>, Json)| (f.0@, f.1.jv()),
                );
                assert(rest.drop_first() =~= rest2);
                assert(out@ =~= old(out)@ + ser_fields(rest));
            }
        } else {
            proof {
                assert(rest.len() == 1);
                assert(out@ =~= old(out)@ + ser_fields(rest));
            }
        }
    } else {
        assert(rest.len() == 0);
        assert(out@ =~= old(out)@ + ser_fields(rest));
    }
}

/// The bytes `j` is written as.
pub fn to_bytes(j: &Json) -> (out: Vec<u8>)
    ensures
        out@ == ser(j.jv()),
{
    let mut out: Vec<u8> = Vec::new();
    write_json(j, &mut out);
    assert(out@ =~= ser(j.jv()));
    out
}

} // verus!
