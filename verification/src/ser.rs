//! JSON serialization of the payload records, byte for byte.
//!
//! Every body the handlers produce is written into the worker's reusable
//! scratch buffer; each writer first resets the buffer, so the bytes that come
//! out are a function of the record alone and never carry residue from an
//! earlier request.

use vstd::prelude::*;
use vstd::string::StrSliceExecFns;
use vstd::string::is_ascii;
use vstd::utf8::is_ascii_chars;

use crate::text::ascii_of;

verus! {

/// One database record: a key and the random number stored under it.
#[derive(Clone, Copy, PartialEq, Eq, Structural, Debug)]
pub struct World {
    pub id: u32,
    pub randomnumber: u32,
}

/// The static greeting record served by the JSON route.
pub struct Message {
    pub message: String,
}

/// A character sequence that may stand inside a JSON string literal verbatim:
/// ASCII, printable, and free of quotes and backslashes.
pub open spec fn json_text_ok(s: Seq<char>) -> bool {
    &&& is_ascii_chars(s)
    &&& forall|i: int| 0 <= i < s.len() ==> s[i] != '"' && s[i] != '\\' && s[i] as u32 >= 32
}

impl Message {
    pub fn new() -> (m: Message)
        ensures
            m.message@ == "Hello, World!"@,
            json_text_ok(m.message@),
    {
        proof {
            reveal_strlit("Hello, World!");
        }
        Message { message: "Hello, World!".to_owned() }
    }
}

/// The decimal digits of a number, most significant first.
pub open spec fn dec_digits(n: nat) -> Seq<u8>
    decreases n,
{
    if n < 10 {
        seq![(48 + n) as u8]
    } else {
        dec_digits(n / 10).push((48 + n % 10) as u8)
    }
}

/// The JSON encoding of the greeting object.
pub open spec fn json_message(text: Seq<char>) -> Seq<u8> {
    ascii_of("{\"message\":\""@) + ascii_of(text) + ascii_of("\"}"@)
}

/// The JSON encoding of one record.
pub open spec fn json_world(w: World) -> Seq<u8> {
    ascii_of("{\"id\":"@) + dec_digits(w.id as nat) + ascii_of(",\"randomNumber\":"@)
        + dec_digits(w.randomnumber as nat) + ascii_of("}"@)
}

/// The comma-separated encodings of a sequence of records.
pub open spec fn json_worlds_items(ws: Seq<World>) -> Seq<u8>
    decreases ws.len(),
{
    if ws.len() == 0 {
        Seq::empty()
    } else if ws.len() == 1 {
        json_world(ws[0])
    } else {
        json_world(ws[0]) + ascii_of(","@) + json_worlds_items(ws.drop_first())
    }
}

/// The JSON encoding of a sequence of records as an array.
pub open spec fn json_worlds(ws: Seq<World>) -> Seq<u8> {
    ascii_of("["@) + json_worlds_items(ws) + ascii_of("]"@)
}

/// Appending one record to a list extends its item encoding at the end.
pub proof fn lemma_items_push(ws: Seq<World>, w: World)
    ensures
        json_worlds_items(ws.push(w)) == if ws.len() == 0 {
            json_world(w)
        } else {
            (json_worlds_items(ws) + ascii_of(","@) + json_world(w))
        },
    decreases ws.len(),
{
    if ws.len() == 0 {
        assert(ws.push(w) =~= seq![w]);
        assert(json_worlds_items(seq![w]) == json_world(w));
    } else {
        let pushed = ws.push(w);
        assert(pushed.len() >= 2);
        assert(pushed[0] == ws[0]);
        assert(pushed.drop_first() =~= ws.drop_first().push(w));
        lemma_items_push(ws.drop_first(), w);
        if ws.len() == 1 {
            assert(ws.drop_first().len() == 0);
            assert(json_worlds_items(pushed) == json_world(ws[0]) + ascii_of(","@) + json_world(
                w,
            ));
            assert(json_worlds_items(ws) == json_world(ws[0]));
        } else {
            assert(json_worlds_items(ws) == json_world(ws[0]) + ascii_of(","@)
                + json_worlds_items(ws.drop_first()));
            assert((json_world(ws[0]) + ascii_of(","@) + (json_worlds_items(ws.drop_first())
                + ascii_of(","@) + json_world(w))) =~= (json_worlds_items(ws) + ascii_of(","@)
                + json_world(w)));
        }
    }
}

/// Append the bytes of an ASCII string to the buffer.
pub fn push_str_bytes(buf: &mut Vec<u8>, s: &str)
    requires
        is_ascii(s),
    ensures
        final(buf)@ == old(buf)@ + ascii_of(s@),
{
    let n: usize = s.unicode_len();
    let mut i: usize = 0;
    while i < n
        invariant
            is_ascii(s),
            i <= n,
            n == s@.len(),
            buf@ =~= old(buf)@ + ascii_of(s@.subrange(0, i as int)),
        decreases n - i,
    {
        let b: u8 = s.get_ascii(i);
        buf.push(b);
        proof {
            assert(s@.subrange(0, i + 1 as int) =~= s@.subrange(0, i as int).push(s@[i as int]));
            assert(buf@ =~= old(buf)@ + ascii_of(s@.subrange(0, i + 1 as int)));
        }
        i += 1;
    }
    proof {
        assert(s@.subrange(0, n as int) =~= s@);
    }
}

/// Append the decimal digits of a number to the buffer.
pub fn push_u32(buf: &mut Vec<u8>, n: u32)
    ensures
        final(buf)@ == old(buf)@ + dec_digits(n as nat),
    decreases n,
{
    if n >= 10 {
        push_u32(buf, n / 10);
    }
    buf.push((48 + (n % 10)) as u8);
    proof {
        if n >= 10 {
            assert((old(buf)@ + dec_digits((n / 10) as nat)).push((48 + n as nat % 10) as u8)
                =~= old(buf)@ + dec_digits(n as nat));
        } else {
            assert(old(buf)@.push((48 + n as nat) as u8) =~= old(buf)@ + dec_digits(n as nat));
        }
    }
}

/// Append the JSON encoding of one record to the buffer.
pub fn push_json_world(buf: &mut Vec<u8>, w: &World)
    ensures
        final(buf)@ == old(buf)@ + json_world(*w),
{
    proof {
        reveal_strlit("{\"id\":");
        reveal_strlit(",\"randomNumber\":");
        reveal_strlit("}");
    }
    push_str_bytes(buf, "{\"id\":");
    push_u32(buf, w.id);
    push_str_bytes(buf, ",\"randomNumber\":");
    push_u32(buf, w.randomnumber);
    push_str_bytes(buf, "}");
    proof {
        assert(buf@ =~= old(buf)@ + json_world(*w));
    }
}

/// Reset the buffer and write the greeting object into it.
pub fn serialize_message(buf: &mut Vec<u8>, m: &Message)
    requires
        json_text_ok(m.message@),
    ensures
        final(buf)@ == json_message(m.message@),
{
    proof {
        reveal_strlit("{\"message\":\"");
        reveal_strlit("\"}");
    }
    buf.clear();
    push_str_bytes(buf, "{\"message\":\"");
    push_str_bytes(buf, m.message.as_str());
    push_str_bytes(buf, "\"}");
    proof {
        assert(buf@ =~= json_message(m.message@));
    }
}

/// Reset the buffer and write one record into it.
pub fn serialize_world(buf: &mut Vec<u8>, w: &World)
    ensures
        final(buf)@ == json_world(*w),
{
    buf.clear();
    push_json_world(buf, w);
    proof {
        assert(buf@ =~= json_world(*w));
    }
}

/// Reset the buffer and write a record list into it as a JSON array.
pub fn serialize_worlds(buf: &mut Vec<u8>, ws: &Vec<World>)
    ensures
        final(buf)@ == json_worlds(ws@),
{
    proof {
        reveal_strlit("[");
        reveal_strlit(",");
        reveal_strlit("]");
    }
    buf.clear();
    push_str_bytes(buf, "[");
    let mut i: usize = 0;
    while i < ws.len()
        invariant
            i <= ws@.len(),
            buf@ =~= ascii_of("["@) + json_worlds_items(ws@.subrange(0, i as int)),
            ascii_of(","@).len() == 1,
        decreases ws@.len() - i,
    {
        if i > 0 {
            proof {
                reveal_strlit(",");
            }
            push_str_bytes(buf, ",");
        }
        push_json_world(buf, &ws[i]);
        proof {
            lemma_items_push(ws@.subrange(0, i as int), ws@[i as int]);
            assert(ws@.subrange(0, i + 1 as int) =~= ws@.subrange(0, i as int).push(
                ws@[i as int],
            ));
            assert(buf@ =~= ascii_of("["@) + json_worlds_items(ws@.subrange(0, i + 1 as int)));
        }
        i += 1;
    }
    push_str_bytes(buf, "]");
    proof {
        assert(ws@.subrange(0, ws@.len() as int) =~= ws@);
        assert(buf@ =~= json_worlds(ws@));
    }
}

/// A fresh copy of the buffer's bytes, handed to the response as its body.
pub fn copy_bytes(src: &Vec<u8>) -> (r: Vec<u8>)
    ensures
        r@ == src@,
{
    let mut r: Vec<u8> = Vec::new();
    let mut i: usize = 0;
    while i < src.len()
        invariant
            i <= src@.len(),
            r@ =~= src@.subrange(0, i as int),
        decreases src@.len() - i,
    {
        r.push(src[i]);
        proof {
            assert(src@.subrange(0, i + 1 as int) =~= src@.subrange(0, i as int).push(
                src@[i as int],
            ));
        }
        i += 1;
    }
    proof {
        assert(src@.subrange(0, src@.len() as int) =~= src@);
    }
    r
}

} // verus!
