//! The intent store's file holds entries of a key and a value; the
//! entries of intents have keys beginning with `intent:` and values that
//! are the hexadecimal text of the intent's serialized bytes.

use vstd::prelude::*;
use vstd::utf8::encode_utf8;
use crate::text::{occurs_at, text_starts_with};

verus! {

/// The value of a hexadecimal digit byte (`0`-`9`, `a`-`f`, `A`-`F`).
pub open spec fn hex_digit_value(b: u8) -> Option<u8> {
    if 48 <= b <= 57 {
        Some((b - 48) as u8)
    } else if 97 <= b <= 102 {
        Some((b - 87) as u8)
    } else if 65 <= b <= 70 {
        Some((b - 55) as u8)
    } else {
        None
    }
}

/// Whether `s` is hexadecimal text: an even number of hexadecimal digits.
pub open spec fn is_hex_text(s: Seq<u8>) -> bool {
    &&& s.len() % 2 == 0
    &&& forall|i: int| 0 <= i < s.len() ==> (#[trigger] hex_digit_value(s[i])) is Some
}

/// The bytes that hexadecimal text spells, two digits each, the high digit
/// first.
pub open spec fn hex_bytes(s: Seq<u8>) -> Seq<u8> {
    Seq::new(
        s.len() / 2,
        |k: int| (hex_digit_value(s[2 * k])->0 * 16 + hex_digit_value(s[2 * k + 1])->0) as u8,
    )
}

fn digit_value(b: u8) -> (r: Option<u8>)
    ensures
        r == hex_digit_value(b),
{
    if 48 <= b && b <= 57 {
        Some(b - 48)
    } else if 97 <= b && b <= 102 {
        Some(b - 87)
    } else if 65 <= b && b <= 70 {
        Some(b - 55)
    } else {
        None
    }
}

/// The bytes that `text` spells in hexadecimal, or `None` when it is not
/// hexadecimal text (an odd length or a byte that is no digit).
pub fn decode_hex(text: &str) -> (r: Option<Vec<u8>>)
    ensures
        match r {
            Some(v) => is_hex_text(encode_utf8(text@)) && v@ == hex_bytes(encode_utf8(text@)),
            None => !is_hex_text(encode_utf8(text@)),
        },
{
    let b = text.as_bytes();
    let ghost s = encode_utf8(text@);
    assert(b@ == s);
    let n = b.len();
    if n % 2 != 0 {
        return None;
    }
    let mut out: Vec<u8> = Vec::new();
    let mut k: usize = 0;
    while k < n / 2
        invariant
            s == encode_utf8(text@),
            b@ == s,
            n == s.len(),
            n % 2 == 0,
            k <= n / 2,
            forall|i: int| 0 <= i < 2 * k ==> (#[trigger] hex_digit_value(s[i])) is Some,
            out@ == hex_bytes(s).take(k as int),
        decreases n / 2 - k,
    {
        let hi = match digit_value(b[2 * k]) {
            Some(v) => v,
            None => {
                assert(hex_digit_value(s[2 * k as int]) is None);
                return None;
            },
        };
        let lo = match digit_value(b[2 * k + 1]) {
            Some(v) => v,
            None => {
                assert(hex_digit_value(s[2 * k + 1]) is None);
                return None;
            },
        };
        out.push(hi * 16 + lo);
        k = k + 1;
        assert(out@ =~= hex_bytes(s).take(k as int));
    }
    assert(out@ =~= hex_bytes(s));
    Some(out)
}

/// Whether an entry of the store is an intent's: its key begins with
/// `intent:` and its value is text.
pub open spec fn is_intent_entry(key: Seq<char>, value: Option<Seq<char>>) -> bool {
    occurs_at(key, "intent:"@, 0) && value is Some
}

/// The serialized intents of the store's entries (key, and value when it
/// is text), in order: the hexadecimal values of the intent entries, those
/// that are not hexadecimal text left out.
pub open spec fn stored_intents(entries: Seq<(Seq<char>, Option<Seq<char>>)>) -> Seq<Seq<u8>>
    decreases entries.len(),
{
    if entries.len() == 0 {
        Seq::empty()
    } else {
        let rest = stored_intents(entries.drop_last());
        let (k, v) = entries.last();
        if is_intent_entry(k, v) && is_hex_text(encode_utf8(v->0)) {
            rest.push(hex_bytes(encode_utf8(v->0)))
        } else {
            rest
        }
    }
}

/// The views of the store's entries.
pub open spec fn entries_view(v: Seq<(String, Option<String>)>) -> Seq<(Seq<char>, Option<Seq<char>>)> {
    v.map_values(
        |e: (String, Option<String>)|
            (
                e.0@,
                match e.1 {
                    Some(t) => Some(t@),
                    None => None,
                },
            ),
    )
}

/// The serialized intents of the store's entries (see `stored_intents`).
pub fn stored_intent_payloads(entries: &Vec<(String, Option<String>)>) -> (r: Vec<Vec<u8>>)
    ensures
        r@.map_values(|v: Vec<u8>| v@) == stored_intents(entries_view(entries@)),
{
    let ghost ev = entries_view(entries@);
    let mut r: Vec<Vec<u8>> = Vec::new();
    let n = entries.len();
    let mut i: usize = 0;
    while i < n
        invariant
            n == entries@.len(),
            ev == entries_view(entries@),
            i <= n,
            r@.map_values(|v: Vec<u8>| v@) == stored_intents(ev.take(i as int)),
        decreases n - i,
    {
        assert(ev.take(i + 1).drop_last() =~= ev.take(i as int));
        assert(ev.take(i + 1).last() == ev[i as int]);
        let ghost before = r@;
        let entry = &entries[i];
        if text_starts_with(entry.0.as_str(), "intent:") {
            match &entry.1 {
                Some(text) => {
                    match decode_hex(text.as_str()) {
                        Some(bytes) => {
                            r.push(bytes);
                            assert(r@.map_values(|v: Vec<u8>| v@) =~= before.map_values(|v: Vec<u8>| v@).push(
                                r@[before.len() as int]@,
                            ));
                        },
                        None => {},
                    }
                },
                None => {},
            }
        }
        i = i + 1;
    }
    assert(ev.take(n as int) =~= ev);
    r
}

} // verus!
