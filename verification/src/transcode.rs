//! Strict transcoding of a legacy 8-bit code page (Windows-1252) into
//! UTF-8 text, line by line: the input is split at the line-feed byte,
//! each line is decoded strictly, and every decoded line is written
//! with a trailing line feed, also the last one.
//!
//! The five bytes the code page leaves unassigned are rejected: strict
//! decoding has no replacement-character fallback, so any of them fails
//! the whole transcoding and no output is produced.

use vstd::prelude::*;

use crate::error::{Error, ErrorKind};
use crate::text::{chars_of_str, string_from_chars};

verus! {

/// Whether the legacy code page assigns a character to `b`.
pub open spec fn win1252_defined(b: u8) -> bool {
    b != 0x81 && b != 0x8D && b != 0x8F && b != 0x90 && b != 0x9D
}

/// The character the code page assigns to `b`: ASCII and the upper
/// range map to the code point of the same number; the block between
/// them maps through a fixed table.
pub open spec fn win1252_char(b: u8) -> char {
    if b == 0x80 {
        '\u{20AC}'
    } else if b == 0x82 {
        '\u{201A}'
    } else if b == 0x83 {
        '\u{192}'
    } else if b == 0x84 {
        '\u{201E}'
    } else if b == 0x85 {
        '\u{2026}'
    } else if b == 0x86 {
        '\u{2020}'
    } else if b == 0x87 {
        '\u{2021}'
    } else if b == 0x88 {
        '\u{2C6}'
    } else if b == 0x89 {
        '\u{2030}'
    } else if b == 0x8A {
        '\u{160}'
    } else if b == 0x8B {
        '\u{2039}'
    } else if b == 0x8C {
        '\u{152}'
    } else if b == 0x8E {
        '\u{17D}'
    } else if b == 0x91 {
        '\u{2018}'
    } else if b == 0x92 {
        '\u{2019}'
    } else if b == 0x93 {
        '\u{201C}'
    } else if b == 0x94 {
        '\u{201D}'
    } else if b == 0x95 {
        '\u{2022}'
    } else if b == 0x96 {
        '\u{2013}'
    } else if b == 0x97 {
        '\u{2014}'
    } else if b == 0x98 {
        '\u{2DC}'
    } else if b == 0x99 {
        '\u{2122}'
    } else if b == 0x9A {
        '\u{161}'
    } else if b == 0x9B {
        '\u{203A}'
    } else if b == 0x9C {
        '\u{153}'
    } else if b == 0x9E {
        '\u{17E}'
    } else if b == 0x9F {
        '\u{178}'
    } else {
        b as char
    }
}

/// The decoded characters of one line of bytes.
pub open spec fn win1252_text(line: Seq<u8>) -> Seq<char> {
    line.map_values(|b: u8| win1252_char(b))
}

/// Every byte of `b` has an assigned character.
pub open spec fn all_win1252_defined(b: Seq<u8>) -> bool {
    forall|i: int| 0 <= i < b.len() ==> win1252_defined(#[trigger] b[i])
}

/// Relies on the `encoding` crate's WINDOWS_1252 codec: a single-byte
/// decoder that maps every byte through the WHATWG windows-1252 index,
/// ASCII to itself and the remainder as `win1252_char` states.
#[verifier::external_body]
fn win1252_decode_line(line: &Vec<u8>) -> (r: String)
    ensures
        r@ == win1252_text(line@),
{
    match encoding::Encoding::decode(
        encoding::all::WINDOWS_1252,
        line.as_slice(),
        encoding::DecoderTrap::Strict,
    ) {
        Ok(s) => s,
        Err(_) => String::new(),
    }
}

/// The transcoder state after some bytes: finished output text and the
/// bytes of the still-unterminated line.
pub open spec fn transcode_fold(b: Seq<u8>) -> (Seq<char>, Seq<u8>)
    decreases b.len(),
{
    if b.len() == 0 {
        (Seq::empty(), Seq::empty())
    } else {
        let (out, cur) = transcode_fold(b.drop_last());
        if b.last() == 10 {
            (out + win1252_text(cur) + seq!['\n'], Seq::empty())
        } else {
            (out, cur.push(b.last()))
        }
    }
}

/// The transcoded text of a whole byte stream: a trailing line without
/// a line feed is still decoded and terminated.
pub open spec fn transcode_text(b: Seq<u8>) -> Seq<char> {
    let (out, cur) = transcode_fold(b);
    if cur.len() == 0 {
        out
    } else {
        out + win1252_text(cur) + seq!['\n']
    }
}

/// Transcodes a legacy-encoded byte stream to text, strictly: the
/// result is the decoded text exactly when every byte is assigned a
/// character, and an encoding error otherwise — no partial output.
#[verifier::loop_isolation(false)]
pub fn transcode_chars(b: &Vec<u8>) -> (r: Option<Vec<char>>)
    ensures
        match r {
            Some(out) => all_win1252_defined(b@) && out@ == transcode_text(b@),
            None => !all_win1252_defined(b@),
        },
{
    let mut out: Vec<char> = Vec::new();
    let mut cur: Vec<u8> = Vec::new();
    let mut i: usize = 0;
    proof {
        assert(b@.take(0) =~= Seq::<u8>::empty());
    }
    while i < b.len()
        invariant
            i <= b@.len(),
            transcode_fold(b@.take(i as int)) == (out@, cur@),
            all_win1252_defined(b@.take(i as int)),
        decreases b@.len() - i,
    {
        let c = b[i];
        proof {
            assert(b@.take(i + 1).drop_last() =~= b@.take(i as int));
            assert(b@.take(i + 1).last() == b@[i as int]);
            assert(forall|k: int|
                0 <= k < i + 1 ==> b@.take(i + 1)[k] == (if k < i {
                    b@.take(i as int)[k]
                } else {
                    b@[i as int]
                }));
        }
        if c == 0x81 || c == 0x8D || c == 0x8F || c == 0x90 || c == 0x9D {
            return None;
        }
        if c == 10 {
            let line = cur;
            cur = Vec::new();
            let decoded = win1252_decode_line(&line);
            let mut decoded_chars = chars_of_str(decoded.as_str());
            out.append(&mut decoded_chars);
            out.push('\n');
            proof {
                assert(out@ =~= transcode_fold(b@.take(i as int)).0 + win1252_text(line@) + seq![
                    '\n',
                ]);
            }
        } else {
            cur.push(c);
        }
        i += 1;
    }
    proof {
        assert(b@.take(i as int) =~= b@);
    }
    if cur.len() == 0 {
        Some(out)
    } else {
        let decoded = win1252_decode_line(&cur);
        let mut decoded_chars = chars_of_str(decoded.as_str());
        out.append(&mut decoded_chars);
        out.push('\n');
        proof {
            assert(out@ =~= transcode_text(b@));
        }
        Some(out)
    }
}

/// Transcodes a legacy-encoded byte stream into UTF-8 text. Fails with
/// an encoding error, and produces nothing, exactly when some byte has
/// no assigned character.
pub fn win_to_utf8(bytes: &Vec<u8>) -> (r: Result<String, Error>)
    ensures
        match r {
            Ok(s) => all_win1252_defined(bytes@) && s@ == transcode_text(bytes@),
            Err(e) => !all_win1252_defined(bytes@) && e.kind == ErrorKind::Encoding,
        },
{
    match transcode_chars(bytes) {
        Some(out) => Ok(string_from_chars(&out)),
        None => Err(
            Error {
                kind: ErrorKind::Encoding,
                context: String::from_str("unmappable byte for the Windows-1252 code page"),
                cause: None,
            },
        ),
    }
}

} // verus!
