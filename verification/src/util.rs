//! The strings of the FreeSurfer formats, and the file name suffixes that
//! stand for gzip compression.

use crate::error::{ErrorKind, NeuroformatsError};
use crate::float::{is_min_max, is_nan, min_max_strided, no_nan, strided};
use crate::reader::{ByteReader, Parse};
use flate2::bufread::GzDecoder;
use std::io::Read;
use std::path::Path;
use vstd::prelude::*;
use vstd::string::StrSliceExecFns;
use vstd::utf8::{
    encode_scalar, encode_utf8, has_width_1_encoding, is_ascii_chars, last_continuation_byte,
    leading_byte_width_1, leading_byte_width_2, leading_byte_width_3, leading_byte_width_4,
    second_last_continuation_byte, third_last_continuation_byte,
};

verus! {

/// `String::push` appends one character.
pub assume_specification[ String::push ](s: &mut String, ch: char)
    ensures
        final(s)@ == old(s)@.push(ch),
;

/// Each byte as the character with that code.
pub open spec fn latin1(bytes: Seq<u8>) -> Seq<char> {
    Seq::new(bytes.len(), |i: int| bytes[i] as char)
}

/// The offset behind the first two adjacent line feeds of which the first
/// stands at `from` or later; `None` where there are none.
pub open spec fn double_lf_end(bytes: Seq<u8>, from: int) -> Option<int>
    decreases bytes.len() - from,
{
    if from < 0 || from + 2 > bytes.len() {
        None
    } else if bytes[from] == 10 && bytes[from + 1] == 10 {
        Some(from + 2)
    } else {
        double_lf_end(bytes, from + 1)
    }
}

/// The offset behind the first zero byte at `from` or later; `None` where
/// there is none.
pub open spec fn nul_end(bytes: Seq<u8>, from: int) -> Option<int>
    decreases bytes.len() - from,
{
    if from < 0 || from + 1 > bytes.len() {
        None
    } else if bytes[from] == 0 {
        Some(from + 1)
    } else {
        nul_end(bytes, from + 1)
    }
}

/// A string that ends with its first two adjacent line feeds, which belong to
/// it.
pub open spec fn parse_variable_string(bytes: Seq<u8>, pos: int) -> Parse<Seq<char>> {
    match double_lf_end(bytes, pos) {
        Some(end) => Parse::Done { value: latin1(bytes.subrange(pos, end)), next: end },
        None => Parse::Fail { kind: ErrorKind::Io, at: bytes.len() as int },
    }
}

/// A string that ends before its first zero byte, which is read with it.
pub open spec fn parse_nul_terminated_string(bytes: Seq<u8>, pos: int) -> Parse<Seq<char>> {
    match nul_end(bytes, pos) {
        Some(end) => Parse::Done { value: latin1(bytes.subrange(pos, end - 1)), next: end },
        None => Parse::Fail { kind: ErrorKind::Io, at: bytes.len() as int },
    }
}

/// The text of a string field: all of its bytes, but for a zero in the last
/// place.
pub open spec fn fixed_string(raw: Seq<u8>) -> Seq<char> {
    if raw.len() > 0 && raw.last() == 0 {
        latin1(raw.drop_last())
    } else {
        latin1(raw)
    }
}

/// A string field of `len` bytes.
pub open spec fn parse_fixed_string(bytes: Seq<u8>, pos: int, len: int) -> Parse<Seq<char>> {
    if len <= 0 {
        Parse::Done { value: Seq::empty(), next: pos }
    } else if pos + len <= bytes.len() {
        Parse::Done { value: fixed_string(bytes.subrange(pos, pos + len)), next: pos + len }
    } else {
        Parse::Fail { kind: ErrorKind::Io, at: bytes.len() as int }
    }
}

/// Reads a variable length FreeSurfer string: the bytes up to and with the
/// first two adjacent line feeds.
///
/// Fails with an I/O error where the input ends before two adjacent line
/// feeds were read.
pub fn read_fs_variable_length_string(input: &mut ByteReader) -> (r: Result<
    String,
    NeuroformatsError,
>)
    ensures
        final(input).went(
            old(input),
            r,
            parse_variable_string(old(input).contents(), old(input).offset()),
        ),
{
    let ghost bytes = input.contents();
    let ghost start = input.offset();
    let _ = input.position();
    let mut last: u8 = 48;
    let mut info_line = String::new();
    let ghost mut n: int = 0;
    loop
        invariant
            bytes == old(input).contents(),
            start == old(input).offset(),
            input.contents() == bytes,
            0 <= start,
            0 <= n,
            input.offset() == start + n,
            input.offset() <= bytes.len(),
            info_line@ == latin1(bytes.subrange(start, start + n)),
            n == 0 ==> last != 10,
            n > 0 ==> last == bytes[start + n - 1],
            double_lf_end(bytes, start) == double_lf_end(
                bytes,
                if n == 0 {
                    start
                } else {
                    start + n - 1
                },
            ),
        decreases bytes.len() - input.offset(),
    {
        let cur = input.read_u8()?;
        info_line.push(cur as char);
        assert(info_line@ =~= latin1(bytes.subrange(start, start + n + 1)));
        if last == 10 && cur == 10 {
            return Ok(info_line);
        }
        last = cur;
        proof {
            n = n + 1;
        }
    }
}

/// Reads a string that a zero byte ends: the bytes before the first zero
/// byte. The zero byte is read too.
///
/// Fails with an I/O error where the input ends before a zero byte was read.
pub fn read_nul_terminated_string(input: &mut ByteReader) -> (r: Result<String, NeuroformatsError>)
    ensures
        final(input).went(
            old(input),
            r,
            parse_nul_terminated_string(old(input).contents(), old(input).offset()),
        ),
{
    let ghost bytes = input.contents();
    let ghost start = input.offset();
    let _ = input.position();
    let mut text = String::new();
    let ghost mut n: int = 0;
    loop
        invariant
            bytes == old(input).contents(),
            start == old(input).offset(),
            input.contents() == bytes,
            0 <= start,
            0 <= n,
            input.offset() == start + n,
            input.offset() <= bytes.len(),
            text@ == latin1(bytes.subrange(start, start + n)),
            nul_end(bytes, start) == nul_end(bytes, start + n),
        decreases bytes.len() - input.offset(),
    {
        let cur = input.read_u8()?;
        if cur == 0 {
            return Ok(text);
        }
        text.push(cur as char);
        assert(text@ =~= latin1(bytes.subrange(start, start + n + 1)));
        proof {
            n = n + 1;
        }
    }
}

/// Reads a string field of `len` bytes. Zero bytes inside the field belong to
/// the string; a zero byte in the last place of the field is read and left
/// out.
///
/// Fails with an I/O error where fewer than `len` bytes are left.
pub fn read_fixed_length_string(input: &mut ByteReader, len: usize) -> (r: Result<
    String,
    NeuroformatsError,
>)
    ensures
        final(input).went(
            old(input),
            r,
            parse_fixed_string(old(input).contents(), old(input).offset(), len as int),
        ),
{
    let ghost bytes = input.contents();
    let ghost start = input.offset();
    let _ = input.position();
    let mut info_line = String::new();
    let mut char_idx: usize = 0;
    while char_idx < len
        invariant
            bytes == old(input).contents(),
            start == old(input).offset(),
            input.contents() == bytes,
            0 <= start,
            char_idx <= len,
            input.offset() == start + char_idx,
            input.offset() <= bytes.len(),
            len == 0 ==> info_line@.len() == 0,
            char_idx < len ==> info_line@ == latin1(bytes.subrange(start, start + char_idx)),
            char_idx == len && len > 0 ==> info_line@ == fixed_string(
                bytes.subrange(start, start + len),
            ),
        decreases len - char_idx,
    {
        let cur = input.read_u8()?;
        if char_idx == len - 1 {
            if cur != 0 {
                info_line.push(cur as char);
                assert(info_line@ =~= latin1(bytes.subrange(start, start + len)));
            } else {
                assert(bytes.subrange(start, start + len).drop_last() =~= bytes.subrange(
                    start,
                    start + char_idx,
                ));
            }
        } else {
            info_line.push(cur as char);
            assert(info_line@ =~= latin1(bytes.subrange(start, start + char_idx + 1)));
        }
        char_idx = char_idx + 1;
    }
    assert(len == 0 ==> info_line@ =~= Seq::empty());
    Ok(info_line)
}

/// Whether `text` ends with `suffix`.
pub open spec fn ends_with(text: Seq<char>, suffix: Seq<char>) -> bool {
    text.len() >= suffix.len() && text.subrange(text.len() - suffix.len(), text.len() as int)
        == suffix
}

/// Whether `text` ends with `suffix`.
pub fn has_suffix(text: &str, suffix: &str) -> (b: bool)
    ensures
        b == ends_with(text@, suffix@),
{
    let n = text.unicode_len();
    let m = suffix.unicode_len();
    if n < m {
        return false;
    }
    let mut i: usize = 0;
    while i < m
        invariant
            n == text@.len(),
            m == suffix@.len(),
            m <= n,
            i <= m,
            forall|k: int| 0 <= k < i ==> text@[n - m + k] == suffix@[k],
        decreases m - i,
    {
        if text.get_char(n - m + i) != suffix.get_char(i) {
            assert(text@.subrange(n - m, n as int)[i as int] != suffix@[i as int]);
            return false;
        }
        i = i + 1;
    }
    assert(text@.subrange(n - m, n as int) =~= suffix@);
    true
}

/// The final component of a path, as `std::path::Path::file_name` finds it by
/// the path syntax of the platform; `None` where the path has none, as one
/// that ends in `..` or is the root.
pub uninterp spec fn file_name_of(path: Seq<char>) -> Option<Seq<char>>;

/// `Path::file_name` of `path`, as a string of its own.
#[verifier::external_body]
pub(crate) fn file_name(path: &str) -> (r: Option<String>)
    ensures
        match r {
            Some(name) => file_name_of(path@) == Some(name@),
            None => file_name_of(path@) is None,
        },
{
    Path::new(path).file_name().map(|name| name.to_string_lossy().into_owned())
}

/// Whether a file of this name is taken to be gzip-compressed: whether the
/// final component of the path ends with `.gz`.
pub open spec fn gz_name(path: Seq<char>) -> bool {
    match file_name_of(path) {
        Some(name) => ends_with(name, seq!['.', 'g', 'z']),
        None => false,
    }
}

/// Whether the file name ends with ".gz". The contents of the file are not
/// looked at.
pub fn is_gz_file(path: &str) -> (b: bool)
    ensures
        b == gz_name(path@),
{
    proof {
        reveal_strlit(".gz");
    }
    match file_name(path) {
        Some(name) => {
            assert(".gz"@ =~= seq!['.', 'g', 'z']);
            has_suffix(name.as_str(), ".gz")
        },
        None => false,
    }
}

/// What `flate2`'s `GzDecoder` yields for the gzip stream `data` when it is
/// read to its end: the decompressed bytes of the first member, or `None`
/// where the decoder reports an error.
pub uninterp spec fn gunzipped(data: Seq<u8>) -> Option<Seq<u8>>;

/// Reads a `flate2::bufread::GzDecoder` over `data` to the end.
#[verifier::external_body]
pub(crate) fn gunzip(data: &[u8]) -> (r: Result<Vec<u8>, std::io::Error>)
    ensures
        match r {
            Ok(bytes) => gunzipped(data@) == Some(bytes@),
            Err(_) => gunzipped(data@) is None,
        },
{
    let mut out = Vec::new();
    match GzDecoder::new(data).read_to_end(&mut out) {
        Ok(_) => Ok(out),
        Err(e) => Err(e),
    }
}

/// The bytes that the decoders work on: those of the file, decompressed where
/// `gz` says that the file is gzip-compressed.
pub open spec fn plain_bytes(gz: bool, contents: Seq<u8>) -> Option<Seq<u8>> {
    if gz {
        gunzipped(contents)
    } else {
        Some(contents)
    }
}

/// The contents of a file as the decoders take them: decompressed where `gz`
/// is set, as they are where it is not.
///
/// Fails with an I/O error where `gz` is set and the contents are no gzip
/// stream.
pub fn open_bytes(gz: bool, contents: Vec<u8>) -> (r: Result<ByteReader, NeuroformatsError>)
    ensures
        match plain_bytes(gz, contents@) {
            Some(bytes) => r is Ok && r->Ok_0.contents() == bytes && r->Ok_0.offset() == 0,
            None => r is Err && r->Err_0.kind() == ErrorKind::Io,
        },
{
    if gz {
        match gunzip(contents.as_slice()) {
            Ok(bytes) => Ok(ByteReader::new(bytes)),
            Err(e) => Err(NeuroformatsError::Io(e)),
        }
    } else {
        Ok(ByteReader::new(contents))
    }
}

/// The minimum and the maximum of a sequence of floats, given as bit
/// patterns. NaN values are passed over, and where several floats are equal,
/// as the two zeros are, the first of them is returned.
///
/// With `remove_nan` the sequence may hold NaN values; without it, it must
/// hold none. One float of it at least must be no NaN.
pub fn vec32minmax(data: &[u32], remove_nan: bool) -> (range: (u32, u32))
    requires
        !remove_nan ==> no_nan(data@),
        exists|i: int| 0 <= i < data@.len() && !is_nan(#[trigger] data@[i]),
    ensures
        is_min_max(data@, range),
{
    proof {
        assert(strided(data@, 0, 1) =~= data@);
    }
    min_max_strided(data, 0, 1)
}

/// What [`double_lf_end`] finds are two adjacent line feeds, and the first
/// ones from `from` on.
pub proof fn lemma_double_lf_end(bytes: Seq<u8>, from: int)
    requires
        0 <= from,
        double_lf_end(bytes, from) is Some,
    ensures
        ({
            let end = double_lf_end(bytes, from)->Some_0;
            &&& from + 2 <= end <= bytes.len()
            &&& bytes[end - 2] == 10
            &&& bytes[end - 1] == 10
            &&& forall|k: int|
                from <= k < end - 2 ==> !(#[trigger] bytes[k] == 10 && bytes[k + 1] == 10)
        }),
    decreases bytes.len() - from,
{
    if !(bytes[from] == 10 && bytes[from + 1] == 10) {
        lemma_double_lf_end(bytes, from + 1);
    }
}

/// Where no two adjacent line feeds start between `from` and `to`,
/// [`double_lf_end`] finds from `from` on what it finds from `to` on.
proof fn lemma_double_lf_skip(bytes: Seq<u8>, from: int, to: int)
    requires
        0 <= from <= to,
        to + 2 <= bytes.len(),
        forall|k: int| from <= k < to ==> !(#[trigger] bytes[k] == 10 && bytes[k + 1] == 10),
    ensures
        double_lf_end(bytes, from) == double_lf_end(bytes, to),
    decreases to - from,
{
    if from < to {
        assert(!(bytes[from] == 10 && bytes[from + 1] == 10));
        lemma_double_lf_skip(bytes, from + 1, to);
    }
}

/// The UTF-8 bytes of one character: an ASCII character is one byte, itself;
/// every byte of another character is 128 or more.
proof fn lemma_scalar_bytes(c: char)
    ensures
        1 <= encode_scalar(c as u32).len() <= 4,
        (c as u32) < 0x80 ==> encode_scalar(c as u32) == seq![c as u8],
        (c as u32) >= 0x80 ==> forall|j: int|
            0 <= j < encode_scalar(c as u32).len() ==> #[trigger] encode_scalar(c as u32)[j]
                >= 0x80,
{
    let s = c as u32;
    let e = encode_scalar(s);
    if has_width_1_encoding(s) {
        assert(leading_byte_width_1(s) == s as u8) by (bit_vector)
            requires
                s <= 0x7F,
        ;
        assert(e =~= seq![c as u8]);
    } else {
        assert(leading_byte_width_2(s) >= 0x80) by (bit_vector);
        assert(leading_byte_width_3(s) >= 0x80) by (bit_vector);
        assert(leading_byte_width_4(s) >= 0x80) by (bit_vector);
        assert(last_continuation_byte(s) >= 0x80) by (bit_vector);
        assert(second_last_continuation_byte(s) >= 0x80) by (bit_vector);
        assert(third_last_continuation_byte(s) >= 0x80) by (bit_vector);
    }
}

/// The UTF-8 bytes of a text are at least as many as its characters.
proof fn lemma_utf8_len(chars: Seq<char>)
    ensures
        encode_utf8(chars).len() >= chars.len(),
    decreases chars.len(),
{
    if chars.len() > 0 {
        lemma_scalar_bytes(chars[0]);
        lemma_utf8_len(chars.drop_first());
    }
}

/// An ASCII character is a line feed if and only if its byte is 10.
proof fn lemma_line_feed_byte(c: char)
    requires
        (c as u32) < 0x80,
    ensures
        c as u8 == 10 <==> c == '\n',
{
    assert('\n' as u32 == 10);
    if c as u32 == 10 {
        vstd::utf8::char_u32_cast(c, 10);
        vstd::utf8::char_u32_cast('\n', 10);
    }
    assert(c as u8 as int == c as u32 as int);
}

/// A byte is a line feed if and only if its character is one.
proof fn lemma_line_feed_char(b: u8)
    ensures
        b as char == '\n' <==> b == 10,
        (b as char) as u32 == b,
{
    assert('\n' as u32 == 10);
    assert((b as char) as u32 == b as u32);
    if (b as char) as u32 == 10 {
        vstd::utf8::char_u32_cast(b as char, 10);
        vstd::utf8::char_u32_cast('\n', 10);
    }
}

/// Whether a text ends with its first two adjacent line feeds.
pub open spec fn ends_at_double_lf(chars: Seq<char>) -> bool {
    &&& chars.len() >= 2
    &&& chars[chars.len() - 2] == '\n'
    &&& chars[chars.len() - 1] == '\n'
    &&& forall|k: int|
        0 <= k < chars.len() - 2 ==> !(#[trigger] chars[k] == '\n' && chars[k + 1] == '\n')
}

/// A variable length string that was read ends with its first two adjacent
/// line feeds.
pub proof fn lemma_variable_string_shape(bytes: Seq<u8>, pos: int)
    requires
        0 <= pos,
        parse_variable_string(bytes, pos) is Done,
    ensures
        ends_at_double_lf(parse_variable_string(bytes, pos).outcome()->Ok_0),
{
    let end = double_lf_end(bytes, pos)->Some_0;
    let raw = bytes.subrange(pos, end);
    let info = latin1(raw);
    lemma_double_lf_end(bytes, pos);
    assert forall|k: int| 0 <= k < info.len() implies (#[trigger] info[k] == '\n' <==> raw[k]
        == 10) by {
        lemma_line_feed_char(raw[k]);
    }
    assert(info[info.len() - 2] == '\n');
    assert(info[info.len() - 1] == '\n');
    assert forall|k: int| 0 <= k < info.len() - 2 implies !(#[trigger] info[k] == '\n' && info[k
        + 1] == '\n') by {
        assert(raw[k] == bytes[pos + k]);
        assert(raw[k + 1] == bytes[pos + k + 1]);
        assert(!(bytes[pos + k] == 10 && bytes[pos + k + 1] == 10));
    }
}

/// An ASCII text is read from its UTF-8 bytes as it is.
pub proof fn lemma_ascii_text_round_trip(chars: Seq<char>)
    requires
        is_ascii_chars(chars),
    ensures
        latin1(encode_utf8(chars)) == chars,
{
    vstd::utf8::is_ascii_chars_encode_utf8(chars);
    let line = encode_utf8(chars);
    assert forall|k: int| 0 <= k < chars.len() implies latin1(line)[k] == chars[k] by {
        assert(line[k] == chars[k] as u8);
        vstd::utf8::char_u32_cast(chars[k], chars[k] as u32);
    }
    assert(latin1(line) =~= chars);
}

/// A text that ends with its first two adjacent line feeds is found again
/// behind its UTF-8 bytes: in these bytes, whatever stands before and behind
/// them, the first two adjacent line feeds are the last two bytes.
pub proof fn lemma_utf8_double_lf(chars: Seq<char>, pre: Seq<u8>, post: Seq<u8>)
    requires
        chars.len() >= 2,
        chars[chars.len() - 2] == '\n',
        chars[chars.len() - 1] == '\n',
        forall|k: int|
            0 <= k < chars.len() - 2 ==> !(#[trigger] chars[k] == '\n' && chars[k + 1] == '\n'),
    ensures
        double_lf_end(pre + encode_utf8(chars) + post, pre.len() as int) == Some(
            (pre.len() + encode_utf8(chars).len()) as int,
        ),
    decreases chars.len(),
{
    let all = pre + encode_utf8(chars) + post;
    let p = pre.len() as int;
    let rest = chars.drop_first();
    let head = encode_scalar(chars[0] as u32);
    let tail = encode_utf8(rest);
    let w = head.len() as int;
    lemma_scalar_bytes(chars[0]);
    lemma_scalar_bytes(chars[1]);
    lemma_utf8_len(rest);
    assert(encode_utf8(chars) == head + tail);
    assert(tail == encode_scalar(rest[0] as u32) + encode_utf8(rest.drop_first()));
    assert(rest[0] == chars[1]);
    assert forall|j: int| 0 <= j < w implies all[p + j] == head[j] by {}
    assert(all[p + w] == encode_scalar(chars[1] as u32)[0]);
    if chars[0] == '\n' && chars[1] == '\n' {
        assert(all[p] == 10);
        assert(all[p + 1] == 10);
        assert(chars.len() == 2) by {
            if chars.len() > 2 {
                assert(!(chars[0int] == '\n' && chars[0int + 1] == '\n'));
            }
        }
        assert(rest.drop_first() =~= Seq::<char>::empty());
        assert(encode_utf8(rest.drop_first()) =~= Seq::<u8>::empty());
    } else {
        assert(chars.len() > 2);
        assert forall|k: int| p <= k < p + w implies !(#[trigger] all[k] == 10 && all[k + 1]
            == 10) by {
            assert(all[k] == head[k - p]);
            if (chars[0] as u32) < 0x80 {
                assert(head.len() == 1);
                assert(k == p);
                assert(all[p] == chars[0] as u8);
                if chars[0] == '\n' {
                    assert(chars[1] != '\n');
                    assert(all[p + 1] == encode_scalar(chars[1] as u32)[0]);
                    if (chars[1] as u32) < 0x80 {
                        assert(all[p + 1] == chars[1] as u8);
                        lemma_line_feed_byte(chars[1]);
                    } else {
                        assert(encode_scalar(chars[1] as u32)[0] >= 0x80);
                    }
                } else {
                    lemma_line_feed_byte(chars[0]);
                }
            } else {
                assert(head[k - p] >= 0x80);
            }
        }
        lemma_double_lf_skip(all, p, p + w);
        assert forall|k: int| 0 <= k < rest.len() - 2 implies !(#[trigger] rest[k] == '\n'
            && rest[k + 1] == '\n') by {
            assert(!(chars[k + 1] == '\n' && chars[k + 1 + 1] == '\n'));
        }
        lemma_utf8_double_lf(rest, pre + head, post);
        assert(all =~= (pre + head) + tail + post);
    }
}

} // verus!
