//! The chunk decoder: a stateless, pure transformation of the parts of a
//! multipart upload request into a [`ChunkDescriptor`].
//!
//! Two encodings of the chunk metadata are supported: separate parts
//! literally named `chunkIndex` and `totalChunks` beside the `file` part,
//! or a JSON object `{"chunk": <index>, "chunks": <total>}` written as
//! text at the front of the file part's body, before the binary payload.

use vstd::prelude::*;

use crate::bytes::copy_range;
use crate::bytes::matches_at;
use crate::chunk::ChunkDescriptor;
use crate::chunk::ChunkView;
use crate::errors::UploadError;

verus! {

/// One part of a multipart request body, reduced to plain values: the
/// part's name, its file name (empty when the part carries none), and its
/// raw bytes.
pub struct MultipartField {
    pub name: String,
    pub file_name: String,
    pub data: Vec<u8>,
}

/// The mathematical content of a [`MultipartField`].
pub struct FieldView {
    pub name: Seq<char>,
    pub file_name: Seq<char>,
    pub data: Seq<u8>,
}

impl View for MultipartField {
    type V = FieldView;

    open spec fn view(&self) -> FieldView {
        FieldView { name: self.name@, file_name: self.file_name@, data: self.data@ }
    }
}

/// The views of a sequence of request parts.
pub open spec fn field_views(fields: Seq<MultipartField>) -> Seq<FieldView> {
    fields.map_values(|f: MultipartField| f@)
}

/// The last part with the given name, which is the one that wins when a
/// request repeats a part name.
pub open spec fn last_named(fields: Seq<FieldView>, name: Seq<char>) -> Option<FieldView>
    decreases fields.len(),
{
    if fields.len() == 0 {
        None
    } else if fields.last().name == name {
        Some(fields.last())
    } else {
        last_named(fields.drop_last(), name)
    }
}

/// An ASCII decimal digit.
pub open spec fn is_digit(b: u8) -> bool {
    48 <= b <= 57
}

/// Every byte of `s` is an ASCII decimal digit.
pub open spec fn all_digits(s: Seq<u8>) -> bool {
    forall|i: int| 0 <= i < s.len() ==> is_digit(#[trigger] s[i])
}

/// The number written by the digit string `s`, most significant first.
pub open spec fn decimal_value(s: Seq<u8>) -> nat
    decreases s.len(),
{
    if s.len() == 0 {
        0
    } else {
        (decimal_value(s.drop_last()) * 10 + (s.last() - 48)) as nat
    }
}

/// What a chunk count or index part means: the number it spells, if it is
/// a non-empty string of ASCII decimal digits.
pub open spec fn parse_decimal(s: Seq<u8>) -> Option<nat> {
    if s.len() > 0 && all_digits(s) {
        Some(decimal_value(s))
    } else {
        None
    }
}

/// A digit string is worth at least as much as any of its prefixes.
proof fn lemma_decimal_prefix_monotonic(s: Seq<u8>, k: int)
    requires
        0 <= k <= s.len(),
        all_digits(s),
    ensures
        decimal_value(s) >= decimal_value(s.take(k)),
    decreases s.len() - k,
{
    if k == s.len() {
        assert(s.take(k) =~= s);
    } else {
        lemma_decimal_prefix_monotonic(s, k + 1);
        assert(s.take(k + 1).drop_last() =~= s.take(k));
        assert(s.take(k + 1).last() == s[k]);
        assert(is_digit(s[k]));
        assert(decimal_value(s.take(k + 1)) == decimal_value(s.take(k)) * 10 + (s[k] - 48));
        assert(decimal_value(s.take(k)) * 10 >= decimal_value(s.take(k)));
    }
}

/// Parses a non-empty ASCII decimal digit string; `None` when a byte is
/// not a digit or the value does not fit in `usize`.
pub fn parse_usize(s: &Vec<u8>) -> (r: Option<usize>)
    ensures
        match (r, parse_decimal(s@)) {
            (Some(v), Some(n)) => v == n,
            (None, None) => true,
            (None, Some(n)) => n > usize::MAX,
            _ => false,
        },
{
    if s.len() == 0 {
        return None;
    }
    let mut acc: usize = 0;
    let mut i: usize = 0;
    while i < s.len()
        invariant
            0 < s@.len(),
            i <= s@.len(),
            all_digits(s@.take(i as int)),
            acc == decimal_value(s@.take(i as int)),
        decreases s@.len() - i,
    {
        let b = s[i];
        if b < 48 || b > 57 {
            assert(!is_digit(s@[i as int]));
            return None;
        }
        let d = b - 48;
        let t: u128 = acc as u128 * 10 + d as u128;
        proof {
            assert(s@.take(i + 1).drop_last() =~= s@.take(i as int));
            assert(s@.take(i + 1).last() == s@[i as int]);
            assert(decimal_value(s@.take(i + 1)) == acc * 10 + d);
        }
        if t > usize::MAX as u128 {
            proof {
                if parse_decimal(s@) is Some {
                    lemma_decimal_prefix_monotonic(s@, i + 1);
                }
            }
            return None;
        }
        acc = t as usize;
        i += 1;
    }
    proof {
        assert(s@.take(s@.len() as int) =~= s@);
    }
    Some(acc)
}

/// Character-by-character string equality, specified over the views.
fn str_eq(a: &str, b: &str) -> (r: bool)
    ensures
        r == (a@ == b@),
{
    let na = a.unicode_len();
    let nb = b.unicode_len();
    if na != nb {
        return false;
    }
    let mut i: usize = 0;
    while i < na
        invariant
            na == a@.len(),
            na == b@.len(),
            i <= na,
            forall|j: int| 0 <= j < i ==> a@[j] == b@[j],
        decreases na - i,
    {
        if a.get_char(i) != b.get_char(i) {
            return false;
        }
        i += 1;
    }
    proof {
        assert(a@ =~= b@);
    }
    true
}

/// An ASCII whitespace byte as the sidecar object allows between tokens:
/// space, tab, line feed or carriage return.
pub open spec fn is_ws(b: u8) -> bool {
    b == 32 || b == 9 || b == 10 || b == 13
}

/// The first position at or after `i` holding a non-whitespace byte, or
/// the end of `s`.
pub open spec fn skip_ws(s: Seq<u8>, i: int) -> int
    decreases s.len() - i when 0 <= i <= s.len()
{
    if i < s.len() && is_ws(s[i]) {
        skip_ws(s, i + 1)
    } else {
        i
    }
}

/// The first position at or after `i` holding a non-digit byte, or the
/// end of `s`.
pub open spec fn digits_end(s: Seq<u8>, i: int) -> int
    decreases s.len() - i when 0 <= i <= s.len()
{
    if i < s.len() && is_digit(s[i]) {
        digits_end(s, i + 1)
    } else {
        i
    }
}

/// The literal `lit` occurs in `s` at position `i`.
pub open spec fn lit_at(s: Seq<u8>, i: int, lit: Seq<u8>) -> bool {
    i + lit.len() <= s.len() && s.subrange(i, i + lit.len()) == lit
}

/// The quoted key naming the chunk index in the sidecar object: the
/// ASCII bytes of `"chunk"`, quotes included.
pub open spec fn chunk_key() -> Seq<u8> {
    seq![34u8, 99u8, 104u8, 117u8, 110u8, 107u8, 34u8]
}

/// The quoted key naming the chunk total in the sidecar object: the
/// ASCII bytes of `"chunks"`, quotes included.
pub open spec fn chunks_key() -> Seq<u8> {
    seq![34u8, 99u8, 104u8, 117u8, 110u8, 107u8, 115u8, 34u8]
}

/// What the sidecar encoding of the file part's body means: a JSON
/// object `{"chunk": <index>, "chunks": <total>}` at the front, with
/// ASCII whitespace allowed between tokens, followed by the binary
/// payload. Yields the two numbers and the payload, or `None` when the
/// body does not start with such an object.
pub open spec fn sidecar(s: Seq<u8>) -> Option<(nat, nat, Seq<u8>)> {
    let i0 = skip_ws(s, 0);
    if !(i0 < s.len() && s[i0] == 123) {  // '{'
        None
    } else {
        let i1 = skip_ws(s, i0 + 1);
        if !lit_at(s, i1, chunk_key()) {
            None
        } else {
            let i2 = skip_ws(s, i1 + chunk_key().len());
            if !(i2 < s.len() && s[i2] == 58) {  // ':'
                None
            } else {
                let i3 = skip_ws(s, i2 + 1);
                let e3 = digits_end(s, i3);
                if e3 == i3 {
                    None
                } else {
                    let v1 = decimal_value(s.subrange(i3, e3));
                    let i4 = skip_ws(s, e3);
                    if !(i4 < s.len() && s[i4] == 44) {  // ','
                        None
                    } else {
                        let i5 = skip_ws(s, i4 + 1);
                        if !lit_at(s, i5, chunks_key()) {
                            None
                        } else {
                            let i6 = skip_ws(s, i5 + chunks_key().len());
                            if !(i6 < s.len() && s[i6] == 58) {  // ':'
                                None
                            } else {
                                let i7 = skip_ws(s, i6 + 1);
                                let e7 = digits_end(s, i7);
                                if e7 == i7 {
                                    None
                                } else {
                                    let v2 = decimal_value(s.subrange(i7, e7));
                                    let i8 = skip_ws(s, e7);
                                    if !(i8 < s.len() && s[i8] == 125) {  // '}'
                                        None
                                    } else {
                                        Some((v1, v2, s.subrange(i8 + 1, s.len() as int)))
                                    }
                                }
                            }
                        }
                    }
                }
            }
        }
    }
}

/// Advances past whitespace, as [`skip_ws`] describes.
fn skip_ws_exec(s: &Vec<u8>, i: usize) -> (r: usize)
    requires
        i <= s@.len(),
    ensures
        r == skip_ws(s@, i as int),
        i <= r <= s@.len(),
{
    let mut j = i;
    while j < s.len() && (s[j] == 32 || s[j] == 9 || s[j] == 10 || s[j] == 13)
        invariant
            i <= j <= s@.len(),
            skip_ws(s@, i as int) == skip_ws(s@, j as int),
        decreases s@.len() - j,
    {
        j += 1;
    }
    j
}

/// Advances past decimal digits, as [`digits_end`] describes.
fn digits_end_exec(s: &Vec<u8>, i: usize) -> (r: usize)
    requires
        i <= s@.len(),
    ensures
        r == digits_end(s@, i as int),
        i <= r <= s@.len(),
        all_digits(s@.subrange(i as int, r as int)),
{
    let mut j = i;
    while j < s.len() && 48 <= s[j] && s[j] <= 57
        invariant
            i <= j <= s@.len(),
            digits_end(s@, i as int) == digits_end(s@, j as int),
            forall|k: int| i <= k < j ==> is_digit(#[trigger] s@[k]),
        decreases s@.len() - j,
    {
        j += 1;
    }
    proof {
        assert forall|k: int| 0 <= k < s@.subrange(i as int, j as int).len() implies is_digit(
            #[trigger] s@.subrange(i as int, j as int)[k],
        ) by {
            assert(s@.subrange(i as int, j as int)[k] == s@[i + k]);
        }
    }
    j
}

/// Parses the sidecar encoding of a file part body, as [`sidecar`]
/// describes; `None` also when a parsed number does not fit in `usize`.
pub fn parse_sidecar(s: &Vec<u8>) -> (r: Option<(usize, usize, Vec<u8>)>)
    ensures
        match (r, sidecar(s@)) {
            (Some(t), Some(tv)) => t.0 == tv.0 && t.1 == tv.1 && t.2@ == tv.2,
            (None, None) => true,
            (None, Some(tv)) => tv.0 > usize::MAX || tv.1 > usize::MAX,
            _ => false,
        },
{
    let i0 = skip_ws_exec(s, 0);
    if !(i0 < s.len() && s[i0] == 123) {  // '{'
        return None;
    }
    let i1 = skip_ws_exec(s, i0 + 1);
    let key1: Vec<u8> = vec![34u8, 99u8, 104u8, 117u8, 110u8, 107u8, 34u8];
    proof {
        assert(key1@ =~= chunk_key());
    }
    if !matches_at(s, i1, &key1) {
        return None;
    }
    let i2 = skip_ws_exec(s, i1 + key1.len());
    if !(i2 < s.len() && s[i2] == 58) {  // ':'
        return None;
    }
    let i3 = skip_ws_exec(s, i2 + 1);
    let e3 = digits_end_exec(s, i3);
    if e3 == i3 {
        return None;
    }
    let run1 = copy_range(s, i3, e3);
    let v1_parsed = parse_usize(&run1);
    let i4 = skip_ws_exec(s, e3);
    if !(i4 < s.len() && s[i4] == 44) {  // ','
        return None;
    }
    let i5 = skip_ws_exec(s, i4 + 1);
    let key2: Vec<u8> = vec![34u8, 99u8, 104u8, 117u8, 110u8, 107u8, 115u8, 34u8];
    proof {
        assert(key2@ =~= chunks_key());
    }
    if !matches_at(s, i5, &key2) {
        return None;
    }
    let i6 = skip_ws_exec(s, i5 + key2.len());
    if !(i6 < s.len() && s[i6] == 58) {  // ':'
        return None;
    }
    let i7 = skip_ws_exec(s, i6 + 1);
    let e7 = digits_end_exec(s, i7);
    if e7 == i7 {
        return None;
    }
    let run2 = copy_range(s, i7, e7);
    let v2_parsed = parse_usize(&run2);
    let i8 = skip_ws_exec(s, e7);
    if !(i8 < s.len() && s[i8] == 125) {  // '}'
        return None;
    }
    match (v1_parsed, v2_parsed) {
        (Some(v1), Some(v2)) => {
            let payload = copy_range(s, i8 + 1, s.len());
            Some((v1, v2, payload))
        },
        _ => None,
    }
}

/// Finds the index of the last part with the given name.
fn find_last_named(fields: &Vec<MultipartField>, name: &str) -> (r: Option<usize>)
    ensures
        match r {
            Some(i) => i < fields@.len() && last_named(field_views(fields@), name@) == Some(
                fields@[i as int]@,
            ),
            None => last_named(field_views(fields@), name@) is None,
        },
{
    let ghost fv = field_views(fields@);
    let mut r: Option<usize> = None;
    let mut j: usize = 0;
    while j < fields.len()
        invariant
            fv == field_views(fields@),
            j <= fields@.len(),
            match r {
                Some(i) => i < j && last_named(fv.take(j as int), name@) == Some(
                    fields@[i as int]@,
                ),
                None => last_named(fv.take(j as int), name@) is None,
            },
        decreases fields@.len() - j,
    {
        if str_eq(fields[j].name.as_str(), name) {
            r = Some(j);
        }
        proof {
            assert(fv.take(j + 1).drop_last() =~= fv.take(j as int));
            assert(fv.take(j + 1).last() == fv[j as int]);
            assert(fv[j as int] == fields@[j as int]@);
        }
        j += 1;
    }
    proof {
        assert(fv.take(fields@.len() as int) =~= fv);
    }
    r
}

/// The chunk metadata of a request whose file part is `f`: taken from the
/// `chunkIndex` and `totalChunks` parts when both are present, else from
/// the sidecar object at the front of the file part's body. Yields the
/// index, the total and the payload.
pub open spec fn decode_meta(fields: Seq<FieldView>, f: FieldView) -> Option<(nat, nat, Seq<u8>)> {
    match (last_named(fields, "chunkIndex"@), last_named(fields, "totalChunks"@)) {
        (Some(ci), Some(tc)) => match (parse_decimal(ci.data), parse_decimal(tc.data)) {
            (Some(i), Some(t)) => Some((i, t, f.data)),
            _ => None,
        },
        _ => sidecar(f.data),
    }
}

/// What decoding a request's parts means: the descriptor built from the
/// last `file` part and the chunk metadata, or `MalformedRequest` when
/// the file part is missing, its file name is empty, the metadata is
/// missing or not numeric, the total is zero or past `usize`, or the
/// index is not below the total.
pub open spec fn decode_fields(fields: Seq<FieldView>) -> Result<ChunkView, UploadError> {
    match last_named(fields, "file"@) {
        None => Err(UploadError::MalformedRequest),
        Some(f) => {
            if f.file_name.len() == 0 {
                Err(UploadError::MalformedRequest)
            } else {
                match decode_meta(fields, f) {
                    None => Err(UploadError::MalformedRequest),
                    Some((ci, tc, payload)) => {
                        if 1 <= tc <= usize::MAX && ci < tc {
                            Ok(
                                ChunkView {
                                    file_id: f.file_name,
                                    chunk_index: ci as int,
                                    total_chunks: tc as int,
                                    payload,
                                },
                            )
                        } else {
                            Err(UploadError::MalformedRequest)
                        }
                    },
                }
            }
        },
    }
}

/// Decodes the parts of one upload request into a chunk descriptor, as
/// [`decode_fields`] describes. Pure: touches neither the filesystem nor
/// the registry.
pub fn decode(fields: &Vec<MultipartField>) -> (r: Result<ChunkDescriptor, UploadError>)
    ensures
        match (r, decode_fields(field_views(fields@))) {
            (Ok(d), Ok(dv)) => d@ == dv,
            (Err(e), Err(ev)) => e == ev,
            _ => false,
        },
{
    let fidx = match find_last_named(fields, "file") {
        None => {
            return Err(UploadError::MalformedRequest);
        },
        Some(i) => i,
    };
    let fpart = &fields[fidx];
    if fpart.file_name.as_str().is_empty() {
        return Err(UploadError::MalformedRequest);
    }
    let ci_idx = find_last_named(fields, "chunkIndex");
    let tc_idx = find_last_named(fields, "totalChunks");
    let meta: Option<(usize, usize, Vec<u8>)> = match (ci_idx, tc_idx) {
        (Some(ci), Some(tc)) => {
            match (parse_usize(&fields[ci].data), parse_usize(&fields[tc].data)) {
                (Some(i), Some(t)) => {
                    let payload = copy_range(&fpart.data, 0, fpart.data.len());
                    proof {
                        assert(payload@ =~= fpart@.data);
                    }
                    Some((i, t, payload))
                },
                _ => None,
            }
        },
        _ => parse_sidecar(&fpart.data),
    };
    match meta {
        None => Err(UploadError::MalformedRequest),
        Some((ci, tc, payload)) => {
            if 1 <= tc && ci < tc {
                Ok(
                    ChunkDescriptor {
                        file_id: fpart.file_name.clone(),
                        chunk_index: ci,
                        total_chunks: tc,
                        payload,
                    },
                )
            } else {
                Err(UploadError::MalformedRequest)
            }
        },
    }
}

} // verus!
