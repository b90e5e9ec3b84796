//! Patching the tag table at the end of a `.vxp` image.
//!
//! The last twelve bytes of the image begin with the offset of the tag
//! table. Each tag is a little-endian `u32` id and a little-endian `u32`
//! length, followed by `length` bytes of value. An id of zero ends the
//! table, and so does reaching the end of the image. Two tags are patched:
//! the value of [`TAG_MASKED`] gets its first four bytes set to `0xff`, and
//! the value of [`TAG_IMSI`] is replaced by `'9'` followed by the IMSI, its
//! length field updated to match. Tags whose length is zero are skipped.
use vstd::prelude::*;
use crate::bytes::{read_u32, u32_le_at, u32_le_bytes, u32_le_written};
use vstd::string::StringSliceAdditionalSpecFns;

verus! {

/// Id that ends the tag table.
pub const TAG_END: u32 = 0;

/// Id of the tag whose first four value bytes are set to `0xff`.
pub const TAG_MASKED: u32 = 2;

/// Id of the tag whose value is replaced by the IMSI.
pub const TAG_IMSI: u32 = 0x12;

/// Size of the trailer that holds the tag-table offset in its first field.
pub const TRAILER_LEN: usize = 12;

/// Why an image cannot be patched.
#[derive(Debug, Clone, Copy, PartialEq, Eq, Structural)]
pub enum PatchError {
    /// The image is shorter than its trailer.
    TooShort,
    /// A tag's id or length field runs past the end of the image.
    TagHeaderTruncated,
    /// The bytes a tag's patch rewrites run past the end of the image.
    FieldOutOfBounds,
    /// The patched image would not fit in memory.
    TooLarge,
}

/// `s` with `s[start .. end]` replaced by `ins`.
pub open spec fn spliced(s: Seq<u8>, start: int, end: int, ins: Seq<u8>) -> Seq<u8> {
    s.take(start) + ins + s.skip(end)
}

/// `s` with the four bytes at `at` set to `0xff`.
pub open spec fn masked(s: Seq<u8>, at: int) -> Seq<u8> {
    s.take(at) + seq![0xffu8, 0xffu8, 0xffu8, 0xffu8] + s.skip(at + 4)
}

/// How many bytes lie at or after `pos`.
pub open spec fn bytes_left(s: Seq<u8>, pos: int) -> nat {
    if pos < s.len() { (s.len() - pos) as nat } else { 0 }
}

/// The value written for a tag of IMSI id: `'9'` followed by the IMSI.
pub open spec fn imsi_value(imsi: Seq<u8>) -> Seq<u8> {
    seq![57u8] + imsi
}

/// The result of walking the tag table of `s` from the tag at `pos`,
/// patching as described at the top of this module, with `value` as the
/// replacement of an IMSI tag.
pub open spec fn walk_tags(s: Seq<u8>, pos: int, value: Seq<u8>) -> Result<Seq<u8>, PatchError>
    decreases bytes_left(s, pos),
{
    if pos < 0 || pos >= s.len() {
        Ok(s)
    } else if pos + 4 > s.len() {
        Err(PatchError::TagHeaderTruncated)
    } else if u32_le_at(s, pos) == TAG_END {
        Ok(s)
    } else if pos + 8 > s.len() {
        Err(PatchError::TagHeaderTruncated)
    } else {
        let id = u32_le_at(s, pos);
        let len = u32_le_at(s, pos + 4) as int;
        let body = pos + 8;
        if len == 0 {
            walk_tags(s, body, value)
        } else if id == TAG_MASKED {
            if body + 4 > s.len() {
                Err(PatchError::FieldOutOfBounds)
            } else {
                walk_tags(masked(s, body), body + len, value)
            }
        } else if id == TAG_IMSI {
            if body + len > s.len() {
                Err(PatchError::FieldOutOfBounds)
            } else {
                let next = spliced(
                    u32_le_written(s, pos + 4, value.len() as u32),
                    body,
                    body + len,
                    value,
                );
                if next.len() > usize::MAX {
                    Err(PatchError::TooLarge)
                } else {
                    walk_tags(next, body + value.len(), value)
                }
            }
        } else {
            walk_tags(s, body + len, value)
        }
    }
}

/// The patched image for `data` and the IMSI bytes `imsi`, or why there is none.
pub open spec fn patched_vxp(data: Seq<u8>, imsi: Seq<u8>) -> Result<Seq<u8>, PatchError> {
    if data.len() < TRAILER_LEN {
        Err(PatchError::TooShort)
    } else {
        walk_tags(data, u32_le_at(data, data.len() - TRAILER_LEN) as int, imsi_value(imsi))
    }
}


/// Walking the table from the tag at `pos` never changes a byte before the
/// length field of that tag.
pub proof fn lemma_walk_keeps_prefix(s: Seq<u8>, pos: int, value: Seq<u8>, p: int)
    requires
        0 <= p <= pos + 4,
        0 <= pos,
        p <= s.len(),
        walk_tags(s, pos, value) is Ok,
    ensures
        walk_tags(s, pos, value)->Ok_0.len() >= p,
        walk_tags(s, pos, value)->Ok_0.take(p) == s.take(p),
    decreases bytes_left(s, pos),
{
    if pos < 0 || pos >= s.len() || pos + 4 > s.len() || u32_le_at(s, pos) == TAG_END || pos + 8
        > s.len() {
    } else {
        let id = u32_le_at(s, pos);
        let len = u32_le_at(s, pos + 4) as int;
        let body = pos + 8;
        if len == 0 {
            lemma_walk_keeps_prefix(s, body, value, p);
        } else if id == TAG_MASKED {
            let next = masked(s, body);
            lemma_walk_keeps_prefix(next, body + len, value, p);
            assert(next.take(p) =~= s.take(p));
        } else if id == TAG_IMSI {
            let next = spliced(
                u32_le_written(s, pos + 4, value.len() as u32),
                body,
                body + len,
                value,
            );
            lemma_walk_keeps_prefix(next, body + value.len(), value, p);
            assert(next.take(p) =~= s.take(p));
        } else {
            lemma_walk_keeps_prefix(s, body + len, value, p);
        }
    }
}

/// Patching leaves every byte before the tag table as it was.
pub proof fn law_patch_keeps_bytes_before_table(data: Seq<u8>, imsi: Seq<u8>)
    requires
        patched_vxp(data, imsi) is Ok,
    ensures
        ({
            let table = u32_le_at(data, data.len() - TRAILER_LEN) as int;
            let out = patched_vxp(data, imsi)->Ok_0;
            let kept = if table < data.len() { table } else { data.len() as int };
            &&& out.len() >= kept
            &&& out.take(kept) == data.take(kept)
        }),
{
    let table = u32_le_at(data, data.len() - TRAILER_LEN) as int;
    let kept = if table < data.len() { table } else { data.len() as int };
    lemma_walk_keeps_prefix(data, table, imsi_value(imsi), kept);
}

/// An image whose tag table is empty (its first id is [`TAG_END`]), or whose
/// table offset points past the image, comes back unchanged.
pub proof fn law_patch_empty_table_is_identity(data: Seq<u8>, imsi: Seq<u8>)
    requires
        data.len() >= TRAILER_LEN,
        ({
            let table = u32_le_at(data, data.len() - TRAILER_LEN) as int;
            table >= data.len() || (table + 4 <= data.len() && u32_le_at(data, table)
                == TAG_END)
        }),
    ensures
        patched_vxp(data, imsi) == Ok::<Seq<u8>, PatchError>(data),
{
}

/// When the first tag of the table is an IMSI tag with a value, the patched
/// image holds, at that tag, the length of `'9'` followed by the IMSI and
/// then those bytes.
pub proof fn law_first_imsi_tag_rewritten(data: Seq<u8>, imsi: Seq<u8>)
    requires
        patched_vxp(data, imsi) is Ok,
        data.len() >= TRAILER_LEN,
        ({
            let t = u32_le_at(data, data.len() - TRAILER_LEN) as int;
            &&& t + 8 <= data.len()
            &&& u32_le_at(data, t) == TAG_IMSI
            &&& u32_le_at(data, t + 4) != 0
        }),
    ensures
        ({
            let t = u32_le_at(data, data.len() - TRAILER_LEN) as int;
            let out = patched_vxp(data, imsi)->Ok_0;
            let value = imsi_value(imsi);
            &&& out.len() >= t + 8 + value.len()
            &&& u32_le_at(out, t) == TAG_IMSI
            &&& u32_le_at(out, t + 4) == value.len() as u32
            &&& out.subrange(t + 8, t + 8 + value.len()) == value
        }),
{
    let t = u32_le_at(data, data.len() - TRAILER_LEN) as int;
    let value = imsi_value(imsi);
    let len = u32_le_at(data, t + 4) as int;
    let written = u32_le_written(data, t + 4, value.len() as u32);
    let next = spliced(written, t + 8, t + 8 + len, value);
    let end = t + 8 + value.len();
    assert(walk_tags(data, t, value) == walk_tags(next, end, value));
    lemma_walk_keeps_prefix(next, end, value, end);
    let out = patched_vxp(data, imsi)->Ok_0;
    assert(out.take(end) == next.take(end));
    crate::bytes::law_read_after_write(data, t + 4, value.len() as u32);
    crate::bytes::law_write_keeps_other_fields(data, t + 4, value.len() as u32, t);
    assert(out[t] == data[t] && out[t + 1] == data[t + 1] && out[t + 2] == data[t + 2] && out[t
        + 3] == data[t + 3]) by {
        assert(out.take(end)[t] == next[t]);
        assert(out.take(end)[t + 1] == next[t + 1]);
        assert(out.take(end)[t + 2] == next[t + 2]);
        assert(out.take(end)[t + 3] == next[t + 3]);
    }
    assert(out[t + 4] == written[t + 4] && out[t + 5] == written[t + 5] && out[t + 6]
        == written[t + 6] && out[t + 7] == written[t + 7]) by {
        assert(out.take(end)[t + 4] == next[t + 4]);
        assert(out.take(end)[t + 5] == next[t + 5]);
        assert(out.take(end)[t + 6] == next[t + 6]);
        assert(out.take(end)[t + 7] == next[t + 7]);
    }
    assert(out.subrange(t + 8, end) =~= value) by {
        assert forall|i: int| 0 <= i < value.len() implies #[trigger] out.subrange(t + 8, end)[i] == value[i] by {
            assert(out.take(end)[t + 8 + i] == next[t + 8 + i]);
        }
    }
}

/// When the first tag of the table is a masked tag with a value, the patched
/// image holds `0xff` in the four bytes after its header.
pub proof fn law_first_masked_tag_set(data: Seq<u8>, imsi: Seq<u8>)
    requires
        patched_vxp(data, imsi) is Ok,
        data.len() >= TRAILER_LEN,
        ({
            let t = u32_le_at(data, data.len() - TRAILER_LEN) as int;
            &&& t + 8 <= data.len()
            &&& u32_le_at(data, t) == TAG_MASKED
            &&& u32_le_at(data, t + 4) != 0
        }),
    ensures
        ({
            let t = u32_le_at(data, data.len() - TRAILER_LEN) as int;
            let out = patched_vxp(data, imsi)->Ok_0;
            &&& out.len() >= t + 12
            &&& out.subrange(t + 8, t + 12) == seq![0xffu8, 0xffu8, 0xffu8, 0xffu8]
        }),
{
    let t = u32_le_at(data, data.len() - TRAILER_LEN) as int;
    let value = imsi_value(imsi);
    let len = u32_le_at(data, t + 4) as int;
    let next = masked(data, t + 8);
    let end = t + 8 + len;
    assert(walk_tags(data, t, value) == walk_tags(next, end, value));
    let out = patched_vxp(data, imsi)->Ok_0;
    let keep = if end + 4 < next.len() { end + 4 } else { next.len() as int };
    lemma_walk_keeps_prefix(next, end, value, keep);
    assert(keep >= t + 12);
    assert(out.subrange(t + 8, t + 12) =~= seq![0xffu8, 0xffu8, 0xffu8, 0xffu8]) by {
        assert forall|i: int| 0 <= i < 4 implies #[trigger] out.subrange(t + 8, t + 12)[i] == 0xffu8 by {
            assert(out.take(keep)[t + 8 + i] == next[t + 8 + i]);
        }
    }
}

/// Two images that agree on their first `p` bytes hold the same field at `at`.
proof fn lemma_same_field(a: Seq<u8>, b: Seq<u8>, p: int, at: int)
    requires
        0 <= at,
        at + 4 <= p <= a.len(),
        p <= b.len(),
        a.take(p) == b.take(p),
    ensures
        u32_le_at(a, at) == u32_le_at(b, at),
{
    assert forall|i: int| at <= i < at + 4 implies a[i] == b[i] by {
        assert(a.take(p)[i] == a[i]);
        assert(b.take(p)[i] == b[i]);
    }
}

/// Walking the table of an image that the walk itself produced, from the
/// same tag, changes nothing.
#[verifier::rlimit(60)]
pub proof fn lemma_walk_idempotent(s: Seq<u8>, pos: int, value: Seq<u8>)
    requires
        0 <= pos,
        s.len() <= usize::MAX,
        1 <= value.len() <= u32::MAX,
        walk_tags(s, pos, value) is Ok,
    ensures
        walk_tags(s, pos, value)->Ok_0.len() <= usize::MAX,
        walk_tags(walk_tags(s, pos, value)->Ok_0, pos, value) == walk_tags(s, pos, value),
    decreases bytes_left(s, pos),
{
    let r = walk_tags(s, pos, value)->Ok_0;
    if pos >= s.len() || u32_le_at(s, pos) == TAG_END {
    } else {
        let id = u32_le_at(s, pos);
        let len = u32_le_at(s, pos + 4) as int;
        let body = pos + 8;
        if len == 0 {
            lemma_walk_idempotent(s, body, value);
            lemma_walk_keeps_prefix(s, body, value, body);
            lemma_same_field(r, s, body, pos);
            lemma_same_field(r, s, body, pos + 4);
        } else if id == TAG_MASKED {
            let s1 = masked(s, body);
            lemma_walk_idempotent(s1, body + len, value);
            lemma_walk_keeps_prefix(s1, body + len, value, body + 4);
            assert(s1.take(body) =~= s.take(body));
            lemma_same_field(r, s1, body + 4, pos);
            lemma_same_field(r, s1, body + 4, pos + 4);
            lemma_same_field(s1, s, body, pos);
            lemma_same_field(s1, s, body, pos + 4);
            assert(masked(r, body) =~= r) by {
                assert(r.take(body + 4)[body] == s1[body]);
                assert(r.take(body + 4)[body + 1] == s1[body + 1]);
                assert(r.take(body + 4)[body + 2] == s1[body + 2]);
                assert(r.take(body + 4)[body + 3] == s1[body + 3]);
            }
        } else if id == TAG_IMSI {
            let written = u32_le_written(s, pos + 4, value.len() as u32);
            let s1 = spliced(written, body, body + len, value);
            let end = body + value.len();
            lemma_walk_idempotent(s1, end, value);
            lemma_walk_keeps_prefix(s1, end, value, end);
            crate::bytes::law_read_after_write(s, pos + 4, value.len() as u32);
            crate::bytes::law_write_keeps_other_fields(s, pos + 4, value.len() as u32, pos);
            assert(s1.take(body) =~= written.take(body));
            lemma_same_field(s1, written, body, pos);
            lemma_same_field(s1, written, body, pos + 4);
            lemma_same_field(r, s1, end, pos);
            lemma_same_field(r, s1, end, pos + 4);
            assert(u32_le_at(r, pos + 4) == value.len() as u32);
            assert(value.len() as u32 == value.len());
            crate::bytes::law_write_what_was_read(r, pos + 4);
            assert(r.subrange(body, end) =~= value) by {
                assert forall|i: int| 0 <= i < value.len() implies #[trigger] r.subrange(
                    body,
                    end,
                )[i] == value[i] by {
                    assert(r.take(end)[body + i] == s1[body + i]);
                }
            }
            assert(spliced(r, body, end, value) =~= r);
        } else {
            lemma_walk_idempotent(s, body + len, value);
            lemma_walk_keeps_prefix(s, body + len, value, body);
            lemma_same_field(r, s, body, pos);
            lemma_same_field(r, s, body, pos + 4);
        }
    }
}

/// Every tag that the walk from `pos` visits, and every byte it rewrites,
/// lies before the last `k` bytes of the image as it is at that tag.
pub open spec fn walk_stays_before(s: Seq<u8>, pos: int, value: Seq<u8>, k: int) -> bool
    decreases bytes_left(s, pos),
{
    if pos < 0 || pos >= s.len() || pos + 4 > s.len() || u32_le_at(s, pos) == TAG_END || pos + 8
        > s.len() {
        true
    } else {
        let id = u32_le_at(s, pos);
        let len = u32_le_at(s, pos + 4) as int;
        let body = pos + 8;
        if body + len > s.len() - k || body + len > s.len() {
            false
        } else if len == 0 {
            walk_stays_before(s, body, value, k)
        } else if id == TAG_MASKED {
            if body + 4 > s.len() - k || body + 4 > s.len() {
                false
            } else {
                walk_stays_before(masked(s, body), body + len, value, k)
            }
        } else if id == TAG_IMSI {
            let next = spliced(
                u32_le_written(s, pos + 4, value.len() as u32),
                body,
                body + len,
                value,
            );
            walk_stays_before(next, body + value.len(), value, k)
        } else {
            walk_stays_before(s, body + len, value, k)
        }
    }
}

/// A walk that stays before the last `k` bytes leaves them as they were.
pub proof fn lemma_walk_keeps_tail(s: Seq<u8>, pos: int, value: Seq<u8>, k: int)
    requires
        0 <= pos,
        0 <= k <= s.len(),
        walk_tags(s, pos, value) is Ok,
        walk_stays_before(s, pos, value, k),
    ensures
        walk_tags(s, pos, value)->Ok_0.len() >= k,
        walk_tags(s, pos, value)->Ok_0.skip(walk_tags(s, pos, value)->Ok_0.len() - k) == s.skip(
            s.len() - k,
        ),
    decreases bytes_left(s, pos),
{
    if pos >= s.len() || u32_le_at(s, pos) == TAG_END {
    } else {
        let id = u32_le_at(s, pos);
        let len = u32_le_at(s, pos + 4) as int;
        let body = pos + 8;
        if len == 0 {
            lemma_walk_keeps_tail(s, body, value, k);
        } else if id == TAG_MASKED {
            let s1 = masked(s, body);
            assert(s1.skip(s1.len() - k) =~= s.skip(s.len() - k));
            lemma_walk_keeps_tail(s1, body + len, value, k);
        } else if id == TAG_IMSI {
            let s1 = spliced(
                u32_le_written(s, pos + 4, value.len() as u32),
                body,
                body + len,
                value,
            );
            assert(s1.skip(s1.len() - k) =~= s.skip(s.len() - k));
            lemma_walk_keeps_tail(s1, body + value.len(), value, k);
        } else {
            lemma_walk_keeps_tail(s, body + len, value, k);
        }
    }
}

/// Patching an image whose tags all end before its trailer keeps the
/// trailer, and patching the result again with the same IMSI changes
/// nothing.
pub proof fn law_patch_idempotent(data: Seq<u8>, imsi: Seq<u8>)
    requires
        data.len() <= usize::MAX,
        imsi.len() + 1 <= u32::MAX,
        patched_vxp(data, imsi) is Ok,
        walk_stays_before(
            data,
            u32_le_at(data, data.len() - TRAILER_LEN) as int,
            imsi_value(imsi),
            TRAILER_LEN as int,
        ),
    ensures
        ({
            let out = patched_vxp(data, imsi)->Ok_0;
            &&& out.len() >= TRAILER_LEN
            &&& out.skip(out.len() - TRAILER_LEN) == data.skip(data.len() - TRAILER_LEN)
            &&& patched_vxp(out, imsi) == Ok::<Seq<u8>, PatchError>(out)
        }),
{
    let t = u32_le_at(data, data.len() - TRAILER_LEN) as int;
    let value = imsi_value(imsi);
    let out = patched_vxp(data, imsi)->Ok_0;
    lemma_walk_keeps_tail(data, t, value, TRAILER_LEN as int);
    let a = out.skip(out.len() - TRAILER_LEN);
    let b = data.skip(data.len() - TRAILER_LEN);
    assert(a[0] == b[0] && a[1] == b[1] && a[2] == b[2] && a[3] == b[3]);
    assert(u32_le_at(out, out.len() - TRAILER_LEN) == t);
    lemma_walk_idempotent(data, t, value);
}

/// The outcome of `patched_vxp` as the caller sees it, with the image in a `Vec`.
pub open spec fn patch_outcome_matches(
    res: Result<Vec<u8>, PatchError>,
    expected: Result<Seq<u8>, PatchError>,
) -> bool {
    match res {
        Ok(out) => expected == Ok::<Seq<u8>, PatchError>(out@),
        Err(e) => expected == Err::<Seq<u8>, PatchError>(e),
    }
}

/// Appends `src[from .. to]` to `dst`.
fn push_range(dst: &mut Vec<u8>, src: &[u8], from: usize, to: usize)
    requires
        from <= to <= src@.len(),
    ensures
        final(dst)@ == old(dst)@ + src@.subrange(from as int, to as int),
{
    let mut i = from;
    while i < to
        invariant
            from <= i <= to <= src@.len(),
            dst@ == old(dst)@ + src@.subrange(from as int, i as int),
        decreases to - i,
    {
        dst.push(src[i]);
        i = i + 1;
        assert(dst@ =~= old(dst)@ + src@.subrange(from as int, i as int));
    }
}

/// Sets the four bytes at `at` to `0xff`.
fn mask_field(data: &mut Vec<u8>, at: usize)
    requires
        at + 4 <= old(data)@.len(),
    ensures
        final(data)@ == masked(old(data)@, at as int),
{
    proof {
        assert(data@.len() == data.len());
    }
    data.set(at, 0xff);
    data.set(at + 1, 0xff);
    data.set(at + 2, 0xff);
    data.set(at + 3, 0xff);
    assert(data@ =~= masked(old(data)@, at as int));
}

/// The image with the tag at `pos`, whose value is `len` bytes long, given
/// `value` as its new value and the length of `value` as its length field.
fn replace_tag_value(data: &[u8], pos: usize, len: usize, value: &[u8]) -> (out: Vec<u8>)
    requires
        pos + 8 + len <= data@.len(),
        data@.len() - len + value@.len() <= usize::MAX,
    ensures
        out@ == spliced(
            u32_le_written(data@, pos + 4, value@.len() as u32),
            pos + 8,
            pos + 8 + len,
            value@,
        ),
{
    let total = data.len();
    #[verifier::truncate]
    let n = value.len() as u32;
    let mut out: Vec<u8> = Vec::new();
    push_range(&mut out, data, 0, pos + 4);
    out.push((n % 256) as u8);
    out.push(((n / 256) % 256) as u8);
    out.push(((n / 65536) % 256) as u8);
    out.push((n / 16777216) as u8);
    push_range(&mut out, value, 0, value.len());
    push_range(&mut out, data, pos + 8 + len, total);
    let ghost written = u32_le_written(data@, pos + 4, value@.len() as u32);
    assert(written.take(pos + 8) =~= data@.subrange(0, pos + 4) + u32_le_bytes(n));
    assert(written.skip(pos + 8 + len) =~= data@.subrange(pos + 8 + len, data@.len() as int));
    assert(value@.subrange(0, value@.len() as int) =~= value@);
    assert(out@ =~= spliced(written, pos + 8, pos + 8 + len, value@));
    out
}

/// Patches the tag table of `data` for the IMSI `imsi`, or says why the
/// image cannot be patched.
pub fn try_patch_vxp(data: Vec<u8>, imsi: &str) -> (res: Result<Vec<u8>, PatchError>)
    ensures
        patch_outcome_matches(res, patched_vxp(data@, imsi.spec_bytes())),
{
    let ghost imsi_bytes = imsi.spec_bytes();
    let ghost input = data@;
    let raw = imsi.as_bytes();
    let mut value: Vec<u8> = Vec::new();
    value.push(57u8);
    push_range(&mut value, raw, 0, raw.len());
    assert(value@ =~= imsi_value(imsi_bytes));

    let mut image = data;
    if image.len() < TRAILER_LEN {
        return Err(PatchError::TooShort);
    }
    let mut pos = read_u32(image.as_slice(), image.len() - TRAILER_LEN) as usize;
    let ghost target = patched_vxp(image@, imsi_bytes);

    while pos < image.len()
        invariant
            value@ == imsi_value(imsi_bytes),
            target == patched_vxp(input, imsi_bytes),
            input == data@,
            imsi_bytes == imsi.spec_bytes(),
            walk_tags(image@, pos as int, value@) == target,
        decreases bytes_left(image@, pos as int),
    {
        if image.len() - pos < 4 {
            return Err(PatchError::TagHeaderTruncated);
        }
        let id = read_u32(image.as_slice(), pos);
        if id == TAG_END {
            return Ok(image);
        }
        if image.len() - pos < 8 {
            return Err(PatchError::TagHeaderTruncated);
        }
        let len = read_u32(image.as_slice(), pos + 4) as usize;
        let body = pos + 8;
        if len == 0 {
            pos = body;
        } else if id == TAG_MASKED {
            if image.len() - body < 4 {
                return Err(PatchError::FieldOutOfBounds);
            }
            mask_field(&mut image, body);
            if len >= image.len() - body {
                assert(walk_tags(image@, body + len, value@) == Ok::<Seq<u8>, PatchError>(image@));
                return Ok(image);
            }
            pos = body + len;
        } else if id == TAG_IMSI {
            if image.len() - body < len {
                return Err(PatchError::FieldOutOfBounds);
            }
            let kept = image.len() - len;
            if value.len() > usize::MAX - kept {
                return Err(PatchError::TooLarge);
            }
            image = replace_tag_value(image.as_slice(), pos, len, value.as_slice());
            pos = body + value.len();
        } else {
            if len >= image.len() - body {
                assert(walk_tags(image@, body + len, value@) == Ok::<Seq<u8>, PatchError>(image@));
                return Ok(image);
            }
            pos = body + len;
        }
    }
    Ok(image)
}

/// Patches the tag table of `data` for the IMSI `imsi`: the value of a
/// [`TAG_MASKED`] tag gets its first four bytes set to `0xff`, and the value
/// of a [`TAG_IMSI`] tag becomes `'9'` followed by the IMSI.
pub fn patch_vxp(data: Vec<u8>, imsi: &str) -> (out: Vec<u8>)
    requires
        patched_vxp(data@, imsi.spec_bytes()) is Ok,
    ensures
        patched_vxp(data@, imsi.spec_bytes()) == Ok::<Seq<u8>, PatchError>(out@),
{
    match try_patch_vxp(data, imsi) {
        Ok(out) => out,
        Err(_) => {
            proof {
                assert(false);
            }
            Vec::new()
        },
    }
}

} // verus!
