use vstd::prelude::*;
use vstd::string::StringSliceAdditionalSpecFns;
use vstd::utf8::encode_utf8;

verus! {

/// One replacement in the original source: `deleted_length` bytes from
/// `position` on are dropped and `inserted_text` stands in their place.
#[derive(Clone, Debug)]
pub struct Edit {
    pub position: usize,
    pub deleted_length: usize,
    pub inserted_text: String,
}

/// The bytes that an edit puts into the output.
pub open spec fn inserted_bytes(e: Edit) -> Seq<u8> {
    encode_utf8(e.inserted_text@)
}

/// The first byte of the original source after the deleted span.
pub open spec fn edit_end(e: Edit) -> int {
    e.position + e.deleted_length
}

/// Every edit lies inside a source of `len` bytes, and each one ends at or
/// before the start of the next: the edits are sorted and never overlap.
pub open spec fn edits_ordered(edits: Seq<Edit>, len: int) -> bool {
    &&& forall|i: int| 0 <= i < edits.len() ==> #[trigger] edit_end(edits[i]) <= len
    &&& forall|i: int|
        0 <= i < edits.len() - 1 ==> #[trigger] edit_end(edits[i]) <= edits[i + 1].position
}

/// The text that results from copying `src` from `cursor` on, with `edits`
/// applied in order.
pub open spec fn patched_from(src: Seq<u8>, edits: Seq<Edit>, cursor: int) -> Seq<u8>
    decreases edits.len(),
{
    if edits.len() == 0 {
        src.subrange(cursor, src.len() as int)
    } else {
        let e = edits[0];
        src.subrange(cursor, e.position as int) + inserted_bytes(e) + patched_from(
            src,
            edits.drop_first(),
            edit_end(e),
        )
    }
}

/// The whole source with `edits` applied.
pub open spec fn patched(src: Seq<u8>, edits: Seq<Edit>) -> Seq<u8> {
    patched_from(src, edits, 0)
}

/// Total number of bytes that `edits` delete.
pub open spec fn deleted_total(edits: Seq<Edit>) -> int
    decreases edits.len(),
{
    if edits.len() == 0 {
        0
    } else {
        edits[0].deleted_length + deleted_total(edits.drop_first())
    }
}

/// Total number of bytes that `edits` insert.
pub open spec fn inserted_total(edits: Seq<Edit>) -> int
    decreases edits.len(),
{
    if edits.len() == 0 {
        0
    } else {
        inserted_bytes(edits[0]).len() + inserted_total(edits.drop_first())
    }
}

/// The edits that survive the overlap policy: walking the candidates in
/// discovery order, one is kept when it starts at or after the end of the
/// last kept edit (`cursor`) and ends inside the source; the others are
/// dropped.
pub open spec fn kept_from(cands: Seq<Edit>, len: int, cursor: int) -> Seq<Edit>
    decreases cands.len(),
{
    if cands.len() == 0 {
        Seq::empty()
    } else {
        let e = cands[0];
        if cursor <= e.position && edit_end(e) <= len {
            seq![e] + kept_from(cands.drop_first(), len, edit_end(e))
        } else {
            kept_from(cands.drop_first(), len, cursor)
        }
    }
}

/// The edits of `cands` that the overlap policy keeps, in a source of `len`
/// bytes.
pub open spec fn kept(cands: Seq<Edit>, len: int) -> Seq<Edit> {
    kept_from(cands, len, 0)
}

impl Edit {
    /// A copy of this edit.
    pub fn duplicate(&self) -> (r: Edit)
        ensures
            r == *self,
    {
        Edit {
            position: self.position,
            deleted_length: self.deleted_length,
            inserted_text: self.inserted_text.clone(),
        }
    }
}

/// Appends `bytes[from..to]` to `out`.
fn append_range(out: &mut Vec<u8>, bytes: &[u8], from: usize, to: usize)
    requires
        from <= to <= bytes@.len(),
    ensures
        final(out)@ == old(out)@ + bytes@.subrange(from as int, to as int),
{
    let mut k: usize = from;
    while k < to
        invariant
            from <= k <= to <= bytes@.len(),
            out@ == old(out)@ + bytes@.subrange(from as int, k as int),
        decreases to - k,
    {
        out.push(bytes[k]);
        k += 1;
        assert(out@ =~= old(out)@ + bytes@.subrange(from as int, k as int));
    }
}

/// Rebuilds the source with `edits` applied: the untouched spans are copied
/// verbatim and each edit's deleted span is replaced by its inserted text.
/// The edits must be sorted and pairwise non-overlapping (see
/// [`accept_edits`], which establishes that).
pub fn apply_edits(src: &str, edits: &Vec<Edit>) -> (r: Vec<u8>)
    requires
        edits_ordered(edits@, src.spec_bytes().len() as int),
    ensures
        r@ == patched(src.spec_bytes(), edits@),
{
    let bytes = src.as_bytes();
    let ghost b = bytes@;
    let n: usize = bytes.len();
    let mut out: Vec<u8> = Vec::new();
    let mut cursor: usize = 0;
    let mut i: usize = 0;
    assert(edits@.skip(0) =~= edits@);
    assert(out@ + patched(b, edits@) =~= patched(b, edits@));
    while i < edits.len()
        invariant
            b == src.spec_bytes(),
            bytes@ == b,
            b.len() == n,
            edits_ordered(edits@, b.len() as int),
            i <= edits@.len(),
            cursor <= b.len(),
            i == 0 ==> cursor == 0,
            i > 0 ==> cursor == edit_end(edits@[i - 1]),
            out@ + patched_from(b, edits@.skip(i as int), cursor as int) == patched(b, edits@),
        decreases edits@.len() - i,
    {
        let e = &edits[i];
        assert(edit_end(edits@[i as int]) <= b.len());
        if i > 0 {
            assert(edit_end(edits@[i - 1]) <= edits@[i as int].position);
        }
        let ghost before = out@;
        let ghost c0 = cursor;
        let ghost rest = edits@.skip(i as int);
        assert(rest[0] == *e);
        assert(rest.drop_first() =~= edits@.skip(i + 1));
        append_range(&mut out, bytes, cursor, e.position);
        let text = e.inserted_text.as_str().as_bytes();
        append_range(&mut out, text, 0, text.len());
        assert(text@.subrange(0, text@.len() as int) =~= inserted_bytes(*e));
        cursor = e.position + e.deleted_length;
        i += 1;
        assert(out@ + patched_from(b, edits@.skip(i as int), cursor as int) =~= before
            + patched_from(b, rest, c0 as int));
    }
    append_range(&mut out, bytes, cursor, n);
    assert(edits@.skip(i as int) =~= Seq::<Edit>::empty());
    out
}

/// Rebuilds `src` from candidate edits in discovery order: the overlap
/// policy picks the edits (see [`accept_edits`]) and they are applied.
pub fn rewrite_source(src: &str, cands: &Vec<Edit>) -> (r: Vec<u8>)
    ensures
        r@ == patched(src.spec_bytes(), kept(cands@, src.spec_bytes().len() as int)),
{
    let n: usize = src.as_bytes().len();
    let edits = accept_edits(cands, n);
    apply_edits(src, &edits)
}

/// Applies the overlap policy to candidate edits given in discovery order:
/// an edit is kept when it starts at or after the end of the last kept one
/// and ends inside a source of `source_len` bytes; later overlapping or
/// out-of-range candidates are dropped.
pub fn accept_edits(cands: &Vec<Edit>, source_len: usize) -> (r: Vec<Edit>)
    ensures
        r@ == kept(cands@, source_len as int),
        edits_ordered(r@, source_len as int),
{
    let mut out: Vec<Edit> = Vec::new();
    let mut cursor: usize = 0;
    let mut i: usize = 0;
    assert(cands@.skip(0) =~= cands@);
    assert(out@ + kept(cands@, source_len as int) =~= kept(cands@, source_len as int));
    while i < cands.len()
        invariant
            i <= cands@.len(),
            cursor <= source_len,
            out@ + kept_from(cands@.skip(i as int), source_len as int, cursor as int) == kept(
                cands@,
                source_len as int,
            ),
        decreases cands@.len() - i,
    {
        let e = &cands[i];
        let ghost rest = cands@.skip(i as int);
        let ghost before = out@;
        let ghost c0 = cursor;
        assert(rest[0] == *e);
        assert(rest.drop_first() =~= cands@.skip(i + 1));
        if cursor <= e.position && e.deleted_length <= source_len && e.position <= source_len
            - e.deleted_length {
            out.push(e.duplicate());
            cursor = e.position + e.deleted_length;
            assert(out@ + kept_from(cands@.skip(i + 1), source_len as int, cursor as int)
                =~= before + kept_from(rest, source_len as int, c0 as int));
        }
        i += 1;
    }
    assert(cands@.skip(i as int) =~= Seq::<Edit>::empty());
    assert(out@ =~= kept(cands@, source_len as int));
    proof {
        lemma_kept_ordered(cands@, source_len as int, 0);
    }
    out
}

/// Whatever the candidates, the kept edits lie in the source, each starts
/// at or after `cursor`, and each ends at or before the start of the next.
pub proof fn lemma_kept_ordered(cands: Seq<Edit>, len: int, cursor: int)
    ensures
        edits_ordered(kept_from(cands, len, cursor), len),
        forall|k: int|
            0 <= k < kept_from(cands, len, cursor).len() ==> cursor <= #[trigger] kept_from(
                cands,
                len,
                cursor,
            )[k].position,
    decreases cands.len(),
{
    if cands.len() > 0 {
        let e = cands[0];
        if cursor <= e.position && edit_end(e) <= len {
            lemma_kept_ordered(cands.drop_first(), len, edit_end(e));
            let tail = kept_from(cands.drop_first(), len, edit_end(e));
            let all = kept_from(cands, len, cursor);
            assert(all == seq![e] + tail);
            assert forall|i: int| 0 <= i < all.len() - 1 implies #[trigger] edit_end(all[i])
                <= all[i + 1].position by {
                if i > 0 {
                    assert(all[i] == tail[i - 1]);
                    assert(all[i + 1] == tail[i]);
                } else {
                    assert(all[1] == tail[0]);
                }
            }
            assert forall|i: int| 0 <= i < all.len() implies #[trigger] edit_end(all[i]) <= len by {
                if i > 0 {
                    assert(all[i] == tail[i - 1]);
                }
            }
            assert forall|k: int| 0 <= k < all.len() implies cursor <= #[trigger] all[k].position by {
                if k > 0 {
                    assert(all[k] == tail[k - 1]);
                }
            }
        } else {
            lemma_kept_ordered(cands.drop_first(), len, cursor);
        }
    }
}

/// Non-overlap: for any candidate edits, those that the overlap policy keeps
/// lie inside the source and each ends at or before the next one starts.
pub proof fn lemma_accepted_edits_ordered(cands: Seq<Edit>, len: int)
    ensures
        edits_ordered(kept(cands, len), len),
        forall|i: int|
            0 <= i < kept(cands, len).len() - 1 ==> kept(cands, len)[i].position
                + kept(cands, len)[i].deleted_length <= #[trigger] kept(cands, len)[i + 1].position,
{
    lemma_kept_ordered(cands, len, 0);
    let k = kept(cands, len);
    assert forall|i: int| 0 <= i < k.len() - 1 implies k[i].position + k[i].deleted_length
        <= #[trigger] k[i + 1].position by {
        assert(edit_end(k[i]) <= k[i + 1].position);
    }
}

/// Identity: applying no edit gives back the source unchanged.
pub proof fn lemma_apply_identity(src: Seq<u8>)
    ensures
        patched(src, Seq::empty()) == src,
{
    assert(src.subrange(0, src.len() as int) =~= src);
}

/// The length of the text built from `cursor` on.
proof fn lemma_patched_from_length(src: Seq<u8>, edits: Seq<Edit>, cursor: int)
    requires
        edits_ordered(edits, src.len() as int),
        0 <= cursor <= src.len(),
        edits.len() > 0 ==> cursor <= edits[0].position,
    ensures
        patched_from(src, edits, cursor).len() == src.len() - cursor - deleted_total(edits)
            + inserted_total(edits),
    decreases edits.len(),
{
    if edits.len() > 0 {
        let e = edits[0];
        let rest = edits.drop_first();
        assert(edit_end(edits[0]) <= src.len());
        assert(edits_ordered(rest, src.len() as int)) by {
            assert forall|i: int| 0 <= i < rest.len() implies #[trigger] edit_end(rest[i])
                <= src.len() by {
                assert(rest[i] == edits[i + 1]);
            }
            assert forall|i: int| 0 <= i < rest.len() - 1 implies #[trigger] edit_end(rest[i])
                <= rest[i + 1].position by {
                assert(rest[i] == edits[i + 1]);
                assert(rest[i + 1] == edits[i + 2]);
            }
        }
        if rest.len() > 0 {
            assert(rest[0] == edits[1]);
            assert(edit_end(edits[0]) <= edits[1].position);
        }
        lemma_patched_from_length(src, rest, edit_end(e));
    }
}

/// Coverage: for sorted, non-overlapping edits, the rebuilt text has the
/// source's length less every deleted span plus every inserted text.
pub proof fn lemma_patched_length(src: Seq<u8>, edits: Seq<Edit>)
    requires
        edits_ordered(edits, src.len() as int),
    ensures
        patched(src, edits).len() == src.len() - deleted_total(edits) + inserted_total(edits),
{
    lemma_patched_from_length(src, edits, 0);
}

} // verus!
