use vstd::prelude::*;

use crate::digest::{sha512, sha512_of};

verus! {

/// One file of a runtime tree, read fully into memory: its path relative to
/// the runtime root, as UTF-8 bytes, and its contents.
pub struct TreeFile {
    pub path: Vec<u8>,
    pub contents: Vec<u8>,
}

/// A manifest record at the specification level: the relative path and the
/// 64-byte digest recorded for it.
pub type RecordView = (Seq<u8>, Seq<u8>);

/// The record the manifest stores for a tree file: its path and the SHA-512
/// digest of its contents.
pub open spec fn record_of(f: TreeFile) -> RecordView {
    (f.path@, sha512_of(f.contents@))
}

/// The records a manifest built over a tree holds, in walk order.
pub open spec fn manifest_of(files: Seq<TreeFile>) -> Seq<RecordView> {
    files.map_values(|f: TreeFile| record_of(f))
}

/// A record set the binary format can carry: each path fits the one-byte
/// length field and each digest is exactly 64 bytes.
pub open spec fn records_wf(rs: Seq<RecordView>) -> bool {
    forall|i: int|
        0 <= i < rs.len() ==> (#[trigger] rs[i]).0.len() <= 255 && rs[i].1.len() == 64
}

/// One encoded record: a one-byte path length, the path bytes, then the
/// 64 raw digest bytes.
pub open spec fn encode_record(r: RecordView) -> Seq<u8> {
    seq![r.0.len() as u8] + r.0 + r.1
}

/// The whole manifest: records back to back, no header and no trailer.
pub open spec fn encode_manifest(rs: Seq<RecordView>) -> Seq<u8>
    decreases rs.len(),
{
    if rs.len() == 0 {
        Seq::empty()
    } else {
        encode_record(rs[0]) + encode_manifest(rs.skip(1))
    }
}

/// Decoding of the binary format: `None` when the bytes end inside a
/// record, `Some` of the records otherwise.
pub open spec fn decode_manifest(bytes: Seq<u8>) -> Option<Seq<RecordView>>
    decreases bytes.len(),
{
    if bytes.len() == 0 {
        Some(Seq::empty())
    } else {
        let n = bytes[0] as int;
        if bytes.len() >= 1 + n + 64 {
            let rec = (bytes.subrange(1, 1 + n), bytes.subrange(1 + n, 1 + n + 64));
            match decode_manifest(bytes.skip(1 + n + 64)) {
                Some(rest) => Some(seq![rec] + rest),
                None => None,
            }
        } else {
            None
        }
    }
}

/// The contents of the first tree file at the given path, if any.
pub open spec fn tree_lookup(files: Seq<TreeFile>, path: Seq<u8>) -> Option<Seq<u8>>
    decreases files.len(),
{
    if files.len() == 0 {
        None
    } else if files[0].path@ == path {
        Some(files[0].contents@)
    } else {
        tree_lookup(files.skip(1), path)
    }
}

/// A record matches the tree when the file it names is present and the
/// digest of that file's contents equals the recorded digest. A path the
/// tree does not hold is a mismatch, not a separate failure.
pub open spec fn record_matches(files: Seq<TreeFile>, r: RecordView) -> bool {
    match tree_lookup(files, r.0) {
        Some(c) => sha512_of(c) == r.1,
        None => false,
    }
}

/// A manifest passes over a tree exactly when it decodes cleanly to the
/// end and every record it lists matches the tree.
pub open spec fn manifest_valid(bytes: Seq<u8>, files: Seq<TreeFile>) -> bool {
    match decode_manifest(bytes) {
        Some(rs) => forall|i: int| 0 <= i < rs.len() ==> record_matches(files, #[trigger] rs[i]),
        None => false,
    }
}

/// Appending one record encodes to the old encoding followed by the
/// record's encoding.
proof fn lemma_encode_push(rs: Seq<RecordView>, r: RecordView)
    ensures
        encode_manifest(rs.push(r)) == encode_manifest(rs) + encode_record(r),
    decreases rs.len(),
{
    if rs.len() == 0 {
        let single = rs.push(r);
        assert(single[0] == r);
        assert(single.skip(1) =~= Seq::<RecordView>::empty());
        assert(encode_manifest(single.skip(1)) == Seq::<u8>::empty());
        assert(encode_manifest(single) == encode_record(r) + Seq::<u8>::empty());
        assert(encode_record(r) + Seq::<u8>::empty() =~= encode_record(r));
        assert(encode_manifest(rs) + encode_record(r) =~= encode_record(r));
    } else {
        assert(rs.push(r).skip(1) =~= rs.skip(1).push(r));
        lemma_encode_push(rs.skip(1), r);
        assert(encode_manifest(rs.push(r)) =~= encode_manifest(rs) + encode_record(r));
    }
}

/// Decoding inverts encoding on any record set the format can carry.
pub proof fn lemma_decode_encode(rs: Seq<RecordView>)
    requires
        records_wf(rs),
    ensures
        decode_manifest(encode_manifest(rs)) == Some(rs),
    decreases rs.len(),
{
    if rs.len() == 0 {
        assert(encode_manifest(rs).len() == 0);
        assert(rs =~= Seq::<RecordView>::empty());
    } else {
        let bytes = encode_manifest(rs);
        let head = encode_record(rs[0]);
        let n = rs[0].0.len() as int;
        assert(head.len() == 1 + n + 64);
        assert(bytes[0] == n as u8);
        assert(bytes.len() >= 1 + n + 64);
        assert(bytes.subrange(1, 1 + n) =~= rs[0].0);
        assert(bytes.subrange(1 + n, 1 + n + 64) =~= rs[0].1);
        assert(bytes.skip(1 + n + 64) =~= encode_manifest(rs.skip(1)));
        lemma_decode_encode(rs.skip(1));
        assert(seq![(bytes.subrange(1, 1 + n), bytes.subrange(1 + n, 1 + n + 64))] + rs.skip(1)
            =~= rs);
    }
}

/// Copies `len` bytes starting at `start` out of a byte vector.
pub(crate) fn subVec(bytes: &Vec<u8>, start: usize, len: usize) -> (r: Vec<u8>)
    requires
        start + len <= bytes@.len(),
    ensures
        r@ == bytes@.subrange(start as int, start as int + len as int),
{
    let total = bytes.len();
    let mut r: Vec<u8> = Vec::new();
    let mut i: usize = 0;
    while i < len
        invariant
            start + len <= total,
            total == bytes@.len(),
            i <= len,
            r@ == bytes@.subrange(start as int, start as int + i as int),
        decreases len - i,
    {
        r.push(bytes[start + i]);
        assert(r@ =~= bytes@.subrange(start as int, start as int + (i + 1) as int));
        i = i + 1;
    }
    r
}

/// Compares two byte vectors for equality of contents.
pub(crate) fn bytesEqual(a: &Vec<u8>, b: &Vec<u8>) -> (r: bool)
    ensures
        r == (a@ == b@),
{
    if a.len() != b.len() {
        assert(a@ != b@);
        return false;
    }
    let mut i: usize = 0;
    while i < a.len()
        invariant
            a@.len() == b@.len(),
            i <= a@.len(),
            forall|k: int| 0 <= k < i ==> a@[k] == b@[k],
        decreases a@.len() - i,
    {
        if a[i] != b[i] {
            return false;
        }
        i = i + 1;
    }
    assert(a@ =~= b@);
    true
}

/// Finds the contents of the first tree file at the given path.
fn treeLookup<'a>(files: &'a Vec<TreeFile>, path: &Vec<u8>) -> (r: Option<&'a Vec<u8>>)
    ensures
        match r {
            Some(c) => tree_lookup(files@, path@) == Some(c@),
            None => tree_lookup(files@, path@) is None,
        },
{
    let mut j: usize = 0;
    proof {
        assert(files@.skip(0) =~= files@);
    }
    while j < files.len()
        invariant
            j <= files@.len(),
            tree_lookup(files@, path@) == tree_lookup(files@.skip(j as int), path@),
        decreases files@.len() - j,
    {
        let ghost pre = files@.skip(j as int);
        assert(pre[0] == files@[j as int]);
        if bytesEqual(&files[j].path, path) {
            return Some(&files[j].contents);
        }
        assert(pre.skip(1) =~= files@.skip(j as int + 1));
        j = j + 1;
    }
    assert(files@.skip(j as int).len() == 0);
    None
}

/// Builds the manifest for a tree: for every file, in order, one record
/// holding its relative path and the SHA-512 digest of its contents,
/// encoded as the binary format. The result both equals the encoding of
/// the tree's records and decodes back to them.
pub fn hashRuntime(files: &Vec<TreeFile>) -> (out: Vec<u8>)
    requires
        forall|i: int| 0 <= i < files@.len() ==> (#[trigger] files@[i]).path@.len() <= 255,
    ensures
        out@ == encode_manifest(manifest_of(files@)),
        decode_manifest(out@) == Some(manifest_of(files@)),
        (forall|i: int, j: int|
            0 <= i < files@.len() && 0 <= j < files@.len() && i != j
                ==> (#[trigger] files@[i]).path@ != (#[trigger] files@[j]).path@)
            ==> manifest_valid(out@, files@),
{
    let mut out: Vec<u8> = Vec::new();
    let mut i: usize = 0;
    proof {
        assert(manifest_of(files@.take(0)) =~= Seq::<RecordView>::empty());
    }
    while i < files.len()
        invariant
            forall|k: int| 0 <= k < files@.len() ==> (#[trigger] files@[k]).path@.len() <= 255,
            i <= files@.len(),
            out@ == encode_manifest(manifest_of(files@.take(i as int))),
            records_wf(manifest_of(files@.take(i as int))),
        decreases files@.len() - i,
    {
        let f = &files[i];
        let d = sha512(&f.contents);
        let n = f.path.len() as u8;
        let ghost rec = record_of(files@[i as int]);
        let ghost before = out@;
        out.push(n);
        let mut p: usize = 0;
        while p < f.path.len()
            invariant
                f == &files@[i as int],
                i < files@.len(),
                f.path@.len() <= 255,
                p <= f.path@.len(),
                out@ == before + seq![f.path@.len() as u8] + f.path@.take(p as int),
            decreases f.path@.len() - p,
        {
            out.push(f.path[p]);
            assert(out@ =~= before + seq![f.path@.len() as u8] + f.path@.take(p as int + 1));
            p = p + 1;
        }
        let mut q: usize = 0;
        while q < d.len()
            invariant
                f == &files@[i as int],
                i < files@.len(),
                q <= d@.len(),
                out@ == before + seq![f.path@.len() as u8] + f.path@ + d@.take(q as int),
            decreases d@.len() - q,
        {
            out.push(d[q]);
            assert(out@ =~= before + seq![f.path@.len() as u8] + f.path@ + d@.take(q as int + 1));
            q = q + 1;
        }
        proof {
            assert(f.path@.take(f.path@.len() as int) =~= f.path@);
            assert(d@.take(d@.len() as int) =~= d@);
            assert(out@ =~= before + encode_record(rec));
            assert(manifest_of(files@.take(i as int + 1)) =~= manifest_of(
                files@.take(i as int),
            ).push(rec));
            lemma_encode_push(manifest_of(files@.take(i as int)), rec);
        }
        i = i + 1;
    }
    proof {
        assert(files@.take(files@.len() as int) =~= files@);
        lemma_decode_encode(manifest_of(files@));
        if forall|a: int, b: int|
            0 <= a < files@.len() && 0 <= b < files@.len() && a != b
                ==> (#[trigger] files@[a]).path@ != (#[trigger] files@[b]).path@ {
            let rs = manifest_of(files@);
            assert forall|k: int| 0 <= k < rs.len() implies record_matches(
                files@,
                #[trigger] rs[k],
            ) by {
                lemma_tree_lookup_at(files@, k);
            }
        }
    }
    out
}

/// Checks a tree against a manifest: decodes record after record,
/// recomputes each named file's digest and compares. Returns true exactly
/// when the bytes decode cleanly to the end and every record matches; a
/// partial trailing record, a path the tree lacks, or a digest mismatch
/// all yield false.
pub fn validateRuntime(manifest: &Vec<u8>, files: &Vec<TreeFile>) -> (r: bool)
    ensures
        r == manifest_valid(manifest@, files@),
{
    let ghost whole = manifest@;
    let mut pos: usize = 0;
    proof {
        assert(whole.skip(0) =~= whole);
    }
    while pos < manifest.len()
        invariant
            pos <= manifest@.len(),
            whole == manifest@,
            manifest_valid(whole, files@) == manifest_valid(whole.skip(pos as int), files@),
        decreases manifest@.len() - pos,
    {
        let ghost suffix = whole.skip(pos as int);
        let n = manifest[pos] as usize;
        if manifest.len() - pos < 1 + n + 64 {
            // the stream ends inside this record
            assert(suffix[0] == whole[pos as int]);
            assert(!manifest_valid(suffix, files@));
            return false;
        }
        let path = subVec(manifest, pos + 1, n);
        let stored = subVec(manifest, pos + 1 + n, 64);
        proof {
            assert(suffix[0] == whole[pos as int]);
            assert(suffix.subrange(1, 1 + n as int) =~= whole.subrange(
                pos as int + 1,
                pos as int + 1 + n as int,
            ));
            assert(suffix.subrange(1 + n as int, 1 + n as int + 64) =~= whole.subrange(
                pos as int + 1 + n as int,
                pos as int + 1 + n as int + 64,
            ));
            assert(suffix.skip(1 + n as int + 64) =~= whole.skip(pos as int + 1 + n as int + 64));
        }
        let ghost rec = (path@, stored@);
        let matched = match treeLookup(files, &path) {
            Some(c) => {
                let d = sha512(c);
                bytesEqual(&d, &stored)
            },
            None => false,
        };
        if !matched {
            assert(!record_matches(files@, rec));
            assert(match decode_manifest(suffix) {
                Some(rs) => rs.len() > 0 && rs[0] == rec,
                None => true,
            });
            assert(!manifest_valid(suffix, files@));
            return false;
        }
        proof {
            assert(record_matches(files@, rec));
            let tail = whole.skip(pos as int + 1 + n as int + 64);
            if manifest_valid(tail, files@) {
                let rest = decode_manifest(tail).unwrap();
                assert(decode_manifest(suffix) == Some(seq![rec] + rest));
                assert(forall|i: int|
                    0 <= i < (seq![rec] + rest).len() ==> record_matches(
                        files@,
                        #[trigger] (seq![rec] + rest)[i],
                    )) by {
                    assert(forall|i: int|
                        0 <= i < rest.len() ==> record_matches(files@, #[trigger] rest[i]));
                    assert forall|i: int| 0 <= i < (seq![rec] + rest).len() implies record_matches(
                        files@,
                        #[trigger] (seq![rec] + rest)[i],
                    ) by {
                        if i == 0 {
                            assert((seq![rec] + rest)[0] == rec);
                        } else {
                            assert((seq![rec] + rest)[i] == rest[i - 1]);
                        }
                    }
                }
                assert(manifest_valid(suffix, files@));
            } else {
                match decode_manifest(tail) {
                    Some(rest) => {
                        let k = choose|k: int|
                            0 <= k < rest.len() && !record_matches(files@, rest[k]);
                        assert(decode_manifest(suffix) == Some(seq![rec] + rest));
                        assert((seq![rec] + rest)[k + 1] == rest[k]);
                        assert(!manifest_valid(suffix, files@));
                    },
                    None => {
                        assert(decode_manifest(suffix) is None);
                    },
                }
            }
            assert(manifest_valid(suffix, files@) == manifest_valid(tail, files@));
        }
        pos = pos + 1 + n + 64;
    }
    proof {
        assert(whole.skip(pos as int) =~= Seq::<u8>::empty());
        assert(decode_manifest(whole.skip(pos as int)) == Some(Seq::<RecordView>::empty()));
        assert(manifest_valid(whole.skip(pos as int), files@));
    }
    true
}

/// The first file at a path that no earlier file shares is what lookup
/// finds.
proof fn lemma_tree_lookup_at(files: Seq<TreeFile>, i: int)
    requires
        0 <= i < files.len(),
        forall|j: int| 0 <= j < i ==> (#[trigger] files[j]).path@ != files[i].path@,
    ensures
        tree_lookup(files, files[i].path@) == Some(files[i].contents@),
    decreases i,
{
    if i > 0 {
        assert(files.skip(1)[i - 1] == files[i]);
        assert(forall|j: int|
            0 <= j < i - 1 ==> (#[trigger] files.skip(1)[j]).path@ != files.skip(1)[i - 1].path@);
        lemma_tree_lookup_at(files.skip(1), i - 1);
    }
}

/// Round trip: the manifest built over a tree of distinct paths verifies
/// that same tree. The digest-length premise is what the SHA-512 wrapper
/// guarantees of every digest it returns.
pub proof fn lemma_manifest_round_trip(files: Seq<TreeFile>)
    requires
        forall|i: int| 0 <= i < files.len() ==> (#[trigger] files[i]).path@.len() <= 255,
        forall|i: int| 0 <= i < files.len() ==> sha512_of((#[trigger] files[i]).contents@).len() == 64,
        forall|i: int, j: int|
            0 <= i < files.len() && 0 <= j < files.len() && i != j ==> (#[trigger] files[i]).path@
                != (#[trigger] files[j]).path@,
    ensures
        manifest_valid(encode_manifest(manifest_of(files)), files),
{
    let rs = manifest_of(files);
    lemma_decode_encode(rs);
    assert forall|i: int| 0 <= i < rs.len() implies record_matches(files, #[trigger] rs[i]) by {
        lemma_tree_lookup_at(files, i);
    }
}

/// Tamper detection: change one file's contents under a tree of distinct
/// paths so that its digest changes, and the manifest built before the
/// change rejects the tree.
pub proof fn lemma_manifest_tamper_detected(files: Seq<TreeFile>, tampered: Seq<TreeFile>, k: int)
    requires
        forall|i: int| 0 <= i < files.len() ==> (#[trigger] files[i]).path@.len() <= 255,
        forall|i: int| 0 <= i < files.len() ==> sha512_of((#[trigger] files[i]).contents@).len() == 64,
        forall|i: int, j: int|
            0 <= i < files.len() && 0 <= j < files.len() && i != j ==> (#[trigger] files[i]).path@
                != (#[trigger] files[j]).path@,
        tampered.len() == files.len(),
        forall|i: int| 0 <= i < files.len() ==> (#[trigger] tampered[i]).path@ == files[i].path@,
        0 <= k < files.len(),
        sha512_of(tampered[k].contents@) != sha512_of(files[k].contents@),
    ensures
        !manifest_valid(encode_manifest(manifest_of(files)), tampered),
{
    let rs = manifest_of(files);
    lemma_decode_encode(rs);
    assert(forall|j: int| 0 <= j < k ==> (#[trigger] tampered[j]).path@ != tampered[k].path@);
    lemma_tree_lookup_at(tampered, k);
    assert(rs[k] == record_of(files[k]));
    assert(rs[k].0 == tampered[k].path@);
    assert(!record_matches(tampered, rs[k]));
    let bytes = encode_manifest(rs);
    let drs = decode_manifest(bytes).unwrap();
    assert(drs == rs);
    assert(drs[k] == rs[k]);
    assert(!record_matches(tampered, drs[k]));
    assert(!manifest_valid(bytes, tampered));
}

} // verus!
