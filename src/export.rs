use vstd::prelude::*;

use crate::collection::Collection;
use crate::error::GetError;
use crate::path::{export_path, get_export_path, name_ok};
use crate::store::{blake3_of, ContentStore};

verus! {

/// Decides the write of one entry whose target path has been computed: a target that
/// already exists stops the export with `ExportConflict`; otherwise the verified content
/// stored under `hash` is what gets written, and a hash missing from the store fails with
/// `PartialData`.
pub fn export_entry<'a>(store: &'a ContentStore, hash: &[u8], target_exists: bool) -> (r: Result<
    &'a Vec<u8>,
    GetError,
>)
    requires
        store.wf(),
    ensures
        r == Err::<&Vec<u8>, GetError>(GetError::ExportConflict) <==> target_exists,
        r == Err::<&Vec<u8>, GetError>(GetError::PartialData) <==> (!target_exists
            && !store@.contains_key(hash@)),
        r is Ok <==> (!target_exists && store@.contains_key(hash@)),
        r matches Ok(b) ==> b@ == store@[hash@],
{
    if target_exists {
        return Err(GetError::ExportConflict);
    }
    match store.get(hash) {
        Some(b) => Ok(b),
        None => Err(GetError::PartialData),
    }
}

/// Files on disk as the export sees them: content by path.
pub type Files = Map<Seq<char>, Seq<u8>>;

/// The files after exporting entries `i ..` of a collection into `root`, in order, and how
/// the export ended. Each entry's name is checked, its target must not exist, and its
/// content is copied from `content`; the first failure stops everything after it. Two
/// entries with the same target are refused: the second finds the first one's file.
pub open spec fn run_export(
    files: Files,
    root: Seq<char>,
    names: Seq<Seq<char>>,
    hashes: Seq<Seq<u8>>,
    content: Map<Seq<u8>, Seq<u8>>,
    i: int,
) -> (Files, Result<(), GetError>)
    decreases names.len() - i,
{
    if i < 0 || i >= names.len() {
        (files, Ok(()))
    } else if !name_ok(names[i]) {
        (files, Err(GetError::PathViolation))
    } else if files.contains_key(export_path(root, names[i])) {
        (files, Err(GetError::ExportConflict))
    } else if !content.contains_key(hashes[i]) {
        (files, Err(GetError::PartialData))
    } else {
        run_export(
            files.insert(export_path(root, names[i]), content[hashes[i]]),
            root,
            names,
            hashes,
            content,
            i + 1,
        )
    }
}

/// One step of the export of `collection` into `root`: entry `i`, where `target_exists`
/// says whether its target is already on disk. For every state of the files that agrees
/// with `target_exists`, a failure is exactly how `run_export` ends at this entry, and a
/// success hands back the target path and the bytes to write there, after which
/// `run_export` goes on with the next entry.
pub fn export_step<'a>(
    root: &str,
    collection: &Collection,
    store: &'a ContentStore,
    i: usize,
    target_exists: bool,
) -> (r: Result<(String, &'a Vec<u8>), GetError>)
    requires
        store.wf(),
        collection.wf(),
        i < collection.names().len(),
    ensures
        collection.names().len() == collection.hashes().len(),
        r is Ok <==> (name_ok(collection.names()[i as int]) && !target_exists
            && store@.contains_key(collection.hashes()[i as int])),
        r matches Ok((p, b)) ==> p@ == export_path(root@, collection.names()[i as int])
            && b@ == store@[collection.hashes()[i as int]],
        forall|files: Files|
            #![trigger run_export(files, root@, collection.names(), collection.hashes(), store@, i as int)]
            files.contains_key(export_path(root@, collection.names()[i as int])) == target_exists
                ==> match r {
                Err(e) => run_export(
                    files,
                    root@,
                    collection.names(),
                    collection.hashes(),
                    store@,
                    i as int,
                ) == (files, Err::<(), GetError>(e)),
                Ok((p, b)) => run_export(
                    files,
                    root@,
                    collection.names(),
                    collection.hashes(),
                    store@,
                    i as int,
                ) == run_export(
                    files.insert(p@, b@),
                    root@,
                    collection.names(),
                    collection.hashes(),
                    store@,
                    i + 1,
                ),
            },
{
    proof {
        collection.lemma_paired();
    }
    let path = match get_export_path(root, collection.name(i).as_str()) {
        Ok(p) => p,
        Err(e) => {
            return Err(e);
        },
    };
    match export_entry(store, collection.hash(i).as_slice(), target_exists) {
        Ok(b) => Ok((path, b)),
        Err(e) => Err(e),
    }
}

/// An export never changes a file that existed before it: whatever the outcome, every
/// path present beforehand holds the same bytes afterwards.
pub proof fn lemma_export_never_overwrites(
    files: Files,
    root: Seq<char>,
    names: Seq<Seq<char>>,
    hashes: Seq<Seq<u8>>,
    content: Map<Seq<u8>, Seq<u8>>,
    i: int,
    p: Seq<char>,
)
    requires
        files.contains_key(p),
    ensures
        run_export(files, root, names, hashes, content, i).0.contains_key(p),
        run_export(files, root, names, hashes, content, i).0[p] == files[p],
    decreases names.len() - i,
{
    if 0 <= i < names.len() && name_ok(names[i]) && !files.contains_key(export_path(root, names[i]))
        && content.contains_key(hashes[i]) {
        lemma_export_never_overwrites(
            files.insert(export_path(root, names[i]), content[hashes[i]]),
            root,
            names,
            hashes,
            content,
            i + 1,
            p,
        );
    }
}

/// Where the target of an entry already exists, and every earlier entry has a safe name
/// and stored content, the export fails with `ExportConflict`.
pub proof fn lemma_existing_target_conflicts(
    files: Files,
    root: Seq<char>,
    names: Seq<Seq<char>>,
    hashes: Seq<Seq<u8>>,
    content: Map<Seq<u8>, Seq<u8>>,
    i: int,
    k: int,
)
    requires
        0 <= i <= k < names.len(),
        names.len() == hashes.len(),
        files.contains_key(export_path(root, names[k])),
        forall|j: int| i <= j <= k ==> name_ok(#[trigger] names[j]),
        forall|j: int| i <= j < k ==> content.contains_key(#[trigger] hashes[j]),
    ensures
        run_export(files, root, names, hashes, content, i).1 == Err::<(), GetError>(
            GetError::ExportConflict,
        ),
    decreases k - i,
{
    if i < k && !files.contains_key(export_path(root, names[i])) {
        let next = files.insert(export_path(root, names[i]), content[hashes[i]]);
        assert(next.contains_key(export_path(root, names[k])));
        lemma_existing_target_conflicts(next, root, names, hashes, content, i + 1, k);
    }
}

/// After a successful export from a verified store, the file at each entry's path holds
/// exactly the stored content for its hash, and that content hashes to the entry's hash.
pub proof fn lemma_export_round_trip(
    files: Files,
    root: Seq<char>,
    names: Seq<Seq<char>>,
    hashes: Seq<Seq<u8>>,
    store: ContentStore,
    i: int,
    k: int,
)
    requires
        store.wf(),
        names.len() == hashes.len(),
        0 <= i <= k < names.len(),
        run_export(files, root, names, hashes, store@, i).1 is Ok,
    ensures
        store@.contains_key(hashes[k]),
        run_export(files, root, names, hashes, store@, i).0.contains_key(
            export_path(root, names[k]),
        ),
        run_export(files, root, names, hashes, store@, i).0[export_path(root, names[k])]
            == store@[hashes[k]],
        blake3_of(run_export(files, root, names, hashes, store@, i).0[export_path(root, names[k])])
            == hashes[k],
    decreases k - i,
{
    assert(store@.contains_key(hashes[i]));
    let next = files.insert(export_path(root, names[i]), store@[hashes[i]]);
    if i < k {
        lemma_export_round_trip(next, root, names, hashes, store, i + 1, k);
    } else {
        lemma_export_never_overwrites(next, root, names, hashes, store@, i + 1, export_path(root, names[k]));
    }
    store.lemma_verified(hashes[k]);
}

} // verus!
