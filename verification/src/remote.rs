//! What an upload leaves on the remote side.
//!
//! A model of the files that a host stores, by path, and of what opening and
//! writing a file does to them. It serves to say what the open mode of an
//! upload is for: the remote file ends up with the content of the local one,
//! whatever it held before, so that pushing the same tree again changes
//! nothing.

use crate::file_transfer::OpenMode;
use crate::remote_path::remote_path_of;
use vstd::prelude::*;

verus! {

/// The content of a file right after it was opened in `mode`, from its
/// content before (`None` for a file that did not exist). `None` when the
/// file cannot be opened: it is absent and not to be created, or present
/// and to be created anew.
pub open spec fn content_at_open(mode: OpenMode, before: Option<Seq<u8>>) -> Option<Seq<u8>> {
    match before {
        None => if mode.create {
            Some(Seq::empty())
        } else {
            None
        },
        Some(content) => if mode.create && mode.exclusive {
            None
        } else if mode.truncate {
            Some(Seq::empty())
        } else {
            Some(content)
        },
    }
}

/// The content of a file that held `content` when it was opened in `mode`,
/// once `data` has been written to it in one piece: behind the old content
/// when appending, else over it from the start.
pub open spec fn content_written(mode: OpenMode, content: Seq<u8>, data: Seq<u8>) -> Seq<u8> {
    if !mode.write {
        content
    } else if mode.append {
        content + data
    } else if data.len() >= content.len() {
        data
    } else {
        data + content.skip(data.len() as int)
    }
}

/// The content of a file after it was opened in `mode` and `data` was
/// written to it; `None` when it cannot be opened.
pub open spec fn content_after(mode: OpenMode, before: Option<Seq<u8>>, data: Seq<u8>) -> Option<
    Seq<u8>,
> {
    match content_at_open(mode, before) {
        Some(content) => Some(content_written(mode, content, data)),
        None => None,
    }
}

/// One file to upload: where it goes, and what it holds.
pub struct Upload {
    pub remote: Seq<char>,
    pub data: Seq<u8>,
}

/// What `files` holds at `path`.
pub open spec fn content_of(files: Map<Seq<char>, Seq<u8>>, path: Seq<char>) -> Option<Seq<u8>> {
    if files.dom().contains(path) {
        Some(files[path])
    } else {
        None
    }
}

/// The files of a host after `upload` went through.
pub open spec fn after_upload(files: Map<Seq<char>, Seq<u8>>, upload: Upload) -> Map<
    Seq<char>,
    Seq<u8>,
> {
    match content_after(OpenMode::upload_mode(), content_of(files, upload.remote), upload.data) {
        Some(content) => files.insert(upload.remote, content),
        None => files,
    }
}

/// The files of a host after `uploads` went through, one after another.
pub open spec fn after_uploads(files: Map<Seq<char>, Seq<u8>>, uploads: Seq<Upload>) -> Map<
    Seq<char>,
    Seq<u8>,
>
    decreases uploads.len(),
{
    if uploads.len() == 0 {
        files
    } else {
        after_upload(after_uploads(files, uploads.drop_last()), uploads.last())
    }
}

/// What the last of `uploads` that goes to `path` holds, if any goes there.
pub open spec fn last_upload_to(uploads: Seq<Upload>, path: Seq<char>) -> Option<Seq<u8>>
    decreases uploads.len(),
{
    if uploads.len() == 0 {
        None
    } else if uploads.last().remote == path {
        Some(uploads.last().data)
    } else {
        last_upload_to(uploads.drop_last(), path)
    }
}

/// The uploads that pushing the tree with the files `files` makes, given
/// what each local file holds.
pub open spec fn uploads_of(
    files: Seq<Seq<char>>,
    contents: Map<Seq<char>, Seq<u8>>,
    input_root: Seq<char>,
    output_root: Seq<char>,
) -> Seq<Upload> {
    Seq::new(
        files.len(),
        |i: int|
            Upload {
                remote: remote_path_of(files[i], input_root, output_root),
                data: contents[files[i]],
            },
    )
}

/// Opening to create or truncate, for writing and not exclusively, replaces
/// the file: whatever was there, afterwards the file exists and holds what
/// was written.
pub proof fn lemma_truncating_replaces_content(
    mode: OpenMode,
    before: Option<Seq<u8>>,
    data: Seq<u8>,
)
    requires
        mode.create,
        mode.truncate,
        mode.write,
        !mode.exclusive,
    ensures
        content_after(mode, before, data) == Some(data),
{
    assert(Seq::<u8>::empty() + data =~= data);
}

/// An upload replaces the remote file: whatever was there, afterwards the
/// file exists and holds what the local file holds.
pub proof fn lemma_upload_replaces_content(before: Option<Seq<u8>>, data: Seq<u8>)
    ensures
        content_after(OpenMode::upload_mode(), before, data) == Some(data),
{
}

/// Appending instead would not do: a file that is not empty grows with every
/// push of the same content.
pub proof fn lemma_appending_grows(mode: OpenMode, before: Seq<u8>, data: Seq<u8>)
    requires
        mode.write,
        mode.append,
        !mode.truncate,
        !mode.exclusive,
        data.len() > 0,
    ensures
        content_after(mode, Some(before), data) == Some(before + data),
        content_after(mode, content_after(mode, Some(before), data), data) != content_after(
            mode,
            Some(before),
            data,
        ),
{
    let once = before + data;
    let twice = once + data;
    assert(twice.len() != once.len());
}

/// The upload that decides what a path holds is the last one that goes
/// there.
pub proof fn lemma_last_upload_decides(uploads: Seq<Upload>, i: int)
    requires
        0 <= i < uploads.len(),
        forall|j: int| i < j < uploads.len() ==> uploads[j].remote != uploads[i].remote,
    ensures
        last_upload_to(uploads, uploads[i].remote) == Some(uploads[i].data),
    decreases uploads.len(),
{
    if i < uploads.len() - 1 {
        lemma_last_upload_decides(uploads.drop_last(), i);
    }
}

/// A path that no upload goes to has no last upload.
pub proof fn lemma_no_upload_no_change(uploads: Seq<Upload>, path: Seq<char>)
    requires
        forall|j: int| 0 <= j < uploads.len() ==> uploads[j].remote != path,
    ensures
        last_upload_to(uploads, path) is None,
    decreases uploads.len(),
{
    if uploads.len() > 0 {
        lemma_no_upload_no_change(uploads.drop_last(), path);
    }
}

/// After a series of uploads a path holds what the last upload to it
/// brought, and what it held before if none went there.
pub proof fn lemma_after_uploads(
    files: Map<Seq<char>, Seq<u8>>,
    uploads: Seq<Upload>,
    path: Seq<char>,
)
    ensures
        content_of(after_uploads(files, uploads), path) == match last_upload_to(uploads, path) {
            Some(data) => Some(data),
            None => content_of(files, path),
        },
    decreases uploads.len(),
{
    if uploads.len() > 0 {
        lemma_after_uploads(files, uploads.drop_last(), path);
        let mid = after_uploads(files, uploads.drop_last());
        lemma_upload_replaces_content(content_of(mid, uploads.last().remote), uploads.last().data);
    }
}

/// Pushing the same files with the same content to the same place a second
/// time leaves every remote file as the first push left it.
pub proof fn lemma_second_push_changes_nothing(
    files: Map<Seq<char>, Seq<u8>>,
    uploads: Seq<Upload>,
)
    ensures
        after_uploads(after_uploads(files, uploads), uploads) == after_uploads(files, uploads),
{
    let once = after_uploads(files, uploads);
    let twice = after_uploads(once, uploads);
    assert forall|path: Seq<char>| content_of(twice, path) == content_of(once, path) by {
        lemma_after_uploads(files, uploads, path);
        lemma_after_uploads(once, uploads, path);
    }
    assert forall|path: Seq<char>| twice.dom().contains(path) == once.dom().contains(path) by {
        assert(content_of(twice, path) == content_of(once, path));
    }
    assert forall|path: Seq<char>| twice.dom().contains(path) implies twice[path] == once[path] by {
        assert(content_of(twice, path) == content_of(once, path));
    }
    assert(twice =~= once);
}

/// A push in which every file is sent leaves each file of the tree at its
/// remote path with the content it has locally, unless a later file of the
/// tree went to the same remote path; and it leaves alone every remote path
/// that no file of the tree maps to.
pub proof fn lemma_push_stores_the_tree(
    remote: Map<Seq<char>, Seq<u8>>,
    files: Seq<Seq<char>>,
    contents: Map<Seq<char>, Seq<u8>>,
    input_root: Seq<char>,
    output_root: Seq<char>,
)
    ensures
        ({
            let after = after_uploads(
                remote,
                uploads_of(files, contents, input_root, output_root),
            );
            &&& forall|i: int|
                0 <= i < files.len() && (forall|j: int|
                    i < j < files.len() ==> remote_path_of(files[j], input_root, output_root)
                        != remote_path_of(files[i], input_root, output_root)) ==> content_of(
                    after,
                    #[trigger] remote_path_of(files[i], input_root, output_root),
                ) == Some(contents[files[i]])
            &&& forall|path: Seq<char>|
                (forall|j: int|
                    0 <= j < files.len() ==> remote_path_of(files[j], input_root, output_root)
                        != path) ==> #[trigger] content_of(after, path) == content_of(remote, path)
        }),
{
    let uploads = uploads_of(files, contents, input_root, output_root);
    let after = after_uploads(remote, uploads);
    assert forall|i: int|
        0 <= i < files.len() && (forall|j: int|
            i < j < files.len() ==> remote_path_of(files[j], input_root, output_root)
                != remote_path_of(files[i], input_root, output_root)) implies content_of(
        after,
        #[trigger] remote_path_of(files[i], input_root, output_root),
    ) == Some(contents[files[i]]) by {
        assert forall|j: int| i < j < uploads.len() implies uploads[j].remote
            != uploads[i].remote by {
            assert(uploads[j].remote == remote_path_of(files[j], input_root, output_root));
        }
        lemma_last_upload_decides(uploads, i);
        lemma_after_uploads(remote, uploads, uploads[i].remote);
    }
    assert forall|path: Seq<char>|
        (forall|j: int|
            0 <= j < files.len() ==> remote_path_of(files[j], input_root, output_root)
                != path) implies #[trigger] content_of(after, path) == content_of(
        remote,
        path,
    ) by {
        assert forall|j: int| 0 <= j < uploads.len() implies uploads[j].remote != path by {
            assert(uploads[j].remote == remote_path_of(files[j], input_root, output_root));
        }
        lemma_no_upload_no_change(uploads, path);
        lemma_after_uploads(remote, uploads, path);
    }
}

/// Pushing the same tree again, with every file holding what it held, leaves
/// the remote side as the first push left it.
pub proof fn lemma_pushing_a_tree_is_idempotent(
    remote: Map<Seq<char>, Seq<u8>>,
    files: Seq<Seq<char>>,
    contents: Map<Seq<char>, Seq<u8>>,
    input_root: Seq<char>,
    output_root: Seq<char>,
)
    ensures
        ({
            let uploads = uploads_of(files, contents, input_root, output_root);
            after_uploads(after_uploads(remote, uploads), uploads) == after_uploads(
                remote,
                uploads,
            )
        }),
{
    lemma_second_push_changes_nothing(
        remote,
        uploads_of(files, contents, input_root, output_root),
    );
}

} // verus!
