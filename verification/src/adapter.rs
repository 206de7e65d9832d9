//! LoRA adapters: locating an adapter's files under the project root.

use vstd::prelude::*;
use crate::error::{AppError, BAD_REQUEST};
use crate::text::{chars_of, has_prefix, lemma_split_without_separator, concat2, concat3, split_char, split_on, texts};

verus! {

/// An adapter as the chat workflow uses it.
#[derive(Debug)]
pub struct AdapterWithMetadata {
    pub id: i64,
    pub name: String,
    pub path: String,
}

/// Whether a '/'-separated path leaves the directory it is taken relative
/// to: it is absolute, or one of its components is `..`.
pub open spec fn escapes_root(path: Seq<char>) -> bool {
    (path.len() > 0 && path[0] == '/') || split_char(path, '/').contains(".."@)
}

/// `relative` taken under `root`, with one separator between them.
pub open spec fn joined_path(root: Seq<char>, relative: Seq<char>) -> Seq<char> {
    if root.len() == 0 || root.last() == '/' {
        root + relative
    } else {
        root + "/"@ + relative
    }
}

/// The message for an adapter path that leaves the project root.
pub open spec fn escaping_path_message(path: Seq<char>) -> Seq<char> {
    "Adapter path '"@ + path + "' must stay inside the project root"@
}

fn contains_parent_component(pieces: &Vec<String>) -> (b: bool)
    ensures
        b == texts(pieces@).contains(".."@),
{
    let parent = "..".to_string();
    let mut i: usize = 0;
    while i < pieces.len()
        invariant
            i <= pieces@.len(),
            parent@ == ".."@,
            forall|j: int| 0 <= j < i ==> pieces@[j]@ != ".."@,
        decreases pieces@.len() - i,
    {
        if pieces[i] == parent {
            assert(texts(pieces@)[i as int] == ".."@);
            return true;
        }
        i += 1;
    }
    assert forall|j: int| 0 <= j < texts(pieces@).len() implies texts(pieces@)[j] != ".."@ by {}
    false
}

/// The location of an adapter's files: `adapter_path` under `project_root`,
/// refused (400) when it would leave the project root.
pub fn resolve_adapter_path(project_root: &str, adapter_path: &str) -> (r: Result<String, AppError>)
    ensures
        match r {
            Ok(p) => !escapes_root(adapter_path@) && p@ == joined_path(project_root@, adapter_path@),
            Err(e) => escapes_root(adapter_path@) && e.status == BAD_REQUEST && e.message@
                == escaping_path_message(adapter_path@),
        },
{
    let v = chars_of(adapter_path);
    let absolute = v.len() > 0 && v[0] == '/';
    let pieces = split_on(adapter_path, '/');
    if absolute || contains_parent_component(&pieces) {
        return Err(
            AppError::new(
                BAD_REQUEST,
                concat3("Adapter path '", adapter_path, "' must stay inside the project root"),
            ),
        );
    }
    let root = chars_of(project_root);
    if root.len() == 0 || root[root.len() - 1] == '/' {
        Ok(concat2(project_root, adapter_path))
    } else {
        Ok(concat3(project_root, "/", adapter_path))
    }
}


/// A resolved adapter location lies under the project root: it starts with
/// the root, and what follows is the adapter's relative path, after one
/// separator where the root does not end with one.
pub proof fn law_resolved_path_stays_under_root(root: Seq<char>, relative: Seq<char>)
    requires
        !escapes_root(relative),
    ensures
        has_prefix(joined_path(root, relative), root),
        joined_path(root, relative).skip(root.len() as int) == relative
            || joined_path(root, relative).skip(root.len() as int) == "/"@ + relative,
{
    let p = joined_path(root, relative);
    if root.len() == 0 || root.last() == '/' {
        assert(p.take(root.len() as int) =~= root);
        assert(p.skip(root.len() as int) =~= relative);
    } else {
        assert(p.take(root.len() as int) =~= root);
        assert(p.skip(root.len() as int) =~= "/"@ + relative);
    }
}


/// An adapter path leaves the project root exactly when it is absolute or
/// one of its `/`-separated components is `..`; any other path resolves to
/// its place under the root, with exactly one separator between them.
pub proof fn law_adapter_path_escapes(root: Seq<char>, path: Seq<char>)
    ensures
        escapes_root(path) <==> ((path.len() > 0 && path[0] == '/') || exists|i: int|
            0 <= i < split_char(path, '/').len() && #[trigger] split_char(path, '/')[i] == ".."@),
        !escapes_root(path) && root.len() > 0 && root.last() != '/' ==> joined_path(root, path)
            == root + "/"@ + path,
        !escapes_root(path) && (root.len() == 0 || root.last() == '/') ==> joined_path(root, path)
            == root + path,
{
    if split_char(path, '/').contains(".."@) {
        let i = choose|i: int| 0 <= i < split_char(path, '/').len() && split_char(path, '/')[i] == ".."@;
    }
}

/// A path made of characters other than `/` and `.` never leaves the
/// project root.
pub proof fn law_plain_path_stays(path: Seq<char>)
    requires
        forall|i: int| 0 <= i < path.len() ==> #[trigger] path[i] != '/' && path[i] != '.',
    ensures
        !escapes_root(path),
{
    lemma_split_without_separator(path, '/');
    reveal_strlit("..");
    if path.len() == 2 {
        assert(path[0] != ".."@[0]);
    }
    assert(path != ".."@) by {
        if path.len() == 2 {
            assert(path[0] != ".."@[0]);
        }
    }
}

} // verus!
