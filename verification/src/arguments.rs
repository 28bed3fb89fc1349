//! Assembly of the per-folder compiler argument vector: one forced-include
//! token per include directory (workspace level first, then folder level),
//! followed by the workspace compile flags and then the folder compile flags.

use crate::paths::include_arg;
use crate::paths::make_include_arg;
use crate::settings::FolderSettings;
use crate::settings::FolderView;
use crate::settings::WorkspaceSettings;
use crate::settings::WorkspaceView;
use vstd::prelude::*;

verus! {

/// One forced-include token per directory, in order.
pub open spec fn include_args(dirs: Seq<Seq<char>>) -> Seq<Seq<char>> {
    dirs.map_values(|d: Seq<char>| include_arg(d))
}

/// The argument vector shared by every compile entry of a folder (everything
/// but the leading compiler path): workspace include tokens, folder include
/// tokens, workspace compile flags, folder compile flags, in that order.
pub open spec fn folder_arguments(w: WorkspaceView, f: FolderView) -> Seq<Seq<char>> {
    include_args(w.include_folders) + include_args(f.include_folders) + w.compile_flags
        + f.compile_flags
}

/// Appends a copy of every entry of `items` to `dst`, in order.
pub fn append_all(dst: &mut Vec<String>, items: &Vec<String>)
    ensures
        final(dst).deep_view() == old(dst).deep_view() + items.deep_view(),
{
    let ghost orig = old(dst).deep_view();
    proof {
        assert(orig + items.deep_view().take(0) =~= orig);
    }
    let mut i: usize = 0;
    while i < items.len()
        invariant
            i <= items.len(),
            dst.deep_view() == orig + items.deep_view().take(i as int),
        decreases items.len() - i,
    {
        let ghost before = dst.deep_view();
        dst.push(items[i].clone());
        proof {
            assert(dst.deep_view() =~= before.push(items.deep_view()[i as int]));
            assert(orig + items.deep_view().take(i + 1 as int) =~= (orig + items.deep_view().take(
                i as int,
            )).push(items.deep_view()[i as int]));
        }
        i += 1;
    }
    proof {
        assert(orig + items.deep_view().take(items.len() as int) =~= orig + items.deep_view());
    }
}

/// Appends the forced-include token of every directory of `dirs` to `dst`.
fn append_include_args(dst: &mut Vec<String>, dirs: &Vec<String>)
    ensures
        final(dst).deep_view() == old(dst).deep_view() + include_args(dirs.deep_view()),
{
    let ghost orig = old(dst).deep_view();
    proof {
        assert(orig + include_args(dirs.deep_view().take(0)) =~= orig);
    }
    let mut i: usize = 0;
    while i < dirs.len()
        invariant
            i <= dirs.len(),
            dst.deep_view() == orig + include_args(dirs.deep_view().take(i as int)),
        decreases dirs.len() - i,
    {
        let ghost before = dst.deep_view();
        let token = make_include_arg(dirs[i].as_str());
        dst.push(token);
        proof {
            assert(dst.deep_view() =~= before.push(include_arg(dirs.deep_view()[i as int])));
            assert(orig + include_args(dirs.deep_view().take(i + 1 as int)) =~= (orig
                + include_args(dirs.deep_view().take(i as int))).push(
                include_arg(dirs.deep_view()[i as int]),
            ));
        }
        i += 1;
    }
    proof {
        assert(orig + include_args(dirs.deep_view().take(dirs.len() as int)) =~= orig
            + include_args(dirs.deep_view()));
    }
}

/// Builds the shared argument vector of one folder. It is assembled once per
/// folder and reused, by value, for every compile entry of that folder.
pub fn assemble_arguments(ws: &WorkspaceSettings, folder: &FolderSettings) -> (r: Vec<String>)
    ensures
        r.deep_view() == folder_arguments(ws@, folder@),
{
    let mut r: Vec<String> = Vec::new();
    proof {
        assert(r.deep_view() =~= Seq::<Seq<char>>::empty());
        assert(Seq::<Seq<char>>::empty() + include_args(ws@.include_folders) =~= include_args(
            ws@.include_folders,
        ));
    }
    append_include_args(&mut r, &ws.include_folders);
    append_include_args(&mut r, &folder.include_folders);
    append_all(&mut r, &ws.compile_flags);
    append_all(&mut r, &folder.compile_flags);
    proof {
        assert(r.deep_view() =~= folder_arguments(ws@, folder@));
    }
    r
}

} // verus!
