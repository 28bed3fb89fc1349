//! Compile entries: one record per retained source file, holding the working
//! directory, the file path, and the full argument vector with the selected
//! compiler prepended.

use crate::arguments::append_all;
use crate::arguments::assemble_arguments;
use crate::arguments::folder_arguments;
use crate::arguments::include_args;
use crate::paths::is_cpp_path;
use crate::paths::spec_is_cpp_path;
use crate::resolve::merged_exclude_set;
use crate::resolve::merged_source_list;
use crate::resolve::resolve_folder_sources;
use crate::settings::FolderSettings;
use crate::settings::FolderView;
use crate::settings::WorkspaceSettings;
use crate::settings::WorkspaceView;
use vstd::prelude::*;

verus! {

/// Mathematical image of [`CompileEntry`].
#[verifier::ext_equal]
pub ghost struct EntryView {
    pub directory: Seq<char>,
    pub file: Seq<char>,
    pub arguments: Seq<Seq<char>>,
}

/// One record of the compilation database: how one source file would be
/// compiled. Built once and never mutated afterwards.
pub struct CompileEntry {
    pub directory: String,
    pub file: String,
    pub arguments: Vec<String>,
}

impl View for CompileEntry {
    type V = EntryView;

    open spec fn view(&self) -> EntryView {
        EntryView {
            directory: self.directory@,
            file: self.file@,
            arguments: self.arguments.deep_view(),
        }
    }
}

impl DeepView for CompileEntry {
    type V = EntryView;

    open spec fn deep_view(&self) -> EntryView {
        self.view()
    }
}

/// The compiler selected for a file: the C++ compiler for a path ending in
/// `.cpp`, `.cxx` or `.cc`, the C compiler for every other path.
pub open spec fn compiler_for(w: WorkspaceView, file: Seq<char>) -> Seq<char> {
    if spec_is_cpp_path(file) {
        w.cpp_compiler_path
    } else {
        w.c_compiler_path
    }
}

/// The compile entry of one retained source file of one folder.
pub open spec fn entry_for(w: WorkspaceView, f: FolderView, file: Seq<char>) -> EntryView {
    EntryView {
        directory: w.root_folder_path,
        file: file,
        arguments: seq![compiler_for(w, file)] + folder_arguments(w, f),
    }
}

/// The compile entries of one folder, one per source file, in source order.
pub open spec fn entries_for(w: WorkspaceView, f: FolderView, files: Seq<Seq<char>>) -> Seq<
    EntryView,
> {
    files.map_values(|p: Seq<char>| entry_for(w, f, p))
}

/// What holds of every entry a folder produces: the workspace root as its
/// directory, and an argument vector that is exactly the selected compiler
/// followed by the folder's shared argument vector.
pub open spec fn entry_wf(w: WorkspaceView, f: FolderView, e: EntryView) -> bool {
    &&& e.directory == w.root_folder_path
    &&& e.arguments == seq![compiler_for(w, e.file)] + folder_arguments(w, f)
}

/// The entries a folder may hand to the output list, whatever the filesystem
/// held: every entry well formed, no file listed twice, and the whole list
/// derived from expansions of the folder's merged exclude and source pattern
/// lists, one expansion per pattern.
pub open spec fn folder_output_ok(w: WorkspaceView, f: FolderView, es: Seq<EntryView>) -> bool {
    &&& forall|i: int| 0 <= i < es.len() ==> entry_wf(w, f, #[trigger] es[i])
    &&& forall|i: int, j: int| 0 <= i < j < es.len() ==> es[i].file != es[j].file
    &&& exists|ex: Seq<Seq<Seq<char>>>, sl: Seq<Seq<Seq<char>>>|
        ex.len() == w.exclude_pattern.len() + f.exclude_pattern.len() && sl.len()
            == w.src_pattern.len() + f.src_pattern.len() && es
            == #[trigger] folder_entries_from_expansions(w, f, ex, sl)
}

/// The entries of one folder as a function of the settings and the pattern
/// expansions alone: the exclude expansions are merged into the exclude-set
/// first, the source expansions are then filtered against it, and each
/// retained file yields one entry, in discovery order.
pub open spec fn folder_entries_from_expansions(
    w: WorkspaceView,
    f: FolderView,
    excl_lists: Seq<Seq<Seq<char>>>,
    src_lists: Seq<Seq<Seq<char>>>,
) -> Seq<EntryView> {
    entries_for(w, f, merged_source_list(src_lists, merged_exclude_set(excl_lists)))
}

/// Builds the compile entry for one source file: the shared folder argument
/// vector is copied into a new vector with the selected compiler prepended,
/// so no entry ever mutates the shared vector.
pub fn build_entry(
    ws: &WorkspaceSettings,
    folder: &FolderSettings,
    shared_args: &Vec<String>,
    file: String,
) -> (r: CompileEntry)
    requires
        shared_args.deep_view() == folder_arguments(ws@, folder@),
    ensures
        r@ == entry_for(ws@, folder@, file@),
{
    let mut arguments: Vec<String> = Vec::new();
    if is_cpp_path(file.as_str()) {
        arguments.push(ws.cpp_compiler_path.clone());
    } else {
        arguments.push(ws.c_compiler_path.clone());
    }
    proof {
        assert(arguments.deep_view() =~= seq![compiler_for(ws@, file@)]);
    }
    append_all(&mut arguments, shared_args);
    let r = CompileEntry { directory: ws.root_folder_path.clone(), file, arguments };
    proof {
        assert(r@ =~= entry_for(ws@, folder@, r.file@));
    }
    r
}

/// Builds one compile entry per source file, in source order, all sharing one
/// folder argument vector by value.
pub fn entries_for_folder(
    ws: &WorkspaceSettings,
    folder: &FolderSettings,
    shared_args: &Vec<String>,
    files: &Vec<String>,
) -> (r: Vec<CompileEntry>)
    requires
        shared_args.deep_view() == folder_arguments(ws@, folder@),
    ensures
        r.deep_view() == entries_for(ws@, folder@, files.deep_view()),
{
    let mut r: Vec<CompileEntry> = Vec::new();
    proof {
        assert(r.deep_view() =~= entries_for(ws@, folder@, files.deep_view().take(0)));
    }
    let mut i: usize = 0;
    while i < files.len()
        invariant
            i <= files.len(),
            shared_args.deep_view() == folder_arguments(ws@, folder@),
            r.deep_view() == entries_for(ws@, folder@, files.deep_view().take(i as int)),
        decreases files.len() - i,
    {
        let ghost before = r.deep_view();
        let entry = build_entry(ws, folder, shared_args, files[i].clone());
        r.push(entry);
        proof {
            assert(r.deep_view() =~= before.push(entry_for(ws@, folder@, files.deep_view()[i as int])));
            assert(entries_for(ws@, folder@, files.deep_view().take(i + 1 as int)) =~= entries_for(
                ws@,
                folder@,
                files.deep_view().take(i as int),
            ).push(entry_for(ws@, folder@, files.deep_view()[i as int])));
        }
        i += 1;
    }
    proof {
        assert(files.deep_view().take(files.len() as int) =~= files.deep_view());
    }
    r
}

/// Resolves one folder against the filesystem and builds its compile entries:
/// exclude-set first, then the filtered source list, then one entry per file.
pub fn process_folder(ws: &WorkspaceSettings, folder: &FolderSettings) -> (r: Vec<CompileEntry>)
    ensures
        folder_output_ok(ws@, folder@, r.deep_view()),
{
    let resolved = resolve_folder_sources(ws, folder);
    let shared_args = assemble_arguments(ws, folder);
    let r = entries_for_folder(ws, folder, &shared_args, &resolved.0);
    proof {
        let files = resolved.0.deep_view();
        let es = r.deep_view();
        assert forall|i: int| 0 <= i < es.len() implies entry_wf(ws@, folder@, #[trigger] es[i]) by {
            assert(es[i] == entry_for(ws@, folder@, files[i]));
        }
        assert forall|i: int, j: int| 0 <= i < j < es.len() implies es[i].file != es[j].file by {
            assert(es[i] == entry_for(ws@, folder@, files[i]));
            assert(es[j] == entry_for(ws@, folder@, files[j]));
        }
        let (ex, sl) = choose|ex: Seq<Seq<Seq<char>>>, sl: Seq<Seq<Seq<char>>>|
            ex.len() == ws@.exclude_pattern.len() + folder@.exclude_pattern.len() && sl.len()
                == ws@.src_pattern.len() + folder@.src_pattern.len() && resolved.1.deep_view()
                == #[trigger] merged_exclude_set(ex) && resolved.0.deep_view()
                == #[trigger] merged_source_list(sl, resolved.1.deep_view());
        assert(es == folder_entries_from_expansions(ws@, folder@, ex, sl));
    }
    r
}

/// Builds the full ordered output list: the entries of each declared folder,
/// in folder-declaration order, each folder's entries in file-discovery order.
pub fn generate_entries(ws: &WorkspaceSettings, folders: &Vec<FolderSettings>) -> (r: Vec<
    CompileEntry,
>)
    ensures
        forall|i: int|
            0 <= i < r.deep_view().len() ==> (#[trigger] r.deep_view()[i]).directory
                == ws@.root_folder_path,
        exists|parts: Seq<Seq<EntryView>>|
            {
                &&& parts.len() == folders@.len()
                &&& r.deep_view() == #[trigger] parts.flatten()
                &&& forall|k: int|
                    0 <= k < parts.len() ==> folder_output_ok(
                        ws@,
                        folders.deep_view()[k],
                        #[trigger] parts[k],
                    )
            },
{
    let mut r: Vec<CompileEntry> = Vec::new();
    let ghost mut parts: Seq<Seq<EntryView>> = Seq::<Seq<EntryView>>::empty();
    proof {
        assert(parts.flatten() == Seq::<EntryView>::empty());
        assert(r.deep_view() =~= Seq::<EntryView>::empty());
    }
    let mut k: usize = 0;
    while k < folders.len()
        invariant
            k <= folders.len(),
            parts.len() == k,
            r.deep_view() == parts.flatten(),
            forall|i: int|
                0 <= i < r.deep_view().len() ==> (#[trigger] r.deep_view()[i]).directory
                    == ws@.root_folder_path,
            forall|j: int|
                0 <= j < k ==> folder_output_ok(ws@, folders.deep_view()[j], #[trigger] parts[j]),
        decreases folders.len() - k,
    {
        let mut es = process_folder(ws, &folders[k]);
        let ghost es_view = es.deep_view();
        let ghost before = r.deep_view();
        r.append(&mut es);
        proof {
            parts.lemma_flatten_push(es_view);
            parts = parts.push(es_view);
            assert(r.deep_view() =~= before + es_view);
        }
        k += 1;
    }
    proof {
        assert(parts.len() == folders@.len());
        assert(r.deep_view() == parts.flatten());
    }
    r
}

/// The entries of one folder stand in file-discovery order: the `i`-th entry
/// describes the `i`-th retained source file, and the output of the whole run
/// concatenates the folders' entries in declaration order.
pub proof fn lemma_entries_in_discovery_order(
    w: WorkspaceView,
    f: FolderView,
    files: Seq<Seq<char>>,
)
    ensures
        entries_for(w, f, files).len() == files.len(),
        forall|i: int| 0 <= i < files.len() ==> #[trigger] entries_for(w, f, files)[i].file
            == files[i],
{
}

/// A file ending in `.cpp`, `.cxx` or `.cc` gets an argument vector starting
/// with the C++ compiler path; every other file gets the C compiler path.
pub proof fn lemma_compiler_selection(w: WorkspaceView, f: FolderView, file: Seq<char>)
    ensures
        entry_for(w, f, file).arguments.len() >= 1,
        spec_is_cpp_path(file) ==> entry_for(w, f, file).arguments[0] == w.cpp_compiler_path,
        !spec_is_cpp_path(file) ==> entry_for(w, f, file).arguments[0] == w.c_compiler_path,
{
}

/// The argument vector of an entry is exactly: compiler, the workspace-level
/// forced-include tokens, the folder-level forced-include tokens, the
/// workspace-level compile flags, the folder-level compile flags, in order.
pub proof fn lemma_argument_layout(w: WorkspaceView, f: FolderView, file: Seq<char>)
    ensures
        entry_for(w, f, file).arguments == seq![compiler_for(w, file)] + include_args(
            w.include_folders,
        ) + include_args(f.include_folders) + w.compile_flags + f.compile_flags,
{
    assert(entry_for(w, f, file).arguments =~= seq![compiler_for(w, file)] + include_args(
        w.include_folders,
    ) + include_args(f.include_folders) + w.compile_flags + f.compile_flags);
}

/// Excludes win, seen from the output: a path that stands in the merged
/// exclude-set is never the file of any compile entry the folder produces,
/// no matter how many source patterns match it.
pub proof fn lemma_excluded_file_never_listed(
    w: WorkspaceView,
    f: FolderView,
    excl_lists: Seq<Seq<Seq<char>>>,
    src_lists: Seq<Seq<Seq<char>>>,
    p: Seq<char>,
)
    requires
        merged_exclude_set(excl_lists).contains(p),
    ensures
        forall|i: int|
            0 <= i < folder_entries_from_expansions(w, f, excl_lists, src_lists).len()
                ==> #[trigger] folder_entries_from_expansions(w, f, excl_lists, src_lists)[i].file
                != p,
{
    let excl = merged_exclude_set(excl_lists);
    let files = merged_source_list(src_lists, excl);
    crate::resolve::lemma_excludes_win(src_lists, excl, p);
    assert forall|i: int|
        0 <= i < folder_entries_from_expansions(w, f, excl_lists, src_lists).len() implies #[trigger] folder_entries_from_expansions(
        w,
        f,
        excl_lists,
        src_lists,
    )[i].file != p by {
        assert(folder_entries_from_expansions(w, f, excl_lists, src_lists)[i].file == files[i]);
        if files[i] == p {
            assert(files.contains(p));
        }
    }
}

/// The engine is a pure function of the configuration and the pattern
/// expansions: two runs over an unchanged configuration and filesystem
/// produce identical entry lists.
pub proof fn lemma_run_deterministic(
    w1: WorkspaceView,
    f1: FolderView,
    excl1: Seq<Seq<Seq<char>>>,
    src1: Seq<Seq<Seq<char>>>,
    w2: WorkspaceView,
    f2: FolderView,
    excl2: Seq<Seq<Seq<char>>>,
    src2: Seq<Seq<Seq<char>>>,
)
    requires
        w1 == w2,
        f1 == f2,
        excl1 == excl2,
        src1 == src2,
    ensures
        folder_entries_from_expansions(w1, f1, excl1, src1) == folder_entries_from_expansions(
            w2,
            f2,
            excl2,
            src2,
        ),
{
}

} // verus!
