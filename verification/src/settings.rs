//! Typed representation of the layered configuration: workspace-wide settings
//! and per-folder settings. Every field defaults to empty when absent from the
//! configuration.

use vstd::prelude::*;
use vstd::string::StringExecFns;

verus! {

/// One indented line per list entry, each closed by a newline.
pub open spec fn listed_lines(items: Seq<Seq<char>>) -> Seq<char>
    decreases items.len(),
{
    if items.len() == 0 {
        Seq::<char>::empty()
    } else {
        "  "@ + items[0] + "\n"@ + listed_lines(items.drop_first())
    }
}

proof fn lemma_listed_lines_snoc(items: Seq<Seq<char>>, x: Seq<char>)
    ensures
        listed_lines(items.push(x)) == listed_lines(items) + ("  "@ + x + "\n"@),
    decreases items.len(),
{
    let whole = items.push(x);
    if items.len() == 0 {
        assert(whole[0] == x);
        assert(whole.drop_first() =~= Seq::<Seq<char>>::empty());
        assert(listed_lines(whole.drop_first()) == Seq::<char>::empty());
        assert(listed_lines(whole) =~= listed_lines(items) + ("  "@ + x + "\n"@));
    } else {
        assert(whole[0] == items[0]);
        assert(whole.drop_first() =~= items.drop_first().push(x));
        lemma_listed_lines_snoc(items.drop_first(), x);
        assert(listed_lines(whole) =~= listed_lines(items) + ("  "@ + x + "\n"@));
    }
}

/// Appends one indented line per entry of `items` to `out`.
fn append_listed_lines(out: &mut String, items: &Vec<String>)
    ensures
        final(out)@ == old(out)@ + listed_lines(items.deep_view()),
{
    let ghost orig = old(out)@;
    proof {
        assert(items.deep_view().take(0) =~= Seq::<Seq<char>>::empty());
        assert(orig + listed_lines(items.deep_view().take(0)) =~= orig);
    }
    let mut i: usize = 0;
    while i < items.len()
        invariant
            i <= items.len(),
            out@ == orig + listed_lines(items.deep_view().take(i as int)),
        decreases items.len() - i,
    {
        out.append("  ");
        out.append(items[i].as_str());
        out.append("\n");
        proof {
            lemma_listed_lines_snoc(items.deep_view().take(i as int), items.deep_view()[i as int]);
            assert(items.deep_view().take(i as int).push(items.deep_view()[i as int])
                =~= items.deep_view().take(i + 1 as int));
            assert(out@ =~= orig + listed_lines(items.deep_view().take(i + 1 as int)));
        }
        i += 1;
    }
    proof {
        assert(items.deep_view().take(items.len() as int) =~= items.deep_view());
    }
}

/// Mathematical image of [`WorkspaceSettings`]: every string as a `Seq<char>`.
pub ghost struct WorkspaceView {
    pub c_compiler_path: Seq<char>,
    pub cpp_compiler_path: Seq<char>,
    pub root_folder_path: Seq<char>,
    pub src_pattern: Seq<Seq<char>>,
    pub exclude_pattern: Seq<Seq<char>>,
    pub include_folders: Seq<Seq<char>>,
    pub compile_flags: Seq<Seq<char>>,
}

/// Settings that apply to every folder of the workspace.
#[derive(Debug)]
pub struct WorkspaceSettings {
    pub c_compiler_path: String,
    pub cpp_compiler_path: String,
    pub root_folder_path: String,
    pub src_pattern: Vec<String>,
    pub exclude_pattern: Vec<String>,
    pub include_folders: Vec<String>,
    pub compile_flags: Vec<String>,
}

impl View for WorkspaceSettings {
    type V = WorkspaceView;

    open spec fn view(&self) -> WorkspaceView {
        WorkspaceView {
            c_compiler_path: self.c_compiler_path@,
            cpp_compiler_path: self.cpp_compiler_path@,
            root_folder_path: self.root_folder_path@,
            src_pattern: self.src_pattern.deep_view(),
            exclude_pattern: self.exclude_pattern.deep_view(),
            include_folders: self.include_folders.deep_view(),
            compile_flags: self.compile_flags.deep_view(),
        }
    }
}

/// The view of workspace settings with every field empty.
pub open spec fn empty_workspace_view() -> WorkspaceView {
    WorkspaceView {
        c_compiler_path: Seq::<char>::empty(),
        cpp_compiler_path: Seq::<char>::empty(),
        root_folder_path: Seq::<char>::empty(),
        src_pattern: Seq::<Seq<char>>::empty(),
        exclude_pattern: Seq::<Seq<char>>::empty(),
        include_folders: Seq::<Seq<char>>::empty(),
        compile_flags: Seq::<Seq<char>>::empty(),
    }
}

impl WorkspaceSettings {
    /// Workspace settings with every field empty, the default for a
    /// configuration that declares nothing.
    pub fn empty() -> (r: WorkspaceSettings)
        ensures
            r@ == empty_workspace_view(),
    {
        let r = WorkspaceSettings {
            c_compiler_path: String::new(),
            cpp_compiler_path: String::new(),
            root_folder_path: String::new(),
            src_pattern: Vec::new(),
            exclude_pattern: Vec::new(),
            include_folders: Vec::new(),
            compile_flags: Vec::new(),
        };
        proof {
            assert(r.src_pattern.deep_view() =~= Seq::<Seq<char>>::empty());
            assert(r.exclude_pattern.deep_view() =~= Seq::<Seq<char>>::empty());
            assert(r.include_folders.deep_view() =~= Seq::<Seq<char>>::empty());
            assert(r.compile_flags.deep_view() =~= Seq::<Seq<char>>::empty());
        }
        r
    }
}

impl Default for WorkspaceSettings {
    /// The settings of a configuration that declares nothing: every field
    /// empty.
    fn default() -> (r: WorkspaceSettings)
        ensures
            r@ == empty_workspace_view(),
    {
        WorkspaceSettings::empty()
    }
}

/// The human-readable dump of the workspace settings: a banner, one labelled
/// line per scalar field, and one labelled block per list.
pub open spec fn workspace_description(w: WorkspaceView) -> Seq<char> {
    "================workspace settings===================\n"@ + "c_compiler_path : "@
        + w.c_compiler_path + "\n"@ + "cpp_compiler_path : "@ + w.cpp_compiler_path + "\n"@
        + "root_folder : "@ + w.root_folder_path + "\n"@ + "src_pattern:\n"@ + listed_lines(
        w.src_pattern,
    ) + "exclude_pattern:\n"@ + listed_lines(w.exclude_pattern) + "include_folders:\n"@
        + listed_lines(w.include_folders) + "compile_flags:\n"@ + listed_lines(w.compile_flags)
}

impl WorkspaceSettings {
    /// Renders the human-readable dump of these settings. Pure: the caller
    /// decides whether and where to print it.
    pub fn describe(&self) -> (r: String)
        ensures
            r@ == workspace_description(self@),
    {
        let mut out: String = "================workspace settings===================\n".to_owned();
        out.append("c_compiler_path : ");
        out.append(self.c_compiler_path.as_str());
        out.append("\n");
        out.append("cpp_compiler_path : ");
        out.append(self.cpp_compiler_path.as_str());
        out.append("\n");
        out.append("root_folder : ");
        out.append(self.root_folder_path.as_str());
        out.append("\n");
        out.append("src_pattern:\n");
        append_listed_lines(&mut out, &self.src_pattern);
        out.append("exclude_pattern:\n");
        append_listed_lines(&mut out, &self.exclude_pattern);
        out.append("include_folders:\n");
        append_listed_lines(&mut out, &self.include_folders);
        out.append("compile_flags:\n");
        append_listed_lines(&mut out, &self.compile_flags);
        proof {
            assert(out@ =~= workspace_description(self@));
        }
        out
    }
}

/// Mathematical image of [`FolderSettings`].
pub ghost struct FolderView {
    pub folder_path: Seq<char>,
    pub src_pattern: Seq<Seq<char>>,
    pub exclude_pattern: Seq<Seq<char>>,
    pub include_folders: Seq<Seq<char>>,
    pub compile_flags: Seq<Seq<char>>,
}

/// Settings scoped to one declared source folder; when merged, each list is
/// appended after the corresponding workspace-level list.
#[derive(Debug)]
pub struct FolderSettings {
    pub folder_path: String,
    pub src_pattern: Vec<String>,
    pub exclude_pattern: Vec<String>,
    pub include_folders: Vec<String>,
    pub compile_flags: Vec<String>,
}

impl View for FolderSettings {
    type V = FolderView;

    open spec fn view(&self) -> FolderView {
        FolderView {
            folder_path: self.folder_path@,
            src_pattern: self.src_pattern.deep_view(),
            exclude_pattern: self.exclude_pattern.deep_view(),
            include_folders: self.include_folders.deep_view(),
            compile_flags: self.compile_flags.deep_view(),
        }
    }
}

/// The human-readable dump of one folder's settings.
pub open spec fn folder_description(f: FolderView) -> Seq<char> {
    "================folder settings===================\n"@ + "folder_path : "@ + f.folder_path
        + "\n"@ + "src_pattern:\n"@ + listed_lines(f.src_pattern) + "exclude_pattern:\n"@
        + listed_lines(f.exclude_pattern) + "include_folders:\n"@ + listed_lines(f.include_folders)
        + "compile_flags:\n"@ + listed_lines(f.compile_flags)
}

impl FolderSettings {
    /// Renders the human-readable dump of these settings. Pure: the caller
    /// decides whether and where to print it.
    pub fn describe(&self) -> (r: String)
        ensures
            r@ == folder_description(self@),
    {
        let mut out: String = "================folder settings===================\n".to_owned();
        out.append("folder_path : ");
        out.append(self.folder_path.as_str());
        out.append("\n");
        out.append("src_pattern:\n");
        append_listed_lines(&mut out, &self.src_pattern);
        out.append("exclude_pattern:\n");
        append_listed_lines(&mut out, &self.exclude_pattern);
        out.append("include_folders:\n");
        append_listed_lines(&mut out, &self.include_folders);
        out.append("compile_flags:\n");
        append_listed_lines(&mut out, &self.compile_flags);
        proof {
            assert(out@ =~= folder_description(self@));
        }
        out
    }
}

impl DeepView for FolderSettings {
    type V = FolderView;

    open spec fn deep_view(&self) -> FolderView {
        self.view()
    }
}

/// The view of folder settings with every field empty.
pub open spec fn empty_folder_view() -> FolderView {
    FolderView {
        folder_path: Seq::<char>::empty(),
        src_pattern: Seq::<Seq<char>>::empty(),
        exclude_pattern: Seq::<Seq<char>>::empty(),
        include_folders: Seq::<Seq<char>>::empty(),
        compile_flags: Seq::<Seq<char>>::empty(),
    }
}

impl FolderSettings {
    /// Folder settings with every field empty.
    pub fn empty() -> (r: FolderSettings)
        ensures
            r@ == empty_folder_view(),
    {
        let r = FolderSettings {
            folder_path: String::new(),
            src_pattern: Vec::new(),
            exclude_pattern: Vec::new(),
            include_folders: Vec::new(),
            compile_flags: Vec::new(),
        };
        proof {
            assert(r.src_pattern.deep_view() =~= Seq::<Seq<char>>::empty());
            assert(r.exclude_pattern.deep_view() =~= Seq::<Seq<char>>::empty());
            assert(r.include_folders.deep_view() =~= Seq::<Seq<char>>::empty());
            assert(r.compile_flags.deep_view() =~= Seq::<Seq<char>>::empty());
        }
        r
    }
}

impl Default for FolderSettings {
    /// The settings of a folder that declares nothing but its place: every
    /// field empty.
    fn default() -> (r: FolderSettings)
        ensures
            r@ == empty_folder_view(),
    {
        FolderSettings::empty()
    }
}

} // verus!
