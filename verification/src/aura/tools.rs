//! The tools that an instance gets.

use vstd::prelude::*;
use vstd::string::*;

use crate::provider::copy_opt;

verus! {

broadcast use vstd::string::group_string_axioms;

/// The most characters that one reading of a file can ask for.
pub const MAX_READ_CHARS: usize = 20_000;

/// What the tools on files may reach.
#[derive(Debug)]
pub struct FsToolConfig {
    /// The directory that is the workspace.
    pub root: Option<String>,
    pub max_file_bytes: u64,
    /// How many characters are read unless more or fewer are asked for.
    pub default_limit_chars: usize,
}

pub struct FsToolConfigView {
    pub root: Option<Seq<char>>,
    pub max_file_bytes: u64,
    pub default_limit_chars: usize,
}

impl DeepView for FsToolConfig {
    type V = FsToolConfigView;

    open spec fn deep_view(&self) -> FsToolConfigView {
        FsToolConfigView {
            root: self.root.deep_view(),
            max_file_bytes: self.max_file_bytes,
            default_limit_chars: self.default_limit_chars,
        }
    }
}

/// The tools that a specification asks for.
#[derive(Debug)]
pub struct InstanceTools {
    /// Tools on files, if any.
    pub fs: Option<FsToolConfig>,
    /// Tools on artifacts.
    pub artifact: bool,
}

pub struct InstanceToolsView {
    pub fs: Option<FsToolConfigView>,
    pub artifact: bool,
}

impl DeepView for InstanceTools {
    type V = InstanceToolsView;

    open spec fn deep_view(&self) -> InstanceToolsView {
        InstanceToolsView { fs: self.fs.deep_view(), artifact: self.artifact }
    }
}

/// The bounds of the tool that reads files.
#[derive(Debug)]
pub struct ReadToolConfig {
    pub default_limit_chars: usize,
    pub max_limit_chars: usize,
    pub max_file_bytes: u64,
    pub root: Option<String>,
}

/// The bounds of the tools that write files.
#[derive(Debug)]
pub struct FsConfig {
    pub max_file_bytes: u64,
    pub root: Option<String>,
}

/// Tools that are registered together.
#[derive(Debug)]
pub enum ToolSet {
    Read(ReadToolConfig),
    Write(FsConfig),
    Artifacts,
}

#[allow(inconsistent_fields)]
pub enum ToolSetView {
    Read {
        default_limit_chars: usize,
        max_limit_chars: usize,
        max_file_bytes: u64,
        root: Option<Seq<char>>,
    },
    Write { max_file_bytes: u64, root: Option<Seq<char>> },
    Artifacts,
}

impl DeepView for ToolSet {
    type V = ToolSetView;

    open spec fn deep_view(&self) -> ToolSetView {
        match *self {
            ToolSet::Read(c) => ToolSetView::Read {
                default_limit_chars: c.default_limit_chars,
                max_limit_chars: c.max_limit_chars,
                max_file_bytes: c.max_file_bytes,
                root: c.root.deep_view(),
            },
            ToolSet::Write(c) => ToolSetView::Write {
                max_file_bytes: c.max_file_bytes,
                root: c.root.deep_view(),
            },
            ToolSet::Artifacts => ToolSetView::Artifacts,
        }
    }
}

impl ToolSetView {
    /// The workspace of the tools, where they have to do with files.
    pub open spec fn workspace(self) -> Option<Option<Seq<char>>> {
        match self {
            ToolSetView::Read { root, .. } => Some(root),
            ToolSetView::Write { root, .. } => Some(root),
            ToolSetView::Artifacts => None,
        }
    }
}

impl InstanceToolsView {
    /// The sets of tools, in the order in which they are registered: those on files
    /// come first, reading before writing.
    pub open spec fn sets(self) -> Seq<ToolSetView> {
        let files = match self.fs {
            Some(fs) => seq![
                ToolSetView::Read {
                    default_limit_chars: fs.default_limit_chars,
                    max_limit_chars: MAX_READ_CHARS,
                    max_file_bytes: fs.max_file_bytes,
                    root: fs.root,
                },
                ToolSetView::Write { max_file_bytes: fs.max_file_bytes, root: fs.root },
            ],
            None => Seq::empty(),
        };
        if self.artifact {
            files.push(ToolSetView::Artifacts)
        } else {
            files
        }
    }
}

/// The sets of tools to register for an instance.
pub fn register_tools(tools: &InstanceTools) -> (r: Vec<ToolSet>)
    ensures
        r.deep_view() == tools.deep_view().sets(),
{
    let mut sets: Vec<ToolSet> = Vec::new();
    if let Some(fs) = &tools.fs {
        sets.push(
            ToolSet::Read(
                ReadToolConfig {
                    default_limit_chars: fs.default_limit_chars,
                    max_limit_chars: MAX_READ_CHARS,
                    max_file_bytes: fs.max_file_bytes,
                    root: copy_opt(&fs.root),
                },
            ),
        );
        sets.push(
            ToolSet::Write(
                FsConfig { max_file_bytes: fs.max_file_bytes, root: copy_opt(&fs.root) },
            ),
        );
    }
    if tools.artifact {
        sets.push(ToolSet::Artifacts);
    }
    proof {
        assert(sets.deep_view() =~= tools.deep_view().sets());
    }
    sets
}

/// The tools of an instance work on files only where its specification asks for
/// that, and only in the workspace that it names.
pub proof fn law_files_stay_in_the_workspace(tools: InstanceToolsView, i: int)
    requires
        0 <= i < tools.sets().len(),
    ensures
        tools.sets()[i].workspace() matches Some(root) ==> tools.fs matches Some(fs) && root
            == fs.root,
{
}

} // verus!
