//! What is known of a tool.

use vstd::prelude::*;
use vstd::string::*;

use crate::json::{Json, JsonView};
use crate::provider::{ToolDeclaration, ToolDeclarationView};

verus! {

broadcast use vstd::string::group_string_axioms;

/// Whether a tool works through an outside service, of which only so many calls
/// run at once, or here.
#[derive(Debug, Clone, Copy, PartialEq, Eq, Structural)]
pub enum ToolCategory {
    Remote,
    Local,
}

/// A tool: how a model is told of it, and how its calls are treated.
#[derive(Debug)]
pub struct ToolInfo {
    pub name: String,
    pub description: String,
    pub input_schema: Json,
    /// Whether a round waits for its result, where the call does not say.
    pub default_wait: bool,
    /// Whether its success ends the chat.
    pub terminal: bool,
    /// Whether it calls another agent.
    pub depth_limited: bool,
    pub category: ToolCategory,
}

pub struct ToolInfoView {
    pub name: Seq<char>,
    pub description: Seq<char>,
    pub input_schema: JsonView,
    pub default_wait: bool,
    pub terminal: bool,
    pub depth_limited: bool,
    pub category: ToolCategory,
}

impl DeepView for ToolInfo {
    type V = ToolInfoView;

    open spec fn deep_view(&self) -> ToolInfoView {
        ToolInfoView {
            name: self.name@,
            description: self.description@,
            input_schema: self.input_schema.deep_view(),
            default_wait: self.default_wait,
            terminal: self.terminal,
            depth_limited: self.depth_limited,
            category: self.category,
        }
    }
}

impl ToolInfoView {
    /// How a model is told of the tool.
    pub open spec fn declaration(self) -> ToolDeclarationView {
        ToolDeclarationView {
            name: self.name,
            description: self.description,
            parameters: self.input_schema,
        }
    }
}

impl Clone for ToolInfo {
    fn clone(&self) -> (r: Self)
        ensures
            r.deep_view() == self.deep_view(),
    {
        ToolInfo {
            name: self.name.clone(),
            description: self.description.clone(),
            input_schema: self.input_schema.clone(),
            default_wait: self.default_wait,
            terminal: self.terminal,
            depth_limited: self.depth_limited,
            category: self.category,
        }
    }
}

impl ToolInfo {
    /// A tool with nothing special: its calls are dispatched, through an outside
    /// service.
    pub fn new(name: &str, description: &str, input_schema: Json) -> (r: ToolInfo)
        ensures
            r.deep_view() == (ToolInfoView {
                name: name@,
                description: description@,
                input_schema: input_schema.deep_view(),
                default_wait: false,
                terminal: false,
                depth_limited: false,
                category: ToolCategory::Remote,
            }),
    {
        ToolInfo {
            name: name.to_owned(),
            description: description.to_owned(),
            input_schema,
            default_wait: false,
            terminal: false,
            depth_limited: false,
            category: ToolCategory::Remote,
        }
    }

    /// How a model is told of the tool.
    pub fn to_declaration(&self) -> (r: ToolDeclaration)
        ensures
            r.deep_view() == self.deep_view().declaration(),
    {
        ToolDeclaration {
            name: self.name.clone(),
            description: self.description.clone(),
            parameters: self.input_schema.clone(),
        }
    }
}

/// Why a tool call failed.
#[derive(Debug, PartialEq, Eq)]
pub enum ToolError {
    /// The tool says so itself.
    Execution(String),
    Timeout,
    Panic(String),
}

pub enum ToolErrorView {
    Execution(Seq<char>),
    Timeout,
    Panic(Seq<char>),
}

impl DeepView for ToolError {
    type V = ToolErrorView;

    open spec fn deep_view(&self) -> ToolErrorView {
        match *self {
            ToolError::Execution(s) => ToolErrorView::Execution(s@),
            ToolError::Timeout => ToolErrorView::Timeout,
            ToolError::Panic(s) => ToolErrorView::Panic(s@),
        }
    }
}

impl ToolErrorView {
    /// The failure in words.
    pub open spec fn message(self) -> Seq<char> {
        match self {
            ToolErrorView::Execution(s) => "tool execution failed: "@ + s,
            ToolErrorView::Timeout => "tool execution timed out"@,
            ToolErrorView::Panic(s) => "tool panicked: "@ + s,
        }
    }
}

impl ToolError {
    /// The failure in words.
    pub fn message(&self) -> (r: String)
        ensures
            r@ == self.deep_view().message(),
    {
        match self {
            ToolError::Execution(s) => {
                let mut t = "tool execution failed: ".to_owned();
                t.append(s.as_str());
                t
            },
            ToolError::Timeout => "tool execution timed out".to_owned(),
            ToolError::Panic(s) => {
                let mut t = "tool panicked: ".to_owned();
                t.append(s.as_str());
                t
            },
        }
    }
}

} // verus!
