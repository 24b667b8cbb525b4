//! The tools that are registered: a bounded table by name.

use vstd::prelude::*;
use vstd::string::*;

use crate::provider::{ToolDeclaration, ToolDeclarationView};
use crate::table::{
    drop_key, law_lookup_drop, lemma_absent, lemma_at, lemma_found, lookup, Held, KeyView, Table,
};
use crate::text::{decimal, decimal_text, same};
use crate::tool::definition::{ToolInfo, ToolInfoView};

verus! {

broadcast use vstd::string::group_string_axioms;

/// How many tools may be registered.
#[derive(Debug, Clone, Copy, PartialEq, Eq)]
pub struct RegistryConfig {
    pub max_tools: usize,
}

impl Default for RegistryConfig {
    fn default() -> (r: Self)
        ensures
            r.max_tools == 64,
    {
        RegistryConfig { max_tools: 64 }
    }
}

/// Why a tool was not registered.
#[derive(Debug, PartialEq, Eq)]
pub enum RegistryError {
    Duplicate(String),
    Full(usize),
    NotEnabled,
    TerminalRequiresWait(String),
}

pub enum RegistryErrorView {
    Duplicate(Seq<char>),
    Full(usize),
    NotEnabled,
    TerminalRequiresWait(Seq<char>),
}

impl DeepView for RegistryError {
    type V = RegistryErrorView;

    open spec fn deep_view(&self) -> RegistryErrorView {
        match *self {
            RegistryError::Duplicate(s) => RegistryErrorView::Duplicate(s@),
            RegistryError::Full(n) => RegistryErrorView::Full(n),
            RegistryError::NotEnabled => RegistryErrorView::NotEnabled,
            RegistryError::TerminalRequiresWait(s) => RegistryErrorView::TerminalRequiresWait(s@),
        }
    }
}

impl RegistryErrorView {
    /// The error in words.
    pub open spec fn message(self) -> Seq<char> {
        match self {
            RegistryErrorView::Duplicate(s) => "tool name '"@ + s + "' already registered"@,
            RegistryErrorView::Full(n) => "registry full: max "@ + decimal(n as nat) + " tools"@,
            RegistryErrorView::NotEnabled => {
                "tools are not enabled on this runtime (call with_tools first)"@
            },
            RegistryErrorView::TerminalRequiresWait(s) => "terminal tool '"@ + s
                + "' must be waiting-type (default_wait = true), dispatch-type conflicts with terminal convergence"@,
        }
    }
}

impl RegistryError {
    /// The error in words.
    pub fn message(&self) -> (r: String)
        ensures
            r@ == self.deep_view().message(),
    {
        match self {
            RegistryError::Duplicate(s) => {
                let mut t = "tool name '".to_owned();
                t.append(s.as_str());
                t.append("' already registered");
                t
            },
            RegistryError::Full(n) => {
                let mut t = "registry full: max ".to_owned();
                t.append(decimal_text(*n as u64).as_str());
                t.append(" tools");
                t
            },
            RegistryError::NotEnabled => {
                "tools are not enabled on this runtime (call with_tools first)".to_owned()
            },
            RegistryError::TerminalRequiresWait(s) => {
                let mut t = "terminal tool '".to_owned();
                t.append(s.as_str());
                t.append(
                    "' must be waiting-type (default_wait = true), dispatch-type conflicts with terminal convergence",
                );
                t
            },
        }
    }
}

/// The key of a name.
pub open spec fn named(name: Seq<char>) -> KeyView {
    (name, 0u64, 0u64)
}

/// The key of a name.
pub fn name_key(name: &str) -> (r: (String, u64, u64))
    ensures
        r.deep_view() == named(name@),
{
    (name.to_owned(), 0, 0)
}

/// Whether a text is among others.
pub open spec fn among(texts: Seq<Seq<char>>, t: Seq<char>) -> bool {
    exists|i: int| 0 <= i < texts.len() && #[trigger] texts[i] == t
}

/// Whether a text is among others.
pub fn is_among(texts: &Vec<String>, t: &str) -> (r: bool)
    ensures
        r == among(texts.deep_view(), t@),
{
    let ghost all = texts.deep_view();
    let mut i: usize = 0;
    while i < texts.len()
        invariant
            i <= texts@.len(),
            all == texts.deep_view(),
            forall|j: int| 0 <= j < i ==> #[trigger] all[j] != t@,
        decreases texts@.len() - i,
    {
        if same(texts[i].as_str(), t) {
            proof {
                assert(all[i as int] == t@);
            }
            return true;
        }
        proof {
            assert(all[i as int] == texts@[i as int]@);
        }
        i = i + 1;
    }
    false
}

/// Whether a model is told of a tool: its name is allowed, and a tool that calls
/// another agent is not offered at the greatest depth.
pub open spec fn offered(
    t: ToolInfoView,
    allowed: Option<Seq<Seq<char>>>,
    depth: u32,
    max_depth: u32,
) -> bool {
    &&& allowed matches Some(names) ==> among(names, t.name)
    &&& !(t.depth_limited && depth >= max_depth)
}

/// The declarations of the tools that are offered, in the order in which they
/// were registered.
pub open spec fn offers(
    tools: Seq<(KeyView, ToolInfoView)>,
    allowed: Option<Seq<Seq<char>>>,
    depth: u32,
    max_depth: u32,
) -> Seq<ToolDeclarationView>
    decreases tools.len(),
{
    if tools.len() == 0 {
        Seq::empty()
    } else {
        let before = offers(tools.drop_last(), allowed, depth, max_depth);
        if offered(tools.last().1, allowed, depth, max_depth) {
            before.push(tools.last().1.declaration())
        } else {
            before
        }
    }
}

/// Where nothing stands against it, every tool is offered.
proof fn lemma_offers_all(tools: Seq<(KeyView, ToolInfoView)>)
    ensures
        offers(tools, None, 0, 1) == tools.map_values(
            |t: (KeyView, ToolInfoView)| t.1.declaration(),
        ),
    decreases tools.len(),
{
    if tools.len() > 0 {
        lemma_offers_all(tools.drop_last());
    }
    assert(offers(tools, None, 0, 1) =~= tools.map_values(
        |t: (KeyView, ToolInfoView)| t.1.declaration(),
    ));
}

impl Held for ToolInfo {
    open spec fn sound(&self) -> bool {
        true
    }
}

/// The tools that are registered.
pub struct ToolRegistry {
    tools: Table<ToolInfo>,
    config: RegistryConfig,
}

pub struct ToolRegistryView {
    pub tools: Seq<(KeyView, ToolInfoView)>,
    pub max_tools: usize,
}

impl DeepView for ToolRegistry {
    type V = ToolRegistryView;

    closed spec fn deep_view(&self) -> ToolRegistryView {
        ToolRegistryView { tools: self.tools.deep_view(), max_tools: self.config.max_tools }
    }
}

impl ToolRegistryView {
    /// The tool of a name.
    pub open spec fn tool(self, name: Seq<char>) -> Option<ToolInfoView> {
        lookup(self.tools, named(name))
    }

    /// Every tool stands under its own name.
    pub open spec fn under_names(self) -> bool {
        forall|i: int| 0 <= i < self.tools.len() ==> (#[trigger] self.tools[i]).0 == named(
            self.tools[i].1.name,
        )
    }

    /// What registering a tool gives.
    pub open spec fn verdict(self, tool: ToolInfoView) -> Result<(), RegistryErrorView> {
        if tool.terminal && !tool.default_wait {
            Err(RegistryErrorView::TerminalRequiresWait(tool.name))
        } else if self.tools.len() >= self.max_tools {
            Err(RegistryErrorView::Full(self.max_tools))
        } else if self.tool(tool.name) is Some {
            Err(RegistryErrorView::Duplicate(tool.name))
        } else {
            Ok(())
        }
    }
}

impl ToolRegistry {
    /// The table is in order, keeps its bound, and every tool stands under its
    /// own name.
    pub closed spec fn wf(self) -> bool {
        &&& self.tools.wf()
        &&& self.deep_view().tools.len() <= self.config.max_tools
        &&& self.deep_view().under_names()
    }

    pub fn new(config: RegistryConfig) -> (r: ToolRegistry)
        ensures
            r.wf(),
            r.deep_view() == (ToolRegistryView {
                tools: Seq::empty(),
                max_tools: config.max_tools,
            }),
    {
        ToolRegistry { tools: Table::new(), config }
    }

    pub fn with_defaults() -> (r: ToolRegistry)
        ensures
            r.wf(),
            r.deep_view() == (ToolRegistryView { tools: Seq::empty(), max_tools: 64 }),
    {
        ToolRegistry::new(RegistryConfig::default())
    }

    /// The bound is kept, and every tool stands under its own name.
    pub proof fn lemma_wf(&self)
        requires
            self.wf(),
        ensures
            self.deep_view().tools.len() <= self.deep_view().max_tools,
            self.deep_view().under_names(),
            crate::table::distinct(self.deep_view().tools),
    {
        self.tools.lemma_distinct();
    }

    /// Registers a tool. One that is refused changes nothing, and a name is
    /// never given to another tool.
    pub fn register(&mut self, tool: ToolInfo) -> (r: Result<(), RegistryError>)
        requires
            old(self).wf(),
        ensures
            final(self).wf(),
            (match r {
                Ok(_) => Ok::<(), RegistryErrorView>(()),
                Err(e) => Err(e.deep_view()),
            }) == old(self).deep_view().verdict(tool.deep_view()),
            r is Err ==> final(self).deep_view() == old(self).deep_view(),
            r is Ok ==> final(self).deep_view() == (ToolRegistryView {
                tools: old(self).deep_view().tools.push((named(tool.name@), tool.deep_view())),
                ..old(self).deep_view()
            }),
    {
        if tool.terminal && !tool.default_wait {
            return Err(RegistryError::TerminalRequiresWait(tool.name));
        }
        if self.tools.len() >= self.config.max_tools {
            return Err(RegistryError::Full(self.config.max_tools));
        }
        let key = name_key(tool.name.as_str());
        if self.tools.place(&key).is_some() {
            return Err(RegistryError::Duplicate(tool.name));
        }
        proof {
            lemma_absent(self.tools.deep_view(), key.deep_view());
        }
        self.tools.insert(key, tool);
        Ok(())
    }

    /// The tool of a name.
    pub fn get(&self, name: &str) -> (r: Option<&ToolInfo>)
        requires
            self.wf(),
        ensures
            r is Some <==> self.deep_view().tool(name@) is Some,
            r matches Some(t) ==> Some(t.deep_view()) == self.deep_view().tool(name@),
    {
        self.tools.get(&name_key(name))
    }

    /// Every tool, in the order in which they were registered.
    pub fn all(&self) -> (r: Vec<ToolInfo>)
        ensures
            r.deep_view() == self.deep_view().tools.map_values(|t: (KeyView, ToolInfoView)| t.1),
    {
        let ghost wanted = self.deep_view().tools.map_values(|t: (KeyView, ToolInfoView)| t.1);
        let mut out: Vec<ToolInfo> = Vec::new();
        let mut i: usize = 0;
        proof {
            assert(out.deep_view() =~= wanted.take(0));
        }
        while i < self.tools.len()
            invariant
                i <= self.tools.deep_view().len(),
                wanted == self.tools.deep_view().map_values(|t: (KeyView, ToolInfoView)| t.1),
                out.deep_view() == wanted.take(i as int),
            decreases self.tools.deep_view().len() - i,
        {
            let ghost before = out.deep_view();
            let t = self.tools.at(i).clone();
            let ghost tv = t.deep_view();
            out.push(t);
            proof {
                assert(out.deep_view() =~= before.push(tv));
                assert(wanted.take(i + 1) =~= wanted.take(i as int).push(wanted[i as int]));
            }
            i = i + 1;
        }
        proof {
            assert(wanted.take(wanted.len() as int) =~= wanted);
        }
        out
    }

    /// The declarations of every tool.
    pub fn declarations(&self) -> (r: Vec<ToolDeclaration>)
        ensures
            r.deep_view() == self.deep_view().tools.map_values(
                |t: (KeyView, ToolInfoView)| t.1.declaration(),
            ),
    {
        proof {
            lemma_offers_all(self.deep_view().tools);
        }
        self.declarations_visible(None, 0, 1)
    }

    /// The declarations of the tools that are offered at a depth.
    pub fn declarations_for_depth(&self, current_depth: u32, max_depth: u32) -> (r: Vec<
        ToolDeclaration,
    >)
        ensures
            r.deep_view() == offers(self.deep_view().tools, None, current_depth, max_depth),
    {
        self.declarations_visible(None, current_depth, max_depth)
    }

    /// The declarations of the tools that are offered at a depth and allowed by
    /// name.
    pub fn declarations_visible(
        &self,
        allowed: Option<&Vec<String>>,
        current_depth: u32,
        max_depth: u32,
    ) -> (r: Vec<ToolDeclaration>)
        ensures
            r.deep_view() == offers(
                self.deep_view().tools,
                allowed.deep_view(),
                current_depth,
                max_depth,
            ),
    {
        let ghost all = self.tools.deep_view();
        let ghost names = allowed.deep_view();
        let mut out: Vec<ToolDeclaration> = Vec::new();
        let mut i: usize = 0;
        proof {
            assert(out.deep_view() =~= offers(all.take(0), names, current_depth, max_depth));
        }
        while i < self.tools.len()
            invariant
                i <= all.len(),
                all == self.tools.deep_view(),
                names == allowed.deep_view(),
                out.deep_view() == offers(all.take(i as int), names, current_depth, max_depth),
            decreases all.len() - i,
        {
            proof {
                assert(all.take(i + 1).drop_last() =~= all.take(i as int));
                assert(all.take(i + 1).last() == all[i as int]);
            }
            let t = self.tools.at(i);
            let permitted = match allowed {
                Some(a) => is_among(a, t.name.as_str()),
                None => true,
            };
            if permitted && !(t.depth_limited && current_depth >= max_depth) {
                let ghost before = out.deep_view();
                let d = t.to_declaration();
                let ghost dv = d.deep_view();
                out.push(d);
                proof {
                    assert(out.deep_view() =~= before.push(dv));
                }
            }
            i = i + 1;
        }
        proof {
            assert(all.take(all.len() as int) =~= all);
        }
        out
    }

    pub fn len(&self) -> (r: usize)
        ensures
            r == self.deep_view().tools.len(),
    {
        self.tools.len()
    }

    pub fn is_empty(&self) -> (r: bool)
        ensures
            r == (self.deep_view().tools.len() == 0),
    {
        self.tools.len() == 0
    }

    pub fn config(&self) -> (r: &RegistryConfig)
        ensures
            r.max_tools == self.deep_view().max_tools,
    {
        &self.config
    }

    /// Takes the tool of a name out, and says whether there was one.
    pub fn unregister(&mut self, name: &str) -> (r: bool)
        requires
            old(self).wf(),
        ensures
            final(self).wf(),
            r == (old(self).deep_view().tool(name@) is Some),
            final(self).deep_view() == (ToolRegistryView {
                tools: drop_key(old(self).deep_view().tools, named(name@)),
                ..old(self).deep_view()
            }),
    {
        let ghost before = self.tools.deep_view();
        let key = name_key(name);
        proof {
            self.tools.lemma_distinct();
            if lookup(before, key.deep_view()) is Some {
                let i = lemma_found(before, key.deep_view());
                lemma_at(before, i);
                let after = before.remove(i);
                assert forall|j: int| 0 <= j < after.len() implies (#[trigger] after[j]).0
                    == named(after[j].1.name) by {
                    if j < i {
                        assert(after[j] == before[j]);
                    } else {
                        assert(after[j] == before[j + 1]);
                    }
                }
            }
        }
        let found = self.tools.place(&key).is_some();
        if found {
            let _tool = self.tools.remove(&key);
            true
        } else {
            proof {
                lemma_absent(before, key.deep_view());
            }
            false
        }
    }
}

/// A registered tool is found under its name and under no other, and the tools
/// that were there before are found as before.
pub proof fn law_registered(r: ToolRegistryView, tool: ToolInfoView, other: Seq<char>)
    requires
        r.verdict(tool) is Ok,
    ensures
        ({
            let after = ToolRegistryView { tools: r.tools.push((named(tool.name), tool)), ..r };
            &&& after.tool(tool.name) == Some(tool)
            &&& other != tool.name ==> after.tool(other) == r.tool(other)
            &&& after.tools.len() <= r.max_tools
        }),
{
    let after = r.tools.push((named(tool.name), tool));
    assert(after.drop_last() =~= r.tools);
}

/// A tool that was taken out is not found, and the others are found as before.
pub proof fn law_unregistered(r: ToolRegistryView, name: Seq<char>, other: Seq<char>)
    ensures
        ({
            let after = ToolRegistryView { tools: drop_key(r.tools, named(name)), ..r };
            &&& after.tool(name) is None
            &&& other != name ==> after.tool(other) == r.tool(other)
        }),
{
    law_lookup_drop(r.tools, named(name), named(name));
    law_lookup_drop(r.tools, named(name), named(other));
}

/// At the greatest depth no tool is offered that calls another agent.
pub proof fn law_depth_limit(
    tools: Seq<(KeyView, ToolInfoView)>,
    allowed: Option<Seq<Seq<char>>>,
    depth: u32,
    max_depth: u32,
    i: int,
)
    requires
        depth >= max_depth,
        0 <= i < offers(tools, allowed, depth, max_depth).len(),
    ensures
        exists|j: int|
            0 <= j < tools.len() && !(#[trigger] tools[j]).1.depth_limited
                && tools[j].1.declaration() == offers(tools, allowed, depth, max_depth)[i],
    decreases tools.len(),
{
    let rest = tools.drop_last();
    let before = offers(rest, allowed, depth, max_depth);
    if i < before.len() {
        law_depth_limit(rest, allowed, depth, max_depth, i);
        let j = choose|j: int|
            0 <= j < rest.len() && !(#[trigger] rest[j]).1.depth_limited
                && rest[j].1.declaration() == before[i];
        assert(tools[j] == rest[j]);
    } else {
        assert(tools[tools.len() - 1].1.declaration() == offers(
            tools,
            allowed,
            depth,
            max_depth,
        )[i]);
    }
}

/// What is offered is allowed by name.
pub proof fn law_whitelist(
    tools: Seq<(KeyView, ToolInfoView)>,
    names: Seq<Seq<char>>,
    depth: u32,
    max_depth: u32,
    i: int,
)
    requires
        0 <= i < offers(tools, Some(names), depth, max_depth).len(),
    ensures
        among(names, offers(tools, Some(names), depth, max_depth)[i].name),
    decreases tools.len(),
{
    let rest = tools.drop_last();
    let before = offers(rest, Some(names), depth, max_depth);
    if i < before.len() {
        law_whitelist(rest, names, depth, max_depth, i);
    }
}

} // verus!
