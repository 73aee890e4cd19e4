//! The smart bookmark folders of the side sheet, and the CEF bridge errors
//! of the history page.
use vstd::prelude::*;

verus! {

/// A folder of the side sheet filled by the app rather than by the user.
#[derive(Clone, Copy, Debug, PartialEq, Eq, Structural)]
pub enum SmartBookmarkFolder {
    Projects,
    Knowledge,
    Tools,
}

/// Where a tool comes from.
#[derive(Clone, Copy, Debug, PartialEq, Eq, Structural)]
pub enum ToolProvider {
    HomebrewFormula,
    HomebrewCask,
    Npm,
    Acp,
    Lsp,
    Mcp,
    Dotfiles,
}

/// The id of the message that titles a provider's tools.
pub open spec fn provider_message(p: ToolProvider) -> Seq<char> {
    match p {
        ToolProvider::HomebrewFormula => "tools-provider-homebrew-formulae"@,
        ToolProvider::HomebrewCask => "tools-provider-homebrew-casks"@,
        ToolProvider::Npm => "tools-provider-npm"@,
        ToolProvider::Acp => "tools-provider-acp-agents"@,
        ToolProvider::Lsp => "tools-provider-lsp-servers"@,
        ToolProvider::Mcp => "tools-provider-mcp-servers"@,
        ToolProvider::Dotfiles => "tools-provider-dotfiles"@,
    }
}

/// The id of the message that titles a provider's tools.
pub fn tools_provider_title(provider: ToolProvider) -> (r: &'static str)
    ensures
        r@ == provider_message(provider),
{
    match provider {
        ToolProvider::HomebrewFormula => "tools-provider-homebrew-formulae",
        ToolProvider::HomebrewCask => "tools-provider-homebrew-casks",
        ToolProvider::Npm => "tools-provider-npm",
        ToolProvider::Acp => "tools-provider-acp-agents",
        ToolProvider::Lsp => "tools-provider-lsp-servers",
        ToolProvider::Mcp => "tools-provider-mcp-servers",
        ToolProvider::Dotfiles => "tools-provider-dotfiles",
    }
}

/// The sum of the counts.
pub open spec fn total(counts: Seq<usize>) -> nat
    decreases counts.len(),
{
    if counts.len() == 0 {
        0
    } else {
        total(counts.drop_last()) + counts.last() as nat
    }
}

/// What the smart folders hold: the projects, the knowledge entries, and
/// the number of tools in each category.
#[derive(Clone, Debug, PartialEq, Eq)]
pub struct SmartBookmarkContent {
    pub projects: usize,
    pub knowledge_entries: usize,
    pub tool_items: Vec<usize>,
}

impl SmartBookmarkContent {
    /// How many rows a smart folder holds.
    pub fn count(&self, kind: SmartBookmarkFolder) -> (r: usize)
        requires
            total(self.tool_items@) <= usize::MAX,
        ensures
            r == match kind {
                SmartBookmarkFolder::Projects => self.projects as nat,
                SmartBookmarkFolder::Knowledge => self.knowledge_entries as nat,
                SmartBookmarkFolder::Tools => total(self.tool_items@),
            },
    {
        match kind {
            SmartBookmarkFolder::Projects => self.projects,
            SmartBookmarkFolder::Knowledge => self.knowledge_entries,
            SmartBookmarkFolder::Tools => {
                let mut sum: usize = 0;
                let mut i: usize = 0;
                while i < self.tool_items.len()
                    invariant
                        i <= self.tool_items@.len(),
                        sum == total(self.tool_items@.subrange(0, i as int)),
                        total(self.tool_items@) <= usize::MAX,
                    decreases self.tool_items@.len() - i,
                {
                    proof {
                        assert(self.tool_items@.subrange(0, i + 1).drop_last() =~= self.tool_items@.subrange(0, i as int));
                        lemma_total_prefix(self.tool_items@, i + 1);
                    }
                    sum = sum + self.tool_items[i];
                    i = i + 1;
                }
                assert(self.tool_items@.subrange(0, self.tool_items@.len() as int) =~= self.tool_items@);
                sum
            },
        }
    }
}

/// A prefix sums to no more than the whole.
proof fn lemma_total_prefix(counts: Seq<usize>, i: int)
    requires
        0 <= i <= counts.len(),
    ensures
        total(counts.subrange(0, i)) <= total(counts),
    decreases counts.len() - i,
{
    if i < counts.len() {
        lemma_total_prefix(counts, i + 1);
        assert(counts.subrange(0, i + 1).drop_last() =~= counts.subrange(0, i));
    } else {
        assert(counts.subrange(0, i) =~= counts);
    }
}

/// Why the history page could not reach the CEF bridge.
#[derive(Clone, Copy, Debug, PartialEq, Eq, Structural)]
pub enum CefBridgeError {
    NoWindow,
    NoCefGlobal,
    CefNotInjected,
    NoListenMethod,
    ListenNotCallable,
    NoEmitMethod,
    EmitNotCallable,
}

/// The text of a bridge error.
pub open spec fn bridge_error_text(e: CefBridgeError) -> Seq<char> {
    match e {
        CefBridgeError::NoWindow => "no `window`"@,
        CefBridgeError::NoCefGlobal => "no `window.cef` property"@,
        CefBridgeError::CefNotInjected => "`window.cef` not ready"@,
        CefBridgeError::NoListenMethod => "no `cef.listen`"@,
        CefBridgeError::ListenNotCallable => "`cef.listen` is not a function"@,
        CefBridgeError::NoEmitMethod => "no `cef.emit`"@,
        CefBridgeError::EmitNotCallable => "`cef.emit` is not a function"@,
    }
}

impl CefBridgeError {
    /// The error as text.
    pub fn message(&self) -> (r: &'static str)
        ensures
            r@ == bridge_error_text(*self),
    {
        match self {
            CefBridgeError::NoWindow => "no `window`",
            CefBridgeError::NoCefGlobal => "no `window.cef` property",
            CefBridgeError::CefNotInjected => "`window.cef` not ready",
            CefBridgeError::NoListenMethod => "no `cef.listen`",
            CefBridgeError::ListenNotCallable => "`cef.listen` is not a function",
            CefBridgeError::NoEmitMethod => "no `cef.emit`",
            CefBridgeError::EmitNotCallable => "`cef.emit` is not a function",
        }
    }
}

/// What probing the page for the bridge found, step by step.
#[derive(Clone, Copy, Debug, PartialEq, Eq, Structural)]
pub struct BridgeProbe {
    /// There is a `window`.
    pub window: bool,
    /// Reading `window.cef` did not throw.
    pub cef_read: bool,
    /// `window.cef` is null or undefined.
    pub cef_missing: bool,
    /// Reading the method did not throw.
    pub method_read: bool,
    /// The method is a function.
    pub callable: bool,
}

/// Whether the bridge can be used for `listen` (or, with `emit`, for
/// `emit`), or the first step that failed.
pub fn bridge_ready(probe: BridgeProbe, emit: bool) -> (r: Result<(), CefBridgeError>)
    ensures
        r == if !probe.window {
            Err::<(), CefBridgeError>(CefBridgeError::NoWindow)
        } else if !probe.cef_read {
            Err(CefBridgeError::NoCefGlobal)
        } else if probe.cef_missing {
            Err(CefBridgeError::CefNotInjected)
        } else if !probe.method_read {
            Err(if emit { CefBridgeError::NoEmitMethod } else { CefBridgeError::NoListenMethod })
        } else if !probe.callable {
            Err(if emit { CefBridgeError::EmitNotCallable } else { CefBridgeError::ListenNotCallable })
        } else {
            Ok(())
        },
{
    if !probe.window {
        return Err(CefBridgeError::NoWindow);
    }
    if !probe.cef_read {
        return Err(CefBridgeError::NoCefGlobal);
    }
    if probe.cef_missing {
        return Err(CefBridgeError::CefNotInjected);
    }
    if !probe.method_read {
        return Err(if emit { CefBridgeError::NoEmitMethod } else { CefBridgeError::NoListenMethod });
    }
    if !probe.callable {
        return Err(if emit { CefBridgeError::EmitNotCallable } else { CefBridgeError::ListenNotCallable });
    }
    Ok(())
}

} // verus!
