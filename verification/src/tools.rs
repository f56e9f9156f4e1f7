//! Tool providers and the selection of tools by `provider/tool` patterns.
use vstd::prelude::*;

use crate::persistent::{
    ascending_texts, string_set_contains, string_set_insert, string_set_is_empty, string_set_items,
    string_set_new, string_set_remove, string_set_to_vec, texts_of,
};
use crate::text::{concat, concat3, has_prefix, owned, strip_prefix_spec, strip_prefix_text};

verus! {

#[verifier::external_type_specification]
#[verifier::external_body]
pub struct ExPattern(glob::Pattern);

#[verifier::external_type_specification]
#[verifier::external_body]
pub struct ExPatternError(glob::PatternError);

/// Whether `glob::Pattern::new` accepts the text as a pattern.
pub uninterp spec fn glob_valid(pattern: Seq<char>) -> bool;

/// Whether the pattern compiled from `pattern` matches `text` under the default
/// match options (`glob::Pattern::matches`).
pub uninterp spec fn glob_matches(pattern: Seq<char>, text: Seq<char>) -> bool;

/// `glob::Pattern::new`: compiles a Unix shell style pattern; fails exactly on
/// the texts that are no valid pattern.
#[verifier::external_body]
pub fn tool_glob(pattern: String) -> (r: Result<glob::Pattern, glob::PatternError>)
    ensures
        r is Ok <==> glob_valid(pattern@),
{
    glob::Pattern::new(&pattern)
}

/// No glob metacharacter (`*`, `?`, `[`, `]`) occurs in the text.
pub open spec fn no_glob_meta(s: Seq<char>) -> bool {
    forall|i: int| 0 <= i < s.len() ==> s[i] != '*' && s[i] != '?' && s[i] != '[' && s[i] != ']'
}

/// A pattern that the `glob` crate documents to match the text: `*/*`
/// matches any text holding a `/`, since `*` matches any sequence of
/// characters (separators too, under the default options); and a pattern of
/// literal characters followed by one `*` matches any text that starts with
/// those characters.
pub open spec fn glob_plainly_matches(pattern: Seq<char>, text: Seq<char>) -> bool {
    ||| (pattern == "*/*"@ && text.contains('/'))
    ||| (pattern.len() >= 2 && pattern.last() == '*' && pattern[pattern.len() - 2] != '*'
        && no_glob_meta(pattern.drop_last()) && has_prefix(text, pattern.drop_last()))
}

/// Compiles `pattern` with `glob::Pattern::new` and, when it is valid, tells
/// whether `glob::Pattern::matches` accepts `text`. The result is named, not
/// written out: glob matching is the `glob` crate's own algorithm; the cases
/// that its documentation makes plain are stated.
#[verifier::external_body]
fn glob_match(pattern: &str, text: &str) -> (r: Option<bool>)
    ensures
        r is Some <==> glob_valid(pattern@),
        r matches Some(b) ==> b == glob_matches(pattern@, text@),
        glob_plainly_matches(pattern@, text@) ==> r == Some(true),
{
    glob::Pattern::new(pattern).ok().map(|p| p.matches(text))
}

/// How to reach a tool provider.
pub enum ToolSpec {
    /// A provider started as a local process speaking over standard I/O.
    Stdio {
        enabled: bool,
        preface: Option<String>,
        dir: Option<String>,
        env: String,
        command: String,
        args: Vec<String>,
        /// Timeout in seconds.
        timeout: Option<u64>,
    },
    /// A provider reached over HTTP.
    HTTP {
        enabled: bool,
        preface: Option<String>,
        uri: String,
        /// Environment variable holding the API key.
        auth_var: Option<String>,
        /// Timeout in seconds.
        timeout: Option<u64>,
    },
}

impl ToolSpec {
    /// Whether the provider is switched on.
    pub open spec fn is_enabled(self) -> bool {
        match self {
            ToolSpec::Stdio { enabled, .. } => enabled,
            ToolSpec::HTTP { enabled, .. } => enabled,
        }
    }

    /// The preface text, if any.
    pub open spec fn preface_spec(self) -> Option<Seq<char>> {
        match self {
            ToolSpec::Stdio { preface, .. } => match preface {
                Some(p) => Some(p@),
                None => None,
            },
            ToolSpec::HTTP { preface, .. } => match preface {
                Some(p) => Some(p@),
                None => None,
            },
        }
    }

    /// The timeout in seconds, if any.
    pub open spec fn timeout_spec(self) -> Option<u64> {
        match self {
            ToolSpec::Stdio { timeout, .. } => timeout,
            ToolSpec::HTTP { timeout, .. } => timeout,
        }
    }

    /// The same provider with the switch set to `value`.
    pub open spec fn with_enabled(self, value: bool) -> ToolSpec {
        match self {
            ToolSpec::Stdio { enabled, preface, dir, env, command, args, timeout } => ToolSpec::Stdio {
                enabled: value,
                preface,
                dir,
                env,
                command,
                args,
                timeout,
            },
            ToolSpec::HTTP { enabled, preface, uri, auth_var, timeout } => ToolSpec::HTTP {
                enabled: value,
                preface,
                uri,
                auth_var,
                timeout,
            },
        }
    }

    /// Whether the provider is switched on.
    pub fn enabled(&self) -> (r: bool)
        ensures
            r == self.is_enabled(),
    {
        match self {
            ToolSpec::Stdio { enabled, .. } => *enabled,
            ToolSpec::HTTP { enabled, .. } => *enabled,
        }
    }

    /// Switches the provider on or off; nothing else changes.
    pub fn set_enabled(&mut self, value: bool)
        ensures
            *final(self) == old(self).with_enabled(value),
    {
        match self {
            ToolSpec::Stdio { enabled, .. } => *enabled = value,
            ToolSpec::HTTP { enabled, .. } => *enabled = value,
        }
    }

    /// The text put before the provider's tool descriptions, if any.
    pub fn preface(&self) -> (r: Option<&str>)
        ensures
            match r {
                Some(p) => self.preface_spec() == Some(p@),
                None => self.preface_spec() is None,
            },
    {
        match self {
            ToolSpec::Stdio { preface, .. } => match preface {
                Some(p) => Some(p.as_str()),
                None => None,
            },
            ToolSpec::HTTP { preface, .. } => match preface {
                Some(p) => Some(p.as_str()),
                None => None,
            },
        }
    }

    /// The timeout in seconds, if any.
    pub fn timeout(&self) -> (r: Option<u64>)
        ensures
            r == self.timeout_spec(),
    {
        match self {
            ToolSpec::Stdio { timeout, .. } => *timeout,
            ToolSpec::HTTP { timeout, .. } => *timeout,
        }
    }
}

impl Default for ToolSpec {
    /// A switched-off local provider with no command.
    fn default() -> (r: ToolSpec)
        ensures
            match r {
                ToolSpec::Stdio { enabled, preface, dir, env, command, args, timeout } => {
                    &&& !enabled
                    &&& preface is None
                    &&& dir is None
                    &&& env@ == Seq::<char>::empty()
                    &&& command@ == Seq::<char>::empty()
                    &&& args@ == Seq::<String>::empty()
                    &&& timeout is None
                },
                ToolSpec::HTTP { .. } => false,
            },
    {
        ToolSpec::Stdio {
            enabled: false,
            preface: None,
            dir: None,
            env: String::new(),
            command: String::new(),
            args: Vec::new(),
            timeout: None,
        }
    }
}

/// What a selector picks from one provider.
pub enum Ternary {
    /// No tool of the provider.
    Empty,
    /// These tools of the provider, by name.
    Subset(im::OrdSet<String>),
    /// Every tool of the provider.
    All,
}

/// A set of `provider/tool` patterns choosing tools.
pub struct ToolSelector(pub im::OrdSet<String>);

/// The tool names that a selector with these patterns names for `provider`:
/// every `t` such that `provider/t` is one of the patterns.
pub open spec fn named_tools(items: Set<Seq<char>>, provider: Seq<char>) -> Set<Seq<char>> {
    Set::new(|t: Seq<char>| items.contains(provider + "/"@ + t))
}

/// The selection for `provider`: all of its tools when the patterns hold
/// `*/*` or `provider/*`; else the tools named for it, if any.
pub open spec fn selects_all(items: Set<Seq<char>>, provider: Seq<char>) -> bool {
    items.contains("*/*"@) || items.contains(provider + "/*"@)
}

/// Some valid pattern of the selector matches `provider/tool`.
pub open spec fn applies(items: Set<Seq<char>>, provider: Seq<char>, tool: Seq<char>) -> bool {
    exists|p: Seq<char>|
        #[trigger] items.contains(p) && glob_valid(p) && glob_matches(p, provider + "/"@ + tool)
}

/// A tool included for a provider is selected for it: either the provider is
/// selected whole, or the tool is among the tools named for it.
pub proof fn lemma_included_tool_selected(items: Set<Seq<char>>, provider: Seq<char>, tool: Seq<char>)
    ensures
        selects_all(items.insert(provider + "/"@ + tool), provider) || named_tools(
            items.insert(provider + "/"@ + tool),
            provider,
        ).contains(tool),
{
    assert(items.insert(provider + "/"@ + tool).contains(provider + "/"@ + tool));
}

/// Once the pattern of a tool is removed, the tool is no longer named for its
/// provider.
pub proof fn lemma_removed_tool_not_named(items: Set<Seq<char>>, provider: Seq<char>, tool: Seq<char>)
    ensures
        !named_tools(items.remove(provider + "/"@ + tool), provider).contains(tool),
{
}

impl ToolSelector {
    /// The patterns of the selector.
    pub open spec fn items(self) -> Set<Seq<char>> {
        string_set_items(self.0)
    }

    /// A selector choosing nothing.
    pub fn empty() -> (r: ToolSelector)
        ensures
            r.items() == Set::<Seq<char>>::empty(),
    {
        ToolSelector(string_set_new())
    }

    /// A selector holding the one pattern `value`.
    pub fn only(value: &str) -> (r: ToolSelector)
        ensures
            r.items() == set![value@],
    {
        let mut s = string_set_new();
        string_set_insert(&mut s, owned(value));
        let r = ToolSelector(s);
        assert(r.items() =~= set![value@]);
        r
    }

    /// Whether the selector holds no pattern.
    pub fn is_empty(&self) -> (r: bool)
        ensures
            r == (self.items() == Set::<Seq<char>>::empty()),
    {
        string_set_is_empty(&self.0)
    }

    /// A selector choosing every tool of every provider.
    pub fn all() -> (r: ToolSelector)
        ensures
            r.items() == set!["*/*"@],
    {
        let r = Self::empty().with_include("*", "*");
        proof {
            reveal_strlit("*");
            reveal_strlit("/");
            reveal_strlit("*/*");
            assert("*"@ + "/"@ + "*"@ =~= "*/*"@);
            assert(r.items() =~= set!["*/*"@]);
        }
        r
    }

    /// Whether the selector holds the pattern `*/*`.
    pub fn is_all(&self) -> (r: bool)
        ensures
            r == self.items().contains("*/*"@),
    {
        string_set_contains(&self.0, "*/*")
    }

    /// The selector with the pattern `provider/tool` added.
    pub fn with_include(self, provider: &str, tool: &str) -> (r: ToolSelector)
        ensures
            r.items() == self.items().insert(provider@ + "/"@ + tool@),
    {
        let mut s = self.0;
        string_set_insert(&mut s, concat3(provider, "/", tool));
        ToolSelector(s)
    }

    /// Adds a pattern.
    pub fn add(&mut self, selector: &str)
        ensures
            final(self).items() == old(self).items().insert(selector@),
    {
        string_set_insert(&mut self.0, owned(selector));
    }

    /// Removes a pattern.
    pub fn remove(&mut self, selector: &str)
        ensures
            final(self).items() == old(self).items().remove(selector@),
    {
        string_set_remove(&mut self.0, selector);
    }

    /// Adds the pattern that names one tool of a provider.
    pub fn include_tool(&mut self, provider: &str, tool_name: &str)
        ensures
            final(self).items() == old(self).items().insert(provider@ + "/"@ + tool_name@),
    {
        let pattern = concat3(provider, "/", tool_name);
        self.add(pattern.as_str());
    }

    /// The patterns, each once, in ascending order.
    pub fn iter(&self) -> (r: Vec<String>)
        ensures
            texts_of(r@).to_set() == self.items(),
            ascending_texts(texts_of(r@)),
    {
        string_set_to_vec(&self.0)
    }

    /// What the selector picks from `provider`: everything when it holds
    /// `*/*` or `provider/*`; otherwise the tools named as `provider/tool`,
    /// or nothing when there are none.
    pub fn provider_selection(&self, provider: &str) -> (r: Ternary)
        ensures
            selects_all(self.items(), provider@) ==> r is All,
            !selects_all(self.items(), provider@) ==> match r {
                Ternary::All => false,
                Ternary::Empty => named_tools(self.items(), provider@) == Set::<Seq<char>>::empty(),
                Ternary::Subset(s) => string_set_items(s) == named_tools(self.items(), provider@)
                    && string_set_items(s) != Set::<Seq<char>>::empty(),
            },
    {
        let wildcard = concat(provider, "/*");
        if string_set_contains(&self.0, "*/*") || string_set_contains(&self.0, wildcard.as_str()) {
            return Ternary::All;
        }
        let prefix = concat(provider, "/");
        let patterns = string_set_to_vec(&self.0);
        let ghost texts = texts_of(patterns@);
        let mut tools = string_set_new();
        for i in 0..patterns.len()
            invariant
                texts == texts_of(patterns@),
                prefix@ == provider@ + "/"@,
                string_set_items(tools) == Set::new(
                    |t: Seq<char>| exists|k: int| 0 <= k < i && #[trigger] texts[k] == prefix@ + t,
                ),
        {
            let ghost before = string_set_items(tools);
            match strip_prefix_text(patterns[i].as_str(), prefix.as_str()) {
                Some(t) => {
                    string_set_insert(&mut tools, owned(t));
                    proof {
                        assert(texts[i as int] =~= prefix@ + t@);
                        assert(string_set_items(tools) =~= Set::new(
                            |u: Seq<char>| exists|k: int| 0 <= k < i + 1 && #[trigger] texts[k] == prefix@ + u,
                        )) by {
                            assert forall|u: Seq<char>| #[trigger] string_set_items(tools).contains(u)
                                implies exists|k: int| 0 <= k < i + 1 && #[trigger] texts[k] == prefix@ + u by {
                                if u != t@ {
                                    assert(before.contains(u));
                                } else {
                                    assert(texts[i as int] == prefix@ + u);
                                }
                            }
                            assert forall|u: Seq<char>| (exists|k: int| 0 <= k < i + 1 && #[trigger] texts[k] == prefix@ + u)
                                implies #[trigger] string_set_items(tools).contains(u) by {
                                let k = choose|k: int| 0 <= k < i + 1 && #[trigger] texts[k] == prefix@ + u;
                                if k == i {
                                    assert((prefix@ + u).skip(prefix@.len() as int) =~= u);
                                    assert((prefix@ + t@).skip(prefix@.len() as int) =~= t@);
                                } else {
                                    assert(before.contains(u));
                                }
                            }
                        }
                    }
                },
                None => {
                    proof {
                        assert(string_set_items(tools) =~= Set::new(
                            |u: Seq<char>| exists|k: int| 0 <= k < i + 1 && #[trigger] texts[k] == prefix@ + u,
                        )) by {
                            assert forall|u: Seq<char>| (exists|k: int| 0 <= k < i + 1 && #[trigger] texts[k] == prefix@ + u)
                                implies #[trigger] before.contains(u) by {
                                let k = choose|k: int| 0 <= k < i + 1 && #[trigger] texts[k] == prefix@ + u;
                                if k == i {
                                    assert((prefix@ + u).take(prefix@.len() as int) =~= prefix@);
                                    assert(false);
                                }
                            }
                        }
                    }
                },
            }
        }
        proof {
            assert(string_set_items(tools) =~= named_tools(self.items(), provider@)) by {
                assert forall|u: Seq<char>| #[trigger] string_set_items(tools).contains(u)
                    implies named_tools(self.items(), provider@).contains(u) by {
                    let k = choose|k: int| 0 <= k < texts.len() && #[trigger] texts[k] == prefix@ + u;
                    assert(texts.to_set().contains(texts[k]));
                    assert(prefix@ + u =~= provider@ + "/"@ + u);
                }
                assert forall|u: Seq<char>| named_tools(self.items(), provider@).contains(u)
                    implies #[trigger] string_set_items(tools).contains(u) by {
                    assert(prefix@ + u =~= provider@ + "/"@ + u);
                    assert(texts.to_set().contains(prefix@ + u));
                    let k = choose|k: int| 0 <= k < texts.len() && texts[k] == prefix@ + u;
                    assert(texts[k] == prefix@ + u);
                }
            }
        }
        if string_set_is_empty(&tools) {
            Ternary::Empty
        } else {
            Ternary::Subset(tools)
        }
    }

    /// Whether some pattern of the selector that is a valid glob matches
    /// `provider/tool_name`.
    pub fn apply(&self, provider: &str, tool_name: &str) -> (r: bool)
        ensures
            r == applies(self.items(), provider@, tool_name@),
            self.items().contains("*/*"@) ==> r,
            self.items().contains(provider@ + "/*"@) && no_glob_meta(provider@) ==> r,
    {
        let target = concat3(provider, "/", tool_name);
        let patterns = string_set_to_vec(&self.0);
        let ghost texts = texts_of(patterns@);
        for i in 0..patterns.len()
            invariant
                texts == texts_of(patterns@),
                texts.to_set() == self.items(),
                target@ == provider@ + "/"@ + tool_name@,
                forall|k: int| 0 <= k < i ==> !(glob_valid(#[trigger] texts[k]) && glob_matches(texts[k], target@)),
                forall|k: int| 0 <= k < i ==> !glob_plainly_matches(#[trigger] texts[k], target@),
        {
            match glob_match(patterns[i].as_str(), target.as_str()) {
                Some(true) => {
                    proof {
                        assert(texts.to_set().contains(texts[i as int]));
                    }
                    return true;
                },
                _ => {},
            }
        }
        proof {
            assert forall|p: Seq<char>| #[trigger] self.items().contains(p) implies !(glob_valid(p)
                && glob_matches(p, provider@ + "/"@ + tool_name@)) by {
                let k = choose|k: int| 0 <= k < texts.len() && texts[k] == p;
                assert(texts[k] == p);
            }
            let t = target@;
            reveal_strlit("/");
            reveal_strlit("*/*");
            reveal_strlit("/*");
            assert(t[provider@.len() as int] == '/');
            if self.items().contains("*/*"@) {
                let k = choose|k: int| 0 <= k < texts.len() && texts[k] == "*/*"@;
                assert(t.contains('/'));
                assert(glob_plainly_matches(texts[k], t));
            }
            if self.items().contains(provider@ + "/*"@) && no_glob_meta(provider@) {
                let p = provider@ + "/*"@;
                let k = choose|k: int| 0 <= k < texts.len() && texts[k] == p;
                assert(p.drop_last() =~= provider@ + "/"@);
                assert(t.take(p.drop_last().len() as int) =~= p.drop_last());
                assert(p[p.len() - 2] == '/');
                assert(no_glob_meta(p.drop_last()));
                assert(glob_plainly_matches(texts[k], t));
            }
        }
        false
    }
}

} // verus!
