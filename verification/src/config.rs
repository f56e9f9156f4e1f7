//! Model roles, role entries, model profiles and user preferences.
use vstd::prelude::*;

use crate::persistent::{
    lemma_text_less_irreflexive, lemma_text_less_total, lemma_text_less_transitive, text_before,
    ascending_texts, entry_list_get, entry_list_items, entry_list_len, entry_list_new,
    entry_list_push_back, entry_list_remove, entry_list_set, profile_map_contains_key,
    profile_map_entry_or_default, profile_map_get, profile_map_insert, profile_map_is_empty,
    profile_map_items, profile_map_keys, profile_map_new, profile_map_remove, role_set_clone,
    role_set_contains, role_set_insert, role_set_items, role_set_new, role_set_remove,
    role_set_to_vec, text_less, texts_of, ProfileTable,
};
use crate::text::{same_text, owned};

verus! {

/// The part a language model plays in a workflow.
#[derive(Clone, Debug, PartialEq, Eq, PartialOrd, Ord, Hash)]
pub enum ModelRole {
    Default,
    Fast,
    Large,
    Reasoning,
    Creative,
    Programming,
    Structured,
    Condenser,
    Vision,
    /// A literal model name, passed through unchanged.
    Custom(String),
}

/// What a role is, with a custom name taken as its text.
pub enum RoleView {
    Default,
    Fast,
    Large,
    Reasoning,
    Creative,
    Programming,
    Structured,
    Condenser,
    Vision,
    Custom(Seq<char>),
}

impl View for ModelRole {
    type V = RoleView;

    open spec fn view(&self) -> RoleView {
        match self {
            ModelRole::Default => RoleView::Default,
            ModelRole::Fast => RoleView::Fast,
            ModelRole::Large => RoleView::Large,
            ModelRole::Reasoning => RoleView::Reasoning,
            ModelRole::Creative => RoleView::Creative,
            ModelRole::Programming => RoleView::Programming,
            ModelRole::Structured => RoleView::Structured,
            ModelRole::Condenser => RoleView::Condenser,
            ModelRole::Vision => RoleView::Vision,
            ModelRole::Custom(s) => RoleView::Custom(s@),
        }
    }
}

/// The kebab-case label of a role; a custom role is shown as its own text.
pub open spec fn role_label(r: RoleView) -> Seq<char> {
    match r {
        RoleView::Default => "default"@,
        RoleView::Fast => "fast"@,
        RoleView::Large => "large"@,
        RoleView::Reasoning => "reasoning"@,
        RoleView::Creative => "creative"@,
        RoleView::Programming => "programming"@,
        RoleView::Structured => "structured"@,
        RoleView::Condenser => "condenser"@,
        RoleView::Vision => "vision"@,
        RoleView::Custom(s) => s,
    }
}

/// The named role whose label is `s`, if any.
pub open spec fn builtin_role(s: Seq<char>) -> Option<RoleView> {
    if s == "default"@ {
        Some(RoleView::Default)
    } else if s == "fast"@ {
        Some(RoleView::Fast)
    } else if s == "large"@ {
        Some(RoleView::Large)
    } else if s == "reasoning"@ {
        Some(RoleView::Reasoning)
    } else if s == "creative"@ {
        Some(RoleView::Creative)
    } else if s == "programming"@ {
        Some(RoleView::Programming)
    } else if s == "structured"@ {
        Some(RoleView::Structured)
    } else if s == "condenser"@ {
        Some(RoleView::Condenser)
    } else if s == "vision"@ {
        Some(RoleView::Vision)
    } else {
        None
    }
}

/// Parsing a role: a named role by its exact label, any other text as a custom role.
pub open spec fn parse_role(s: Seq<char>) -> RoleView {
    match builtin_role(s) {
        Some(r) => r,
        None => RoleView::Custom(s),
    }
}

/// The description shown for a role.
pub open spec fn role_message(r: RoleView) -> Seq<char> {
    match r {
        RoleView::Default => "Fallback model when using an unassigned role"@,
        RoleView::Fast => "Small model with low latency and high throughput"@,
        RoleView::Large => "A large general-purpose model for complex tasks"@,
        RoleView::Reasoning => "A model that thinks/reasons before replying"@,
        RoleView::Creative => "Model that excels at creative writing"@,
        RoleView::Programming => "Model for code generation and review"@,
        RoleView::Structured => "Model specializing in structured outputs and tool calls"@,
        RoleView::Condenser => "A long context model for summarizing large documents"@,
        RoleView::Vision => "A visual language model that reads both texts and images"@,
        RoleView::Custom(_) => "Literal model name. Can only be passed via node input."@,
    }
}

/// Every role in declaration order, the custom one with an empty name.
pub open spec fn all_roles() -> Seq<RoleView> {
    seq![
        RoleView::Default,
        RoleView::Fast,
        RoleView::Large,
        RoleView::Reasoning,
        RoleView::Creative,
        RoleView::Programming,
        RoleView::Structured,
        RoleView::Condenser,
        RoleView::Vision,
        RoleView::Custom(Seq::empty()),
    ]
}

impl Default for ModelRole {
    fn default() -> (r: ModelRole)
        ensures
            r@ == RoleView::Default,
    {
        ModelRole::Default
    }
}

impl ModelRole {
    /// Parses a role: one of the kebab-case labels, or else a custom role
    /// holding the text as given.
    pub fn from_str(s: &str) -> (r: ModelRole)
        ensures
            r@ == parse_role(s@),
    {
        if same_text(s, "default") {
            ModelRole::Default
        } else if same_text(s, "fast") {
            ModelRole::Fast
        } else if same_text(s, "large") {
            ModelRole::Large
        } else if same_text(s, "reasoning") {
            ModelRole::Reasoning
        } else if same_text(s, "creative") {
            ModelRole::Creative
        } else if same_text(s, "programming") {
            ModelRole::Programming
        } else if same_text(s, "structured") {
            ModelRole::Structured
        } else if same_text(s, "condenser") {
            ModelRole::Condenser
        } else if same_text(s, "vision") {
            ModelRole::Vision
        } else {
            ModelRole::Custom(owned(s))
        }
    }

    /// The label of the role, as its `Display` shows it.
    pub fn to_string(&self) -> (r: String)
        ensures
            r@ == role_label(self@),
    {
        match self {
            ModelRole::Default => owned("default"),
            ModelRole::Fast => owned("fast"),
            ModelRole::Large => owned("large"),
            ModelRole::Reasoning => owned("reasoning"),
            ModelRole::Creative => owned("creative"),
            ModelRole::Programming => owned("programming"),
            ModelRole::Structured => owned("structured"),
            ModelRole::Condenser => owned("condenser"),
            ModelRole::Vision => owned("vision"),
            ModelRole::Custom(s) => s.clone(),
        }
    }

    /// The description of the role.
    pub fn get_message(&self) -> (r: Option<&'static str>)
        ensures
            match r {
                Some(m) => m@ == role_message(self@),
                None => false,
            },
    {
        match self {
            ModelRole::Default => Some("Fallback model when using an unassigned role"),
            ModelRole::Fast => Some("Small model with low latency and high throughput"),
            ModelRole::Large => Some("A large general-purpose model for complex tasks"),
            ModelRole::Reasoning => Some("A model that thinks/reasons before replying"),
            ModelRole::Creative => Some("Model that excels at creative writing"),
            ModelRole::Programming => Some("Model for code generation and review"),
            ModelRole::Structured => Some("Model specializing in structured outputs and tool calls"),
            ModelRole::Condenser => Some("A long context model for summarizing large documents"),
            ModelRole::Vision => Some("A visual language model that reads both texts and images"),
            ModelRole::Custom(_) => Some("Literal model name. Can only be passed via node input."),
        }
    }

    /// Every role in declaration order; the custom role comes with an empty name.
    pub fn iter() -> (r: Vec<ModelRole>)
        ensures
            r@.map_values(|x: ModelRole| x@) == all_roles(),
    {
        let r = vec![
            ModelRole::Default,
            ModelRole::Fast,
            ModelRole::Large,
            ModelRole::Reasoning,
            ModelRole::Creative,
            ModelRole::Programming,
            ModelRole::Structured,
            ModelRole::Condenser,
            ModelRole::Vision,
            ModelRole::Custom(String::new()),
        ];
        assert(r@.map_values(|x: ModelRole| x@) =~= all_roles());
        r
    }

    /// Whether the role is a literal model name.
    pub fn is_custom(&self) -> (r: bool)
        ensures
            r == (self@ is Custom),
    {
        match self {
            ModelRole::Custom(_) => true,
            _ => false,
        }
    }

    /// Whether two roles are the same role.
    pub fn same_role(&self, other: &ModelRole) -> (r: bool)
        ensures
            r == (self@ == other@),
    {
        match (self, other) {
            (ModelRole::Default, ModelRole::Default) => true,
            (ModelRole::Fast, ModelRole::Fast) => true,
            (ModelRole::Large, ModelRole::Large) => true,
            (ModelRole::Reasoning, ModelRole::Reasoning) => true,
            (ModelRole::Creative, ModelRole::Creative) => true,
            (ModelRole::Programming, ModelRole::Programming) => true,
            (ModelRole::Structured, ModelRole::Structured) => true,
            (ModelRole::Condenser, ModelRole::Condenser) => true,
            (ModelRole::Vision, ModelRole::Vision) => true,
            (ModelRole::Custom(a), ModelRole::Custom(b)) => same_text(a.as_str(), b.as_str()),
            _ => false,
        }
    }

    /// A copy of the role.
    pub fn copy(&self) -> (r: ModelRole)
        ensures
            r@ == self@,
    {
        match self {
            ModelRole::Default => ModelRole::Default,
            ModelRole::Fast => ModelRole::Fast,
            ModelRole::Large => ModelRole::Large,
            ModelRole::Reasoning => ModelRole::Reasoning,
            ModelRole::Creative => ModelRole::Creative,
            ModelRole::Programming => ModelRole::Programming,
            ModelRole::Structured => ModelRole::Structured,
            ModelRole::Condenser => ModelRole::Condenser,
            ModelRole::Vision => ModelRole::Vision,
            ModelRole::Custom(s) => ModelRole::Custom(s.clone()),
        }
    }
}

/// Printing a role and parsing the label gives the role back, unless it is a
/// custom role whose name is the label of a named role.
pub proof fn lemma_role_label_roundtrip(r: RoleView)
    requires
        !(r is Custom && builtin_role(role_label(r)) is Some),
    ensures
        parse_role(role_label(r)) == r,
{
    reveal_strlit("default");
    reveal_strlit("fast");
    reveal_strlit("large");
    reveal_strlit("reasoning");
    reveal_strlit("creative");
    reveal_strlit("programming");
    reveal_strlit("structured");
    reveal_strlit("condenser");
    reveal_strlit("vision");
    match r {
        RoleView::Custom(_) => {},
        _ => {
            assert("default"@.len() == 7 && "default"@[0] == 'd');
            assert("fast"@.len() == 4 && "fast"@[0] == 'f');
            assert("large"@.len() == 5 && "large"@[0] == 'l');
            assert("reasoning"@.len() == 9 && "reasoning"@[0] == 'r');
            assert("creative"@.len() == 8 && "creative"@[0] == 'c');
            assert("programming"@.len() == 11 && "programming"@[0] == 'p');
            assert("structured"@.len() == 10 && "structured"@[0] == 's');
            assert("condenser"@.len() == 9 && "condenser"@[0] == 'c');
            assert("vision"@.len() == 6 && "vision"@[0] == 'v');
        },
    }
}

/// A model and the roles it is assigned to.
#[derive(Debug)]
pub struct RoleEntry {
    pub name: String,
    pub roles: im::OrdSet<ModelRole>,
}

impl Clone for RoleEntry {
    fn clone(&self) -> (r: Self)
        ensures
            r.name@ == self.name@,
            r.role_set() == self.role_set(),
    {
        RoleEntry { name: self.name.clone(), roles: role_set_clone(&self.roles) }
    }
}

impl RoleEntry {
    /// The roles of the entry.
    pub open spec fn role_set(self) -> Set<RoleView> {
        role_set_items(self.roles)
    }

    /// An entry with an empty name and no roles.
    pub fn new() -> (r: RoleEntry)
        ensures
            r.name@ == Seq::<char>::empty(),
            r.role_set() == Set::<RoleView>::empty(),
    {
        RoleEntry { name: String::new(), roles: role_set_new() }
    }
}


// ---------------------------------------------------------------------------
// Role-to-model maps

/// The map that a list of role/model pairs with distinct roles stands for.
pub open spec fn pairs_map(s: Seq<(ModelRole, String)>) -> Map<RoleView, Seq<char>> {
    Map::new(
        |r: RoleView| exists|i: int| 0 <= i < s.len() && #[trigger] s[i].0@ == r,
        |r: RoleView| s[choose|i: int| 0 <= i < s.len() && #[trigger] s[i].0@ == r].1@,
    )
}

/// No role occurs twice among the pairs.
pub open spec fn distinct_roles(s: Seq<(ModelRole, String)>) -> bool {
    forall|i: int, j: int| 0 <= i < j < s.len() ==> s[i].0@ != s[j].0@
}

proof fn lemma_pairs_map_at(s: Seq<(ModelRole, String)>, i: int)
    requires
        distinct_roles(s),
        0 <= i < s.len(),
    ensures
        pairs_map(s).dom().contains(s[i].0@),
        pairs_map(s)[s[i].0@] == s[i].1@,
{
    let r = s[i].0@;
    assert(exists|k: int| 0 <= k < s.len() && #[trigger] s[k].0@ == r);
    let k = choose|k: int| 0 <= k < s.len() && #[trigger] s[k].0@ == r;
    if k != i {
        if k < i {
            assert(s[k].0@ != s[i].0@);
        } else {
            assert(s[i].0@ != s[k].0@);
        }
    }
}

/// The place of a role in declaration order; custom roles come last.
pub open spec fn role_rank(r: RoleView) -> int {
    match r {
        RoleView::Default => 0,
        RoleView::Fast => 1,
        RoleView::Large => 2,
        RoleView::Reasoning => 3,
        RoleView::Creative => 4,
        RoleView::Programming => 5,
        RoleView::Structured => 6,
        RoleView::Condenser => 7,
        RoleView::Vision => 8,
        RoleView::Custom(_) => 9,
    }
}

/// `a` sorts before `b` as roles are ordered: in declaration order, and
/// custom roles by their text.
pub open spec fn role_less(a: RoleView, b: RoleView) -> bool {
    if role_rank(a) != role_rank(b) {
        role_rank(a) < role_rank(b)
    } else {
        match (a, b) {
            (RoleView::Custom(x), RoleView::Custom(y)) => text_less(x, y),
            _ => false,
        }
    }
}

/// The pairs are in ascending role order.
pub open spec fn ascending_roles(s: Seq<(ModelRole, String)>) -> bool {
    forall|i: int, j: int| 0 <= i < j < s.len() ==> role_less(#[trigger] s[i].0@, #[trigger] s[j].0@)
}

proof fn lemma_role_order(a: RoleView, b: RoleView, c: RoleView)
    ensures
        !role_less(a, a),
        a != b ==> role_less(a, b) || role_less(b, a),
        role_less(a, b) && role_less(b, c) ==> role_less(a, c),
{
    match a {
        RoleView::Custom(x) => lemma_text_less_irreflexive(x),
        _ => {},
    }
    match (a, b) {
        (RoleView::Custom(x), RoleView::Custom(y)) => {
            if x != y {
                lemma_text_less_total(x, y);
            }
        },
        _ => {},
    }
    match (a, b, c) {
        (RoleView::Custom(x), RoleView::Custom(y), RoleView::Custom(z)) => {
            if text_less(x, y) && text_less(y, z) {
                lemma_text_less_transitive(x, y, z);
            }
        },
        _ => {},
    }
}

impl ModelRole {
    /// Whether this role sorts before `other`: in declaration order, and
    /// custom roles by their text.
    pub fn sorts_before(&self, other: &ModelRole) -> (r: bool)
        ensures
            r == role_less(self@, other@),
    {
        let a = self.rank();
        let b = other.rank();
        if a != b {
            a < b
        } else {
            match (self, other) {
                (ModelRole::Custom(x), ModelRole::Custom(y)) => text_before(x.as_str(), y.as_str()),
                _ => false,
            }
        }
    }

    fn rank(&self) -> (r: u8)
        ensures
            r == role_rank(self@),
    {
        match self {
            ModelRole::Default => 0,
            ModelRole::Fast => 1,
            ModelRole::Large => 2,
            ModelRole::Reasoning => 3,
            ModelRole::Creative => 4,
            ModelRole::Programming => 5,
            ModelRole::Structured => 6,
            ModelRole::Condenser => 7,
            ModelRole::Vision => 8,
            ModelRole::Custom(_) => 9,
        }
    }
}

/// A map from roles to model names; each role occurs once, in ascending
/// role order.
pub struct ModelMap {
    pairs: Vec<(ModelRole, String)>,
}

impl View for ModelMap {
    type V = Map<RoleView, Seq<char>>;

    closed spec fn view(&self) -> Map<RoleView, Seq<char>> {
        pairs_map(self.pairs@)
    }
}

impl ModelMap {
    /// The pairs keep their roles distinct and ascending.
    pub closed spec fn wf(self) -> bool {
        distinct_roles(self.pairs@) && ascending_roles(self.pairs@)
    }

    /// An empty map.
    pub fn new() -> (r: ModelMap)
        ensures
            r.wf(),
            r@ == Map::<RoleView, Seq<char>>::empty(),
    {
        let r = ModelMap { pairs: Vec::new() };
        assert(r@ =~= Map::<RoleView, Seq<char>>::empty());
        r
    }

    /// Maps `role` to `name`, replacing what it mapped to before; the pairs
    /// stay in ascending role order.
    pub fn insert(&mut self, role: ModelRole, name: String)
        requires
            old(self).wf(),
        ensures
            final(self).wf(),
            final(self)@ == old(self)@.insert(role@, name@),
    {
        let ghost old_pairs = self.pairs@;
        let ghost rv = role@;
        let ghost nv = name@;
        let n = self.pairs.len();
        let mut i: usize = 0;
        while i < n && self.pairs[i].0.sorts_before(&role)
            invariant
                n == self.pairs.len(),
                self.pairs@ == old_pairs,
                rv == role@,
                i <= n,
                forall|j: int| 0 <= j < i ==> role_less(#[trigger] old_pairs[j].0@, rv),
            decreases n - i,
        {
            i = i + 1;
        }
        if i < n && self.pairs[i].0.same_role(&role) {
            self.pairs.set(i, (role, name));
            proof {
                let s = self.pairs@;
                assert(distinct_roles(s)) by {
                    assert forall|a: int, b: int| 0 <= a < b < s.len() implies s[a].0@ != s[b].0@ by {
                        assert(old_pairs[a].0@ != old_pairs[b].0@);
                    }
                }
                assert(ascending_roles(s)) by {
                    assert forall|a: int, b: int| 0 <= a < b < s.len() implies role_less(#[trigger] s[a].0@, #[trigger] s[b].0@) by {
                        assert(role_less(old_pairs[a].0@, old_pairs[b].0@));
                    }
                }
                assert forall|r: RoleView| #[trigger] pairs_map(s).dom().contains(r) == pairs_map(old_pairs).dom().contains(r) by {
                    if pairs_map(s).dom().contains(r) {
                        let k = choose|k: int| 0 <= k < s.len() && #[trigger] s[k].0@ == r;
                        assert(old_pairs[k].0@ == r);
                    }
                    if pairs_map(old_pairs).dom().contains(r) {
                        let k = choose|k: int| 0 <= k < old_pairs.len() && #[trigger] old_pairs[k].0@ == r;
                        assert(s[k].0@ == r);
                    }
                }
                lemma_pairs_map_at(old_pairs, i as int);
                assert forall|r: RoleView| pairs_map(s).dom().contains(r) implies #[trigger] pairs_map(s)[r] == pairs_map(old_pairs).insert(rv, nv)[r] by {
                    let k = choose|k: int| 0 <= k < s.len() && #[trigger] s[k].0@ == r;
                    lemma_pairs_map_at(s, k);
                    if k != i {
                        lemma_pairs_map_at(old_pairs, k);
                    }
                }
                assert(pairs_map(s) =~= pairs_map(old_pairs).insert(rv, nv));
            }
            return;
        }
        self.pairs.insert(i, (role, name));
        proof {
            let s = self.pairs@;
            assert(s =~= old_pairs.insert(i as int, s[i as int]));
            assert(s[i as int].0@ == rv);
            assert forall|k: int| 0 <= k < s.len() && k != i implies #[trigger] s[k] == (if k < i { old_pairs[k] } else { old_pairs[k - 1] }) by {}
            if i < n {
                assert(!role_less(old_pairs[i as int].0@, rv));
                assert(old_pairs[i as int].0@ != rv);
                lemma_role_order(rv, old_pairs[i as int].0@, rv);
                assert(role_less(rv, old_pairs[i as int].0@));
            }
            assert(ascending_roles(s)) by {
                assert forall|a: int, b: int| 0 <= a < b < s.len() implies role_less(#[trigger] s[a].0@, #[trigger] s[b].0@) by {
                    if b < i {
                        assert(role_less(old_pairs[a].0@, old_pairs[b].0@));
                    } else if b == i {
                        assert(role_less(old_pairs[a].0@, rv));
                    } else if a == i {
                        if b - 1 > i {
                            assert(role_less(old_pairs[i as int].0@, old_pairs[b - 1].0@));
                            lemma_role_order(rv, old_pairs[i as int].0@, old_pairs[b - 1].0@);
                        }
                    } else if a < i {
                        assert(role_less(old_pairs[a].0@, rv));
                        assert(role_less(rv, old_pairs[i as int].0@));
                        lemma_role_order(old_pairs[a].0@, rv, old_pairs[i as int].0@);
                        if b - 1 > i {
                            assert(role_less(old_pairs[i as int].0@, old_pairs[b - 1].0@));
                            lemma_role_order(old_pairs[a].0@, old_pairs[i as int].0@, old_pairs[b - 1].0@);
                        }
                    } else {
                        assert(role_less(old_pairs[a - 1].0@, old_pairs[b - 1].0@));
                    }
                }
            }
            assert(distinct_roles(s)) by {
                assert forall|a: int, b: int| 0 <= a < b < s.len() implies s[a].0@ != s[b].0@ by {
                    assert(role_less(s[a].0@, s[b].0@));
                    lemma_role_order(s[a].0@, s[b].0@, s[b].0@);
                }
            }
            assert forall|r: RoleView| #[trigger] pairs_map(s).dom().contains(r) == pairs_map(old_pairs).insert(rv, nv).dom().contains(r) by {
                if pairs_map(s).dom().contains(r) && r != rv {
                    let k = choose|k: int| 0 <= k < s.len() && #[trigger] s[k].0@ == r;
                    if k < i {
                        assert(old_pairs[k].0@ == r);
                    } else {
                        assert(old_pairs[k - 1].0@ == r);
                    }
                }
                if pairs_map(old_pairs).dom().contains(r) {
                    let k = choose|k: int| 0 <= k < old_pairs.len() && #[trigger] old_pairs[k].0@ == r;
                    if k < i {
                        assert(s[k].0@ == r);
                    } else {
                        assert(s[k + 1].0@ == r);
                    }
                }
                if r == rv {
                    assert(s[i as int].0@ == r);
                }
            }
            assert forall|r: RoleView| pairs_map(s).dom().contains(r) implies #[trigger] pairs_map(s)[r] == pairs_map(old_pairs).insert(rv, nv)[r] by {
                let k = choose|k: int| 0 <= k < s.len() && #[trigger] s[k].0@ == r;
                lemma_pairs_map_at(s, k);
                if k < i {
                    lemma_pairs_map_at(old_pairs, k);
                } else if k > i {
                    lemma_pairs_map_at(old_pairs, k - 1);
                }
            }
            assert(pairs_map(s) =~= pairs_map(old_pairs).insert(rv, nv));
        }
    }

    /// The model name for `role`, if the map has one.
    pub fn get(&self, role: &ModelRole) -> (r: Option<&String>)
        requires
            self.wf(),
        ensures
            match r {
                Some(name) => self@.dom().contains(role@) && self@[role@] == name@,
                None => !self@.dom().contains(role@),
            },
    {
        let n = self.pairs.len();
        let mut i: usize = 0;
        while i < n
            invariant
                n == self.pairs.len(),
                distinct_roles(self.pairs@),
                i <= n,
                forall|j: int| 0 <= j < i ==> self.pairs@[j].0@ != role@,
            decreases n - i,
        {
            if self.pairs[i].0.same_role(role) {
                proof {
                    lemma_pairs_map_at(self.pairs@, i as int);
                }
                return Some(&self.pairs[i].1);
            }
            i = i + 1;
        }
        None
    }

    /// The number of roles mapped.
    pub fn len(&self) -> (r: usize)
        requires
            self.wf(),
        ensures
            r == self@.dom().len(),
    {
        proof {
            lemma_pairs_map_len(self.pairs@);
        }
        self.pairs.len()
    }

    /// The role/model pairs, each role once, in ascending role order.
    pub fn pairs(&self) -> (r: &Vec<(ModelRole, String)>)
        requires
            self.wf(),
        ensures
            distinct_roles(r@),
            ascending_roles(r@),
            pairs_map(r@) == self@,
    {
        &self.pairs
    }
}


proof fn lemma_pairs_map_len(s: Seq<(ModelRole, String)>)
    requires
        distinct_roles(s),
    ensures
        pairs_map(s).dom().len() == s.len(),
        pairs_map(s).dom().finite(),
    decreases s.len(),
{
    let keys = s.map_values(|p: (ModelRole, String)| p.0@);
    assert(keys.no_duplicates()) by {
        assert forall|a: int, b: int| 0 <= a < keys.len() && 0 <= b < keys.len() && a != b implies keys[a] != keys[b] by {
            if a < b {
                assert(s[a].0@ != s[b].0@);
            } else {
                assert(s[b].0@ != s[a].0@);
            }
        }
    }
    assert(pairs_map(s).dom() =~= keys.to_set()) by {
        assert forall|r: RoleView| pairs_map(s).dom().contains(r) implies keys.to_set().contains(r) by {
            let k = choose|k: int| 0 <= k < s.len() && #[trigger] s[k].0@ == r;
            assert(keys[k] == r);
        }
        assert forall|r: RoleView| keys.to_set().contains(r) implies pairs_map(s).dom().contains(r) by {
            let k = choose|k: int| 0 <= k < keys.len() && keys[k] == r;
            assert(s[k].0@ == r);
        }
    }
    keys.unique_seq_to_set();
}


// ---------------------------------------------------------------------------
// Profiles

/// Model profiles by name; each profile lists models with their roles.
pub struct ProfileMap(ProfileTable);

/// The roles of `e`, each mapped to the model name of `e`.
pub open spec fn entry_roles_map(e: RoleEntry) -> Map<RoleView, Seq<char>> {
    Map::new(|r: RoleView| e.role_set().contains(r), |r: RoleView| e.name@)
}

/// The role map that a profile's entries give: each role goes to the model
/// of the last entry that claims it.
pub open spec fn model_map_of(entries: Seq<RoleEntry>) -> Map<RoleView, Seq<char>>
    decreases entries.len(),
{
    if entries.len() == 0 {
        Map::empty()
    } else {
        model_map_of(entries.drop_last()).union_prefer_right(entry_roles_map(entries.last()))
    }
}

/// Every role that some model of a profile holds is in the profile's role
/// map, and only those; each goes to the name of the last model that holds
/// it, and so, when no role is held twice, to the one model that holds it.
pub proof fn lemma_model_map_covers_roles(entries: Seq<RoleEntry>)
    ensures
        forall|r: RoleView| #[trigger] model_map_of(entries).dom().contains(r) == role_claimed(entries, r),
        forall|r: RoleView|
            #[trigger] model_map_of(entries).dom().contains(r) ==> exists|i: int|
                0 <= i < entries.len() && #[trigger] entries[i].role_set().contains(r) && model_map_of(entries)[r]
                    == entries[i].name@ && forall|j: int| i < j < entries.len() ==> !#[trigger] entries[j].role_set().contains(r),
        roles_unique(entries) ==> forall|i: int, r: RoleView|
            0 <= i < entries.len() && #[trigger] entries[i].role_set().contains(r) ==> model_map_of(entries)[r]
                == entries[i].name@,
    decreases entries.len(),
{
    if entries.len() > 0 {
        let init = entries.drop_last();
        let n = entries.len() - 1;
        lemma_model_map_covers_roles(init);
        assert(entries.last() == entries[n]);
        assert forall|r: RoleView| #[trigger] model_map_of(entries).dom().contains(r) == role_claimed(entries, r) by {
            assert(model_map_of(init).dom().contains(r) == role_claimed(init, r));
            if role_claimed(entries, r) {
                let i = choose|i: int| 0 <= i < entries.len() && #[trigger] entries[i].role_set().contains(r);
                if i < n {
                    assert(init[i] == entries[i]);
                    assert(role_claimed(init, r));
                }
            }
            if role_claimed(init, r) {
                let i = choose|i: int| 0 <= i < init.len() && #[trigger] init[i].role_set().contains(r);
                assert(entries[i] == init[i]);
            }
            if entries.last().role_set().contains(r) {
                assert(entries[n].role_set().contains(r));
            }
        }
        assert forall|r: RoleView| #[trigger] model_map_of(entries).dom().contains(r) implies exists|i: int|
            0 <= i < entries.len() && #[trigger] entries[i].role_set().contains(r) && model_map_of(entries)[r]
                == entries[i].name@ && forall|j: int| i < j < entries.len() ==> !#[trigger] entries[j].role_set().contains(r) by {
            if entries.last().role_set().contains(r) {
                assert(entries[n].role_set().contains(r));
            } else {
                assert(model_map_of(init).dom().contains(r));
                let i = choose|i: int|
                    0 <= i < init.len() && #[trigger] init[i].role_set().contains(r) && model_map_of(init)[r]
                        == init[i].name@ && forall|j: int| i < j < init.len() ==> !#[trigger] init[j].role_set().contains(r);
                assert(entries[i] == init[i]);
                assert forall|j: int| i < j < entries.len() implies !#[trigger] entries[j].role_set().contains(r) by {
                    if j < n {
                        assert(entries[j] == init[j]);
                    }
                }
            }
        }
        if roles_unique(entries) {
            assert(roles_unique(init)) by {
                assert forall|a: int, b: int, r: RoleView|
                    0 <= a < init.len() && 0 <= b < init.len() && a != b && #[trigger] init[a].role_set().contains(r)
                    implies !#[trigger] init[b].role_set().contains(r) by {
                    assert(entries[a] == init[a] && entries[b] == init[b]);
                }
            }
            assert forall|i: int, r: RoleView|
                0 <= i < entries.len() && #[trigger] entries[i].role_set().contains(r) implies model_map_of(entries)[r]
                == entries[i].name@ by {
                if i < n {
                    assert(init[i] == entries[i]);
                    assert(!entries[n].role_set().contains(r));
                }
            }
        }
    }
}

impl ProfileMap {
    /// The profiles: each name with its entries.
    pub closed spec fn profiles(self) -> Map<Seq<char>, Seq<RoleEntry>> {
        profile_map_items(self.0)
    }

    /// Whether there is no profile.
    pub fn is_empty(&self) -> (r: bool)
        ensures
            r == (self.profiles().dom() == Set::<Seq<char>>::empty()),
    {
        profile_map_is_empty(&self.0)
    }

    /// The profile names, each once, in ascending order.
    pub fn keys(&self) -> (r: Vec<String>)
        ensures
            texts_of(r@).to_set() == self.profiles().dom(),
            ascending_texts(texts_of(r@)),
    {
        profile_map_keys(&self.0)
    }

    /// Whether `key` names a profile.
    pub fn contains_key(&self, key: &str) -> (r: bool)
        ensures
            r == self.profiles().dom().contains(key@),
    {
        profile_map_contains_key(&self.0, key)
    }

    /// The entries of the profile `key`.
    pub fn get(&self, key: &str) -> (r: Option<&im::Vector<RoleEntry>>)
        ensures
            match r {
                Some(v) => self.profiles().dom().contains(key@) && entry_list_items(*v)
                    == self.profiles()[key@],
                None => !self.profiles().dom().contains(key@),
            },
    {
        profile_map_get(&self.0, key)
    }

    /// Stores `value` as the profile `key`; returns what the profile held before.
    pub fn insert(&mut self, key: String, value: im::Vector<RoleEntry>) -> (r: Option<
        im::Vector<RoleEntry>,
    >)
        ensures
            final(self).profiles() == old(self).profiles().insert(key@, entry_list_items(value)),
            match r {
                Some(w) => old(self).profiles().dom().contains(key@) && entry_list_items(w)
                    == old(self).profiles()[key@],
                None => !old(self).profiles().dom().contains(key@),
            },
    {
        profile_map_insert(&mut self.0, key, value)
    }

    /// Removes the profile `key`; returns its entries if it existed.
    pub fn remove(&mut self, key: &str) -> (r: Option<im::Vector<RoleEntry>>)
        ensures
            final(self).profiles() == old(self).profiles().remove(key@),
            match r {
                Some(w) => old(self).profiles().dom().contains(key@) && entry_list_items(w)
                    == old(self).profiles()[key@],
                None => !old(self).profiles().dom().contains(key@),
            },
    {
        profile_map_remove(&mut self.0, key)
    }

    /// The lowest profile name, if there is a profile.
    pub fn first_key(&self) -> (r: Option<String>)
        ensures
            match r {
                Some(k) => self.profiles().dom().contains(k@) && forall|o: Seq<char>|
                    #[trigger] self.profiles().dom().contains(o) && o != k@ ==> text_less(k@, o),
                None => self.profiles().dom() == Set::<Seq<char>>::empty(),
            },
    {
        let keys = profile_map_keys(&self.0);
        if keys.len() == 0 {
            proof {
                assert(texts_of(keys@) =~= Seq::<Seq<char>>::empty());
                assert(self.profiles().dom() =~= Set::<Seq<char>>::empty());
            }
            None
        } else {
            let k = keys[0].clone();
            proof {
                let t = texts_of(keys@);
                assert(t[0] == k@);
                assert forall|o: Seq<char>| #[trigger] self.profiles().dom().contains(o) && o != k@ implies text_less(k@, o) by {
                    assert(t.to_set().contains(o));
                    let j = choose|j: int| 0 <= j < t.len() && t[j] == o;
                    assert(j != 0);
                }
            }
            Some(k)
        }
    }

    /// The entries of the profile `key`, created empty when it does not exist.
    /// Whatever the caller leaves there is the profile afterwards.
    pub fn get_or_create(&mut self, key: String) -> (r: &mut im::Vector<RoleEntry>)
        ensures
            entry_list_items(*r) == (if old(self).profiles().dom().contains(key@) {
                old(self).profiles()[key@]
            } else {
                Seq::<RoleEntry>::empty()
            }),
            final(self).profiles() == old(self).profiles().insert(key@, entry_list_items(*final(r))),
    {
        profile_map_entry_or_default(&mut self.0, key)
    }
}

impl Default for ProfileMap {
    /// A single profile named `default` holding one unnamed entry without roles.
    fn default() -> (r: ProfileMap)
        ensures
            r.profiles().dom() == set!["default"@],
            r.profiles()["default"@].len() == 1,
            r.profiles()["default"@][0].name@ == Seq::<char>::empty(),
            r.profiles()["default"@][0].role_set() == Set::<RoleView>::empty(),
    {
        let mut entries = entry_list_new();
        entry_list_push_back(&mut entries, RoleEntry::new());
        let mut m = profile_map_new();
        let _ = profile_map_insert(&mut m, owned("default"), entries);
        let r = ProfileMap(m);
        assert(r.profiles().dom() =~= set!["default"@]);
        r
    }
}


// ---------------------------------------------------------------------------
// Preferences

/// Whether a seed increment is zero (such an increment is left out when saving).
pub fn is_zero(x: &u64) -> (r: bool)
    ensures
        r == (*x == 0),
{
    *x == 0
}

/// The seed handed to completion providers, and how much it grows per run.
#[derive(Clone, Copy, Debug, Default, PartialEq, Eq, Structural)]
pub struct SeedConfig {
    pub value: u64,
    pub increment: u64,
}

/// Subcommands that manage sessions.
#[derive(Clone, Copy, Debug, PartialEq, Eq, Structural)]
pub enum SessionCommand {
    List,
}

/// No role is claimed by two entries.
pub open spec fn roles_unique(entries: Seq<RoleEntry>) -> bool {
    forall|i: int, j: int, r: RoleView|
        0 <= i < entries.len() && 0 <= j < entries.len() && i != j && #[trigger] entries[i].role_set().contains(r)
            ==> !#[trigger] entries[j].role_set().contains(r)
}

/// In every profile, no role is claimed by two entries.
pub open spec fn profiles_roles_unique(m: Map<Seq<char>, Seq<RoleEntry>>) -> bool {
    forall|k: Seq<char>| m.dom().contains(k) ==> roles_unique(#[trigger] m[k])
}

/// Some entry claims the role.
pub open spec fn role_claimed(entries: Seq<RoleEntry>, r: RoleView) -> bool {
    exists|i: int| 0 <= i < entries.len() && #[trigger] entries[i].role_set().contains(r)
}

/// User preferences that the library's logic reads: the model profiles, the
/// active profile and the run settings.
pub struct Preferences {
    pub models: ProfileMap,
    pub profile: String,
    pub stream_idle: Option<u64>,
    pub seed: Option<SeedConfig>,
    pub autoscroll: bool,
    pub cascade: bool,
    pub autoruns: usize,
    pub streaming: bool,
    pub autosave: bool,
    pub image_size: Option<u32>,
}

impl Default for Preferences {
    fn default() -> (r: Preferences)
        ensures
            r.models.profiles().dom() == set!["default"@],
            r.profile@ == Seq::<char>::empty(),
            r.stream_idle is None,
            r.seed is None,
            !r.autoscroll && !r.cascade && !r.streaming && !r.autosave,
            r.autoruns == 0,
            r.image_size is None,
    {
        Preferences {
            models: ProfileMap::default(),
            profile: String::new(),
            stream_idle: None,
            seed: None,
            autoscroll: false,
            cascade: false,
            autoruns: 0,
            streaming: false,
            autosave: false,
            image_size: None,
        }
    }
}

impl Preferences {
    /// The name of the profile in use: the chosen one, or `default` when none is chosen.
    pub open spec fn active_profile(self) -> Seq<char> {
        if self.profile@.len() == 0 {
            "default"@
        } else {
            self.profile@
        }
    }

    /// The role map of the profile in use; empty when that profile does not exist.
    pub open spec fn model_map_spec(self) -> Map<RoleView, Seq<char>> {
        if self.models.profiles().dom().contains(self.active_profile()) {
            model_map_of(self.models.profiles()[self.active_profile()])
        } else {
            Map::empty()
        }
    }

    /// Whether a profile of this name exists.
    pub fn has_profile(&self, name: &str) -> (r: bool)
        ensures
            r == self.models.profiles().dom().contains(name@),
    {
        self.models.contains_key(name)
    }

    /// The models of the profile in use, by role.
    pub fn get_model_map(&self) -> (r: ModelMap)
        ensures
            r.wf(),
            r@ == self.model_map_spec(),
    {
        let profile: &str = if self.profile.as_str().is_empty() {
            "default"
        } else {
            self.profile.as_str()
        };
        let mut map = ModelMap::new();
        match self.models.get(profile) {
            Some(entries) => {
                let ghost items = entry_list_items(*entries);
                let n = entry_list_len(entries);
                assert(items.take(0) =~= Seq::<RoleEntry>::empty());
                for i in 0..n
                    invariant
                        n == items.len(),
                        items == entry_list_items(*entries),
                        map.wf(),
                        map@ == model_map_of(items.take(i as int)),
                {
                    let e = entry_list_get(entries, i);
                    let roles = role_set_to_vec(&e.roles);
                    let ghost base = map@;
                    let ghost views = roles@.map_values(|x: ModelRole| x@);
                    for j in 0..roles.len()
                        invariant
                            map.wf(),
                            views == roles@.map_values(|x: ModelRole| x@),
                            map@ == base.union_prefer_right(
                                Map::new(
                                    |r: RoleView| views.take(j as int).contains(r),
                                    |r: RoleView| e.name@,
                                ),
                            ),
                    {
                        let ghost before = map@;
                        map.insert(roles[j].copy(), e.name.clone());
                        proof {
                            assert(views.take(j + 1) =~= views.take(j as int).push(views[j as int]));
                            assert forall|r: RoleView| #[trigger] views.take(j + 1).contains(r) == (views.take(
                                j as int,
                            ).contains(r) || r == views[j as int]) by {
                                if views.take(j + 1).contains(r) {
                                    let k = choose|k: int| 0 <= k < j + 1 && #[trigger] views.take(j + 1)[k] == r;
                                    if k < j {
                                        assert(views.take(j as int)[k] == r);
                                    }
                                }
                                if views.take(j as int).contains(r) {
                                    let k = choose|k: int| 0 <= k < j && #[trigger] views.take(j as int)[k] == r;
                                    assert(views.take(j + 1)[k] == r);
                                }
                                if r == views[j as int] {
                                    assert(views.take(j + 1)[j as int] == r);
                                }
                            }
                            assert(map@ =~= base.union_prefer_right(
                                Map::new(
                                    |r: RoleView| views.take(j + 1).contains(r),
                                    |r: RoleView| e.name@,
                                ),
                            ));
                        }
                    }
                    proof {
                        assert(views.take(roles@.len() as int) =~= views);
                        assert(items.take(i + 1).drop_last() =~= items.take(i as int));
                        assert(items.take(i + 1).last() == *e);
                        assert(Map::new(|r: RoleView| views.contains(r), |r: RoleView| e.name@)
                            =~= entry_roles_map(*e));
                    }
                }
                proof {
                    assert(items.take(n as int) =~= items);
                }
            },
            None => {},
        }
        map
    }

    /// Starts a new empty profile under `name` and makes it the one in use.
    pub fn create_profile(&mut self, name: String)
        ensures
            final(self).models.profiles() == old(self).models.profiles().insert(
                name@,
                Seq::<RoleEntry>::empty(),
            ),
            final(self).profile@ == name@,
            profiles_roles_unique(old(self).models.profiles()) ==> profiles_roles_unique(
                final(self).models.profiles(),
            ),
    {
        let entries = entry_list_new();
        let _ = self.models.insert(name.clone(), entries);
        self.profile = name;
    }

    /// Deletes the profile in use and switches to the lowest remaining profile
    /// name, or to no name when none remains.
    pub fn delete_active_profile(&mut self)
        ensures
            final(self).models.profiles() == old(self).models.profiles().remove(old(self).profile@),
            final(self).models.profiles().dom() == Set::<Seq<char>>::empty() ==> final(self).profile@.len() == 0,
            final(self).models.profiles().dom() != Set::<Seq<char>>::empty() ==> {
                &&& final(self).models.profiles().dom().contains(final(self).profile@)
                &&& forall|o: Seq<char>|
                    #[trigger] final(self).models.profiles().dom().contains(o) && o != final(self).profile@
                        ==> text_less(final(self).profile@, o)
            },
            profiles_roles_unique(old(self).models.profiles()) ==> profiles_roles_unique(
                final(self).models.profiles(),
            ),
    {
        let name = self.profile.clone();
        let _ = self.models.remove(name.as_str());
        match self.models.first_key() {
            Some(k) => {
                self.profile = k;
            },
            None => {
                self.profile = String::new();
            },
        }
    }

    /// Renames the profile in use to `new_name` (its entries move along; a
    /// missing profile becomes an empty one) and keeps it in use. An empty
    /// new name changes nothing.
    pub fn rename_active_profile(&mut self, new_name: &str)
        ensures
            new_name@.len() == 0 ==> final(self).models.profiles() == old(self).models.profiles()
                && final(self).profile@ == old(self).profile@,
            new_name@.len() != 0 ==> {
                &&& final(self).models.profiles() == old(self).models.profiles().remove(
                    old(self).profile@,
                ).insert(
                    new_name@,
                    if old(self).models.profiles().dom().contains(old(self).profile@) {
                        old(self).models.profiles()[old(self).profile@]
                    } else {
                        Seq::<RoleEntry>::empty()
                    },
                )
                &&& final(self).profile@ == new_name@
            },
            profiles_roles_unique(old(self).models.profiles()) ==> profiles_roles_unique(
                final(self).models.profiles(),
            ),
    {
        if new_name.is_empty() {
            return;
        }
        let name = self.profile.clone();
        let entries = match self.models.remove(name.as_str()) {
            Some(v) => v,
            None => entry_list_new(),
        };
        let _ = self.models.insert(owned(new_name), entries);
        self.profile = owned(new_name);
    }

    /// Names the profile in use `default` when no name is chosen.
    pub fn fill_profile_name(&mut self)
        ensures
            final(self).models.profiles() == old(self).models.profiles(),
            final(self).profile@ == old(self).active_profile(),
            profiles_roles_unique(old(self).models.profiles()) ==> profiles_roles_unique(
                final(self).models.profiles(),
            ),
    {
        if self.profile.as_str().is_empty() {
            self.profile = owned("default");
        }
    }

    /// The entries of the profile in use, created empty when it does not exist.
    pub fn active_entries(&mut self) -> (r: &mut im::Vector<RoleEntry>)
        ensures
            entry_list_items(*r) == (if old(self).models.profiles().dom().contains(old(self).profile@) {
                old(self).models.profiles()[old(self).profile@]
            } else {
                Seq::<RoleEntry>::empty()
            }),
            final(self).models.profiles() == old(self).models.profiles().insert(
                old(self).profile@,
                entry_list_items(*final(r)),
            ),
            final(self).profile == old(self).profile,
    {
        let name = self.profile.clone();
        self.models.get_or_create(name)
    }
}


/// The entries of the profile in use (empty when it does not exist).
pub open spec fn active_items(p: Preferences) -> Seq<RoleEntry> {
    if p.models.profiles().dom().contains(p.profile@) {
        p.models.profiles()[p.profile@]
    } else {
        Seq::<RoleEntry>::empty()
    }
}

/// The roles of `e` after clicking `role` on it: a held role is dropped; a
/// role no entry holds is added; a role another entry holds stays off.
pub open spec fn toggled_role_set(items: Seq<RoleEntry>, index: int, role: RoleView) -> Set<RoleView> {
    let set = items[index].role_set();
    if set.contains(role) {
        set.remove(role)
    } else if !role_claimed(items, role) {
        set.insert(role)
    } else {
        set
    }
}

/// A click changes one role of one model: every other role stays as it was,
/// and afterwards the model holds the clicked role exactly when no model of
/// the profile held it before.
pub proof fn lemma_toggle_changes_one_role(items: Seq<RoleEntry>, index: int, role: RoleView)
    requires
        0 <= index < items.len(),
    ensures
        forall|q: RoleView|
            q != role ==> (#[trigger] toggled_role_set(items, index, role).contains(q)
                == items[index].role_set().contains(q)),
        toggled_role_set(items, index, role).contains(role) == !role_claimed(items, role),
{
    if items[index].role_set().contains(role) {
        assert(items[index].role_set().contains(role));
    }
}

impl Preferences {
    /// Clicks `role` on the model at `index` of the profile in use: the model
    /// drops the role if it holds it, takes it if no model of the profile holds
    /// it, and otherwise nothing changes. No role ever ends up on two models.
    pub fn toggle_role(&mut self, index: usize, role: ModelRole)
        requires
            index < active_items(*old(self)).len(),
        ensures
            final(self).profile == old(self).profile,
            final(self).models.profiles().dom() == old(self).models.profiles().dom(),
            forall|k: Seq<char>|
                k != old(self).profile@ && old(self).models.profiles().dom().contains(k)
                    ==> #[trigger] final(self).models.profiles()[k]
                == old(self).models.profiles()[k],
            active_items(*final(self)).len() == active_items(*old(self)).len(),
            forall|k: int| 0 <= k < active_items(*old(self)).len() && k != index ==>
                #[trigger] active_items(*final(self))[k] == active_items(*old(self))[k],
            active_items(*final(self))[index as int].name@ == active_items(*old(self))[index as int].name@,
            active_items(*final(self))[index as int].role_set() == toggled_role_set(
                active_items(*old(self)),
                index as int,
                role@,
            ),
            roles_unique(active_items(*old(self))) ==> roles_unique(active_items(*final(self))),
            profiles_roles_unique(old(self).models.profiles()) ==> profiles_roles_unique(
                final(self).models.profiles(),
            ),
    {
        let ghost items = active_items(*self);
        let ghost rv = role@;
        let entries = self.active_entries();
        let n = entry_list_len(entries);
        let mut claimed = false;
        let mut j: usize = 0;
        while j < n
            invariant
                n == items.len(),
                entry_list_items(*entries) == items,
                rv == role@,
                j <= n,
                claimed == exists|k: int| 0 <= k < j && #[trigger] items[k].role_set().contains(rv),
            decreases n - j,
        {
            let c = role_set_contains(&entry_list_get(entries, j).roles, &role);
            proof {
                if c {
                    assert(items[j as int].role_set().contains(rv));
                } else {
                    assert forall|k: int| 0 <= k < j + 1 && #[trigger] items[k].role_set().contains(rv)
                        implies k < j by {}
                }
            }
            if c {
                claimed = true;
            }
            j = j + 1;
        }
        assert(claimed == role_claimed(items, rv));
        let holds = role_set_contains(&entry_list_get(entries, index).roles, &role);
        if holds {
            let mut e = entry_list_get(entries, index).clone();
            role_set_remove(&mut e.roles, &role);
            entry_list_set(entries, index, e);
        } else if !claimed {
            let mut e = entry_list_get(entries, index).clone();
            role_set_insert(&mut e.roles, role);
            entry_list_set(entries, index, e);
        }
        proof {
            let after = entry_list_items(*entries);
            if roles_unique(items) {
                assert forall|a: int, b: int, r: RoleView|
                    0 <= a < after.len() && 0 <= b < after.len() && a != b && #[trigger] after[a].role_set().contains(r)
                    implies !#[trigger] after[b].role_set().contains(r) by {
                    if a != index && b != index {
                        assert(items[a].role_set().contains(r));
                    } else if a == index {
                        if r == rv && !holds && !claimed {
                            assert(!items[b].role_set().contains(r));
                        } else {
                            assert(items[a].role_set().contains(r));
                        }
                    } else {
                        if after[b].role_set().contains(r) {
                            if r == rv && !holds && !claimed {
                                assert(items[a].role_set().contains(r));
                            } else {
                                assert(items[b].role_set().contains(r));
                            }
                        }
                    }
                }
            }
        }
    }

    /// How many models the profile in use holds (none when it does not exist).
    pub fn model_count(&self) -> (r: usize)
        ensures
            r == active_items(*self).len(),
    {
        match self.models.get(self.profile.as_str()) {
            Some(v) => entry_list_len(v),
            None => 0,
        }
    }

    /// Appends an unnamed model without roles to the profile in use.
    pub fn add_model(&mut self)
        ensures
            final(self).profile == old(self).profile,
            final(self).models.profiles() == old(self).models.profiles().insert(
                old(self).profile@,
                active_items(*final(self)),
            ),
            active_items(*final(self)).len() == active_items(*old(self)).len() + 1,
            forall|k: int| 0 <= k < active_items(*old(self)).len() ==>
                #[trigger] active_items(*final(self))[k] == active_items(*old(self))[k],
            active_items(*final(self)).last().name@ == Seq::<char>::empty(),
            active_items(*final(self)).last().role_set() == Set::<RoleView>::empty(),
            profiles_roles_unique(old(self).models.profiles()) ==> profiles_roles_unique(
                final(self).models.profiles(),
            ),
    {
        let entries = self.active_entries();
        entry_list_push_back(entries, RoleEntry::new());
    }

    /// Removes the model at `index` of the profile in use.
    pub fn remove_model(&mut self, index: usize)
        requires
            index < active_items(*old(self)).len(),
        ensures
            final(self).profile == old(self).profile,
            final(self).models.profiles() == old(self).models.profiles().insert(
                old(self).profile@,
                active_items(*old(self)).remove(index as int),
            ),
            profiles_roles_unique(old(self).models.profiles()) ==> profiles_roles_unique(
                final(self).models.profiles(),
            ),
    {
        let entries = self.active_entries();
        let _ = entry_list_remove(entries, index);
    }
}

} // verus!
