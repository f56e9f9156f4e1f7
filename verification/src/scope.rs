//! What the runner sets up before it runs anything: the models given on the
//! command line, the settings file and profile, and who a request is for.
use vstd::prelude::*;

use crate::config::{parse_role, ModelMap, ModelRole, Preferences, RoleView};
use crate::persistent::{ascending_texts, texts_of};
use crate::text::{
    last_wins, merge_last_wins, names_ascending, text_pairs,
    lemma_first_index_of_bounds, owned, split_once_char, split_once_spec, split_pieces, trim_spec,
    trim_text,
};

verus! {

// ---------------------------------------------------------------------------
// Models from the command line

/// The role a piece of a role list names: the piece trimmed and parsed.
pub open spec fn piece_role(name: Seq<char>) -> spec_fn(Seq<char>) -> (RoleView, Seq<char>) {
    |r: Seq<char>| (parse_role(trim_spec(r)), name)
}

/// What one model entry assigns, in order. `name=role1,role2` gives each
/// comma-separated role (trimmed) the model `name`; an entry without `=` is
/// the default model, trimmed.
pub open spec fn role_assignments(entry: Seq<char>) -> Seq<(RoleView, Seq<char>)> {
    match split_once_spec(entry, '=') {
        Some((name, roles)) => split_pieces(roles, ',').map_values(piece_role(name)),
        None => seq![(RoleView::Default, trim_spec(entry))],
    }
}

/// `m` after each assignment in turn; a later one for a role wins.
pub open spec fn assign_all(
    m: Map<RoleView, Seq<char>>,
    a: Seq<(RoleView, Seq<char>)>,
) -> Map<RoleView, Seq<char>>
    decreases a.len(),
{
    if a.len() == 0 {
        m
    } else {
        assign_all(m, a.drop_last()).insert(a.last().0, a.last().1)
    }
}

/// The role map that model entries give, taken in order.
pub open spec fn models_from_entries(entries: Seq<Seq<char>>) -> Map<RoleView, Seq<char>>
    decreases entries.len(),
{
    if entries.len() == 0 {
        Map::empty()
    } else {
        assign_all(models_from_entries(entries.drop_last()), role_assignments(entries.last()))
    }
}

proof fn lemma_assign_push(
    m: Map<RoleView, Seq<char>>,
    a: Seq<(RoleView, Seq<char>)>,
    x: (RoleView, Seq<char>),
)
    ensures
        assign_all(m, a.push(x)) == assign_all(m, a).insert(x.0, x.1),
{
    assert(a.push(x).drop_last() =~= a);
}

/// Applies what one model entry assigns.
fn assign_entry(map: &mut ModelMap, entry: &str)
    requires
        old(map).wf(),
    ensures
        final(map).wf(),
        final(map)@ == assign_all(old(map)@, role_assignments(entry@)),
{
    match split_once_char(entry, '=') {
        None => {
            let ghost m0 = map@;
            map.insert(ModelRole::Default, owned(trim_text(entry)));
            proof {
                let a = seq![(RoleView::Default, trim_spec(entry@))];
                lemma_assign_push(m0, Seq::empty(), a[0]);
                assert(Seq::<(RoleView, Seq<char>)>::empty().push(a[0]) =~= a);
            }
        },
        Some((name, roles)) => {
            let ghost m0 = map@;
            let ghost f = piece_role(name@);
            let ghost pieces = split_pieces(roles@, ',');
            let ghost mut done: Seq<Seq<char>> = Seq::empty();
            let mut rest = roles;
            assert(pieces =~= done + split_pieces(rest@, ','));
            loop
                invariant_except_break
                    map.wf(),
                    f == piece_role(name@),
                    pieces == done + split_pieces(rest@, ','),
                    map@ == assign_all(m0, done.map_values(f)),
                ensures
                    map.wf(),
                    map@ == assign_all(m0, pieces.map_values(f)),
                decreases rest@.len(),
            {
                proof {
                    lemma_first_index_of_bounds(rest@, ',');
                }
                match split_once_char(rest, ',') {
                    Some((piece, tail)) => {
                        map.insert(ModelRole::from_str(trim_text(piece)), owned(name));
                        proof {
                            lemma_assign_push(m0, done.map_values(f), f(piece@));
                            assert(done.push(piece@).map_values(f) =~= done.map_values(f).push(f(piece@)));
                            assert(split_pieces(rest@, ',') == seq![piece@] + split_pieces(tail@, ','));
                            assert(done + split_pieces(rest@, ',') =~= done.push(piece@) + split_pieces(tail@, ','));
                            done = done.push(piece@);
                        }
                        rest = tail;
                    },
                    None => {
                        map.insert(ModelRole::from_str(trim_text(rest)), owned(name));
                        proof {
                            assert(split_pieces(rest@, ',') == seq![rest@]);
                            assert(pieces =~= done.push(rest@));
                            lemma_assign_push(m0, done.map_values(f), f(rest@));
                            assert(done.push(rest@).map_values(f) =~= done.map_values(f).push(f(rest@)));
                        }
                        break;
                    },
                }
            }
        },
    }
}

/// The role map given by model entries on the command line, taken in order:
/// `name=role1,role2` gives each listed role the model `name`, and an entry
/// without `=` is the default model. A later entry for a role wins.
pub fn parse_model_args(entries: &Vec<String>) -> (r: ModelMap)
    ensures
        r.wf(),
        r@ == models_from_entries(texts_of(entries@)),
{
    let mut map = ModelMap::new();
    let mut i: usize = 0;
    while i < entries.len()
        invariant
            i <= entries@.len(),
            map.wf(),
            map@ == models_from_entries(texts_of(entries@.take(i as int))),
        decreases entries.len() - i,
    {
        assign_entry(&mut map, entries[i].as_str());
        proof {
            let t = texts_of(entries@.take(i + 1));
            assert(t.drop_last() =~= texts_of(entries@.take(i as int)));
            assert(t.last() == entries@[i as int]@);
        }
        i = i + 1;
    }
    assert(entries@.take(i as int) =~= entries@);
    map
}

/// The models a run uses: those given on the command line, or, when none is
/// given, those of the profile in use.
pub fn models_for_run(prefs: &Preferences, entries: &Vec<String>) -> (r: ModelMap)
    ensures
        r.wf(),
        r@ == (if entries@.len() == 0 {
            prefs.model_map_spec()
        } else {
            models_from_entries(texts_of(entries@))
        }),
{
    if entries.len() == 0 {
        prefs.get_model_map()
    } else {
        parse_model_args(entries)
    }
}

} // verus!

verus! {

// ---------------------------------------------------------------------------
// Settings and profile

/// Why the runner could not set itself up.
#[derive(Clone, Debug, PartialEq, Eq)]
pub enum ScopeError {
    /// No workflow directory was given.
    WorkflowDirRequired,
    /// The configuration file given does not exist.
    ConfigMissing(String),
    /// The profile asked for does not exist; the valid ones, in ascending order.
    ProfileNotFound { profile: String, valid: Vec<String> },
}

/// Where the settings come from.
#[derive(Clone, Debug, PartialEq, Eq)]
pub enum SettingsSource {
    /// No configuration file: the default settings.
    Defaults,
    /// The TOML file at this path.
    File(String),
}

/// The workflow directory, which the runner's server modes need to find
/// workflows by name.
pub fn require_workflow_dir(workflows: Option<String>) -> (r: Result<String, ScopeError>)
    ensures
        match workflows {
            Some(d) => r == Ok::<String, ScopeError>(d),
            None => r == Err::<String, ScopeError>(ScopeError::WorkflowDirRequired),
        },
{
    match workflows {
        Some(d) => Ok(d),
        None => Err(ScopeError::WorkflowDirRequired),
    }
}

/// Where the settings are read from: the configuration file given, which must
/// exist (`config_is_file` tells whether it is a file), or the defaults when
/// none is given.
pub fn settings_source(config: Option<String>, config_is_file: bool) -> (r: Result<
    SettingsSource,
    ScopeError,
>)
    ensures
        match config {
            None => r == Ok::<SettingsSource, ScopeError>(SettingsSource::Defaults),
            Some(p) => if config_is_file {
                r == Ok::<SettingsSource, ScopeError>(SettingsSource::File(p))
            } else {
                r == Err::<SettingsSource, ScopeError>(ScopeError::ConfigMissing(p))
            },
        },
{
    match config {
        None => Ok(SettingsSource::Defaults),
        Some(p) => {
            if config_is_file {
                Ok(SettingsSource::File(p))
            } else {
                Err(ScopeError::ConfigMissing(p))
            }
        },
    }
}

/// Makes `profile` the profile in use when it exists; otherwise the settings
/// stay as they were and the error lists the valid profiles.
pub fn select_profile(prefs: &mut Preferences, profile: &str) -> (r: Result<(), ScopeError>)
    ensures
        final(prefs).models == old(prefs).models,
        old(prefs).models.profiles().dom().contains(profile@) ==> r is Ok && final(prefs).profile@
            == profile@,
        !old(prefs).models.profiles().dom().contains(profile@) ==> *final(prefs) == *old(prefs)
            && match r {
            Err(ScopeError::ProfileNotFound { profile: p, valid }) => p@ == profile@
                && texts_of(valid@).to_set() == old(prefs).models.profiles().dom()
                && ascending_texts(texts_of(valid@)),
            _ => false,
        },
{
    if prefs.has_profile(profile) {
        prefs.profile = owned(profile);
        Ok(())
    } else {
        let valid = prefs.models.keys();
        Err(ScopeError::ProfileNotFound { profile: owned(profile), valid })
    }
}

// ---------------------------------------------------------------------------
// Who a request is for

/// The user a request runs for: a name, and environment variables that are
/// laid over the process environment, each name once, in ascending order.
#[derive(Clone, Debug, Default, PartialEq, Eq)]
pub struct UserData {
    pub name: String,
    pub env: Vec<(String, String)>,
}

/// The text of each header value that is text, `None` for one that is not.
pub open spec fn header_texts(values: Seq<Option<String>>) -> Seq<Option<Seq<char>>> {
    values.map_values(|o: Option<String>| match o {
        Some(s) => Some(s@),
        None => None,
    })
}

/// The `name=value` pairs among header values, in order: values that are no
/// text, or hold no `=`, are skipped; a value is split at its first `=`.
pub open spec fn header_env(values: Seq<Option<Seq<char>>>) -> Seq<(Seq<char>, Seq<char>)>
    decreases values.len(),
{
    if values.len() == 0 {
        Seq::empty()
    } else {
        let rest = header_env(values.drop_last());
        match values.last() {
            Some(t) => match split_once_spec(t, '=') {
                Some(kv) => rest.push(kv),
                None => rest,
            },
            None => rest,
        }
    }
}

/// The views of name/value pairs.
pub open spec fn pair_texts(v: Seq<(String, String)>) -> Seq<(Seq<char>, Seq<char>)> {
    v.map_values(|p: (String, String)| (p.0@, p.1@))
}

/// A request header whose value is not text.
#[derive(Clone, Copy, Debug, PartialEq, Eq, Structural)]
pub enum HeaderError {
    InvalidHeaderValue,
}

impl UserData {
    /// A user of this name with no variables of their own.
    pub fn new(name: &str) -> (r: Self)
        ensures
            r.name@ == name@,
            r.env@.len() == 0,
    {
        UserData { name: owned(name), env: Vec::new() }
    }

    /// The same user with these variables in place of their own; a later
    /// value for a name replaces an earlier one.
    pub fn with_env(self, env: Vec<(String, String)>) -> (r: Self)
        ensures
            r.name == self.name,
            names_ascending(text_pairs(r.env@)),
            last_wins(text_pairs(r.env@)) == last_wins(text_pairs(env@)),
    {
        UserData { name: self.name, env: merge_last_wins(&env) }
    }

    /// The user named by the user-name header, if it is there, with the
    /// `name=value` pairs of the environment headers, collected so that a later
/// value for a name replaces an earlier one. `user` is `None` when
    /// the header is absent and `Some(None)` when its value is not text, which
    /// is an error; in `env_values`, `None` stands for a value that is not text.
    pub fn from_headers(user: Option<Option<String>>, env_values: Vec<Option<String>>) -> (r: Result<
        Option<UserData>,
        HeaderError,
    >)
        ensures
            match user {
                None => r == Ok::<Option<UserData>, HeaderError>(None),
                Some(None) => r == Err::<Option<UserData>, HeaderError>(
                    HeaderError::InvalidHeaderValue,
                ),
                Some(Some(name)) => match r {
                    Ok(Some(u)) => u.name@ == name@ && names_ascending(text_pairs(u.env@))
                        && last_wins(text_pairs(u.env@)) == last_wins(
                        header_env(header_texts(env_values@)),
                    ),
                    _ => false,
                },
            },
    {
        match user {
            None => Ok(None),
            Some(None) => Err(HeaderError::InvalidHeaderValue),
            Some(Some(name)) => {
                let mut env: Vec<(String, String)> = Vec::new();
                let mut i: usize = 0;
                while i < env_values.len()
                    invariant
                        i <= env_values@.len(),
                        pair_texts(env@) == header_env(header_texts(env_values@.take(i as int))),
                    decreases env_values.len() - i,
                {
                    let ghost before = env@;
                    proof {
                        let h = header_texts(env_values@.take(i + 1));
                        assert(h.drop_last() =~= header_texts(env_values@.take(i as int)));
                    }
                    match &env_values[i] {
                        Some(text) => {
                            match split_once_char(text.as_str(), '=') {
                                Some((k, v)) => {
                                    env.push((owned(k), owned(v)));
                                    proof {
                                        assert(pair_texts(env@) =~= pair_texts(before).push((k@, v@)));
                                    }
                                },
                                None => {},
                            }
                        },
                        None => {},
                    }
                    i = i + 1;
                }
                assert(env_values@.take(i as int) =~= env_values@);
                assert(pair_texts(env@) =~= text_pairs(env@));
                Ok(Some(UserData { name, env: merge_last_wins(&env) }))
            },
        }
    }
}

} // verus!
