//! Persistent UI state: its fields, which of them changed, and the list of
//! recently used models.
use vstd::prelude::*;

use crate::persistent::{
    string_list_eq, string_list_get, string_list_items, string_list_len, string_list_new,
    string_list_push_back, string_list_push_front, string_list_remove, string_list_truncate,
};
use crate::text::{owned, same_text};

verus! {

/// How many recently used models are remembered.
pub const RECENT_MODELS_CAP: usize = 16;

/// Settings kept by the UI between runs; directories are held as path text.
pub struct ConfigState {
    /// Models previously used in the UI, most recent first.
    pub prev_models: im::Vector<String>,
    /// Name of the active workflow.
    pub workflow: String,
    pub session: String,
    /// Directory to export workflows.
    pub export_dir: String,
    /// Directory to save outputs to.
    pub output_dir: String,
}

/// A field of [`ConfigState`], stored under its own key.
#[derive(Clone, Copy, Debug, PartialEq, Eq, Structural)]
pub enum StateField {
    PrevModels,
    Workflow,
    Session,
    ExportDir,
    OutputDir,
}

/// The fields in the order in which they are stored.
pub open spec fn all_fields() -> Seq<StateField> {
    seq![
        StateField::PrevModels,
        StateField::Workflow,
        StateField::Session,
        StateField::ExportDir,
        StateField::OutputDir,
    ]
}

impl StateField {
    /// The storage key of the field.
    pub open spec fn key_spec(self) -> Seq<char> {
        match self {
            StateField::PrevModels => "prev_models"@,
            StateField::Workflow => "workflow"@,
            StateField::Session => "session"@,
            StateField::ExportDir => "export_dir"@,
            StateField::OutputDir => "output_dir"@,
        }
    }

    /// The storage key of the field.
    pub fn key(&self) -> (r: &'static str)
        ensures
            r@ == self.key_spec(),
    {
        match self {
            StateField::PrevModels => "prev_models",
            StateField::Workflow => "workflow",
            StateField::Session => "session",
            StateField::ExportDir => "export_dir",
            StateField::OutputDir => "output_dir",
        }
    }

    /// Every field, in storage order.
    pub fn all() -> (r: Vec<StateField>)
        ensures
            r@ == all_fields(),
    {
        let r = vec![
            StateField::PrevModels,
            StateField::Workflow,
            StateField::Session,
            StateField::ExportDir,
            StateField::OutputDir,
        ];
        assert(r@ =~= all_fields());
        r
    }
}

/// Texts other than `m`.
pub open spec fn other_than(m: Seq<char>) -> spec_fn(Seq<char>) -> bool {
    |x: Seq<char>| x != m
}

/// The list of recent models after `m` is used: `m` first, then the others
/// in their order without `m`, at most [`RECENT_MODELS_CAP`] in all.
pub open spec fn recent_after(old: Seq<Seq<char>>, m: Seq<char>) -> Seq<Seq<char>> {
    let full = seq![m] + old.filter(other_than(m));
    if full.len() > RECENT_MODELS_CAP {
        full.take(RECENT_MODELS_CAP as int)
    } else {
        full
    }
}

/// No text occurs twice.
pub open spec fn no_repeats(v: Seq<Seq<char>>) -> bool {
    forall|i: int, j: int| 0 <= i < j < v.len() ==> v[i] != v[j]
}

/// Using a model keeps the recent list free of repeats and within its cap,
/// with the model first.
pub proof fn lemma_recent_after(old: Seq<Seq<char>>, m: Seq<char>)
    requires
        no_repeats(old),
    ensures
        no_repeats(recent_after(old, m)),
        recent_after(old, m).len() <= RECENT_MODELS_CAP,
        recent_after(old, m)[0] == m,
        recent_after(old, m).contains(m),
{
    let rest = old.filter(other_than(m));
    let full = seq![m] + rest;
    assert(full[0] == m);
    assert forall|i: int, j: int| 0 <= i < j < full.len() implies full[i] != full[j] by {
        if i == 0 {
            old.lemma_filter_pred(other_than(m), j - 1);
            assert(full[j] == rest[j - 1]);
        } else {
            lemma_filter_no_repeats(old, m, i - 1, j - 1);
        }
    }
    assert(recent_after(old, m)[0] == full[0]);
}

/// `x` stands before `y` in `s`.
pub open spec fn comes_before(s: Seq<Seq<char>>, x: Seq<char>, y: Seq<char>) -> bool {
    exists|a: int, b: int| 0 <= a < b < s.len() && s[a] == x && s[b] == y
}

/// After `m` is used, the other models keep their places relative to each
/// other: every name after the first is an earlier name other than `m`, two
/// of them stand in the order they stood in before, none is dropped while a
/// less recent one is kept, and all of them are kept while the list is
/// under its cap.
pub proof fn lemma_recent_keeps_order(old: Seq<Seq<char>>, m: Seq<char>)
    requires
        no_repeats(old),
    ensures
        forall|i: int|
            1 <= i < recent_after(old, m).len() ==> #[trigger] recent_after(old, m)[i] != m && old.contains(
                recent_after(old, m)[i],
            ),
        forall|i: int, j: int|
            1 <= i < j < recent_after(old, m).len() ==> comes_before(
                old,
                #[trigger] recent_after(old, m)[i],
                #[trigger] recent_after(old, m)[j],
            ),
        forall|a: int, b: int|
            0 <= a < b < old.len() && old[a] != m && old[b] != m && recent_after(old, m).contains(
                #[trigger] old[b],
            ) ==> recent_after(old, m).contains(#[trigger] old[a]),
        recent_after(old, m).len() < RECENT_MODELS_CAP ==> forall|a: int|
            0 <= a < old.len() && #[trigger] old[a] != m ==> recent_after(old, m).contains(old[a]),
{
    let p = other_than(m);
    let f = old.filter(p);
    let full = seq![m] + f;
    let r = recent_after(old, m);
    assert forall|i: int| 1 <= i < r.len() implies #[trigger] r[i] == f[i - 1] by {
        assert(full[i] == f[i - 1]);
    }
    assert forall|i: int| 1 <= i < r.len() implies #[trigger] r[i] != m && old.contains(r[i]) by {
        old.lemma_filter_pred(p, i - 1);
        assert(f.contains(f[i - 1]));
        old.lemma_filter_contains_rev(p, f[i - 1]);
    }
    assert forall|i: int, j: int| 1 <= i < j < r.len() implies comes_before(old, #[trigger] r[i], #[trigger] r[j]) by {
        let a = lemma_filter_source(old, m, i - 1);
        let b = lemma_filter_source(old, m, j - 1);
        if b <= a {
            lemma_filter_count_grows(old, p, b, a);
        }
        assert(old[a] == r[i] && old[b] == r[j]);
    }
    assert forall|a: int, b: int|
        0 <= a < b < old.len() && old[a] != m && old[b] != m && r.contains(#[trigger] old[b])
        implies r.contains(#[trigger] old[a]) by {
        let k = choose|k: int| 0 <= k < r.len() && r[k] == old[b];
        assert(k != 0);
        lemma_filter_position(old, p, a);
        lemma_filter_position(old, p, b);
        let ia = old.take(a).filter(p).len() as int;
        let ib = old.take(b).filter(p).len() as int;
        if k - 1 != ib {
            if k - 1 < ib {
                lemma_filter_no_repeats(old, m, k - 1, ib);
            } else {
                lemma_filter_no_repeats(old, m, ib, k - 1);
            }
        }
        lemma_filter_count_grows(old, p, a, b);
        assert(r[ia + 1] == old[a]);
    }
    if r.len() < RECENT_MODELS_CAP {
        assert forall|a: int| 0 <= a < old.len() && #[trigger] old[a] != m implies r.contains(old[a]) by {
            lemma_filter_position(old, p, a);
            let ia = old.take(a).filter(p).len() as int;
            assert(full[ia + 1] == old[a]);
            assert(r[ia + 1] == old[a]);
        }
    }
}

/// Where an element of `s` other than `m` lands in the filtered list: after
/// all earlier such elements.
proof fn lemma_filter_position(s: Seq<Seq<char>>, p: spec_fn(Seq<char>) -> bool, a: int)
    requires
        0 <= a < s.len(),
        p(s[a]),
    ensures
        s.take(a).filter(p).len() < s.filter(p).len(),
        s.filter(p)[s.take(a).filter(p).len() as int] == s[a],
{
    let t = s.take(a + 1);
    assert(t =~= s.take(a).push(s[a]));
    s.take(a).lemma_filter_push(s[a], p);
    assert(t.is_prefix_of(s));
    t.lemma_filter_monotone(s, p);
    assert(t.filter(p)[s.take(a).filter(p).len() as int] == s[a]);
}

/// Counting the kept elements of longer prefixes never gives less, and a kept
/// element at `a` makes every longer prefix count more.
proof fn lemma_filter_count_grows(s: Seq<Seq<char>>, p: spec_fn(Seq<char>) -> bool, a: int, b: int)
    requires
        0 <= a <= b <= s.len(),
    ensures
        s.take(a).filter(p).len() <= s.take(b).filter(p).len(),
        a < b && p(s[a]) ==> s.take(a).filter(p).len() < s.take(b).filter(p).len(),
{
    s.take(b).lemma_filter_take_len(p, a);
    assert(s.take(b).take(a) =~= s.take(a));
    if a < b && p(s[a]) {
        assert(s.take(a + 1) =~= s.take(a).push(s[a]));
        s.take(a).lemma_filter_push(s[a], p);
        s.take(b).lemma_filter_take_len(p, a + 1);
        assert(s.take(b).take(a + 1) =~= s.take(a + 1));
    }
}

/// The place in `old` that the `i`-th model other than `m` comes from.
proof fn lemma_filter_source(old: Seq<Seq<char>>, m: Seq<char>, i: int) -> (a: int)
    requires
        no_repeats(old),
        0 <= i < old.filter(other_than(m)).len(),
    ensures
        0 <= a < old.len(),
        old[a] == old.filter(other_than(m))[i],
        old.take(a).filter(other_than(m)).len() == i,
{
    let p = other_than(m);
    let f = old.filter(p);
    assert(f.contains(f[i]));
    old.lemma_filter_contains_rev(p, f[i]);
    let a = choose|a: int| 0 <= a < old.len() && old[a] == f[i];
    old.lemma_filter_pred(p, i);
    lemma_filter_position(old, p, a);
    let ia = old.take(a).filter(p).len() as int;
    if ia != i {
        if ia < i {
            lemma_filter_no_repeats(old, m, ia, i);
        } else {
            lemma_filter_no_repeats(old, m, i, ia);
        }
    }
    a
}

proof fn lemma_filter_no_repeats(old: Seq<Seq<char>>, m: Seq<char>, i: int, j: int)
    requires
        no_repeats(old),
        0 <= i < j < old.filter(other_than(m)).len(),
    ensures
        old.filter(other_than(m))[i] != old.filter(other_than(m))[j],
    decreases old.len(),
{
    reveal(Seq::filter);
    let p = other_than(m);
    let init = old.drop_last();
    assert forall|a: int, b: int| 0 <= a < b < init.len() implies init[a] != init[b] by {
        assert(init[a] == old[a] && init[b] == old[b]);
    }
    if p(old.last()) {
        let f0 = init.filter(p);
        assert(old.filter(p) == f0.push(old.last()));
        if j < f0.len() {
            lemma_filter_no_repeats(init, m, i, j);
        } else {
            assert(old.filter(p)[j] == old.last());
            assert(old.filter(p)[i] == f0[i]);
            init.lemma_filter_contains_rev(p, f0[i]);
            let k = choose|k: int| 0 <= k < init.len() && init[k] == f0[i];
            assert(old[k] == init[k]);
            assert(old[k] != old[old.len() - 1]);
        }
    } else {
        assert(old.filter(p) == init.filter(p));
        lemma_filter_no_repeats(init, m, i, j);
    }
}

impl ConfigState {
    /// The recently used models, most recent first.
    pub open spec fn recent(self) -> Seq<Seq<char>> {
        string_list_items(self.prev_models)
    }

    /// Whether `field` holds the same value in `self` and `other`.
    pub open spec fn same_field(self, other: ConfigState, field: StateField) -> bool {
        match field {
            StateField::PrevModels => self.recent() == other.recent(),
            StateField::Workflow => self.workflow@ == other.workflow@,
            StateField::Session => self.session@ == other.session@,
            StateField::ExportDir => self.export_dir@ == other.export_dir@,
            StateField::OutputDir => self.output_dir@ == other.output_dir@,
        }
    }

    /// A state with no recent models and empty texts.
    pub fn new() -> (r: ConfigState)
        ensures
            r.recent() == Seq::<Seq<char>>::empty(),
            r.workflow@ == Seq::<char>::empty(),
            r.session@ == Seq::<char>::empty(),
            r.export_dir@ == Seq::<char>::empty(),
            r.output_dir@ == Seq::<char>::empty(),
    {
        ConfigState {
            prev_models: string_list_new(),
            workflow: String::new(),
            session: String::new(),
            export_dir: String::new(),
            output_dir: String::new(),
        }
    }

    /// Whether one field holds the same value here and in `other`.
    pub fn field_unchanged(&self, other: &ConfigState, field: StateField) -> (r: bool)
        ensures
            r == self.same_field(*other, field),
    {
        match field {
            StateField::PrevModels => string_list_eq(&self.prev_models, &other.prev_models),
            StateField::Workflow => self.workflow == other.workflow,
            StateField::Session => self.session == other.session,
            StateField::ExportDir => self.export_dir == other.export_dir,
            StateField::OutputDir => self.output_dir == other.output_dir,
        }
    }

    /// The fields whose value differs from `baseline`, in storage order: what
    /// must be written back after a change.
    pub fn changed_fields(&self, baseline: &ConfigState) -> (r: Vec<StateField>)
        ensures
            r@ == all_fields().filter(|f: StateField| !self.same_field(*baseline, f)),
    {
        let fields = StateField::all();
        let mut r: Vec<StateField> = Vec::new();
        let ghost pred = |f: StateField| !self.same_field(*baseline, f);
        assert(all_fields().take(0) =~= Seq::<StateField>::empty());
        proof {
            reveal(Seq::filter);
        }
        for i in 0..fields.len()
            invariant
                fields@ == all_fields(),
                pred == (|f: StateField| !self.same_field(*baseline, f)),
                r@ == all_fields().take(i as int).filter(pred),
        {
            proof {
                all_fields().take(i as int).lemma_filter_push(fields@[i as int], pred);
                assert(all_fields().take(i + 1) =~= all_fields().take(i as int).push(fields@[i as int]));
            }
            if !self.field_unchanged(baseline, fields[i]) {
                r.push(fields[i]);
            }
        }
        assert(all_fields().take(5) =~= all_fields());
        r
    }

    /// Sets the output directory when a target is given.
    pub fn set_output_dir(&mut self, target: Option<String>)
        ensures
            final(self).output_dir@ == (match target {
                Some(t) => t@,
                None => old(self).output_dir@,
            }),
            final(self).recent() == old(self).recent(),
            final(self).workflow == old(self).workflow,
            final(self).session == old(self).session,
            final(self).export_dir == old(self).export_dir,
    {
        if let Some(path) = target {
            self.output_dir = path;
        }
    }

    /// Sets the export directory when a target is given.
    pub fn set_export_dir(&mut self, target: Option<String>)
        ensures
            final(self).export_dir@ == (match target {
                Some(t) => t@,
                None => old(self).export_dir@,
            }),
            final(self).recent() == old(self).recent(),
            final(self).workflow == old(self).workflow,
            final(self).session == old(self).session,
            final(self).output_dir == old(self).output_dir,
    {
        if let Some(path) = target {
            self.export_dir = path;
        }
    }

    /// Sets the session name.
    pub fn set_session(&mut self, value: String)
        ensures
            final(self).session@ == value@,
            final(self).recent() == old(self).recent(),
            final(self).workflow == old(self).workflow,
            final(self).export_dir == old(self).export_dir,
            final(self).output_dir == old(self).output_dir,
    {
        self.session = value;
    }

    /// Records `model` as the most recently used one: it moves to the front,
    /// appears once, and the list keeps at most [`RECENT_MODELS_CAP`] names.
    pub fn remember_model(&mut self, model: &str)
        ensures
            final(self).recent() == recent_after(old(self).recent(), model@),
            final(self).workflow == old(self).workflow,
            final(self).session == old(self).session,
            final(self).export_dir == old(self).export_dir,
            final(self).output_dir == old(self).output_dir,
    {
        let ghost old_items = self.recent();
        let ghost m = model@;
        let ghost keep = other_than(m);
        let mut fresh = string_list_new();
        string_list_push_back(&mut fresh, owned(model));
        let n = string_list_len(&self.prev_models);
        assert(old_items.take(0) =~= Seq::<Seq<char>>::empty());
        proof {
            reveal(Seq::filter);
        }
        for i in 0..n
            invariant
                n == old_items.len(),
                old_items == string_list_items(self.prev_models),
                m == model@,
                keep == other_than(m),
                string_list_items(fresh) == seq![m] + old_items.take(i as int).filter(keep),
        {
            let item = string_list_get(&self.prev_models, i);
            proof {
                old_items.take(i as int).lemma_filter_push(old_items[i as int], keep);
                assert(old_items.take(i + 1) =~= old_items.take(i as int).push(old_items[i as int]));
            }
            if !same_text(item.as_str(), model) {
                string_list_push_back(&mut fresh, item.clone());
                proof {
                    assert(string_list_items(fresh) =~= seq![m] + old_items.take(i + 1).filter(keep));
                }
            }
        }
        assert(old_items.take(n as int) =~= old_items);
        let ghost full = seq![m] + old_items.filter(keep);
        assert(string_list_items(fresh) == full);
        if string_list_len(&fresh) > RECENT_MODELS_CAP {
            string_list_truncate(&mut fresh, RECENT_MODELS_CAP);
        }
        self.prev_models = fresh;
        assert(self.recent() == recent_after(old_items, m));
    }

    /// How many recent models are remembered.
    pub fn recent_count(&self) -> (r: usize)
        ensures
            r == self.recent().len(),
    {
        string_list_len(&self.prev_models)
    }

    /// Moves the recent model at `index` to the front and returns its name.
    pub fn pick_recent_model(&mut self, index: usize) -> (r: String)
        requires
            index < old(self).recent().len(),
        ensures
            r@ == old(self).recent()[index as int],
            final(self).recent() == seq![r@] + old(self).recent().remove(index as int),
            final(self).workflow == old(self).workflow,
            final(self).session == old(self).session,
            final(self).export_dir == old(self).export_dir,
            final(self).output_dir == old(self).output_dir,
    {
        let name = string_list_remove(&mut self.prev_models, index);
        string_list_push_front(&mut self.prev_models, name.clone());
        name
    }

    /// Forgets every recent model.
    pub fn clear_recent_models(&mut self)
        ensures
            final(self).recent() == Seq::<Seq<char>>::empty(),
            final(self).workflow == old(self).workflow,
            final(self).session == old(self).session,
            final(self).export_dir == old(self).export_dir,
            final(self).output_dir == old(self).output_dir,
    {
        self.prev_models = string_list_new();
    }
}

} // verus!

verus! {

// ---------------------------------------------------------------------------
// Stored form of the fields

#[verifier::external_type_specification]
#[verifier::external_body]
pub struct ExPostcardError(postcard::Error);

/// The postcard encoding of a text.
pub uninterp spec fn postcard_text(t: Seq<char>) -> Seq<u8>;

/// The postcard encoding of a list of texts.
pub uninterp spec fn postcard_text_list(v: Seq<Seq<char>>) -> Seq<u8>;

/// The text that postcard reads from some bytes, if it reads one.
pub uninterp spec fn postcard_text_decoded(b: Seq<u8>) -> Option<Seq<char>>;

/// The list of texts that postcard reads from some bytes, if it reads one.
pub uninterp spec fn postcard_text_list_decoded(b: Seq<u8>) -> Option<Seq<Seq<char>>>;

/// `postcard::to_allocvec` of a text. Its serializer only appends to a
/// growable vector, so it does not fail.
#[verifier::external_body]
fn encode_text(s: &String) -> (r: Result<Vec<u8>, postcard::Error>)
    ensures
        r is Ok,
        r matches Ok(b) ==> b@ == postcard_text(s@),
{
    postcard::to_allocvec(s)
}

/// `postcard::to_allocvec` of a persistent vector of texts, which serializes
/// as a sequence of known length; it does not fail either.
#[verifier::external_body]
fn encode_text_list(v: &im::Vector<String>) -> (r: Result<Vec<u8>, postcard::Error>)
    ensures
        r is Ok,
        r matches Ok(b) ==> b@ == postcard_text_list(string_list_items(*v)),
{
    postcard::to_allocvec(v)
}

/// `postcard::from_bytes` as a text. What it reads is named; the encoding of
/// a text reads back as that text.
#[verifier::external_body]
fn decode_text(b: &[u8]) -> (r: Result<String, postcard::Error>)
    ensures
        match r {
            Ok(s) => postcard_text_decoded(b@) == Some(s@),
            Err(_) => postcard_text_decoded(b@) is None,
        },
        forall|t: Seq<char>| b@ == #[trigger] postcard_text(t) ==> r is Ok,
        forall|t: Seq<char>| b@ == #[trigger] postcard_text(t) ==> (r matches Ok(s) ==> s@ == t),
{
    postcard::from_bytes(b)
}

/// `postcard::from_bytes` as a persistent vector of texts. What it reads is
/// named; the encoding of a list reads back as that list.
#[verifier::external_body]
fn decode_text_list(b: &[u8]) -> (r: Result<im::Vector<String>, postcard::Error>)
    ensures
        match r {
            Ok(v) => postcard_text_list_decoded(b@) == Some(string_list_items(v)),
            Err(_) => postcard_text_list_decoded(b@) is None,
        },
        forall|t: Seq<Seq<char>>| b@ == #[trigger] postcard_text_list(t) ==> r is Ok,
        forall|t: Seq<Seq<char>>| b@ == #[trigger] postcard_text_list(t) ==> (r matches Ok(v)
            ==> string_list_items(v) == t),
{
    postcard::from_bytes(b)
}

/// The bytes stored for a field of a state.
pub open spec fn field_bytes(s: ConfigState, f: StateField) -> Seq<u8> {
    match f {
        StateField::PrevModels => postcard_text_list(s.recent()),
        StateField::Workflow => postcard_text(s.workflow@),
        StateField::Session => postcard_text(s.session@),
        StateField::ExportDir => postcard_text(s.export_dir@),
        StateField::OutputDir => postcard_text(s.output_dir@),
    }
}

/// Whether some bytes read back as a value of the field.
pub open spec fn field_readable(f: StateField, b: Seq<u8>) -> bool {
    match f {
        StateField::PrevModels => postcard_text_list_decoded(b) is Some,
        _ => postcard_text_decoded(b) is Some,
    }
}

/// The field `f` of `s` holds what the bytes read as.
pub open spec fn field_holds(s: ConfigState, f: StateField, b: Seq<u8>) -> bool {
    match f {
        StateField::PrevModels => postcard_text_list_decoded(b) == Some(s.recent()),
        StateField::Workflow => postcard_text_decoded(b) == Some(s.workflow@),
        StateField::Session => postcard_text_decoded(b) == Some(s.session@),
        StateField::ExportDir => postcard_text_decoded(b) == Some(s.export_dir@),
        StateField::OutputDir => postcard_text_decoded(b) == Some(s.output_dir@),
    }
}

/// `s` and `t` agree on every field other than `f`.
pub open spec fn same_except(s: ConfigState, t: ConfigState, f: StateField) -> bool {
    forall|g: StateField| g != f ==> #[trigger] s.same_field(t, g)
}

/// The field/bytes pairs as plain values.
pub open spec fn writes_view(w: Seq<(StateField, Vec<u8>)>) -> Seq<(StateField, Seq<u8>)> {
    w.map_values(|p: (StateField, Vec<u8>)| (p.0, p.1@))
}

/// What must be written after `s` came from `baseline`: each field that
/// changed, in storage order, with its stored bytes.
pub open spec fn writes_spec(s: ConfigState, baseline: ConfigState) -> Seq<(StateField, Seq<u8>)> {
    all_fields().filter(|f: StateField| !s.same_field(baseline, f)).map_values(
        |f: StateField| (f, field_bytes(s, f)),
    )
}

/// Why the stored state could not be read.
#[derive(Clone, Copy, Debug, PartialEq, Eq, Structural)]
pub enum StoreError {
    /// Stored bytes do not read as a value of their field.
    Decode,
}

impl ConfigState {
    /// The bytes stored for `field`.
    pub fn encode_field(&self, field: StateField) -> (r: Vec<u8>)
        ensures
            r@ == field_bytes(*self, field),
    {
        let e = match field {
            StateField::PrevModels => encode_text_list(&self.prev_models),
            StateField::Workflow => encode_text(&self.workflow),
            StateField::Session => encode_text(&self.session),
            StateField::ExportDir => encode_text(&self.export_dir),
            StateField::OutputDir => encode_text(&self.output_dir),
        };
        match e {
            Ok(b) => b,
            Err(_) => Vec::new(),
        }
    }

    /// What a change from `baseline` to this state writes to the store: each
    /// changed field, in storage order, with its bytes; nothing when nothing
    /// changed.
    pub fn writes_since(&self, baseline: &ConfigState) -> (r: Vec<(StateField, Vec<u8>)>)
        ensures
            writes_view(r@) == writes_spec(*self, *baseline),
    {
        let fields = self.changed_fields(baseline);
        let ghost changed = all_fields().filter(|f: StateField| !self.same_field(*baseline, f));
        let mut out: Vec<(StateField, Vec<u8>)> = Vec::new();
        let mut i: usize = 0;
        while i < fields.len()
            invariant
                fields@ == changed,
                i <= fields@.len(),
                writes_view(out@) == changed.take(i as int).map_values(
                    |f: StateField| (f, field_bytes(*self, f)),
                ),
            decreases fields.len() - i,
        {
            let f = fields[i];
            let bytes = self.encode_field(f);
            let ghost before = out@;
            out.push((f, bytes));
            proof {
                assert(changed.take(i + 1) =~= changed.take(i as int).push(f));
                assert(writes_view(out@) =~= writes_view(before).push((f, field_bytes(*self, f))));
                assert(changed.take(i + 1).map_values(|g: StateField| (g, field_bytes(*self, g)))
                    =~= changed.take(i as int).map_values(|g: StateField| (g, field_bytes(*self, g))).push(
                    (f, field_bytes(*self, f)),
                ));
            }
            i = i + 1;
        }
        assert(changed.take(i as int) =~= changed);
        out
    }

    /// Reads the stored bytes of `field` into the state. Bytes that read as
    /// no value leave the state as it was and report an error. Bytes stored
    /// for the field of any state read back as that state's value.
    pub fn load_field(&mut self, field: StateField, bytes: &[u8]) -> (r: Result<(), StoreError>)
        ensures
            r is Ok <==> field_readable(field, bytes@),
            r is Ok ==> field_holds(*final(self), field, bytes@),
            r is Err ==> *final(self) == *old(self),
            same_except(*final(self), *old(self), field),
            forall|t: ConfigState| bytes@ == #[trigger] field_bytes(t, field) ==> (r is Ok
                && final(self).same_field(t, field)),
    {
        match field {
            StateField::PrevModels => match decode_text_list(bytes) {
                Ok(v) => {
                    self.prev_models = v;
                    Ok(())
                },
                Err(_) => Err(StoreError::Decode),
            },
            StateField::Workflow => match decode_text(bytes) {
                Ok(s) => {
                    self.workflow = s;
                    Ok(())
                },
                Err(_) => Err(StoreError::Decode),
            },
            StateField::Session => match decode_text(bytes) {
                Ok(s) => {
                    self.session = s;
                    Ok(())
                },
                Err(_) => Err(StoreError::Decode),
            },
            StateField::ExportDir => match decode_text(bytes) {
                Ok(s) => {
                    self.export_dir = s;
                    Ok(())
                },
                Err(_) => Err(StoreError::Decode),
            },
            StateField::OutputDir => match decode_text(bytes) {
                Ok(s) => {
                    self.output_dir = s;
                    Ok(())
                },
                Err(_) => Err(StoreError::Decode),
            },
        }
    }
}


/// `f` is the field of one of the first `n` pairs.
pub open spec fn written_among(w: Seq<(StateField, Seq<u8>)>, n: int, f: StateField) -> bool {
    exists|k: int| 0 <= k < n && #[trigger] w[k].0 == f
}

/// The pair at `k` is the last among the first `n` pairs that writes its field.
pub open spec fn last_write(w: Seq<(StateField, Seq<u8>)>, k: int, n: int) -> bool {
    forall|j: int| k < j < n ==> #[trigger] w[j].0 != w[k].0
}

proof fn lemma_field_holds_same(s: ConfigState, t: ConfigState, f: StateField, b: Seq<u8>)
    requires
        field_holds(s, f, b),
        t.same_field(s, f),
    ensures
        field_holds(t, f, b),
{
}

proof fn lemma_writes_spec_shape(t: ConfigState, b: ConfigState)
    ensures
        forall|k: int| 0 <= k < writes_spec(t, b).len() ==> #[trigger] writes_spec(t, b)[k] == (
            writes_spec(t, b)[k].0,
            field_bytes(t, writes_spec(t, b)[k].0),
        ),
        forall|f: StateField| !written_among(writes_spec(t, b), writes_spec(t, b).len() as int, f)
            ==> #[trigger] t.same_field(b, f),
{
    let pred = |f: StateField| !t.same_field(b, f);
    let changed = all_fields().filter(pred);
    let w = writes_spec(t, b);
    assert(w == changed.map_values(|f: StateField| (f, field_bytes(t, f))));
    assert forall|f: StateField| !written_among(w, w.len() as int, f) implies #[trigger] t.same_field(b, f) by {
        if !t.same_field(b, f) {
            let i: int = match f {
                StateField::PrevModels => 0,
                StateField::Workflow => 1,
                StateField::Session => 2,
                StateField::ExportDir => 3,
                StateField::OutputDir => 4,
            };
            assert(all_fields()[i] == f);
            all_fields().lemma_filter_contains(pred, i);
            let k = choose|k: int| 0 <= k < changed.len() && changed[k] == f;
            assert(w[k].0 == f);
        }
    }
}

impl ConfigState {
    /// Reads stored fields into the state, in the order given, as a refresh
    /// does with what the store holds; it stops at the first field whose
    /// bytes read as no value. Reading back what a change from this state
    /// wrote (see [`ConfigState::writes_since`]) gives the changed state.
    pub fn load_stored(&mut self, stored: &Vec<(StateField, Vec<u8>)>) -> (r: Result<(), StoreError>)
        ensures
            r is Ok <==> forall|k: int| 0 <= k < stored@.len() ==> field_readable(
                #[trigger] stored@[k].0,
                stored@[k].1@,
            ),
            r is Ok ==> forall|k: int| 0 <= k < stored@.len() && last_write(writes_view(stored@), k, stored@.len() as int)
                ==> field_holds(*final(self), #[trigger] stored@[k].0, stored@[k].1@),
            r is Err ==> exists|e: int| #![trigger stored@[e]] 0 <= e < stored@.len() && !field_readable(stored@[e].0, stored@[e].1@)
                && (forall|k: int| 0 <= k < e ==> field_readable(#[trigger] stored@[k].0, stored@[k].1@))
                && (forall|k: int| 0 <= k < e && last_write(writes_view(stored@), k, e)
                ==> field_holds(*final(self), #[trigger] stored@[k].0, stored@[k].1@))
                && (forall|f: StateField| !written_among(writes_view(stored@), e, f)
                ==> #[trigger] final(self).same_field(*old(self), f)),
            forall|f: StateField| !written_among(writes_view(stored@), stored@.len() as int, f)
                ==> #[trigger] final(self).same_field(*old(self), f),
            forall|t: ConfigState| #[trigger] writes_spec(t, *old(self)) == writes_view(stored@) ==> (
            r is Ok && forall|f: StateField| #[trigger] final(self).same_field(t, f)),
            forall|t: ConfigState, b: ConfigState| #[trigger] writes_spec(t, b) == writes_view(stored@)
                && (forall|f: StateField| !written_among(writes_view(stored@), stored@.len() as int, f)
                ==> #[trigger] old(self).same_field(t, f)) ==> (r is Ok && forall|f: StateField|
                #[trigger] final(self).same_field(t, f)),
    {
        let ghost b0 = *self;
        let ghost wv = writes_view(stored@);
        let mut i: usize = 0;
        while i < stored.len()
            invariant
                i <= stored@.len(),
                b0 == *old(self),
                wv == writes_view(stored@),
                forall|k: int| 0 <= k < i ==> field_readable(#[trigger] stored@[k].0, stored@[k].1@),
                forall|k: int| 0 <= k < i && last_write(wv, k, i as int) ==> field_holds(
                    *self,
                    #[trigger] stored@[k].0,
                    stored@[k].1@,
                ),
                forall|f: StateField| !written_among(wv, i as int, f) ==> #[trigger] self.same_field(b0, f),
                forall|t: ConfigState, b: ConfigState| #[trigger] writes_spec(t, b) == wv ==> forall|f: StateField|
                    written_among(wv, i as int, f) ==> #[trigger] self.same_field(t, f),
            decreases stored.len() - i,
        {
            let ghost before = *self;
            let field = stored[i].0;
            let res = self.load_field(field, stored[i].1.as_slice());
            proof {
                assert(wv[i as int] == (field, stored@[i as int].1@));
                assert forall|t: ConfigState, b: ConfigState| #[trigger] writes_spec(t, b) == wv implies (res is Ok
                    && forall|f: StateField| written_among(wv, i + 1, f) ==> #[trigger] self.same_field(t, f)) by {
                    lemma_writes_spec_shape(t, b);
                    assert(wv[i as int] == (wv[i as int].0, field_bytes(t, wv[i as int].0)));
                    assert(stored@[i as int].1@ == field_bytes(t, field));
                    assert forall|f: StateField| written_among(wv, i + 1, f) implies #[trigger] self.same_field(t, f) by {
                        if f != field {
                            let k = choose|k: int| 0 <= k < i + 1 && #[trigger] wv[k].0 == f;
                            assert(written_among(wv, i as int, f));
                            assert(before.same_field(t, f));
                            assert(self.same_field(before, f));
                        }
                    }
                }
                assert forall|t: ConfigState| #[trigger] writes_spec(t, b0) == wv implies (res is Ok
                    && forall|f: StateField| written_among(wv, i + 1, f) ==> #[trigger] self.same_field(t, f)) by {
                    assert(writes_spec(t, b0) == wv);
                }
                assert forall|f: StateField| !written_among(wv, i + 1, f) implies #[trigger] self.same_field(b0, f) by {
                    assert(!written_among(wv, i as int, f)) by {
                        if written_among(wv, i as int, f) {
                            let k = choose|k: int| 0 <= k < i && #[trigger] wv[k].0 == f;
                            assert(wv[k].0 == f && 0 <= k < i + 1);
                        }
                    }
                    assert(wv[i as int].0 != f);
                    assert(before.same_field(b0, f));
                    assert(self.same_field(before, f));
                }
            }
            proof {
                if res is Ok {
                    assert forall|k: int| 0 <= k < i + 1 && last_write(wv, k, i + 1) implies field_holds(
                        *self,
                        #[trigger] stored@[k].0,
                        stored@[k].1@,
                    ) by {
                        if k < i {
                            assert(wv[i as int].0 != wv[k].0);
                            assert(wv[k] == (stored@[k].0, stored@[k].1@));
                            assert(last_write(wv, k, i as int));
                            assert(field_holds(before, stored@[k].0, stored@[k].1@));
                            assert(self.same_field(before, stored@[k].0));
                            lemma_field_holds_same(before, *self, stored@[k].0, stored@[k].1@);
                        }
                    }
                }
            }
            if res.is_err() {
                proof {
                    assert(!field_readable(stored@[i as int].0, stored@[i as int].1@));
                    assert forall|f: StateField| !written_among(wv, stored@.len() as int, f)
                        implies #[trigger] self.same_field(b0, f) by {
                        if written_among(wv, i as int, f) {
                            let k = choose|k: int| 0 <= k < i && #[trigger] wv[k].0 == f;
                            assert(wv[k].0 == f && 0 <= k < stored@.len());
                        }
                    }
                }
                return res;
            }
            i = i + 1;
        }
        proof {
            assert forall|t: ConfigState| #[trigger] writes_spec(t, b0) == wv implies forall|f: StateField|
                #[trigger] self.same_field(t, f) by {
                lemma_writes_spec_shape(t, b0);
                assert forall|f: StateField| #[trigger] self.same_field(t, f) by {
                    if !written_among(wv, i as int, f) {
                        assert(t.same_field(b0, f));
                        assert(self.same_field(b0, f));
                    }
                }
            }
            assert forall|t: ConfigState, b: ConfigState| #[trigger] writes_spec(t, b) == wv
                && (forall|f: StateField| !written_among(wv, stored@.len() as int, f) ==> #[trigger] b0.same_field(t, f))
                implies forall|f: StateField| #[trigger] self.same_field(t, f) by {
                assert forall|f: StateField| #[trigger] self.same_field(t, f) by {
                    if !written_among(wv, i as int, f) {
                        assert(b0.same_field(t, f));
                        assert(self.same_field(b0, f));
                    }
                }
            }
        }
        Ok(())
    }
}

} // verus!
