//! The persistent collections of the `im` crate that the configuration keeps:
//! their declarations, names for their contents, and one wrapper per method
//! that the library calls, each stating what the method does to the contents.
use vstd::prelude::*;

use crate::config::{ModelRole, RoleEntry, RoleView};

verus! {

#[verifier::external_type_specification]
#[verifier::external_body]
#[verifier::reject_recursive_types(A)]
pub struct ExOrdSet<A>(im::OrdSet<A>);

#[verifier::external_type_specification]
#[verifier::external_body]
#[verifier::reject_recursive_types(A)]
pub struct ExVector<A>(im::Vector<A>);

#[verifier::external_type_specification]
#[verifier::external_body]
#[verifier::reject_recursive_types(K)]
#[verifier::reject_recursive_types(V)]
pub struct ExOrdMap<K, V>(im::OrdMap<K, V>);

/// Profile names mapped to the entries of each profile.
pub type ProfileTable = im::OrdMap<String, im::Vector<RoleEntry>>;

/// `a` sorts strictly before `b` when texts are compared character by
/// character. This is the order of `str`'s `Ord`: it compares UTF-8 bytes,
/// and UTF-8 keeps the order of code points.
pub open spec fn text_less(a: Seq<char>, b: Seq<char>) -> bool
    decreases a.len(),
{
    if a.len() == 0 {
        b.len() > 0
    } else if b.len() == 0 {
        false
    } else if a[0] != b[0] {
        (a[0] as int) < (b[0] as int)
    } else {
        text_less(a.drop_first(), b.drop_first())
    }
}

/// No text sorts before itself.
pub proof fn lemma_text_less_irreflexive(a: Seq<char>)
    ensures
        !text_less(a, a),
    decreases a.len(),
{
    if a.len() > 0 {
        lemma_text_less_irreflexive(a.drop_first());
    }
}

/// Sorting before is transitive.
pub proof fn lemma_text_less_transitive(a: Seq<char>, b: Seq<char>, c: Seq<char>)
    requires
        text_less(a, b),
        text_less(b, c),
    ensures
        text_less(a, c),
    decreases a.len(),
{
    if a.len() > 0 && b.len() > 0 && c.len() > 0 && a[0] == b[0] && b[0] == c[0] {
        lemma_text_less_transitive(a.drop_first(), b.drop_first(), c.drop_first());
    }
}

/// Of two different texts, one sorts before the other.
pub proof fn lemma_text_less_total(a: Seq<char>, b: Seq<char>)
    requires
        a != b,
    ensures
        text_less(a, b) || text_less(b, a),
    decreases a.len(),
{
    if a.len() > 0 && b.len() > 0 && a[0] == b[0] {
        if a.drop_first() == b.drop_first() {
            assert(a =~= seq![a[0]] + a.drop_first());
            assert(b =~= seq![b[0]] + b.drop_first());
        }
        lemma_text_less_total(a.drop_first(), b.drop_first());
    } else if a.len() == 0 && b.len() == 0 {
        assert(a =~= b);
    } else if a.len() > 0 && b.len() > 0 {
        assert((a[0] as int) != (b[0] as int));
    }
}

/// Whether `a` sorts strictly before `b`, character by character.
pub fn text_before(a: &str, b: &str) -> (r: bool)
    ensures
        r == text_less(a@, b@),
{
    let x = crate::text::chars_of(a);
    let y = crate::text::chars_of(b);
    let mut i: usize = 0;
    assert(a@.skip(0) =~= a@);
    assert(b@.skip(0) =~= b@);
    while i < x.len() && i < y.len() && x[i] == y[i]
        invariant
            x@ == a@,
            y@ == b@,
            i <= x@.len(),
            i <= y@.len(),
            text_less(a@, b@) == text_less(a@.skip(i as int), b@.skip(i as int)),
        decreases x.len() - i,
    {
        proof {
            let s = a@.skip(i as int);
            let t = b@.skip(i as int);
            assert(s.drop_first() =~= a@.skip(i + 1));
            assert(t.drop_first() =~= b@.skip(i + 1));
        }
        i = i + 1;
    }
    proof {
        let s = a@.skip(i as int);
        let t = b@.skip(i as int);
        if i < x.len() {
            assert(s[0] == a@[i as int]);
        }
        if i < y.len() {
            assert(t[0] == b@[i as int]);
        }
    }
    if i == x.len() {
        i < y.len()
    } else if i == y.len() {
        false
    } else {
        x[i] < y[i]
    }
}

/// The texts of `v`, in order.
pub open spec fn texts_of(v: Seq<String>) -> Seq<Seq<char>> {
    v.map_values(|s: String| s@)
}

/// `v` lists distinct texts in ascending order.
pub open spec fn ascending_texts(v: Seq<Seq<char>>) -> bool {
    &&& v.no_duplicates()
    &&& forall|i: int, j: int| 0 <= i < j < v.len() ==> text_less(v[i], v[j])
}

/// The texts held by an ordered set of strings.
pub uninterp spec fn string_set_items(s: im::OrdSet<String>) -> Set<Seq<char>>;

/// The roles held by an ordered set of roles.
pub uninterp spec fn role_set_items(s: im::OrdSet<ModelRole>) -> Set<RoleView>;

/// The texts held by a persistent vector of strings, front first.
pub uninterp spec fn string_list_items(v: im::Vector<String>) -> Seq<Seq<char>>;

/// The entries held by a persistent vector of role entries, front first.
pub uninterp spec fn entry_list_items(v: im::Vector<RoleEntry>) -> Seq<RoleEntry>;

/// The profiles held by an ordered map from profile names to entry lists.
pub uninterp spec fn profile_map_items(m: ProfileTable) -> Map<
    Seq<char>,
    Seq<RoleEntry>,
>;

// ---- im::OrdSet<String> ----
/// `OrdSet::new`: an empty set.
#[verifier::external_body]
pub(crate) fn string_set_new() -> (r: im::OrdSet<String>)
    ensures
        string_set_items(r) == Set::<Seq<char>>::empty(),
{
    im::OrdSet::new()
}

/// `OrdSet::insert`: the text is in the set afterwards; nothing else changes.
#[verifier::external_body]
pub(crate) fn string_set_insert(s: &mut im::OrdSet<String>, x: String)
    ensures
        string_set_items(*final(s)) == string_set_items(*old(s)).insert(x@),
{
    s.insert(x);
}

/// `OrdSet::remove`: the text is not in the set afterwards; nothing else changes.
#[verifier::external_body]
pub(crate) fn string_set_remove(s: &mut im::OrdSet<String>, x: &str)
    ensures
        string_set_items(*final(s)) == string_set_items(*old(s)).remove(x@),
{
    s.remove(x);
}

/// `OrdSet::contains`: membership of the text.
#[verifier::external_body]
pub(crate) fn string_set_contains(s: &im::OrdSet<String>, x: &str) -> (r: bool)
    ensures
        r == string_set_items(*s).contains(x@),
{
    s.contains(x)
}

/// `OrdSet::is_empty`: whether the set holds no text.
#[verifier::external_body]
pub(crate) fn string_set_is_empty(s: &im::OrdSet<String>) -> (r: bool)
    ensures
        r == (string_set_items(*s) == Set::<Seq<char>>::empty()),
{
    s.is_empty()
}

/// `OrdSet::iter`, each item copied: every text of the set once, lowest first.
#[verifier::external_body]
pub(crate) fn string_set_to_vec(s: &im::OrdSet<String>) -> (r: Vec<String>)
    ensures
        texts_of(r@).to_set() == string_set_items(*s),
        ascending_texts(texts_of(r@)),
{
    s.iter().cloned().collect()
}

// ---- im::OrdSet<ModelRole> ----
/// `OrdSet::new`: an empty set.
#[verifier::external_body]
pub(crate) fn role_set_new() -> (r: im::OrdSet<ModelRole>)
    ensures
        role_set_items(r) == Set::<RoleView>::empty(),
{
    im::OrdSet::new()
}

/// `OrdSet::clone`: a set with the same roles.
#[verifier::external_body]
pub(crate) fn role_set_clone(s: &im::OrdSet<ModelRole>) -> (r: im::OrdSet<ModelRole>)
    ensures
        role_set_items(r) == role_set_items(*s),
{
    s.clone()
}

/// `OrdSet::insert`: the role is in the set afterwards; nothing else changes.
#[verifier::external_body]
pub(crate) fn role_set_insert(s: &mut im::OrdSet<ModelRole>, x: ModelRole)
    ensures
        role_set_items(*final(s)) == role_set_items(*old(s)).insert(x@),
{
    s.insert(x);
}

/// `OrdSet::remove`: the role is not in the set afterwards; nothing else changes.
#[verifier::external_body]
pub(crate) fn role_set_remove(s: &mut im::OrdSet<ModelRole>, x: &ModelRole)
    ensures
        role_set_items(*final(s)) == role_set_items(*old(s)).remove(x@),
{
    s.remove(x);
}

/// `OrdSet::contains`: membership of the role.
#[verifier::external_body]
pub(crate) fn role_set_contains(s: &im::OrdSet<ModelRole>, x: &ModelRole) -> (r: bool)
    ensures
        r == role_set_items(*s).contains(x@),
{
    s.contains(x)
}

/// `OrdSet::iter`, each item copied: every role of the set once.
#[verifier::external_body]
pub(crate) fn role_set_to_vec(s: &im::OrdSet<ModelRole>) -> (r: Vec<ModelRole>)
    ensures
        r@.map_values(|x: ModelRole| x@).to_set() == role_set_items(*s),
        r@.map_values(|x: ModelRole| x@).no_duplicates(),
{
    s.iter().cloned().collect()
}

// ---- im::Vector<String> ----
/// `Vector::new`: an empty vector.
#[verifier::external_body]
pub(crate) fn string_list_new() -> (r: im::Vector<String>)
    ensures
        string_list_items(r) == Seq::<Seq<char>>::empty(),
{
    im::Vector::new()
}

/// `Vector::len`: the number of items.
#[verifier::external_body]
pub(crate) fn string_list_len(v: &im::Vector<String>) -> (r: usize)
    ensures
        r == string_list_items(*v).len(),
{
    v.len()
}

/// `Vector::get` on an index in range: the item there.
#[verifier::external_body]
pub(crate) fn string_list_get(v: &im::Vector<String>, i: usize) -> (r: &String)
    requires
        i < string_list_items(*v).len(),
    ensures
        r@ == string_list_items(*v)[i as int],
{
    &v[i]
}

/// `Vector::push_back`: the item is appended.
#[verifier::external_body]
pub(crate) fn string_list_push_back(v: &mut im::Vector<String>, x: String)
    ensures
        string_list_items(*final(v)) == string_list_items(*old(v)).push(x@),
{
    v.push_back(x);
}

/// `Vector::push_front`: the item is prepended.
#[verifier::external_body]
pub(crate) fn string_list_push_front(v: &mut im::Vector<String>, x: String)
    ensures
        string_list_items(*final(v)) == seq![x@] + string_list_items(*old(v)),
{
    v.push_front(x);
}

/// `Vector::remove` on an index in range: the item there is taken out and returned.
#[verifier::external_body]
pub(crate) fn string_list_remove(v: &mut im::Vector<String>, i: usize) -> (r: String)
    requires
        i < string_list_items(*old(v)).len(),
    ensures
        r@ == string_list_items(*old(v))[i as int],
        string_list_items(*final(v)) == string_list_items(*old(v)).remove(i as int),
{
    v.remove(i)
}

/// `Vector::truncate` to a length not above the current one: the items from
/// that length on are dropped.
#[verifier::external_body]
pub(crate) fn string_list_truncate(v: &mut im::Vector<String>, len: usize)
    requires
        len <= string_list_items(*old(v)).len(),
    ensures
        string_list_items(*final(v)) == string_list_items(*old(v)).take(len as int),
{
    v.truncate(len);
}

/// `PartialEq::eq` of two vectors: the same items in the same order.
#[verifier::external_body]
pub(crate) fn string_list_eq(a: &im::Vector<String>, b: &im::Vector<String>) -> (r: bool)
    ensures
        r == (string_list_items(*a) == string_list_items(*b)),
{
    a == b
}

// ---- im::Vector<RoleEntry> ----
/// `Vector::new`: an empty vector.
#[verifier::external_body]
pub(crate) fn entry_list_new() -> (r: im::Vector<RoleEntry>)
    ensures
        entry_list_items(r) == Seq::<RoleEntry>::empty(),
{
    im::Vector::new()
}

/// `Vector::len`: the number of entries.
#[verifier::external_body]
pub(crate) fn entry_list_len(v: &im::Vector<RoleEntry>) -> (r: usize)
    ensures
        r == entry_list_items(*v).len(),
{
    v.len()
}

/// `Vector::get` on an index in range: the entry there.
#[verifier::external_body]
pub(crate) fn entry_list_get(v: &im::Vector<RoleEntry>, i: usize) -> (r: &RoleEntry)
    requires
        i < entry_list_items(*v).len(),
    ensures
        *r == entry_list_items(*v)[i as int],
{
    &v[i]
}

/// `Vector::push_back`: the entry is appended.
#[verifier::external_body]
pub(crate) fn entry_list_push_back(v: &mut im::Vector<RoleEntry>, x: RoleEntry)
    ensures
        entry_list_items(*final(v)) == entry_list_items(*old(v)).push(x),
{
    v.push_back(x);
}

/// `Vector::remove` on an index in range: the entry there is taken out and returned.
#[verifier::external_body]
pub(crate) fn entry_list_remove(v: &mut im::Vector<RoleEntry>, i: usize) -> (r: RoleEntry)
    requires
        i < entry_list_items(*old(v)).len(),
    ensures
        r == entry_list_items(*old(v))[i as int],
        entry_list_items(*final(v)) == entry_list_items(*old(v)).remove(i as int),
{
    v.remove(i)
}

/// `Vector::set` on an index in range: the entry there is replaced.
#[verifier::external_body]
pub(crate) fn entry_list_set(v: &mut im::Vector<RoleEntry>, i: usize, x: RoleEntry)
    requires
        i < entry_list_items(*old(v)).len(),
    ensures
        entry_list_items(*final(v)) == entry_list_items(*old(v)).update(i as int, x),
{
    v.set(i, x);
}

// ---- ProfileTable ----
/// `OrdMap::new`: an empty map.
#[verifier::external_body]
pub(crate) fn profile_map_new() -> (r: ProfileTable)
    ensures
        profile_map_items(r).dom() == Set::<Seq<char>>::empty(),
{
    im::OrdMap::new()
}

/// `OrdMap::is_empty`: whether the map holds no profile.
#[verifier::external_body]
pub(crate) fn profile_map_is_empty(m: &ProfileTable) -> (r: bool)
    ensures
        r == (profile_map_items(*m).dom() == Set::<Seq<char>>::empty()),
{
    m.is_empty()
}

/// `OrdMap::contains_key`: whether the profile name is a key.
#[verifier::external_body]
pub(crate) fn profile_map_contains_key(
    m: &ProfileTable,
    k: &str,
) -> (r: bool)
    ensures
        r == profile_map_items(*m).dom().contains(k@),
{
    m.contains_key(k)
}

/// `OrdMap::get`: the entries stored under the name, if it is a key.
#[verifier::external_body]
pub(crate) fn profile_map_get<'a>(
    m: &'a ProfileTable,
    k: &str,
) -> (r: Option<&'a im::Vector<RoleEntry>>)
    ensures
        match r {
            Some(v) => profile_map_items(*m).dom().contains(k@) && entry_list_items(*v)
                == profile_map_items(*m)[k@],
            None => !profile_map_items(*m).dom().contains(k@),
        },
{
    m.get(k)
}

/// `OrdMap::insert`: the name maps to the entries afterwards; other keys keep
/// theirs; the entries the name had before are returned.
#[verifier::external_body]
pub(crate) fn profile_map_insert(
    m: &mut ProfileTable,
    k: String,
    v: im::Vector<RoleEntry>,
) -> (r: Option<im::Vector<RoleEntry>>)
    ensures
        profile_map_items(*final(m)) == profile_map_items(*old(m)).insert(k@, entry_list_items(v)),
        match r {
            Some(w) => profile_map_items(*old(m)).dom().contains(k@) && entry_list_items(w)
                == profile_map_items(*old(m))[k@],
            None => !profile_map_items(*old(m)).dom().contains(k@),
        },
{
    m.insert(k, v)
}

/// `OrdMap::remove`: the name is no key afterwards; the entries it had are returned.
#[verifier::external_body]
pub(crate) fn profile_map_remove(
    m: &mut ProfileTable,
    k: &str,
) -> (r: Option<im::Vector<RoleEntry>>)
    ensures
        profile_map_items(*final(m)) == profile_map_items(*old(m)).remove(k@),
        match r {
            Some(v) => profile_map_items(*old(m)).dom().contains(k@) && entry_list_items(v)
                == profile_map_items(*old(m))[k@],
            None => !profile_map_items(*old(m)).dom().contains(k@),
        },
{
    m.remove(k)
}

/// `OrdMap::entry(..).or_default()`: the entries under the name, stored as an
/// empty list first when the name was no key; what the caller leaves in the
/// returned place is what the map holds under the name afterwards.
#[verifier::external_body]
pub(crate) fn profile_map_entry_or_default<'a>(
    m: &'a mut ProfileTable,
    k: String,
) -> (r: &'a mut im::Vector<RoleEntry>)
    ensures
        entry_list_items(*r) == (if profile_map_items(*old(m)).dom().contains(k@) {
            profile_map_items(*old(m))[k@]
        } else {
            Seq::<RoleEntry>::empty()
        }),
        profile_map_items(*final(m)) == profile_map_items(*old(m)).insert(
            k@,
            entry_list_items(*final(r)),
        ),
{
    m.entry(k).or_default()
}

/// `OrdMap::keys`, each key copied: every profile name once, lowest first.
#[verifier::external_body]
pub(crate) fn profile_map_keys(m: &ProfileTable) -> (r: Vec<String>)
    ensures
        texts_of(r@).to_set() == profile_map_items(*m).dom(),
        ascending_texts(texts_of(r@)),
{
    m.keys().cloned().collect()
}

} // verus!
