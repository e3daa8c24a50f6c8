//! The assembly and namespace tree of the explorer's navigation pane.
use vstd::prelude::*;

use crate::metadata::Metadata;
use crate::analysis::Il2CppProject;
use crate::model::{AssemblyId, TypeId};
use crate::model::TypeDefinition;
use crate::text::{
    chars_equal, chars_of, contains_chars, lowercase, push_str, seq_contains, string_from_chars,
    to_lowercase, trim, trim_chars,
};

verus! {

/// Strict code-point order of character sequences, as `str` orders UTF-8 text.
pub open spec fn chars_before(a: Seq<char>, b: Seq<char>) -> bool
    decreases a.len(),
{
    if a.len() == 0 {
        b.len() > 0
    } else if b.len() == 0 {
        false
    } else if a[0] != b[0] {
        (a[0] as int) < (b[0] as int)
    } else {
        chars_before(a.drop_first(), b.drop_first())
    }
}

/// `chars_before` is transitive.
pub proof fn lemma_before_transitive(a: Seq<char>, b: Seq<char>, c: Seq<char>)
    requires
        chars_before(a, b),
        chars_before(b, c),
    ensures
        chars_before(a, c),
    decreases a.len(),
{
    if a.len() > 0 && b.len() > 0 && c.len() > 0 && a[0] == b[0] && b[0] == c[0] {
        lemma_before_transitive(a.drop_first(), b.drop_first(), c.drop_first());
    }
}

/// Distinct sequences are ordered one way or the other.
pub proof fn lemma_before_total(a: Seq<char>, b: Seq<char>)
    requires
        a != b,
    ensures
        chars_before(a, b) || chars_before(b, a),
    decreases a.len(),
{
    if a.len() > 0 && b.len() > 0 && a[0] == b[0] {
        if a.drop_first() == b.drop_first() {
            assert(a =~= seq![a[0]] + a.drop_first());
            assert(b =~= seq![b[0]] + b.drop_first());
        }
        lemma_before_total(a.drop_first(), b.drop_first());
    } else if a.len() > 0 && b.len() > 0 {
        assert((a[0] as int) != (b[0] as int));
    } else if a.len() == 0 && b.len() == 0 {
        assert(a =~= b);
    }
}

/// `chars_before` is irreflexive.
pub proof fn lemma_before_irreflexive(a: Seq<char>)
    ensures
        !chars_before(a, a),
    decreases a.len(),
{
    if a.len() > 0 {
        lemma_before_irreflexive(a.drop_first());
    }
}

/// Whether `a` orders strictly before `b`.
pub fn chars_less(a: &[char], b: &[char]) -> (r: bool)
    ensures
        r == chars_before(a@, b@),
{
    let mut i: usize = 0;
    assert(a@.skip(0) =~= a@);
    assert(b@.skip(0) =~= b@);
    while i < a.len() && i < b.len()
        invariant
            i <= a@.len(),
            i <= b@.len(),
            chars_before(a@, b@) == chars_before(a@.skip(i as int), b@.skip(i as int)),
        decreases a@.len() - i,
    {
        if a[i] != b[i] {
            return a[i] < b[i];
        }
        assert(a@.skip(i as int).drop_first() =~= a@.skip(i + 1));
        assert(b@.skip(i as int).drop_first() =~= b@.skip(i + 1));
        i = i + 1;
    }
    i < b.len()
}

/// State of splitting text at dots: the finished non-empty segments and the segment in
/// progress.
pub open spec fn split_state(s: Seq<char>) -> (Seq<Seq<char>>, Seq<char>)
    decreases s.len(),
{
    if s.len() == 0 {
        (Seq::empty(), Seq::empty())
    } else {
        let (done, current) = split_state(s.drop_last());
        if s.last() == '.' {
            (
                if current.len() > 0 {
                    done.push(current)
                } else {
                    done
                },
                Seq::empty(),
            )
        } else {
            (done, current.push(s.last()))
        }
    }
}

/// The non-empty dot-separated segments of a namespace.
pub open spec fn namespace_segments(s: Seq<char>) -> Seq<Seq<char>> {
    let (done, current) = split_state(s);
    if current.len() > 0 {
        done.push(current)
    } else {
        done
    }
}

/// The text of each string.
pub open spec fn texts(strings: Seq<String>) -> Seq<Seq<char>> {
    strings.map_values(|s: String| s@)
}

/// Splits a namespace at its dots, dropping empty segments.
pub fn split_namespace(namespace: &str) -> (r: Vec<String>)
    ensures
        texts(r@) == namespace_segments(namespace@),
{
    let chars = chars_of(namespace);
    let mut done: Vec<String> = Vec::new();
    let mut current: Vec<char> = Vec::new();
    let mut i: usize = 0;
    while i < chars.len()
        invariant
            i <= chars@.len(),
            chars@ == namespace@,
            (texts(done@), current@) == split_state(chars@.take(i as int)),
        decreases chars@.len() - i,
    {
        assert(chars@.take(i + 1).drop_last() =~= chars@.take(i as int));
        if chars[i] == '.' {
            if current.len() > 0 {
                let ghost before = texts(done@);
                done.push(string_from_chars(current.as_slice()));
                assert(texts(done@) =~= before.push(current@));
            }
            current = Vec::new();
            assert(current@ =~= Seq::<char>::empty());
        } else {
            current.push(chars[i]);
        }
        i = i + 1;
    }
    assert(chars@.take(chars@.len() as int) =~= chars@);
    if current.len() > 0 {
        let ghost before = texts(done@);
        done.push(string_from_chars(current.as_slice()));
        assert(texts(done@) =~= before.push(current@));
    }
    done
}


/// One namespace level: its child namespaces by name and the types declared directly in it.
#[derive(Debug)]
pub struct NamespaceNode {
    pub children: Vec<(String, NamespaceNode)>,
    pub types: Vec<TypeId>,
}

impl Default for NamespaceNode {
    fn default() -> (r: Self)
        ensures
            r.children@.len() == 0,
            r.types@.len() == 0,
    {
        NamespaceNode { children: Vec::new(), types: Vec::new() }
    }
}

/// The types stored at `path` below `node`.
pub open spec fn lookup(node: NamespaceNode, path: Seq<Seq<char>>) -> Seq<TypeId>
    decreases node, 1nat,
{
    if path.len() == 0 {
        node.types@
    } else {
        proof {
            broadcast use vstd::std_specs::vec::axiom_vec_decreases_to_view;
        }
        child_lookup(node.children@, path[0], path.drop_first())
    }
}

/// The types stored at `rest` below the first child named `name`.
pub open spec fn child_lookup(
    children: Seq<(String, NamespaceNode)>,
    name: Seq<char>,
    rest: Seq<Seq<char>>,
) -> Seq<TypeId>
    decreases children, 0nat,
{
    if children.len() == 0 {
        Seq::empty()
    } else if children[0].0@ == name {
        lookup(children[0].1, rest)
    } else {
        child_lookup(children.drop_first(), name, rest)
    }
}

/// `id` is filed somewhere in the subtree of `node`.
pub open spec fn subtree_contains(node: NamespaceNode, id: TypeId) -> bool
    decreases node, 1nat,
{
    proof {
        broadcast use vstd::std_specs::vec::axiom_vec_decreases_to_view;
    }
    node.types@.contains(id) || children_contain(node.children@, id)
}

/// `id` is filed somewhere below one of `children`.
pub open spec fn children_contain(children: Seq<(String, NamespaceNode)>, id: TypeId) -> bool
    decreases children, 0nat,
{
    if children.len() == 0 {
        false
    } else {
        subtree_contains(children[0].1, id) || children_contain(children.drop_first(), id)
    }
}

impl NamespaceNode {
    /// Whether `id` is filed anywhere in this subtree.
    pub fn contains(&self, id: TypeId) -> (r: bool)
        ensures
            r == subtree_contains(*self, id),
        decreases self,
    {
        let mut i: usize = 0;
        while i < self.types.len()
            invariant
                i <= self.types@.len(),
                forall|j: int| 0 <= j < i ==> self.types@[j] != id,
            decreases self.types@.len() - i,
        {
            if self.types[i] == id {
                assert(self.types@.contains(id));
                return true;
            }
            i = i + 1;
        }
        assert(!self.types@.contains(id));
        let mut c: usize = 0;
        assert(self.children@.skip(0) =~= self.children@);
        while c < self.children.len()
            invariant
                c <= self.children@.len(),
                !self.types@.contains(id),
                subtree_contains(*self, id) == children_contain(self.children@.skip(c as int), id),
            decreases self.children@.len() - c,
        {
            proof {
                broadcast use vstd::std_specs::vec::axiom_vec_decreases_to_view;
                assert(decreases_to!(*self => self.children@[c as int].1));
            }
            assert(self.children@.skip(c as int)[0] == self.children@[c as int]);
            assert(self.children@.skip(c as int).drop_first() =~= self.children@.skip(c + 1));
            if self.children[c].1.contains(id) {
                return true;
            }
            c = c + 1;
        }
        false
    }
}

proof fn lemma_children_contain_at(children: Seq<(String, NamespaceNode)>, k: int, id: TypeId)
    requires
        0 <= k < children.len(),
        subtree_contains(children[k].1, id),
    ensures
        children_contain(children, id),
    decreases k,
{
    if k > 0 {
        assert(children.drop_first()[k - 1] == children[k]);
        lemma_children_contain_at(children.drop_first(), k - 1, id);
    }
}

proof fn lemma_children_contain_some(children: Seq<(String, NamespaceNode)>, id: TypeId) -> (k: int)
    requires
        children_contain(children, id),
    ensures
        0 <= k < children.len(),
        subtree_contains(children[k].1, id),
    decreases children.len(),
{
    if subtree_contains(children[0].1, id) {
        0
    } else {
        let j = lemma_children_contain_some(children.drop_first(), id);
        assert(children.drop_first()[j] == children[j + 1]);
        j + 1
    }
}

/// The first child named `name`, when there is one, is where `child_lookup` looks.
proof fn lemma_child_named(children: Seq<(String, NamespaceNode)>, name: Seq<char>, rest: Seq<Seq<char>>) -> (k: int)
    requires
        exists|j: int| 0 <= j < children.len() && (#[trigger] children[j]).0@ == name,
    ensures
        0 <= k < children.len(),
        children[k].0@ == name,
        child_lookup(children, name, rest) == lookup(children[k].1, rest),
    decreases children.len(),
{
    if children[0].0@ == name {
        0
    } else {
        let j0 = choose|j: int| 0 <= j < children.len() && (#[trigger] children[j]).0@ == name;
        assert(j0 > 0);
        assert(children.drop_first()[j0 - 1] == children[j0]);
        let j = lemma_child_named(children.drop_first(), name, rest);
        assert(children.drop_first()[j] == children[j + 1]);
        j + 1
    }
}

proof fn lemma_listed_is_contained(node: NamespaceNode, path: Seq<Seq<char>>, id: TypeId)
    requires
        lookup(node, path).contains(id),
    ensures
        subtree_contains(node, id),
    decreases path.len(),
{
    if path.len() > 0 {
        let name = path[0];
        let rest = path.drop_first();
        let children = node.children@;
        if exists|j: int| 0 <= j < children.len() && (#[trigger] children[j]).0@ == name {
            let k = lemma_child_named(children, name, rest);
            lemma_listed_is_contained(children[k].1, rest, id);
            lemma_children_contain_at(children, k, id);
        } else {
            lemma_child_lookup_absent(children, name, rest);
        }
    }
}

proof fn lemma_contained_is_listed(node: NamespaceNode, id: TypeId) -> (path: Seq<Seq<char>>)
    requires
        tree_valid(node),
        subtree_contains(node, id),
    ensures
        lookup(node, path).contains(id),
    decreases node,
{
    if node.types@.contains(id) {
        Seq::empty()
    } else {
        let children = node.children@;
        let k = lemma_children_contain_some(children, id);
        lemma_children_valid_at(children, k);
        assert(decreases_to!(node => children[k].1)) by {
            broadcast use vstd::std_specs::vec::axiom_vec_decreases_to_view;
        }
        let rest = lemma_contained_is_listed(children[k].1, id);
        let name = children[k].0@;
        assert forall|j: int| 0 <= j < k implies (#[trigger] children[j]).0@ != name by {
            lemma_before_irreflexive(name);
        }
        lemma_child_lookup_at(children, k, name, rest);
        lemma_lookup_step(node, name, rest);
        seq![name] + rest
    }
}

/// A valid tree holds a type exactly when some namespace path in it lists the type.
pub proof fn law_contains_iff_listed(node: NamespaceNode, id: TypeId)
    requires
        tree_valid(node),
    ensures
        subtree_contains(node, id) <==> exists|path: Seq<Seq<char>>| #[trigger]
            lookup(node, path).contains(id),
{
    if subtree_contains(node, id) {
        let path = lemma_contained_is_listed(node, id);
        assert(lookup(node, path).contains(id));
    }
    if exists|path: Seq<Seq<char>>| #[trigger] lookup(node, path).contains(id) {
        let path = choose|path: Seq<Seq<char>>| #[trigger] lookup(node, path).contains(id);
        lemma_listed_is_contained(node, path, id);
    }
}

/// Child names increase strictly.
pub open spec fn children_sorted(children: Seq<(String, NamespaceNode)>) -> bool {
    forall|i: int, j: int|
        0 <= i < j < children.len() ==> chars_before(children[i].0@, children[j].0@)
}

/// Every level of the tree keeps its child names strictly increasing.
pub open spec fn tree_valid(node: NamespaceNode) -> bool
    decreases node, 1nat,
{
    proof {
        broadcast use vstd::std_specs::vec::axiom_vec_decreases_to_view;
    }
    children_sorted(node.children@) && children_valid(node.children@)
}

/// Every child subtree is valid.
pub open spec fn children_valid(children: Seq<(String, NamespaceNode)>) -> bool
    decreases children, 0nat,
{
    if children.len() == 0 {
        true
    } else {
        tree_valid(children[0].1) && children_valid(children.drop_first())
    }
}

proof fn lemma_lookup_empty(node: NamespaceNode, path: Seq<Seq<char>>)
    requires
        node.children@.len() == 0,
        node.types@.len() == 0,
    ensures
        lookup(node, path) == Seq::<TypeId>::empty(),
{
    if path.len() == 0 {
        assert(node.types@ =~= Seq::<TypeId>::empty());
    }
}

proof fn lemma_child_lookup_insert(
    children: Seq<(String, NamespaceNode)>,
    r: int,
    entry: (String, NamespaceNode),
    name: Seq<char>,
    rest: Seq<Seq<char>>,
)
    requires
        0 <= r <= children.len(),
        entry.0@ != name,
    ensures
        child_lookup(children.insert(r, entry), name, rest) == child_lookup(children, name, rest),
    decreases r,
{
    if r == 0 {
        assert(children.insert(0, entry).drop_first() =~= children);
    } else {
        assert(children.insert(r, entry)[0] == children[0]);
        assert(children.insert(r, entry).drop_first() =~= children.drop_first().insert(r - 1, entry));
        lemma_child_lookup_insert(children.drop_first(), r - 1, entry, name, rest);
    }
}

proof fn lemma_child_lookup_update_other(
    children: Seq<(String, NamespaceNode)>,
    r: int,
    entry: (String, NamespaceNode),
    name: Seq<char>,
    rest: Seq<Seq<char>>,
)
    requires
        0 <= r < children.len(),
        entry.0@ == children[r].0@,
        entry.0@ != name,
    ensures
        child_lookup(children.update(r, entry), name, rest) == child_lookup(children, name, rest),
    decreases r,
{
    if r == 0 {
        assert(children.update(0, entry).drop_first() =~= children.drop_first());
    } else {
        assert(children.update(r, entry)[0] == children[0]);
        assert(children.update(r, entry).drop_first() =~= children.drop_first().update(r - 1, entry));
        lemma_child_lookup_update_other(children.drop_first(), r - 1, entry, name, rest);
    }
}

proof fn lemma_child_lookup_at(
    children: Seq<(String, NamespaceNode)>,
    r: int,
    name: Seq<char>,
    rest: Seq<Seq<char>>,
)
    requires
        0 <= r < children.len(),
        children[r].0@ == name,
        forall|k: int| 0 <= k < r ==> children[k].0@ != name,
    ensures
        child_lookup(children, name, rest) == lookup(children[r].1, rest),
    decreases r,
{
    if r > 0 {
        assert(children[0].0@ != name);
        lemma_child_lookup_at(children.drop_first(), r - 1, name, rest);
    }
}

proof fn lemma_children_valid_at(children: Seq<(String, NamespaceNode)>, r: int)
    requires
        children_valid(children),
        0 <= r < children.len(),
    ensures
        tree_valid(children[r].1),
    decreases r,
{
    if r > 0 {
        lemma_children_valid_at(children.drop_first(), r - 1);
    }
}

proof fn lemma_children_valid_insert(
    children: Seq<(String, NamespaceNode)>,
    r: int,
    entry: (String, NamespaceNode),
)
    requires
        children_valid(children),
        0 <= r <= children.len(),
        tree_valid(entry.1),
    ensures
        children_valid(children.insert(r, entry)),
    decreases r,
{
    if r == 0 {
        assert(children.insert(0, entry).drop_first() =~= children);
    } else {
        assert(children.insert(r, entry)[0] == children[0]);
        assert(children.insert(r, entry).drop_first() =~= children.drop_first().insert(r - 1, entry));
        lemma_children_valid_insert(children.drop_first(), r - 1, entry);
    }
}

proof fn lemma_children_valid_update(
    children: Seq<(String, NamespaceNode)>,
    r: int,
    entry: (String, NamespaceNode),
)
    requires
        children_valid(children),
        0 <= r < children.len(),
        tree_valid(entry.1),
    ensures
        children_valid(children.update(r, entry)),
    decreases r,
{
    if r == 0 {
        assert(children.update(0, entry).drop_first() =~= children.drop_first());
    } else {
        assert(children.update(r, entry)[0] == children[0]);
        assert(children.update(r, entry).drop_first() =~= children.drop_first().update(r - 1, entry));
        lemma_children_valid_update(children.drop_first(), r - 1, entry);
    }
}


/// Where `x` goes in `s` so that it follows every element whose key is not after its own.
pub open spec fn upper_bound<A>(s: Seq<A>, x: A, key: spec_fn(A) -> Seq<char>) -> nat
    decreases s.len(),
{
    if s.len() == 0 {
        0
    } else if chars_before(key(x), key(s[0])) {
        0
    } else {
        1 + upper_bound(s.drop_first(), x, key)
    }
}

/// `upper_bound` is a position of `s`.
pub proof fn lemma_upper_bound_le<A>(s: Seq<A>, x: A, key: spec_fn(A) -> Seq<char>)
    ensures
        upper_bound(s, x, key) <= s.len(),
    decreases s.len(),
{
    if s.len() > 0 {
        lemma_upper_bound_le(s.drop_first(), x, key);
    }
}

/// `s` with `x` inserted after every element whose key does not follow its own.
pub open spec fn insert_sorted<A>(s: Seq<A>, x: A, key: spec_fn(A) -> Seq<char>) -> Seq<A> {
    s.insert(upper_bound(s, x, key) as int, x)
}

/// `s` stably sorted by key: equal keys keep their order.
pub open spec fn stable_sort<A>(s: Seq<A>, key: spec_fn(A) -> Seq<char>) -> Seq<A>
    decreases s.len(),
{
    if s.len() == 0 {
        Seq::empty()
    } else {
        insert_sorted(stable_sort(s.drop_last(), key), s.last(), key)
    }
}

/// The first position whose key follows `x`'s is where `upper_bound` puts `x`.
proof fn lemma_upper_bound_at<A>(s: Seq<A>, x: A, key: spec_fn(A) -> Seq<char>, k: int)
    requires
        0 <= k <= s.len(),
        forall|j: int| 0 <= j < k ==> !chars_before(key(x), #[trigger] key(s[j])),
        k == s.len() || chars_before(key(x), key(s[k])),
    ensures
        upper_bound(s, x, key) == k,
    decreases k,
{
    if k > 0 {
        assert(!chars_before(key(x), key(s[0])));
        assert forall|j: int| 0 <= j < k - 1 implies !chars_before(
            key(x),
            #[trigger] key(s.drop_first()[j]),
        ) by {
            assert(s.drop_first()[j] == s[j + 1]);
        }
        if k < s.len() {
            assert(s.drop_first()[k - 1] == s[k]);
        }
        lemma_upper_bound_at(s.drop_first(), x, key, k - 1);
    }
}

/// Earlier keys do not follow `x`'s; the key at `upper_bound`, if any, does.
proof fn lemma_upper_bound_spec<A>(s: Seq<A>, x: A, key: spec_fn(A) -> Seq<char>)
    ensures
        upper_bound(s, x, key) <= s.len(),
        forall|j: int|
            0 <= j < upper_bound(s, x, key) ==> !chars_before(key(x), #[trigger] key(s[j])),
        upper_bound(s, x, key) < s.len() ==> chars_before(
            key(x),
            key(s[upper_bound(s, x, key) as int]),
        ),
    decreases s.len(),
{
    if s.len() > 0 && !chars_before(key(x), key(s[0])) {
        let rest = s.drop_first();
        lemma_upper_bound_spec(rest, x, key);
        assert forall|j: int| 0 <= j < upper_bound(s, x, key) implies !chars_before(
            key(x),
            #[trigger] key(s[j]),
        ) by {
            if j > 0 {
                assert(s[j] == rest[j - 1]);
            }
        }
    }
}

/// Keys never decrease along `s`.
pub open spec fn sorted_by<A>(s: Seq<A>, key: spec_fn(A) -> Seq<char>) -> bool {
    forall|i: int, j: int| 0 <= i < j < s.len() ==> !chars_before(key(s[j]), key(s[i]))
}

/// Stable sorting puts keys in order and keeps every element, each as often as before.
pub proof fn law_stable_sort_orders<A>(s: Seq<A>, key: spec_fn(A) -> Seq<char>)
    ensures
        sorted_by(stable_sort(s, key), key),
        stable_sort(s, key).to_multiset() == s.to_multiset(),
    decreases s.len(),
{
    if s.len() == 0 {
        assert(s.to_multiset() =~= stable_sort(s, key).to_multiset()) by {
            assert(s =~= Seq::<A>::empty());
            assert(stable_sort(s, key) =~= Seq::<A>::empty());
        }
    } else {
        let x = s.last();
        let t = stable_sort(s.drop_last(), key);
        law_stable_sort_orders(s.drop_last(), key);
        lemma_upper_bound_spec(t, x, key);
        let p = upper_bound(t, x, key) as int;
        let r = t.insert(p, x);
        assert(stable_sort(s, key) == r);
        assert forall|i: int, j: int| 0 <= i < j < r.len() implies !chars_before(
            key(r[j]),
            key(r[i]),
        ) by {
            if j < p {
                assert(r[i] == t[i] && r[j] == t[j]);
            } else if j == p {
                assert(r[i] == t[i] && r[j] == x);
                assert(!chars_before(key(x), key(t[i])));
            } else if i > p {
                assert(r[i] == t[i - 1] && r[j] == t[j - 1]);
            } else if i < p {
                assert(r[i] == t[i] && r[j] == t[j - 1]);
            } else {
                assert(r[i] == x && r[j] == t[j - 1]);
                if chars_before(key(t[j - 1]), key(x)) {
                    lemma_before_transitive(key(t[j - 1]), key(x), key(t[p]));
                    if j - 1 == p {
                        lemma_before_irreflexive(key(t[p]));
                    }
                }
            }
        }
        vstd::seq_lib::to_multiset_insert(t, p, x);
        vstd::seq_lib::to_multiset_build(s.drop_last(), x);
        assert(s.drop_last().push(x) =~= s);
    }
}

/// The name by which the navigation tree orders a type.
pub open spec fn type_key(metadata: Metadata) -> spec_fn(TypeId) -> Seq<char> {
    |id: TypeId| metadata.types@[id.0 as int].name@
}

/// Inserts `id` into `types`, kept in stable name order.
fn insert_type_sorted(types: &mut Vec<TypeId>, id: TypeId, metadata: &Metadata)
    requires
        id.0 < metadata.types@.len(),
        forall|k: int| 0 <= k < old(types)@.len() ==> (#[trigger] old(types)@[k]).0 < metadata.types@.len(),
    ensures
        final(types)@ == insert_sorted(old(types)@, id, type_key(*metadata)),
{
    let name = chars_of(metadata.types[id.0].name.as_str());
    let ghost key = type_key(*metadata);
    let mut k: usize = 0;
    while k < types.len()
        invariant
            k <= types@.len(),
            name@ == key(id),
            key == type_key(*metadata),
            forall|i: int| 0 <= i < types@.len() ==> (#[trigger] types@[i]).0 < metadata.types@.len(),
            forall|j: int| 0 <= j < k ==> !chars_before(key(id), #[trigger] key(types@[j])),
        ensures
            k <= types@.len(),
            forall|j: int| 0 <= j < k ==> !chars_before(key(id), #[trigger] key(types@[j])),
            k == types@.len() || chars_before(key(id), key(types@[k as int])),
        decreases types@.len() - k,
    {
        let other = chars_of(metadata.types[types[k].0].name.as_str());
        assert(other@ == key(types@[k as int]));
        if chars_less(name.as_slice(), other.as_slice()) {
            break;
        }
        k = k + 1;
    }
    proof {
        lemma_upper_bound_at(types@, id, key, k as int);
    }
    types.insert(k, id);
}


/// Every type stored anywhere below `node` is an index below `count`.
pub open spec fn ids_in_range(node: NamespaceNode, count: nat) -> bool {
    forall|path: Seq<Seq<char>>, k: int|
        0 <= k < lookup(node, path).len() ==> (#[trigger] lookup(node, path)[k]).0 < count
}

proof fn lemma_child_lookup_absent(
    children: Seq<(String, NamespaceNode)>,
    name: Seq<char>,
    rest: Seq<Seq<char>>,
)
    requires
        forall|k: int| 0 <= k < children.len() ==> (#[trigger] children[k]).0@ != name,
    ensures
        child_lookup(children, name, rest) == Seq::<TypeId>::empty(),
    decreases children.len(),
{
    if children.len() > 0 {
        assert(children[0].0@ != name);
        assert forall|k: int| 0 <= k < children.drop_first().len() implies (
        #[trigger] children.drop_first()[k]).0@ != name by {
            assert(children.drop_first()[k] == children[k + 1]);
        }
        lemma_child_lookup_absent(children.drop_first(), name, rest);
    }
}

/// The lookup below a node through its child named `name`.
proof fn lemma_lookup_step(node: NamespaceNode, name: Seq<char>, rest: Seq<Seq<char>>)
    ensures
        lookup(node, seq![name] + rest) == child_lookup(node.children@, name, rest),
{
    let path = seq![name] + rest;
    assert(path[0] == name);
    assert(path.drop_first() =~= rest);
}

/// Files `id` under the namespace path `segments[from..]` below `node`, keeping each
/// level's children in name order and each level's types in stable name order.
pub fn insert_type(
    node: &mut NamespaceNode,
    segments: &Vec<String>,
    from: usize,
    id: TypeId,
    metadata: &Metadata,
)
    requires
        from <= segments@.len(),
        tree_valid(*old(node)),
        ids_in_range(*old(node), metadata.types@.len()),
        id.0 < metadata.types@.len(),
    ensures
        tree_valid(*final(node)),
        ids_in_range(*final(node), metadata.types@.len()),
        forall|path: Seq<Seq<char>>|
            #[trigger] lookup(*final(node), path) == if path == texts(segments@).skip(from as int) {
                insert_sorted(lookup(*old(node), path), id, type_key(*metadata))
            } else {
                lookup(*old(node), path)
            },
    decreases segments@.len() - from,
{
    let ghost old_node = *node;
    let ghost target = texts(segments@).skip(from as int);
    let ghost n = metadata.types@.len();
    if from == segments.len() {
        proof {
            assert(lookup(old_node, Seq::empty()) == old_node.types@);
            assert forall|k: int| 0 <= k < node.types@.len() implies (#[trigger] node.types@[k]).0 < n by {
                assert(lookup(old_node, Seq::empty()) == node.types@);
            }
        }
        insert_type_sorted(&mut node.types, id, metadata);
        proof {
            assert(target =~= Seq::<Seq<char>>::empty());
            assert forall|path: Seq<Seq<char>>|
                #[trigger] lookup(*node, path) == if path == target {
                    insert_sorted(lookup(old_node, path), id, type_key(*metadata))
                } else {
                    lookup(old_node, path)
                } by {
                if path.len() > 0 {
                    assert(path != target);
                } else {
                    assert(path =~= target);
                }
            }
            assert(tree_valid(*node));
            assert forall|path: Seq<Seq<char>>, k: int|
                0 <= k < lookup(*node, path).len() implies (#[trigger] lookup(*node, path)[k]).0 < n by {
                if path.len() == 0 {
                    assert(path =~= target);
                    let before = lookup(old_node, path);
                    let p = upper_bound(before, id, type_key(*metadata)) as int;
                    lemma_upper_bound_le(before, id, type_key(*metadata));
                    assert(lookup(*node, path) == before.insert(p, id));
                    if k < p {
                        assert(before[k].0 < n);
                    } else if k > p {
                        assert(before[k - 1].0 < n);
                    }
                }
            }
        }
        return;
    }
    let seg = chars_of(segments[from].as_str());
    assert(seg@ == target[0]);
    let mut p: usize = 0;
    while p < node.children.len()
        invariant
            p <= node.children@.len(),
            *node == old_node,
            forall|j: int| 0 <= j < p ==> chars_before((#[trigger] node.children@[j]).0@, seg@),
        ensures
            p <= node.children@.len(),
            forall|j: int| 0 <= j < p ==> chars_before((#[trigger] node.children@[j]).0@, seg@),
            p == node.children@.len() || !chars_before(node.children@[p as int].0@, seg@),
        decreases node.children@.len() - p,
    {
        let name = chars_of(node.children[p].0.as_str());
        if !chars_less(name.as_slice(), seg.as_slice()) {
            break;
        }
        p = p + 1;
    }
    let ghost children = old_node.children@;
    assert forall|j: int| 0 <= j < p implies (#[trigger] children[j]).0@ != seg@ by {
        lemma_before_irreflexive(seg@);
    }
    let found = if p < node.children.len() {
        let name = chars_of(node.children[p].0.as_str());
        chars_equal(name.as_slice(), seg.as_slice())
    } else {
        false
    };
    assert(texts(segments@).skip(from + 1) =~= target.drop_first());
    if found {
        let (name, mut child) = node.children.remove(p);
        proof {
            lemma_children_valid_at(children, p as int);
            assert(children[p as int] == (name, child));
            assert forall|rest: Seq<Seq<char>>| #[trigger]
                lookup(child, rest) == lookup(old_node, seq![seg@] + rest) by {
                lemma_lookup_step(old_node, seg@, rest);
                lemma_child_lookup_at(children, p as int, seg@, rest);
            }
            assert forall|rest: Seq<Seq<char>>, k: int|
                0 <= k < lookup(child, rest).len() implies (#[trigger] lookup(child, rest)[k]).0 < n by {
                assert(lookup(child, rest) == lookup(old_node, seq![seg@] + rest));
            }
        }
        let ghost old_child = child;
        insert_type(&mut child, segments, from + 1, id, metadata);
        node.children.insert(p, (name, child));
        let ghost entry = (name, child);
        proof {
            assert(node.children@ =~= children.update(p as int, entry));
            lemma_children_valid_update(children, p as int, entry);
            assert(children_sorted(node.children@)) by {
                assert forall|i: int, j: int|
                    0 <= i < j < node.children@.len() implies chars_before(
                    node.children@[i].0@,
                    node.children@[j].0@,
                ) by {
                    assert(children_sorted(children));
                    assert(node.children@[i].0@ == children[i].0@);
                    assert(node.children@[j].0@ == children[j].0@);
                }
            }
            assert forall|path: Seq<Seq<char>>|
                #[trigger] lookup(*node, path) == if path == target {
                    insert_sorted(lookup(old_node, path), id, type_key(*metadata))
                } else {
                    lookup(old_node, path)
                } by {
                if path.len() == 0 {
                    assert(path != target);
                } else {
                    let rest = path.drop_first();
                    assert(path =~= seq![path[0]] + rest);
                    lemma_lookup_step(*node, path[0], rest);
                    lemma_lookup_step(old_node, path[0], rest);
                    if path[0] == seg@ {
                        assert forall|k: int| 0 <= k < p implies (#[trigger] node.children@[k]).0@ != seg@ by {
                            assert(node.children@[k] == children[k]);
                        }
                        lemma_child_lookup_at(node.children@, p as int, seg@, rest);
                        assert(lookup(old_child, rest) == lookup(old_node, path));
                        assert((path == target) == (rest == target.drop_first())) by {
                            assert(target =~= seq![seg@] + target.drop_first());
                        }
                    } else {
                        assert(path != target);
                        lemma_child_lookup_update_other(children, p as int, entry, path[0], rest);
                    }
                }
            }
            assert forall|path: Seq<Seq<char>>, k: int|
                0 <= k < lookup(*node, path).len() implies (#[trigger] lookup(*node, path)[k]).0 < n by {
                if path.len() > 0 && path[0] == seg@ {
                    let rest = path.drop_first();
                    assert(path =~= seq![seg@] + rest);
                    lemma_lookup_step(*node, seg@, rest);
                    assert forall|q: int| 0 <= q < p implies (#[trigger] node.children@[q]).0@ != seg@ by {
                        assert(node.children@[q] == children[q]);
                    }
                    lemma_child_lookup_at(node.children@, p as int, seg@, rest);
                    assert(lookup(*node, path) == lookup(child, rest));
                } else if path.len() > 0 {
                    assert(lookup(*node, path) == lookup(old_node, path));
                } else {
                    assert(lookup(*node, path) == lookup(old_node, path));
                }
            }
        }
    } else {
        let mut fresh = NamespaceNode::default();
        proof {
            assert forall|rest: Seq<Seq<char>>| #[trigger]
                lookup(fresh, rest) == Seq::<TypeId>::empty() by {
                lemma_lookup_empty(fresh, rest);
            }
            assert(children_sorted(fresh.children@));
        }
        let ghost empty_node = fresh;
        insert_type(&mut fresh, segments, from + 1, id, metadata);
        let entry_name = segments[from].clone();
        let ghost entry = (entry_name, fresh);
        node.children.insert(p, (entry_name, fresh));
        proof {
            assert(node.children@ =~= children.insert(p as int, entry));
            lemma_children_valid_insert(children, p as int, entry);
            assert(entry.0@ == seg@);
            assert forall|j: int| p <= j < children.len() implies chars_before(
                seg@,
                (#[trigger] children[j]).0@,
            ) by {
                assert(children_sorted(children));
                let first = children[p as int].0@;
                assert(first != seg@);
                lemma_before_total(seg@, first);
                if j > p {
                    lemma_before_transitive(seg@, first, children[j].0@);
                }
            }
            assert(children_sorted(node.children@)) by {
                assert forall|i: int, j: int|
                    0 <= i < j < node.children@.len() implies chars_before(
                    node.children@[i].0@,
                    node.children@[j].0@,
                ) by {
                    assert(children_sorted(children));
                    if j < p {
                        assert(node.children@[i] == children[i]);
                        assert(node.children@[j] == children[j]);
                    } else if j == p {
                        assert(node.children@[i] == children[i]);
                    } else if i == p {
                        assert(node.children@[j] == children[j - 1]);
                    } else if i < p {
                        assert(node.children@[i] == children[i]);
                        assert(node.children@[j] == children[j - 1]);
                        lemma_before_transitive(children[i].0@, seg@, children[j - 1].0@);
                    } else {
                        assert(node.children@[i] == children[i - 1]);
                        assert(node.children@[j] == children[j - 1]);
                    }
                }
            }
            assert forall|k: int| 0 <= k < children.len() implies (#[trigger] children[k]).0@ != seg@ by {
                lemma_before_irreflexive(seg@);
            }
            assert forall|path: Seq<Seq<char>>|
                #[trigger] lookup(*node, path) == if path == target {
                    insert_sorted(lookup(old_node, path), id, type_key(*metadata))
                } else {
                    lookup(old_node, path)
                } by {
                if path.len() == 0 {
                    assert(path != target);
                } else {
                    let rest = path.drop_first();
                    assert(path =~= seq![path[0]] + rest);
                    lemma_lookup_step(*node, path[0], rest);
                    lemma_lookup_step(old_node, path[0], rest);
                    if path[0] == seg@ {
                        assert forall|k: int| 0 <= k < p implies (#[trigger] node.children@[k]).0@ != seg@ by {
                            assert(node.children@[k] == children[k]);
                        }
                        lemma_child_lookup_at(node.children@, p as int, seg@, rest);
                        lemma_child_lookup_absent(children, seg@, rest);
                        assert((path == target) == (rest == target.drop_first())) by {
                            assert(target =~= seq![seg@] + target.drop_first());
                        }
                        assert(lookup(empty_node, rest) == Seq::<TypeId>::empty());
                    } else {
                        assert(path != target);
                        lemma_child_lookup_insert(children, p as int, entry, path[0], rest);
                    }
                }
            }
            assert forall|path: Seq<Seq<char>>, k: int|
                0 <= k < lookup(*node, path).len() implies (#[trigger] lookup(*node, path)[k]).0 < n by {
                if path.len() > 0 && path[0] == seg@ {
                    let rest = path.drop_first();
                    assert(path =~= seq![seg@] + rest);
                    lemma_lookup_step(*node, seg@, rest);
                    assert forall|q: int| 0 <= q < p implies (#[trigger] node.children@[q]).0@ != seg@ by {
                        assert(node.children@[q] == children[q]);
                    }
                    lemma_child_lookup_at(node.children@, p as int, seg@, rest);
                    assert(lookup(*node, path) == lookup(fresh, rest));
                } else {
                    assert(lookup(*node, path) == lookup(old_node, path));
                }
            }
        }
    }
}


/// The namespace path under which the tree files type `id`.
pub open spec fn type_path(metadata: Metadata, id: TypeId) -> Seq<Seq<char>> {
    namespace_segments(metadata.types@[id.0 as int].namespace@)
}

/// The types among `ids` filed at `path`, in stable name order.
pub open spec fn types_at(metadata: Metadata, ids: Seq<TypeId>, path: Seq<Seq<char>>) -> Seq<
    TypeId,
> {
    stable_sort(ids.filter(|id: TypeId| type_path(metadata, id) == path), type_key(metadata))
}

proof fn lemma_types_at_push(
    metadata: Metadata,
    ids: Seq<TypeId>,
    id: TypeId,
    path: Seq<Seq<char>>,
)
    ensures
        types_at(metadata, ids.push(id), path) == if type_path(metadata, id) == path {
            insert_sorted(types_at(metadata, ids, path), id, type_key(metadata))
        } else {
            types_at(metadata, ids, path)
        },
{
    let pred = |t: TypeId| type_path(metadata, t) == path;
    reveal(Seq::filter);
    assert(ids.push(id).drop_last() =~= ids);
    let filtered = ids.filter(pred);
    if pred(id) {
        assert(ids.push(id).filter(pred) == filtered.push(id));
        assert(filtered.push(id).drop_last() =~= filtered);
    } else {
        assert(ids.push(id).filter(pred) == filtered);
    }
}

/// The namespace tree of the types `ids`.
pub fn build_namespaces(ids: &Vec<TypeId>, metadata: &Metadata) -> (r: NamespaceNode)
    requires
        forall|k: int| 0 <= k < ids@.len() ==> (#[trigger] ids@[k]).0 < metadata.types@.len(),
    ensures
        tree_valid(r),
        forall|path: Seq<Seq<char>>| #[trigger]
            lookup(r, path) == types_at(*metadata, ids@, path),
{
    let mut node = NamespaceNode::default();
    proof {
        assert forall|path: Seq<Seq<char>>| #[trigger]
            lookup(node, path) == types_at(*metadata, ids@.take(0), path) by {
            lemma_lookup_empty(node, path);
            reveal(Seq::filter);
            assert(ids@.take(0).filter(|id: TypeId| type_path(*metadata, id) == path) =~= Seq::<
                TypeId,
            >::empty());
        }
        assert(children_sorted(node.children@));
    }
    let mut k: usize = 0;
    while k < ids.len()
        invariant
            k <= ids@.len(),
            forall|i: int| 0 <= i < ids@.len() ==> (#[trigger] ids@[i]).0 < metadata.types@.len(),
            tree_valid(node),
            forall|path: Seq<Seq<char>>| #[trigger]
                lookup(node, path) == types_at(*metadata, ids@.take(k as int), path),
            forall|path: Seq<Seq<char>>, i: int|
                0 <= i < types_at(*metadata, ids@.take(k as int), path).len() ==> (#[trigger] types_at(
                    *metadata,
                    ids@.take(k as int),
                    path,
                )[i]).0 < metadata.types@.len(),
        decreases ids@.len() - k,
    {
        let id = ids[k];
        let segments = split_namespace(metadata.types[id.0].namespace.as_str());
        proof {
            assert(texts(segments@).skip(0) =~= texts(segments@));
            assert forall|path: Seq<Seq<char>>, i: int|
                0 <= i < lookup(node, path).len() implies (#[trigger] lookup(node, path)[i]).0
                < metadata.types@.len() by {
                assert(lookup(node, path) == types_at(*metadata, ids@.take(k as int), path));
            }
        }
        let ghost before = node;
        insert_type(&mut node, &segments, 0, id, metadata);
        proof {
            assert(ids@.take(k + 1) =~= ids@.take(k as int).push(id));
            assert forall|path: Seq<Seq<char>>| #[trigger]
                lookup(node, path) == types_at(*metadata, ids@.take(k + 1), path) by {
                lemma_types_at_push(*metadata, ids@.take(k as int), id, path);
                assert(type_path(*metadata, id) == texts(segments@));
            }
            assert forall|path: Seq<Seq<char>>, i: int|
                0 <= i < types_at(*metadata, ids@.take(k + 1), path).len() implies (#[trigger] types_at(
                    *metadata,
                    ids@.take(k + 1),
                    path,
                )[i]).0 < metadata.types@.len() by {
                assert(lookup(node, path) == types_at(*metadata, ids@.take(k + 1), path));
            }
        }
        k = k + 1;
    }
    assert(ids@.take(ids@.len() as int) =~= ids@);
    node
}


/// One assembly of the navigation pane and its namespace tree.
#[derive(Debug)]
pub struct AssemblyNode {
    pub id: AssemblyId,
    pub name: String,
    pub namespaces: NamespaceNode,
}

/// The navigation pane: every assembly, in name order.
#[derive(Debug)]
pub struct NavigationIndex {
    pub assemblies: Vec<AssemblyNode>,
}

impl Default for NavigationIndex {
    fn default() -> (r: Self)
        ensures
            r.assemblies@.len() == 0,
    {
        NavigationIndex { assemblies: Vec::new() }
    }
}

/// Every assembly names an image, and every image lists types that exist.
pub open spec fn navigation_well_typed(metadata: Metadata) -> bool {
    &&& forall|a: int|
        0 <= a < metadata.assemblies@.len() ==> (#[trigger] metadata.assemblies@[a]).image.0
            < metadata.images@.len()
    &&& forall|i: int, k: int|
        0 <= i < metadata.images@.len() && 0 <= k < metadata.images@[i].types@.len()
            ==> (#[trigger] metadata.images@[i].types@[k]).0 < metadata.types@.len()
}

/// The name by which the pane orders assembly `a`.
pub open spec fn assembly_key(metadata: Metadata) -> spec_fn(int) -> Seq<char> {
    |a: int| metadata.assemblies@[a].name@
}

/// The order of the pane's assemblies: by name, equal names in metadata order.
pub open spec fn assembly_order(metadata: Metadata) -> Seq<int> {
    stable_sort(Seq::new(metadata.assemblies@.len(), |a: int| a), assembly_key(metadata))
}

/// `node` shows assembly `a` of `metadata` with the types of its image.
pub open spec fn shows_assembly(node: AssemblyNode, metadata: Metadata, a: int) -> bool {
    let assembly = metadata.assemblies@[a];
    &&& node.id == assembly.id
    &&& node.name@ == assembly.name@
    &&& tree_valid(node.namespaces)
    &&& forall|path: Seq<Seq<char>>| #[trigger]
        lookup(node.namespaces, path) == types_at(
            metadata,
            metadata.images@[assembly.image.0 as int].types@,
            path,
        )
}

/// Sorting keeps the length.
pub proof fn lemma_stable_sort_len<A>(s: Seq<A>, key: spec_fn(A) -> Seq<char>)
    ensures
        stable_sort(s, key).len() == s.len(),
    decreases s.len(),
{
    if s.len() > 0 {
        lemma_stable_sort_len(s.drop_last(), key);
        lemma_upper_bound_le(stable_sort(s.drop_last(), key), s.last(), key);
    }
}

impl NavigationIndex {
    /// The pane of `project`: one node per assembly, sorted by name, each with the
    /// namespace tree of its image's types.
    pub fn build(project: &Il2CppProject) -> (r: Self)
        requires
            navigation_well_typed(project.spec_metadata()),
        ensures
            r.assemblies@.len() == project.spec_metadata().assemblies@.len(),
            forall|j: int|
                0 <= j < r.assemblies@.len() ==> shows_assembly(
                    #[trigger] r.assemblies@[j],
                    project.spec_metadata(),
                    assembly_order(project.spec_metadata())[j],
                ),
    {
        let metadata = project.metadata();
        let ghost m = *metadata;
        let ghost key = assembly_key(m);
        let ghost all = Seq::new(m.assemblies@.len(), |a: int| a);
        let mut assemblies: Vec<AssemblyNode> = Vec::new();
        let ghost mut order: Seq<int> = Seq::empty();
        assert(all.take(0) =~= Seq::<int>::empty());
        let mut k: usize = 0;
        while k < metadata.assemblies.len()
            invariant
                m == project.spec_metadata(),
                *metadata == m,
                key == assembly_key(m),
                all == Seq::new(m.assemblies@.len(), |a: int| a),
                navigation_well_typed(m),
                k <= m.assemblies@.len(),
                order == stable_sort(all.take(k as int), key),
                assemblies@.len() == k,
                forall|j: int|
                    0 <= j < k ==> 0 <= #[trigger] order[j] < m.assemblies@.len(),
                forall|j: int|
                    0 <= j < k ==> shows_assembly(#[trigger] assemblies@[j], m, order[j]),
            decreases m.assemblies@.len() - k,
        {
            proof {
                lemma_stable_sort_len(all.take(k as int), key);
            }
            let assembly = &metadata.assemblies[k];
            let image = &metadata.images[assembly.image.0];
            proof {
                assert(m.assemblies@[k as int].image.0 < m.images@.len());
                assert forall|i: int| 0 <= i < image.types@.len() implies (
                #[trigger] image.types@[i]).0 < m.types@.len() by {
                    assert(m.images@[assembly.image.0 as int].types@[i].0 < m.types@.len());
                }
            }
            let namespaces = build_namespaces(&image.types, metadata);
            let node = AssemblyNode { id: assembly.id, name: assembly.name.clone(), namespaces };
            assert(shows_assembly(node, m, k as int));
            let name = chars_of(assembly.name.as_str());
            let mut p: usize = 0;
            while p < assemblies.len()
                invariant
                    p <= assemblies@.len(),
                    assemblies@.len() == k,
                    name@ == key(k as int),
                    key == assembly_key(m),
                    forall|j: int|
                        0 <= j < k ==> shows_assembly(#[trigger] assemblies@[j], m, order[j]),
                    forall|j: int| 0 <= j < p ==> !chars_before(key(k as int), #[trigger] key(order[j])),
                ensures
                    p <= assemblies@.len(),
                    forall|j: int| 0 <= j < p ==> !chars_before(key(k as int), #[trigger] key(order[j])),
                    p == assemblies@.len() || chars_before(key(k as int), key(order[p as int])),
                decreases assemblies@.len() - p,
            {
                let other = chars_of(assemblies[p].name.as_str());
                assert(shows_assembly(assemblies@[p as int], m, order[p as int]));
                if chars_less(name.as_slice(), other.as_slice()) {
                    break;
                }
                p = p + 1;
            }
            proof {
                lemma_upper_bound_at(order, k as int, key, p as int);
                assert(all.take(k + 1) =~= all.take(k as int).push(k as int));
                assert(all.take(k + 1).drop_last() =~= all.take(k as int));
            }
            let ghost old_nodes = assemblies@;
            let ghost old_order = order;
            assemblies.insert(p, node);
            proof {
                order = order.insert(p as int, k as int);
                assert forall|j: int| 0 <= j < k + 1 implies shows_assembly(
                    #[trigger] assemblies@[j],
                    m,
                    order[j],
                ) by {
                    if j < p {
                        assert(assemblies@[j] == old_nodes[j]);
                        assert(order[j] == old_order[j]);
                    } else if j > p {
                        assert(assemblies@[j] == old_nodes[j - 1]);
                        assert(order[j] == old_order[j - 1]);
                    }
                }
                assert forall|j: int| 0 <= j < k + 1 implies 0 <= #[trigger] order[j]
                    < m.assemblies@.len() by {
                    if j < p {
                        assert(order[j] == old_order[j]);
                    } else if j > p {
                        assert(order[j] == old_order[j - 1]);
                    }
                }
            }
            k = k + 1;
        }
        assert(all.take(k as int) =~= all);
        NavigationIndex { assemblies }
    }
}


/// `Namespace.Name` as the tree filter reads a type; the dot stands in the global
/// namespace too.
pub open spec fn dotted_name(ty: TypeDefinition) -> Seq<char> {
    ty.namespace@ + seq!['.'] + ty.name@
}

/// The types an assembly's image lists.
pub open spec fn assembly_types(metadata: Metadata, assembly: AssemblyId) -> Seq<TypeId> {
    metadata.images@[metadata.assemblies@[assembly.0 as int].image.0 as int].types@
}

/// The filter hits among the first `k` of `ids`: each type whose lowercase dotted name
/// contains `query`, labelled `Assembly: namespace.name`.
pub open spec fn hits_in(
    metadata: Metadata,
    assembly_name: Seq<char>,
    ids: Seq<TypeId>,
    query: Seq<char>,
    k: nat,
) -> Seq<(TypeId, Seq<char>)>
    decreases k,
{
    if k == 0 {
        Seq::empty()
    } else {
        let previous = hits_in(metadata, assembly_name, ids, query, (k - 1) as nat);
        let id = ids[k - 1];
        let full = lowercase(dotted_name(metadata.types@[id.0 as int]));
        if seq_contains(full, query) {
            previous.push((id, assembly_name + seq![':', ' '] + full))
        } else {
            previous
        }
    }
}

/// The filter hits of the first `n` assemblies, in pane order.
pub open spec fn filter_hits(
    metadata: Metadata,
    assemblies: Seq<AssemblyNode>,
    query: Seq<char>,
    n: nat,
) -> Seq<(TypeId, Seq<char>)>
    decreases n,
{
    if n == 0 {
        Seq::empty()
    } else {
        let a = assemblies[n - 1];
        let ids = assembly_types(metadata, a.id);
        filter_hits(metadata, assemblies, query, (n - 1) as nat) + hits_in(
            metadata,
            a.name@,
            ids,
            query,
            ids.len(),
        )
    }
}

/// The texts of labelled hits.
pub open spec fn labelled(hits: Seq<(TypeId, String)>) -> Seq<(TypeId, Seq<char>)> {
    hits.map_values(|h: (TypeId, String)| (h.0, h.1@))
}

/// The tree filter: `None` for a blank filter, where the pane shows the tree; otherwise
/// every type of every listed assembly whose lowercase dotted name contains the trimmed,
/// lowercased filter.
pub fn filter_tree(project: &Il2CppProject, assemblies: &[AssemblyNode], filter: &str) -> (r: Option<
    Vec<(TypeId, String)>,
>)
    requires
        navigation_well_typed(project.spec_metadata()),
        forall|a: int|
            0 <= a < assemblies@.len() ==> (#[trigger] assemblies@[a]).id.0
                < project.spec_metadata().assemblies@.len(),
    ensures
        ({
            let query = lowercase(trim(filter@));
            &&& query.len() == 0 ==> r is None
            &&& query.len() > 0 ==> (r matches Some(hits) && labelled(hits@) == filter_hits(
                project.spec_metadata(),
                assemblies@,
                query,
                assemblies@.len(),
            ))
        }),
{
    let metadata = project.metadata();
    let ghost m = *metadata;
    let trimmed = string_from_chars(trim_chars(chars_of(filter).as_slice()).as_slice());
    let lowered = to_lowercase(trimmed.as_str());
    let query = chars_of(lowered.as_str());
    if query.len() == 0 {
        return None;
    }
    let mut hits: Vec<(TypeId, String)> = Vec::new();
    let mut n: usize = 0;
    while n < assemblies.len()
        invariant
            n <= assemblies@.len(),
            *metadata == m,
            m == project.spec_metadata(),
            navigation_well_typed(m),
            forall|a: int| 0 <= a < assemblies@.len() ==> (#[trigger] assemblies@[a]).id.0 < m.assemblies@.len(),
            labelled(hits@) == filter_hits(m, assemblies@, query@, n as nat),
        decreases assemblies@.len() - n,
    {
        let assembly = &assemblies[n];
        let image_index = metadata.assemblies[assembly.id.0].image.0;
        let ids = &metadata.images[image_index].types;
        let ghost before = labelled(hits@);
        let ghost name = assembly.name@;
        let mut k: usize = 0;
        while k < ids.len()
            invariant
                k <= ids@.len(),
                *metadata == m,
                navigation_well_typed(m),
                image_index < m.images@.len(),
                ids@ == m.images@[image_index as int].types@,
                name == assembly.name@,
                labelled(hits@) == before + hits_in(m, name, ids@, query@, k as nat),
            decreases ids@.len() - k,
        {
            let id = ids[k];
            assert(id.0 < m.types@.len()) by {
                assert(m.images@[image_index as int].types@[k as int] == id);
            }
            let ty = &metadata.types[id.0];
            let mut dotted = chars_of(ty.namespace.as_str());
            dotted.push('.');
            push_str(&mut dotted, ty.name.as_str());
            assert(dotted@ =~= dotted_name(*ty));
            let full = to_lowercase(string_from_chars(dotted.as_slice()).as_str());
            let hay = chars_of(full.as_str());
            let ghost old_hits = hits@;
            if contains_chars(hay.as_slice(), query.as_slice()) {
                let mut label = chars_of(assembly.name.as_str());
                label.push(':');
                label.push(' ');
                push_str(&mut label, full.as_str());
                assert(label@ =~= name + seq![':', ' '] + full@);
                let text = string_from_chars(label.as_slice());
                hits.push((id, text));
                assert(hits@.last() == (id, text));
                assert(labelled(hits@) =~= labelled(old_hits).push(
                    (id, name + seq![':', ' '] + full@),
                ));
            }
            k = k + 1;
        }
        proof {
            assert(assemblies@[n as int].id == assembly.id);
            assert(labelled(hits@) =~= filter_hits(m, assemblies@, query@, (n + 1) as nat));
        }
        n = n + 1;
    }
    Some(hits)
}

} // verus!
