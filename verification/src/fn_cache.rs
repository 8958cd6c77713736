//! The signature index: for each type signature, the ids of the functions
//! that have it, in the order in which they came.
//!
//! The index is kept in a radix trie keyed by the signature text, which gives
//! both the exact lookup and the completions of a prefix.

use crate::models::Function;
use radix_trie::iter::Keys;
use radix_trie::{SubTrie, Trie, TrieCommon};
use vstd::prelude::*;
use vstd::slice::slice_subrange;
use vstd::string::*;

verus! {

/// `radix_trie::Trie`, of which nothing is known but what the functions below
/// say.
#[verifier::external_type_specification]
#[verifier::external_body]
#[verifier::reject_recursive_types(K)]
#[verifier::reject_recursive_types(V)]
pub struct ExTrie<K, V>(Trie<K, V>);

/// `radix_trie::SubTrie`, a node of a trie with what lies below it.
#[verifier::external_type_specification]
#[verifier::external_body]
#[verifier::reject_recursive_types(K)]
#[verifier::reject_recursive_types(V)]
pub struct ExSubTrie<'a, K: 'a, V: 'a>(SubTrie<'a, K, V>);

/// `radix_trie::iter::Keys`, a walk over the keys below a node.
#[verifier::external_type_specification]
#[verifier::external_body]
#[verifier::reject_recursive_types(K)]
#[verifier::reject_recursive_types(V)]
pub struct ExKeys<'a, K: 'a, V: 'a>(Keys<'a, K, V>);

/// What a trie holds: its keys, as text, each with its value.
pub uninterp spec fn trie_contents(t: Trie<String, Vec<i64>>) -> Map<Seq<char>, Seq<i64>>;

/// The keys below a node of a trie, in the order in which the trie walks them.
pub uninterp spec fn subtrie_keys(t: SubTrie<'_, String, Vec<i64>>) -> Seq<Seq<char>>;

/// The keys that a walk has still to come to, in its order.
pub uninterp spec fn keys_left(walk: Keys<'_, String, Vec<i64>>) -> Seq<Seq<char>>;

/// The keys of a trie that begin with `prefix`, in the order in which the trie
/// walks them.
pub uninterp spec fn descendant_keys(t: Trie<String, Vec<i64>>, prefix: Seq<char>) -> Seq<
    Seq<char>,
>;

/// The text of each of some strings.
pub open spec fn texts(keys: Seq<&str>) -> Seq<Seq<char>> {
    Seq::new(keys.len(), |i: int| keys[i]@)
}

/// `Trie::new`: a trie that holds nothing.
#[verifier::external_body]
fn trie_new() -> (t: Trie<String, Vec<i64>>)
    ensures
        trie_contents(t).dom() == Set::<Seq<char>>::empty(),
{
    Trie::new()
}

/// `Trie::get`: the value stored under exactly `key`, if there is one.
#[verifier::external_body]
fn trie_get<'a>(t: &'a Trie<String, Vec<i64>>, key: &str) -> (r: Option<&'a Vec<i64>>)
    ensures
        match r {
            Some(ids) => trie_contents(*t).contains_key(key@) && ids@ == trie_contents(*t)[key@],
            None => !trie_contents(*t).contains_key(key@),
        },
{
    t.get(key)
}

/// One more id at the end of a list.
fn push_id(ids: &mut Vec<i64>, id: i64)
    ensures
        final(ids)@ == old(ids)@.push(id),
{
    ids.push(id);
}

/// `Trie::map_with_default`: where a value is stored under `key` it is changed
/// in place, here by appending `id`; where none is, `first` is stored under
/// `key`. No other key is touched.
#[verifier::external_body]
fn trie_append(t: &mut Trie<String, Vec<i64>>, key: String, id: i64, first: Vec<i64>)
    ensures
        trie_contents(*final(t)) == if trie_contents(*old(t)).contains_key(key@) {
            trie_contents(*old(t)).insert(key@, trie_contents(*old(t))[key@].push(id))
        } else {
            trie_contents(*old(t)).insert(key@, first@)
        },
{
    t.map_with_default(key, |ids| push_id(ids, id), first);
}

/// `Trie::get_raw_descendant`: the node below which exactly the keys that
/// begin with `prefix` lie, or nothing, which happens only where no key begins
/// with `prefix`. The keys below the node are those named `descendant_keys`;
/// the walk meets each of them once.
#[verifier::external_body]
fn trie_descendant<'a>(t: &'a Trie<String, Vec<i64>>, prefix: &str) -> (r: Option<
    SubTrie<'a, String, Vec<i64>>,
>)
    ensures
        match r {
            Some(below) => {
                &&& subtrie_keys(below) == descendant_keys(*t, prefix@)
                &&& subtrie_keys(below).no_duplicates()
                &&& forall|k: Seq<char>| #[trigger]
                    subtrie_keys(below).contains(k) <==> trie_contents(*t).contains_key(k)
                        && prefix@.is_prefix_of(k)
            },
            None => {
                &&& descendant_keys(*t, prefix@).len() == 0
                &&& forall|k: Seq<char>| #[trigger]
                    trie_contents(*t).contains_key(k) ==> !prefix@.is_prefix_of(k)
            },
        },
{
    t.get_raw_descendant(prefix)
}

/// `TrieCommon::keys` on a node: a walk that has all the keys below the node
/// still to come to.
#[verifier::external_body]
fn subtrie_walk<'a>(below: &SubTrie<'a, String, Vec<i64>>) -> (walk: Keys<'a, String, Vec<i64>>)
    ensures
        keys_left(walk) == subtrie_keys(*below),
{
    below.keys()
}

/// `Iterator::next` of `Keys`: the first of the keys that the walk had still
/// to come to, which it has then passed; nothing where none was left.
#[verifier::external_body]
fn next_key<'a>(walk: &mut Keys<'a, String, Vec<i64>>) -> (r: Option<&'a str>)
    ensures
        match r {
            Some(key) => keys_left(*old(walk)).len() > 0 && key@ == keys_left(*old(walk))[0]
                && keys_left(*final(walk)) == keys_left(*old(walk)).drop_first(),
            None => keys_left(*old(walk)).len() == 0 && keys_left(*final(walk)).len() == 0,
        },
{
    match walk.next() {
        Some(key) => Some(key.as_str()),
        None => None,
    }
}

/// The first `num` keys below a node in the order of the walk, or all where
/// there are fewer.
fn subtrie_first_keys<'a>(below: &SubTrie<'a, String, Vec<i64>>, num: usize) -> (keys: Vec<
    &'a str,
>)
    ensures
        texts(keys@) == subtrie_keys(*below).take(
            if num <= subtrie_keys(*below).len() {
                num as int
            } else {
                subtrie_keys(*below).len() as int
            },
        ),
{
    let ghost all = subtrie_keys(*below);
    let mut walk = subtrie_walk(below);
    let mut keys: Vec<&'a str> = Vec::new();
    let mut at_end = false;
    assert(texts(keys@) + keys_left(walk) =~= all);
    while !at_end && keys.len() < num
        invariant
            keys.len() <= num,
            texts(keys@) + keys_left(walk) == all,
            at_end ==> keys_left(walk).len() == 0,
        decreases keys_left(walk).len() + (if at_end { 0int } else { 1int }),
    {
        let ghost taken = texts(keys@);
        let ghost left = keys_left(walk);
        match next_key(&mut walk) {
            Some(key) => {
                keys.push(key);
                assert(texts(keys@) =~= taken.push(key@));
                assert(taken.push(left[0]) + left.drop_first() =~= taken + left);
            },
            None => {
                at_end = true;
            },
        }
    }
    proof {
        let taken = texts(keys@);
        let left = keys_left(walk);
        assert(taken.len() == keys.len());
        assert(all.len() == taken.len() + left.len());
        assert(taken =~= all.take(taken.len() as int));
    }
    keys
}

/// The index from type signatures to function ids. Every signature in it
/// has at least one id.
pub struct FnCache {
    trie: Trie<String, Vec<i64>>,
}

/// The ids of the pairs whose signature is `sig`, in the order of the pairs.
pub open spec fn ids_with(pairs: Seq<(Seq<char>, i64)>, sig: Seq<char>) -> Seq<i64>
    decreases pairs.len(),
{
    if pairs.len() == 0 {
        Seq::empty()
    } else if pairs.last().0 == sig {
        ids_with(pairs.drop_last(), sig).push(pairs.last().1)
    } else {
        ids_with(pairs.drop_last(), sig)
    }
}

/// Some pair has the signature `sig`.
pub open spec fn has_signature(pairs: Seq<(Seq<char>, i64)>, sig: Seq<char>) -> bool {
    exists|i: int| 0 <= i < pairs.len() && (#[trigger] pairs[i]).0 == sig
}

/// The index of some pairs of signature and id: under each signature that
/// occurs, the ids that came with it, in their order.
pub open spec fn index_of(pairs: Seq<(Seq<char>, i64)>) -> Map<Seq<char>, Seq<i64>> {
    Map::new(|sig: Seq<char>| has_signature(pairs, sig), |sig: Seq<char>| ids_with(pairs, sig))
}

/// Pairs of signature and id, the signature as text.
pub open spec fn pairs_view(pairs: Seq<(String, i64)>) -> Seq<(Seq<char>, i64)> {
    Seq::new(pairs.len(), |i: int| (pairs[i].0@, pairs[i].1))
}

/// The signature and the id of each function.
pub open spec fn signatures_of(fns: Seq<Function>) -> Seq<(Seq<char>, i64)> {
    Seq::new(fns.len(), |i: int| (fns[i].type_signature@, fns[i].id))
}

/// The ids under `sig` once `id` has come with it.
pub open spec fn with_id(index: Map<Seq<char>, Seq<i64>>, sig: Seq<char>, id: i64) -> Seq<i64> {
    if index.contains_key(sig) {
        index[sig].push(id)
    } else {
        seq![id]
    }
}

/// No pair with a signature, no id for it.
pub proof fn lemma_ids_with_none(pairs: Seq<(Seq<char>, i64)>, sig: Seq<char>)
    requires
        !has_signature(pairs, sig),
    ensures
        ids_with(pairs, sig) == Seq::<i64>::empty(),
    decreases pairs.len(),
{
    if pairs.len() > 0 {
        assert(pairs[pairs.len() - 1].0 != sig);
        assert forall|i: int| 0 <= i < pairs.drop_last().len() implies (#[trigger] pairs.drop_last()[i]).0
            != sig by {
            assert(pairs[i].0 != sig);
        }
        lemma_ids_with_none(pairs.drop_last(), sig);
    }
}

/// Every signature of an index has an id: no list of the index is empty.
pub proof fn lemma_index_lists_not_empty(pairs: Seq<(Seq<char>, i64)>, sig: Seq<char>)
    requires
        index_of(pairs).contains_key(sig),
    ensures
        index_of(pairs)[sig].len() > 0,
    decreases pairs.len(),
{
    let i = choose|i: int| 0 <= i < pairs.len() && (#[trigger] pairs[i]).0 == sig;
    if pairs.last().0 != sig {
        assert(pairs.drop_last()[i].0 == sig);
        lemma_index_lists_not_empty(pairs.drop_last(), sig);
    }
}

/// An id stands under a signature only where a pair brought it there.
pub proof fn lemma_ids_with_came_from(pairs: Seq<(Seq<char>, i64)>, sig: Seq<char>, id: i64)
    requires
        ids_with(pairs, sig).contains(id),
    ensures
        exists|i: int| 0 <= i < pairs.len() && #[trigger] pairs[i] == (sig, id),
    decreases pairs.len(),
{
    if pairs.len() > 0 {
        let rest = pairs.drop_last();
        let k = choose|k: int| 0 <= k < ids_with(pairs, sig).len() && ids_with(pairs, sig)[k] == id;
        if pairs.last().0 == sig && k == ids_with(rest, sig).len() {
            assert(pairs[pairs.len() - 1] == (sig, id));
        } else {
            assert(ids_with(rest, sig)[k] == id);
            lemma_ids_with_came_from(rest, sig, id);
            let i = choose|i: int| 0 <= i < rest.len() && #[trigger] rest[i] == (sig, id);
            assert(pairs[i] == (sig, id));
        }
    }
}

/// Where every id comes once, an id stands under one signature only.
pub proof fn lemma_id_under_one_signature(
    pairs: Seq<(Seq<char>, i64)>,
    a: Seq<char>,
    b: Seq<char>,
    id: i64,
)
    requires
        forall|i: int, j: int|
            0 <= i < j < pairs.len() ==> (#[trigger] pairs[i]).1 != (#[trigger] pairs[j]).1,
        index_of(pairs).contains_key(a) && index_of(pairs)[a].contains(id),
        index_of(pairs).contains_key(b) && index_of(pairs)[b].contains(id),
    ensures
        a == b,
{
    lemma_ids_with_came_from(pairs, a, id);
    lemma_ids_with_came_from(pairs, b, id);
    let i = choose|i: int| 0 <= i < pairs.len() && #[trigger] pairs[i] == (a, id);
    let j = choose|j: int| 0 <= j < pairs.len() && #[trigger] pairs[j] == (b, id);
    if i < j {
        assert(pairs[i].1 != pairs[j].1);
    } else if j < i {
        assert(pairs[j].1 != pairs[i].1);
    }
}

/// One more pair adds its id under its signature and changes nothing else.
pub proof fn lemma_index_of_push(pairs: Seq<(Seq<char>, i64)>, sig: Seq<char>, id: i64)
    ensures
        index_of(pairs.push((sig, id))) == index_of(pairs).insert(
            sig,
            with_id(index_of(pairs), sig, id),
        ),
{
    let more = pairs.push((sig, id));
    let a = index_of(more);
    let b = index_of(pairs).insert(sig, with_id(index_of(pairs), sig, id));
    assert(more.drop_last() =~= pairs);
    assert(more.last() == (sig, id));
    assert forall|k: Seq<char>| a.contains_key(k) <==> b.contains_key(k) by {
        if has_signature(more, k) {
            let i = choose|i: int| 0 <= i < more.len() && (#[trigger] more[i]).0 == k;
            if i < pairs.len() {
                assert(pairs[i].0 == k);
            }
        }
        if has_signature(pairs, k) {
            let i = choose|i: int| 0 <= i < pairs.len() && (#[trigger] pairs[i]).0 == k;
            assert(more[i].0 == k);
        }
        if k == sig {
            assert(more[pairs.len() as int].0 == k);
        }
    }
    assert forall|k: Seq<char>| a.contains_key(k) implies a[k] == b[k] by {
        if k == sig && !has_signature(pairs, sig) {
            lemma_ids_with_none(pairs, sig);
        }
    }
    assert(a =~= b);
}

/// Two windows, the second starting where the first ends, are one window: to
/// page through the ids of a signature loses none and keeps their order.
pub proof fn lemma_windows_join(ids: Seq<i64>, start: int, first: int, second: int)
    requires
        0 <= start,
        0 <= first,
        0 <= second,
        start + first <= ids.len(),
    ensures
        FnCache::window(ids, start, first) + FnCache::window(ids, start + first, second)
            == FnCache::window(ids, start, first + second),
{
    assert(FnCache::window(ids, start, first) + FnCache::window(ids, start + first, second)
        =~= FnCache::window(ids, start, first + second));
}

impl View for FnCache {
    type V = Map<Seq<char>, Seq<i64>>;

    /// The index: the ids stored under each signature.
    closed spec fn view(&self) -> Map<Seq<char>, Seq<i64>> {
        trie_contents(self.trie)
    }
}

impl FnCache {
    /// Every stored signature has an id: no list of the index is empty.
    #[verifier::type_invariant]
    spec fn lists_not_empty(&self) -> bool {
        forall|sig: Seq<char>| #[trigger]
            trie_contents(self.trie).contains_key(sig) ==> trie_contents(self.trie)[sig].len() > 0
    }

    /// The stored signatures that begin with `prefix`, in the order in which
    /// the index hands them out. The order is fixed for an index.
    pub closed spec fn completions(&self, prefix: Seq<char>) -> Seq<Seq<char>> {
        descendant_keys(self.trie, prefix)
    }

    /// The window of `ids` that starts at `start` and holds up to `num` of them.
    pub open spec fn window(ids: Seq<i64>, start: int, num: int) -> Seq<i64>
        recommends
            0 <= start < ids.len(),
            0 <= num,
    {
        ids.subrange(
            start,
            if start + num <= ids.len() {
                start + num
            } else {
                ids.len() as int
            },
        )
    }

    /// What a search finds: the window of the ids stored under `sig`, or
    /// nothing where `sig` is not stored or the window starts behind its last
    /// id.
    pub open spec fn found(&self, sig: Seq<char>, num: nat, start: nat) -> Option<Seq<i64>> {
        if self@.contains_key(sig) && start < self@[sig].len() {
            Some(Self::window(self@[sig], start as int, num as int))
        } else {
            None
        }
    }

    /// What is suggested for `prefix`: the first `num` of its completions, or
    /// all where there are fewer; nothing where there is none to suggest.
    pub open spec fn suggested(&self, prefix: Seq<char>, num: nat) -> Option<Seq<Seq<char>>> {
        let all = self.completions(prefix);
        if num == 0 || all.len() == 0 {
            None
        } else if num <= all.len() {
            Some(all.take(num as int))
        } else {
            Some(all)
        }
    }

    /// An index that holds nothing.
    pub fn new() -> (c: Self)
        ensures
            c@ == Map::<Seq<char>, Seq<i64>>::empty(),
    {
        let c = FnCache { trie: trie_new() };
        assert(c@ =~= Map::<Seq<char>, Seq<i64>>::empty());
        c
    }

    /// At most `num` ids of the functions with the signature `sig`, from the
    /// `starting_index`-th on (from the first where none is given), in the order
    /// in which they came. Nothing where the signature is not stored or the
    /// start lies behind its last id.
    pub fn search(&self, sig: &str, num: usize, starting_index: Option<usize>) -> (r: Option<
        &[i64],
    >)
        ensures
            match self.found(
                sig@,
                num as nat,
                match starting_index {
                    Some(s) => s as nat,
                    None => 0,
                },
            ) {
                Some(window) => r matches Some(ids) && ids@ == window,
                None => r is None,
            },
            self@.contains_key(sig@) ==> self@[sig@].len() > 0,
    {
        proof {
            use_type_invariant(self);
        }
        match trie_get(&self.trie, sig) {
            Some(cache) => {
                let start = match starting_index {
                    Some(s) => s,
                    None => 0,
                };
                let len = cache.len();
                if start >= len {
                    return None;
                }
                let end = if num >= len - start {
                    len
                } else {
                    start + num
                };
                Some(slice_subrange(cache.as_slice(), start, end))
            },
            None => None,
        }
    }

    /// At most `num` stored signatures that begin with `sig`, each once: the
    /// first `num` of its completions. The completions of `sig` are the stored
    /// signatures that begin with it, `sig` itself among them where it is
    /// stored. Nothing where no stored signature begins with `sig`, or `num`
    /// is 0.
    pub fn suggest(&self, sig: &str, num: usize) -> (r: Option<Vec<&str>>)
        ensures
            self.completions(sig@).no_duplicates(),
            forall|k: Seq<char>| #[trigger]
                self.completions(sig@).contains(k) <==> self@.contains_key(k) && sig@.is_prefix_of(
                    k,
                ),
            forall|k: Seq<char>| #[trigger]
                self.completions(sig@).contains(k) ==> self@[k].len() > 0,
            match self.suggested(sig@, num as nat) {
                Some(first) => r matches Some(found) && texts(found@) == first,
                None => r is None,
            },
    {
        proof {
            use_type_invariant(self);
        }
        match trie_descendant(&self.trie, sig) {
            Some(t) => {
                let res = subtrie_first_keys(&t, num);
                assert(texts(res@).len() == res@.len());
                assert(subtrie_keys(t).take(subtrie_keys(t).len() as int) =~= subtrie_keys(t));
                if res.len() == 0 {
                    None
                } else {
                    Some(res)
                }
            },
            None => {
                assert forall|k: Seq<char>| #[trigger]
                    self.completions(sig@).contains(k) <==> self@.contains_key(k)
                        && sig@.is_prefix_of(k) by {}
                None
            },
        }
    }

    /// One more function: `func_id` comes last under `type_signature`.
    fn insert(&mut self, type_signature: &str, func_id: i64)
        ensures
            final(self)@ == old(self)@.insert(
                type_signature@,
                with_id(old(self)@, type_signature@, func_id),
            ),
    {
        proof {
            use_type_invariant(&*self);
        }
        let mut first: Vec<i64> = Vec::new();
        first.push(func_id);
        assert(first@ =~= seq![func_id]);
        let mut taken = FnCache::new();
        core::mem::swap(self, &mut taken);
        let mut trie = taken.trie;
        trie_append(&mut trie, String::from_str(type_signature), func_id, first);
        *self = FnCache { trie };
    }

    /// The index of some pairs of signature and id. Every pair is taken as it
    /// is: an empty signature is a signature, and an id may come twice.
    pub fn build(pairs: &Vec<(String, i64)>) -> (c: Self)
        ensures
            c@ == index_of(pairs_view(pairs@)),
    {
        let mut c = FnCache::new();
        let mut i: usize = 0;
        assert(index_of(pairs_view(pairs@).take(0)) =~= Map::<Seq<char>, Seq<i64>>::empty());
        while i < pairs.len()
            invariant
                i <= pairs.len(),
                c@ == index_of(pairs_view(pairs@).take(i as int)),
            decreases pairs.len() - i,
        {
            let ghost done = pairs_view(pairs@).take(i as int);
            let f = &pairs[i];
            c.insert(f.0.as_str(), f.1);
            proof {
                lemma_index_of_push(done, f.0@, f.1);
                assert(pairs_view(pairs@).take(i + 1) =~= done.push((f.0@, f.1)));
            }
            i += 1;
        }
        assert(pairs_view(pairs@).take(pairs.len() as int) =~= pairs_view(pairs@));
        c
    }

    /// The index of some stored functions, each under its signature.
    pub fn from_functions(fns: &Vec<Function>) -> (c: Self)
        ensures
            c@ == index_of(signatures_of(fns@)),
    {
        let mut c = FnCache::new();
        let mut i: usize = 0;
        assert(index_of(signatures_of(fns@).take(0)) =~= Map::<Seq<char>, Seq<i64>>::empty());
        while i < fns.len()
            invariant
                i <= fns.len(),
                c@ == index_of(signatures_of(fns@).take(i as int)),
            decreases fns.len() - i,
        {
            let ghost done = signatures_of(fns@).take(i as int);
            let f = &fns[i];
            c.insert(f.type_signature.as_str(), f.id);
            proof {
                lemma_index_of_push(done, f.type_signature@, f.id);
                assert(signatures_of(fns@).take(i + 1) =~= done.push((f.type_signature@, f.id)));
            }
            i += 1;
        }
        assert(signatures_of(fns@).take(fns.len() as int) =~= signatures_of(fns@));
        c
    }
}

} // verus!
