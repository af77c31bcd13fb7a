//! The rule store: an in-memory mapping from route patterns to interception
//! actions, with lookup by longest segment-aligned prefix of a request path.

use radix_trie::Trie;
use vstd::prelude::*;
use vstd::string::StrSliceExecFns;

verus! {

/// The action taken for a request whose path is covered by a stored pattern.
#[derive(Clone, Copy, Debug, PartialEq, Eq, Structural)]
pub enum InterceptAction {
    Block,
}

/// Declares radix_trie::Trie, the container the store keeps its rules in, so
/// that it can stand in fields and signatures; its contents are only reached
/// through the wrappers below.
#[verifier::external_type_specification]
#[verifier::external_body]
#[verifier::reject_recursive_types(K)]
#[verifier::reject_recursive_types(V)]
pub struct ExTrie<K, V>(Trie<K, V>);

/// The rules a trie holds, as a map from pattern characters to actions.
pub uninterp spec fn trie_rules(t: Trie<String, InterceptAction>) -> Map<
    Seq<char>,
    InterceptAction,
>;

/// The rules of a store that holds none.
pub open spec fn empty_rules() -> Map<Seq<char>, InterceptAction> {
    Map::empty()
}

/// Relies on radix_trie::Trie::new: the new trie holds no keys.
#[verifier::external_body]
fn trie_new() -> (t: Trie<String, InterceptAction>)
    ensures
        trie_rules(t) == empty_rules(),
{
    Trie::new()
}

/// Relies on radix_trie::Trie::insert: maps the key to the value, replacing
/// any value previously stored under the same key and touching no other key.
#[verifier::external_body]
fn trie_insert(t: &mut Trie<String, InterceptAction>, key: String, action: InterceptAction)
    ensures
        trie_rules(*final(t)) == trie_rules(*old(t)).insert(key@, action),
{
    t.insert(key, action);
}

/// Relies on radix_trie::Trie::remove: removes the exact key and returns the
/// value it was mapped to, if any; no other key is touched.
#[verifier::external_body]
fn trie_remove(t: &mut Trie<String, InterceptAction>, key: &str) -> (prev: Option<InterceptAction>)
    ensures
        trie_rules(*final(t)) == trie_rules(*old(t)).remove(key@),
        prev == (if trie_rules(*old(t)).dom().contains(key@) {
            Some(trie_rules(*old(t))[key@])
        } else {
            None::<InterceptAction>
        }),
{
    t.remove(key)
}

/// Relies on radix_trie::Trie::get: returns the value stored under the exact
/// key, if any.
#[verifier::external_body]
fn trie_get(t: &Trie<String, InterceptAction>, key: &str) -> (r: Option<InterceptAction>)
    ensures
        r == (if trie_rules(*t).dom().contains(key@) {
            Some(trie_rules(*t)[key@])
        } else {
            None::<InterceptAction>
        }),
{
    t.get(key).copied()
}

/// Holds when `p` is a segment-aligned prefix of `q`: `p` is a prefix of the
/// characters of `q` that ends exactly at the end of `q` or at a `/` in `q`,
/// so `/api` covers `/api` and `/api/users` but not `/apikey`.
pub open spec fn is_seg_prefix(p: Seq<char>, q: Seq<char>) -> bool {
    &&& p.len() <= q.len()
    &&& q.subrange(0, p.len() as int) == p
    &&& (p.len() == q.len() || q[p.len() as int] == '/')
}

/// Holds when `p` is stored in `m`, segment-prefixes `q`, and no stored
/// pattern that segment-prefixes `q` is longer than `p`.
pub open spec fn longest_match(
    m: Map<Seq<char>, InterceptAction>,
    q: Seq<char>,
    p: Seq<char>,
) -> bool {
    &&& m.dom().contains(p)
    &&& is_seg_prefix(p, q)
    &&& forall|o: Seq<char>| m.dom().contains(o) && #[trigger] is_seg_prefix(o, q) ==> o.len()
        <= p.len()
}

/// Relates a lookup result `r` for path `q` to the stored rules `m`: a hit
/// carries the action of the longest stored pattern that segment-prefixes
/// `q`, and a miss means no stored pattern segment-prefixes `q`.
pub open spec fn lookup_matches(
    m: Map<Seq<char>, InterceptAction>,
    q: Seq<char>,
    r: Option<InterceptAction>,
) -> bool {
    match r {
        Some(a) => exists|p: Seq<char>| #[trigger] longest_match(m, q, p) && m[p] == a,
        None => forall|p: Seq<char>| m.dom().contains(p) ==> !#[trigger] is_seg_prefix(p, q),
    }
}

/// The store of interception rules. Patterns are unique keys; an insert for a
/// pattern already present overwrites its action.
pub struct RuleStore {
    trie: Trie<String, InterceptAction>,
}

impl RuleStore {
    /// The stored rules, as a map from pattern characters to actions.
    pub closed spec fn rules(&self) -> Map<Seq<char>, InterceptAction> {
        trie_rules(self.trie)
    }

    /// Creates an empty store.
    pub fn new() -> (s: RuleStore)
        ensures
            s.rules() == empty_rules(),
    {
        RuleStore { trie: trie_new() }
    }

    /// Adds or replaces the rule for `pattern`. Always succeeds.
    pub fn insert(&mut self, pattern: String, action: InterceptAction)
        ensures
            final(self).rules() == old(self).rules().insert(pattern@, action),
    {
        trie_insert(&mut self.trie, pattern, action);
    }

    /// Removes the rule for `pattern` if present; reports whether a rule was
    /// actually removed (`true`) or the call was a no-op (`false`).
    pub fn remove(&mut self, pattern: &str) -> (removed: bool)
        ensures
            final(self).rules() == old(self).rules().remove(pattern@),
            removed == old(self).rules().dom().contains(pattern@),
    {
        let prev = trie_remove(&mut self.trie, pattern);
        prev.is_some()
    }

    /// Returns the action of the longest stored pattern that segment-prefixes
    /// `path`, or none if no stored pattern segment-prefixes `path`.
    pub fn lookup(&self, path: &str) -> (r: Option<InterceptAction>)
        ensures
            lookup_matches(self.rules(), path@, r),
    {
        let ghost m = self.rules();
        let ghost q = path@;
        let n = path.unicode_len();
        let mut i: usize = 0;
        let mut best: Option<InterceptAction> = None;
        let ghost mut best_pat: Seq<char> = Seq::empty();
        loop
            invariant_except_break
                i <= n,
                n == q.len(),
                q == path@,
                m == self.rules(),
                scan_inv(m, q, best, best_pat, i as int),
            ensures
                scan_inv(m, q, best, best_pat, q.len() as int + 1),
            decreases n - i,
        {
            let boundary = i == n || path.get_char(i) == '/';
            if boundary {
                let cand = path.substring_char(0, i);
                let hit = trie_get(&self.trie, cand);
                proof {
                    assert(cand@ == q.subrange(0, i as int));
                    assert forall|o: Seq<char>|
                        #[trigger] is_seg_prefix(o, q) && o.len() == i implies o == cand@ by {
                        assert(q.subrange(0, o.len() as int) == o);
                    }
                }
                if let Some(a) = hit {
                    best = Some(a);
                    proof {
                        best_pat = q.subrange(0, i as int);
                        assert(is_seg_prefix(best_pat, q));
                        assert(scan_inv(m, q, best, best_pat, i + 1));
                    }
                } else {
                    proof {
                        assert(scan_inv(m, q, best, best_pat, i + 1));
                    }
                }
            } else {
                proof {
                    assert forall|o: Seq<char>|
                        m.dom().contains(o) && #[trigger] is_seg_prefix(o, q) implies o.len() != i by {
                    }
                    assert(scan_inv(m, q, best, best_pat, i + 1));
                }
            }
            if i == n {
                break;
            }
            i += 1;
        }
        proof {
            match best {
                Some(a) => {
                    assert(longest_match(m, q, best_pat) && m[best_pat] == a);
                },
                None => {
                    assert forall|p: Seq<char>| m.dom().contains(p) implies !is_seg_prefix(p, q) by {
                        if is_seg_prefix(p, q) {
                            assert(p.len() <= q.len());
                        }
                    }
                },
            }
        }
        best
    }

    /// Reports whether `path` is covered by a stored `Block` rule: whether the
    /// longest stored pattern that segment-prefixes `path` maps to `Block`.
    pub fn is_blocked(&self, path: &str) -> (b: bool)
        ensures
            b == exists|p: Seq<char>|
                #[trigger] longest_match(self.rules(), path@, p) && self.rules()[p]
                    == InterceptAction::Block,
    {
        let r = self.lookup(path);
        matches!(r, Some(InterceptAction::Block))
    }
}

/// Law: at most one stored pattern is a longest segment-aligned prefix of a
/// path, so a lookup hit is pinned to a single pattern's action.
pub proof fn lemma_longest_match_unique(
    m: Map<Seq<char>, InterceptAction>,
    q: Seq<char>,
    p1: Seq<char>,
    p2: Seq<char>,
)
    requires
        longest_match(m, q, p1),
        longest_match(m, q, p2),
    ensures
        p1 == p2,
{
    assert(q.subrange(0, p1.len() as int) == p1);
    assert(q.subrange(0, p2.len() as int) == p2);
}

/// Law: when a pattern `p` is stored and segment-prefixes `q`, a lookup
/// result for `q` that agrees with the store is a hit; and when no stored
/// pattern that segment-prefixes `q` is longer than `p`, that hit is exactly
/// the action stored for `p`.
pub proof fn lemma_lookup_hits_stored_prefix(
    m: Map<Seq<char>, InterceptAction>,
    q: Seq<char>,
    p: Seq<char>,
    r: Option<InterceptAction>,
)
    requires
        lookup_matches(m, q, r),
        m.dom().contains(p),
        is_seg_prefix(p, q),
    ensures
        r.is_some(),
        longest_match(m, q, p) ==> r == Some(m[p]),
{
    if longest_match(m, q, p) {
        let w = choose|w: Seq<char>| #[trigger] longest_match(m, q, w) && m[w] == r.unwrap();
        lemma_longest_match_unique(m, q, p, w);
    }
}

/// Law: when no stored pattern segment-prefixes `q`, a lookup result for `q`
/// that agrees with the store is a miss, and no stored `Block` rule covers
/// `q`, so the proxy forwards the request.
pub proof fn lemma_lookup_misses_unmatched(
    m: Map<Seq<char>, InterceptAction>,
    q: Seq<char>,
    r: Option<InterceptAction>,
)
    requires
        lookup_matches(m, q, r),
        forall|p: Seq<char>| m.dom().contains(p) ==> !#[trigger] is_seg_prefix(p, q),
    ensures
        r.is_none(),
        !exists|p: Seq<char>|
            #[trigger] longest_match(m, q, p) && m[p] == InterceptAction::Block,
{
    if r.is_some() {
        let w = choose|w: Seq<char>| #[trigger] longest_match(m, q, w) && m[w] == r.unwrap();
        assert(is_seg_prefix(w, q));
    }
}

/// Law: inserting the same pattern and action twice in a row equals inserting
/// it once, so a repeated `block` is safe.
pub proof fn lemma_insert_idempotent(
    m: Map<Seq<char>, InterceptAction>,
    p: Seq<char>,
    a: InterceptAction,
)
    ensures
        m.insert(p, a).insert(p, a) == m.insert(p, a),
{
    assert(m.insert(p, a).insert(p, a) =~= m.insert(p, a));
}

/// Law: removing a pattern twice in a row equals removing it once; after the
/// first removal the pattern is no longer stored, so the second removal
/// reports a no-op.
pub proof fn lemma_remove_idempotent(m: Map<Seq<char>, InterceptAction>, p: Seq<char>)
    ensures
        m.remove(p).remove(p) == m.remove(p),
        !m.remove(p).dom().contains(p),
{
    assert(m.remove(p).remove(p) =~= m.remove(p));
}

/// Law: inserts for two distinct patterns commute and neither is lost, so
/// rule mutations serialized in either order leave the same store, with both
/// rules present.
pub proof fn lemma_insert_distinct_commutes(
    m: Map<Seq<char>, InterceptAction>,
    p1: Seq<char>,
    a1: InterceptAction,
    p2: Seq<char>,
    a2: InterceptAction,
)
    requires
        p1 != p2,
    ensures
        m.insert(p1, a1).insert(p2, a2) == m.insert(p2, a2).insert(p1, a1),
        m.insert(p1, a1).insert(p2, a2).dom().contains(p1),
        m.insert(p1, a1).insert(p2, a2).dom().contains(p2),
        m.insert(p1, a1).insert(p2, a2)[p1] == a1,
        m.insert(p1, a1).insert(p2, a2)[p2] == a2,
{
    assert(m.insert(p1, a1).insert(p2, a2) =~= m.insert(p2, a2).insert(p1, a1));
}

/// The invariant of the lookup scan after all boundary positions below `i`
/// have been consulted: a current best hit accounts for every stored pattern
/// shorter than `i` that segment-prefixes `q`, and a current miss means no
/// stored pattern shorter than `i` segment-prefixes `q`.
spec fn scan_inv(
    m: Map<Seq<char>, InterceptAction>,
    q: Seq<char>,
    best: Option<InterceptAction>,
    best_pat: Seq<char>,
    i: int,
) -> bool {
    match best {
        Some(a) => {
            &&& m.dom().contains(best_pat)
            &&& is_seg_prefix(best_pat, q)
            &&& m[best_pat] == a
            &&& forall|o: Seq<char>|
                m.dom().contains(o) && #[trigger] is_seg_prefix(o, q) && o.len() < i ==> o.len()
                    <= best_pat.len()
        },
        None => forall|o: Seq<char>|
            m.dom().contains(o) && #[trigger] is_seg_prefix(o, q) ==> o.len() >= i,
    }
}

} // verus!
