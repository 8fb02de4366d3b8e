//! Decoded path parameters attached to one request.

use vstd::prelude::*;

verus! {

/// The mapping described by an association list, later entries winning.
pub open spec fn list_map<K, V>(s: Seq<(K, V)>) -> Map<K, V>
    decreases s.len(),
{
    if s.len() == 0 {
        Map::empty()
    } else {
        list_map(s.drop_last()).insert(s.last().0, s.last().1)
    }
}

/// Whether an association list holds each key at most once.
pub open spec fn list_keys_unique<K, V>(s: Seq<(K, V)>) -> bool {
    forall|i: int, j: int| 0 <= i < j < s.len() ==> (#[trigger] s[i]).0 != (#[trigger] s[j]).0
}

/// A key is in the mapping exactly when some list entry carries it.
pub proof fn lemma_list_map_dom<K, V>(s: Seq<(K, V)>, k: K)
    ensures
        list_map(s).dom().contains(k) <==> exists|i: int|
            0 <= i < s.len() && (#[trigger] s[i]).0 == k,
    decreases s.len(),
{
    if s.len() > 0 {
        lemma_list_map_dom(s.drop_last(), k);
        if s.last().0 == k {
            assert((#[trigger] s[s.len() - 1]).0 == k);
        } else {
            if exists|i: int| 0 <= i < s.drop_last().len() && (#[trigger] s.drop_last()[i]).0
                == k {
                let i = choose|i: int|
                    0 <= i < s.drop_last().len() && (#[trigger] s.drop_last()[i]).0 == k;
                assert((#[trigger] s[i]).0 == k);
            }
            if exists|i: int| 0 <= i < s.len() && (#[trigger] s[i]).0 == k {
                let i = choose|i: int| 0 <= i < s.len() && (#[trigger] s[i]).0 == k;
                assert((#[trigger] s.drop_last()[i]).0 == k);
            }
        }
    }
}

/// With unique keys, the mapping sends each listed key to its listed value.
pub proof fn lemma_list_map_value<K, V>(s: Seq<(K, V)>, i: int)
    requires
        list_keys_unique(s),
        0 <= i < s.len(),
    ensures
        list_map(s).dom().contains(s[i].0),
        list_map(s)[s[i].0] == s[i].1,
    decreases s.len(),
{
    if i == s.len() - 1 {
    } else {
        assert(s[i].0 != s.last().0);
        assert(forall|a: int, b: int|
            0 <= a < b < s.drop_last().len() ==> (#[trigger] s.drop_last()[a]).0 != (
            #[trigger] s.drop_last()[b]).0);
        lemma_list_map_value(s.drop_last(), i);
    }
}

/// Replacing the value at one entry acts on the mapping as an insert of that
/// entry's key.
pub proof fn lemma_list_map_update<K, V>(s: Seq<(K, V)>, i: int, v: V)
    requires
        list_keys_unique(s),
        0 <= i < s.len(),
    ensures
        list_map(s.update(i, (s[i].0, v))) == list_map(s).insert(s[i].0, v),
    decreases s.len(),
{
    let k = s[i].0;
    let t = s.update(i, (k, v));
    if i == s.len() - 1 {
        assert(t.drop_last() =~= s.drop_last());
        assert(list_map(s.drop_last()).insert(s.last().0, s.last().1).insert(k, v)
            =~= list_map(s.drop_last()).insert(k, v));
    } else {
        assert(t.drop_last() =~= s.drop_last().update(i, (k, v)));
        assert(forall|a: int, b: int|
            0 <= a < b < s.drop_last().len() ==> (#[trigger] s.drop_last()[a]).0 != (
            #[trigger] s.drop_last()[b]).0);
        assert(s.drop_last()[i].0 == k);
        lemma_list_map_update(s.drop_last(), i, v);
        assert(t.last() == s.last());
        assert(k != s.last().0);
        assert(list_map(s.drop_last()).insert(k, v).insert(s.last().0, s.last().1)
            =~= list_map(s.drop_last()).insert(s.last().0, s.last().1).insert(k, v));
    }
}

/// The views of a list of owned text pairs.
pub open spec fn kv_views(s: Seq<(String, String)>) -> Seq<(Seq<char>, Seq<char>)> {
    Seq::new(s.len(), |i: int| (s[i].0@, s[i].1@))
}

/// A per-request mapping from parameter name to percent-decoded value.
#[derive(Debug)]
pub struct RouteParams(pub(crate) Vec<(String, String)>);

impl View for RouteParams {
    type V = Map<Seq<char>, Seq<char>>;

    closed spec fn view(&self) -> Map<Seq<char>, Seq<char>> {
        list_map(kv_views(self.0@))
    }
}

impl RouteParams {
    /// Internal consistency: each parameter name appears at most once.
    pub closed spec fn wf(self) -> bool {
        list_keys_unique(kv_views(self.0@))
    }

    /// Wraps an association list of decoded parameters.
    pub(crate) fn from_pairs(pairs: Vec<(String, String)>) -> (r: RouteParams)
        ensures
            r@ == list_map(kv_views(pairs@)),
            r.wf() == list_keys_unique(kv_views(pairs@)),
    {
        RouteParams(pairs)
    }

    /// Looks a decoded parameter value up by name.
    #[verifier::loop_isolation(false)]
    pub fn get<'a>(&'a self, param: &str) -> (r: Option<&'a str>)
        requires
            self.wf(),
        ensures
            match r {
                Some(v) => self@.dom().contains(param@) && v@ == self@[param@],
                None => !self@.dom().contains(param@),
            },
    {
        let key: String = param.to_owned();
        let n = self.0.len();
        let ghost views = kv_views(self.0@);
        let mut idx: usize = n;
        for i in 0..n
            invariant
                idx <= n,
                idx == n ==> forall|j: int| 0 <= j < i ==> (#[trigger] views[j]).0 != param@,
                idx < n ==> views[idx as int].0 == param@,
        {
            proof {
                assert(views[i as int] == (self.0@[i as int].0@, self.0@[i as int].1@));
            }
            if idx == n && self.0[i].0 == key {
                idx = i;
            }
        }
        if idx < n {
            proof {
                lemma_list_map_value(views, idx as int);
            }
            Some(self.0[idx].1.as_str())
        } else {
            proof {
                lemma_list_map_dom(views, param@);
            }
            None
        }
    }
}

} // verus!
