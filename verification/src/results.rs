//! The result set: the deduplicated collection of canonical module
//! identifiers, and the github presentation filter over it.

use vstd::prelude::*;
use vstd::string::*;

use crate::text::has_prefix;
use crate::text::starts_with_str;

verus! {

/// A set of canonical module identifiers. Insertion deduplicates; the order
/// of the underlying storage is immaterial to the model, which is the set of
/// identifier texts.
pub struct ResultSet {
    items: Vec<String>,
}

impl View for ResultSet {
    type V = Set<Seq<char>>;

    closed spec fn view(&self) -> Set<Seq<char>> {
        self.items.deep_view().to_set()
    }
}

impl ResultSet {
    /// The uniqueness invariant: no identifier is stored twice.
    pub closed spec fn wf(&self) -> bool {
        self.items.deep_view().no_duplicates()
    }

    /// Returns the empty set.
    pub fn new() -> (r: ResultSet)
        ensures
            r.wf(),
            r@ == Set::<Seq<char>>::empty(),
    {
        let r = ResultSet { items: Vec::new() };
        proof {
            assert(r.items.deep_view() =~= Seq::<Seq<char>>::empty());
            assert(r@ =~= Set::<Seq<char>>::empty());
        }
        r
    }

    /// Returns whether `id` is in the set.
    pub fn contains(&self, id: &String) -> (r: bool)
        ensures
            r == self@.contains(id@),
    {
        let ghost dv = self.items.deep_view();
        let mut k: usize = 0;
        while k < self.items.len()
            invariant
                dv == self.items.deep_view(),
                dv.len() == self.items@.len(),
                0 <= k <= self.items@.len(),
                forall|t: int| 0 <= t < k ==> dv[t] != id@,
            decreases self.items@.len() - k,
        {
            if self.items[k] == *id {
                proof {
                    assert(dv[k as int] == id@);
                    assert(dv.contains(id@));
                }
                return true;
            }
            k = k + 1;
        }
        proof {
            if dv.contains(id@) {
                let t = choose|t: int| 0 <= t < dv.len() && dv[t] == id@;
                assert(dv[t] != id@);
            }
        }
        false
    }

    /// Adds `id` to the set; adding an identifier already present leaves the
    /// set as it was.
    pub fn insert(&mut self, id: String)
        requires
            old(self).wf(),
        ensures
            final(self).wf(),
            final(self)@ == old(self)@.insert(id@),
    {
        let ghost dv = self.items.deep_view();
        if !self.contains(&id) {
            self.items.push(id);
            proof {
                assert(self.items.deep_view() =~= dv.push(id@));
                dv.lemma_push_to_set_commute(id@);
                assert(forall|i: int, j: int|
                    0 <= i < j < dv.push(id@).len() ==> dv.push(id@)[i] != dv.push(id@)[j]) by {
                    assert(forall|i: int| 0 <= i < dv.len() ==> dv.push(id@)[i] == dv[i]);
                    assert(!dv.contains(id@));
                }
            }
        } else {
            proof {
                assert(old(self)@.insert(id@) =~= old(self)@);
            }
        }
    }

    /// The number of identifiers held.
    pub fn len(&self) -> (r: usize)
        requires
            self.wf(),
        ensures
            r == self@.len(),
    {
        proof {
            self.items.deep_view().unique_seq_to_set();
            assert(self.items.deep_view().len() == self.items@.len());
        }
        self.items.len()
    }

    /// Hands the identifiers out as a list, one entry per member of the set.
    pub fn into_items(self) -> (r: Vec<String>)
        requires
            self.wf(),
        ensures
            r.deep_view().no_duplicates(),
            r.deep_view().to_set() == self@,
    {
        self.items
    }
}

/// Two successful resolutions of the same identifier add it once: inserting
/// it a second time leaves the set unchanged, and the identifier is in the
/// set after either insertion.
pub proof fn lemma_insert_idempotent(s: Set<Seq<char>>, x: Seq<char>)
    ensures
        s.insert(x).insert(x) == s.insert(x),
        s.insert(x).contains(x),
{
    assert(s.insert(x).insert(x) =~= s.insert(x));
}

/// The host prefix the github presentation mode keeps.
pub fn github_prefix() -> (s: &'static str)
    ensures
        s@ == "github.com/"@,
{
    "github.com/"
}

/// Whether an identifier belongs to the github presentation.
pub open spec fn is_github(s: Seq<char>) -> bool {
    has_prefix(s, "github.com/"@)
}

/// The identifier with the github host prefix stripped.
pub open spec fn github_suffix(s: Seq<char>) -> Seq<char> {
    s.skip("github.com/"@.len() as int)
}

/// Whether `x` is the stripped form of some github member of `s`.
pub open spec fn from_github_member(s: Set<Seq<char>>, x: Seq<char>) -> bool {
    exists|t: Seq<char>| s.contains(t) && is_github(t) && x == github_suffix(t)
}

/// The suffixes of the github identifiers among `ids`, in order.
spec fn github_suffixes(ids: Seq<Seq<char>>) -> Seq<Seq<char>>
    decreases ids.len(),
{
    if ids.len() == 0 {
        Seq::empty()
    } else {
        github_suffixes(ids.drop_last()) + (if is_github(ids.last()) {
            seq![github_suffix(ids.last())]
        } else {
            Seq::<Seq<char>>::empty()
        })
    }
}

/// Two github identifiers with the same suffix are the same identifier: the
/// stripped prefix is the same fixed text on both.
proof fn lemma_github_suffix_injective(a: Seq<char>, b: Seq<char>)
    requires
        is_github(a),
        is_github(b),
        github_suffix(a) == github_suffix(b),
    ensures
        a == b,
{
    let p = "github.com/"@;
    assert(a =~= a.subrange(0, p.len() as int) + github_suffix(a));
    assert(b =~= b.subrange(0, p.len() as int) + github_suffix(b));
    assert(a.subrange(0, p.len() as int) == p);
    assert(b.subrange(0, p.len() as int) == p);
}

proof fn lemma_github_suffixes_membership(ids: Seq<Seq<char>>)
    ensures
        forall|t: Seq<char>|
            ids.contains(t) && is_github(t) ==> #[trigger] github_suffixes(ids).contains(
                github_suffix(t),
            ),
        forall|j: int|
            0 <= j < github_suffixes(ids).len() ==> from_github_member(
                ids.to_set(),
                #[trigger] github_suffixes(ids)[j],
            ),
    decreases ids.len(),
{
    if ids.len() > 0 {
        let head = ids.drop_last();
        let last = ids.last();
        lemma_github_suffixes_membership(head);
        let hs = github_suffixes(head);
        let s = github_suffixes(ids);
        assert(forall|i: int| 0 <= i < head.len() ==> head[i] == ids[i]);
        assert(forall|j: int| 0 <= j < hs.len() ==> s[j] == hs[j]);
        assert(s.len() == hs.len() + (if is_github(last) {
            1int
        } else {
            0int
        }));
        assert forall|t: Seq<char>| ids.contains(t) && is_github(t) implies #[trigger] s.contains(
            github_suffix(t),
        ) by {
            if t == last {
                assert(s[s.len() - 1] == github_suffix(t));
            } else {
                let i = choose|i: int| 0 <= i < ids.len() && ids[i] == t;
                assert(head[i] == t);
                assert(head.contains(t));
                assert(hs.contains(github_suffix(t)));
                let j = choose|j: int| 0 <= j < hs.len() && hs[j] == github_suffix(t);
                assert(s[j] == github_suffix(t));
            }
        }
        assert forall|j: int| 0 <= j < s.len() implies from_github_member(
            ids.to_set(),
            #[trigger] s[j],
        ) by {
            if j < hs.len() {
                assert(from_github_member(head.to_set(), hs[j]));
                let t = choose|t: Seq<char>|
                    head.to_set().contains(t) && is_github(t) && hs[j] == github_suffix(t);
                let i = choose|i: int| 0 <= i < head.len() && head[i] == t;
                assert(ids[i] == t);
                assert(ids.contains(t));
                assert(ids.to_set().contains(t));
                assert(s[j] == github_suffix(t));
            } else {
                assert(is_github(last));
                assert(ids[ids.len() - 1] == last);
                assert(ids.contains(last));
                assert(ids.to_set().contains(last));
                assert(s[j] == github_suffix(last));
            }
        }
    }
}

proof fn lemma_github_suffixes_no_duplicates(ids: Seq<Seq<char>>)
    requires
        ids.no_duplicates(),
    ensures
        github_suffixes(ids).no_duplicates(),
    decreases ids.len(),
{
    if ids.len() > 0 {
        let head = ids.drop_last();
        let last = ids.last();
        assert(forall|i: int| 0 <= i < head.len() ==> head[i] == ids[i]);
        lemma_github_suffixes_no_duplicates(head);
        if is_github(last) {
            lemma_github_suffixes_membership(head);
            if github_suffixes(head).contains(github_suffix(last)) {
                let j = choose|j: int|
                    0 <= j < github_suffixes(head).len() && github_suffixes(head)[j]
                        == github_suffix(last);
                assert(from_github_member(head.to_set(), github_suffixes(head)[j]));
                let t = choose|t: Seq<char>|
                    head.to_set().contains(t) && is_github(t) && github_suffixes(head)[j]
                        == github_suffix(t);
                assert(head.contains(t));
                lemma_github_suffix_injective(t, last);
                let i = choose|i: int| 0 <= i < head.len() && head[i] == t;
                assert(ids[i] == ids[ids.len() - 1]);
                assert(false);
            }
            let s = github_suffixes(ids);
            assert(s =~= github_suffixes(head).push(github_suffix(last)));
            assert(forall|i: int, j: int| 0 <= i < j < s.len() ==> s[i] != s[j]) by {
                assert(forall|i: int|
                    0 <= i < github_suffixes(head).len() ==> s[i] == github_suffixes(head)[i]);
                assert(forall|i: int|
                    0 <= i < github_suffixes(head).len() ==> github_suffixes(head).contains(
                        github_suffixes(head)[i],
                    ));
            }
        }
    }
}

/// The github presentation of a result set: the members that start with the
/// github host prefix, each with that prefix stripped, and nothing else. The
/// output has no duplicate entries.
pub fn github_filter(rs: &ResultSet) -> (out: Vec<String>)
    requires
        rs.wf(),
    ensures
        out.deep_view().no_duplicates(),
        forall|t: Seq<char>|
            rs@.contains(t) && is_github(t) ==> #[trigger] out.deep_view().contains(
                github_suffix(t),
            ),
        forall|j: int|
            0 <= j < out.deep_view().len() ==> from_github_member(
                rs@,
                #[trigger] out.deep_view()[j],
            ),
{
    let ghost dv = rs.items.deep_view();
    proof {
        reveal_strlit("github.com/");
    }
    let mut out: Vec<String> = Vec::new();
    let mut k: usize = 0;
    while k < rs.items.len()
        invariant
            dv == rs.items.deep_view(),
            dv.len() == rs.items@.len(),
            0 <= k <= rs.items@.len(),
            "github.com/"@.len() == 11,
            out.deep_view() == github_suffixes(dv.subrange(0, k as int)),
        decreases rs.items@.len() - k,
    {
        let it: &String = &rs.items[k];
        let ghost prefix = dv.subrange(0, k as int);
        let ghost step = dv.subrange(0, k + 1);
        proof {
            assert(step.drop_last() =~= prefix);
            assert(step.last() == dv[k as int]);
            assert(dv[k as int] == it@);
        }
        if starts_with_str(it.as_str(), github_prefix()) {
            let n = it.as_str().unicode_len();
            let suffix = it.as_str().substring_char(11, n);
            let ghost before = out.deep_view();
            out.push(String::from_str(suffix));
            proof {
                assert(suffix@ == github_suffix(it@));
                assert(out.deep_view() =~= before.push(suffix@));
                assert(before.push(suffix@) =~= github_suffixes(prefix) + seq![github_suffix(it@)]);
            }
        }
        k = k + 1;
    }
    proof {
        assert(dv.subrange(0, rs.items@.len() as int) =~= dv);
        lemma_github_suffixes_membership(dv);
        lemma_github_suffixes_no_duplicates(dv);
        assert(rs@ == dv.to_set());
        assert(forall|t: Seq<char>| rs@.contains(t) <==> dv.contains(t));
    }
    out
}

} // verus!
