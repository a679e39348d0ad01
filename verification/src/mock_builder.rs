//! A builder for a mock described by its request line and header fields.
use crate::text::owned;
use vstd::prelude::*;

verus! {

/// The fields of a mock's request, keyed by name: later values replace
/// earlier ones.
pub struct MockBuilder {
    request_line: String,
    headers: Vec<(String, String)>,
    response: Option<String>,
}

/// The plain value of a `MockBuilder`.
pub struct MockBuilderView {
    pub request_line: Seq<char>,
    pub headers: Map<Seq<char>, Seq<char>>,
    pub response: Option<Seq<char>>,
}

/// The map of a list of pairs whose keys are distinct.
pub open spec fn pairs_map(pairs: Seq<(Seq<char>, Seq<char>)>) -> Map<Seq<char>, Seq<char>>
    decreases pairs.len(),
{
    if pairs.len() == 0 {
        Map::empty()
    } else {
        pairs_map(pairs.drop_last()).insert(pairs.last().0, pairs.last().1)
    }
}

impl View for MockBuilder {
    type V = MockBuilderView;

    closed spec fn view(&self) -> MockBuilderView {
        MockBuilderView {
            request_line: self.request_line@,
            headers: pairs_map(crate::request::fields_view(self.headers@)),
            response: match self.response {
                Some(r) => Some(r@),
                None => None,
            },
        }
    }
}

impl MockBuilder {
    /// Whether the header names are distinct.
    pub closed spec fn wf(&self) -> bool {
        forall|i: int, j: int|
            0 <= i < j < self.headers@.len() ==> #[trigger] self.headers@[i].0@ != #[trigger] self.headers@[j].0@
    }

    /// A builder for `request_line`, with no header and no response.
    pub fn new(request_line: &str) -> (r: MockBuilder)
        ensures
            r.wf(),
            r@.request_line == request_line@,
            r@.headers == Map::<Seq<char>, Seq<char>>::empty(),
            r@.response is None,
    {
        MockBuilder { request_line: owned(request_line), headers: Vec::new(), response: None }
    }

    /// Sets the header `field` to `value`, replacing an earlier value.
    pub fn header(&mut self, field: &str, value: &str) -> (r: &mut MockBuilder)
        requires
            old(self).wf(),
        ensures
            r.wf(),
            r@.request_line == old(self)@.request_line,
            r@.headers == old(self)@.headers.insert(field@, value@),
            r@.response == old(self)@.response,
            *final(self) == *final(r),
    {
        let ghost fv = crate::request::fields_view(self.headers@);
        let mut i: usize = 0;
        while i < self.headers.len()
            invariant
                fv == crate::request::fields_view(self.headers@),
                *self == *old(self),
                old(self).wf(),
                i <= self.headers@.len(),
                forall|j: int| 0 <= j < i ==> fv[j].0 != field@,
            decreases self.headers@.len() - i,
        {
            if crate::text::str_eq(self.headers[i].0.as_str(), field) {
                let old_pair = self.headers.remove(i);
                self.headers.insert(i, (old_pair.0, owned(value)));
                proof {
                    let nv = crate::request::fields_view(self.headers@);
                    assert(nv =~= fv.update(i as int, (fv[i as int].0, value@)));
                    assert forall|a: int, b: int| 0 <= a < b < fv.len() implies #[trigger] fv[a].0 != #[trigger] fv[b].0 by {
                        assert(fv[a].0 == old(self).headers@[a].0@);
                        assert(fv[b].0 == old(self).headers@[b].0@);
                    }
                    lemma_map_replace(fv, nv, i as int, value@);
                    assert forall|a: int, b: int| 0 <= a < b < self.headers@.len() implies #[trigger] self.headers@[a].0@
                        != #[trigger] self.headers@[b].0@ by {
                        assert(self.headers@[a].0@ == fv[a].0);
                        assert(self.headers@[b].0@ == fv[b].0);
                    }
                }
                return self;
            }
            i = i + 1;
        }
        let ghost before = self.headers@;
        self.headers.push((owned(field), owned(value)));
        proof {
            let nv = crate::request::fields_view(self.headers@);
            assert(nv.drop_last() =~= fv);
            assert(nv.last() == (field@, value@));
            assert forall|a: int, b: int| 0 <= a < b < self.headers@.len() implies #[trigger] self.headers@[a].0@
                != #[trigger] self.headers@[b].0@ by {
                if b == self.headers@.len() - 1 {
                    assert(fv[a].0 != field@);
                    assert(self.headers@[a].0@ == fv[a].0);
                } else {
                    assert(self.headers@[a] == before[a]);
                    assert(self.headers@[b] == before[b]);
                }
            }
        }
        self
    }

    /// The request line.
    pub fn request_line(&self) -> (r: &str)
        ensures
            r@ == self@.request_line,
    {
        self.request_line.as_str()
    }

    /// The header fields, each name once, in the order in which they were
    /// first set.
    pub fn headers(&self) -> (r: &Vec<(String, String)>)
        requires
            self.wf(),
        ensures
            pairs_map(crate::request::fields_view(r@)) == self@.headers,
            forall|i: int, j: int| 0 <= i < j < r@.len() ==> #[trigger] r@[i].0@ != #[trigger] r@[j].0@,
    {
        &self.headers
    }

    /// The builder itself, for chaining.
    pub fn with(&mut self) -> (r: &mut MockBuilder)
        ensures
            *r == *old(self),
            *final(self) == *final(r),
    {
        self
    }
}

/// Replacing the value of the pair at `i` is inserting its key with the
/// new value, where keys are distinct.
proof fn lemma_map_replace(
    old_pairs: Seq<(Seq<char>, Seq<char>)>,
    new_pairs: Seq<(Seq<char>, Seq<char>)>,
    i: int,
    value: Seq<char>,
)
    requires
        0 <= i < old_pairs.len(),
        new_pairs == old_pairs.update(i, (old_pairs[i].0, value)),
        forall|a: int, b: int| 0 <= a < b < old_pairs.len() ==> #[trigger] old_pairs[a].0 != #[trigger] old_pairs[b].0,
    ensures
        pairs_map(new_pairs) == pairs_map(old_pairs).insert(old_pairs[i].0, value),
    decreases old_pairs.len(),
{
    let n = old_pairs.len() as int;
    let k = old_pairs[i].0;
    if i == n - 1 {
        assert(new_pairs.drop_last() =~= old_pairs.drop_last());
        assert(pairs_map(new_pairs) =~= pairs_map(old_pairs).insert(k, value));
    } else {
        let od = old_pairs.drop_last();
        let nd = new_pairs.drop_last();
        assert(nd =~= od.update(i, (od[i].0, value)));
        lemma_map_replace(od, nd, i, value);
        assert(new_pairs.last() == old_pairs.last());
        assert(old_pairs.last().0 != k);
        assert(pairs_map(new_pairs) =~= pairs_map(old_pairs).insert(k, value));
    }
}

} // verus!
