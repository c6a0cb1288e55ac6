use vstd::prelude::*;
use crate::projection::ProjectedResult;

verus! {

/// A described statement: its verbatim text and the result computed for it.
#[derive(Debug)]
pub struct CachedStatement {
    pub text: String,
    pub result: ProjectedResult,
}

/// Results of described statements, keyed by their verbatim text, so that a
/// later execution of a statement sees the rows that its description saw.
#[derive(Debug)]
pub struct StatementCache {
    entries: Vec<CachedStatement>,
}

impl StatementCache {
    /// No two entries share a text.
    pub closed spec fn wf(&self) -> bool {
        forall|i: int, j: int|
            0 <= i < self.entries@.len() && 0 <= j < self.entries@.len() && i != j
                ==> self.entries@[i].text@ != self.entries@[j].text@
    }

    pub closed spec fn has(&self, k: Seq<char>) -> bool {
        exists|i: int| 0 <= i < self.entries@.len() && self.entries@[i].text@ == k
    }

    /// The cached result of each statement text.
    pub closed spec fn view(&self) -> Map<Seq<char>, ProjectedResult> {
        Map::new(
            |k: Seq<char>| self.has(k),
            |k: Seq<char>|
                self.entries@[choose|i: int| 0 <= i < self.entries@.len() && self.entries@[i].text@ == k].result,
        )
    }

    proof fn lemma_at(&self, i: int)
        requires
            self.wf(),
            0 <= i < self.entries@.len(),
        ensures
            self@.contains_key(self.entries@[i].text@),
            self@[self.entries@[i].text@] == self.entries@[i].result,
    {
        let k = self.entries@[i].text@;
        assert(self.has(k));
        let j = choose|j: int| 0 <= j < self.entries@.len() && self.entries@[j].text@ == k;
        assert(j == i);
    }

    /// An empty cache.
    pub fn new() -> (r: StatementCache)
        ensures
            r.wf(),
            r@ == Map::<Seq<char>, ProjectedResult>::empty(),
    {
        let r = StatementCache { entries: Vec::new() };
        assert(r@ =~= Map::<Seq<char>, ProjectedResult>::empty());
        r
    }

    fn position(&self, text: &String) -> (r: Option<usize>)
        ensures
            match r {
                Some(i) => i < self.entries@.len() && self.entries@[i as int].text@ == text@,
                None => !self.has(text@),
            },
    {
        let mut i: usize = 0;
        while i < self.entries.len()
            invariant
                i <= self.entries@.len(),
                forall|k: int| 0 <= k < i ==> self.entries@[k].text@ != text@,
            decreases self.entries@.len() - i,
        {
            if self.entries[i].text == *text {
                return Some(i);
            }
            i = i + 1;
        }
        None
    }

    /// Records `result` for the statement `text`, replacing what was cached for it.
    pub fn put(&mut self, text: String, result: ProjectedResult)
        requires
            old(self).wf(),
        ensures
            final(self).wf(),
            final(self)@ == old(self)@.insert(text@, result),
    {
        let ghost k = text@;
        let ghost p = result;
        let ghost before = *self;
        match self.position(&text) {
            Some(i) => {
                self.entries.set(i, CachedStatement { text, result });
                proof {
                    assert(self.wf());
                    assert forall|key: Seq<char>| #[trigger] self@.contains_key(key)
                        == before@.insert(k, p).contains_key(key) by {
                        if self.has(key) {
                            let j = choose|j: int| 0 <= j < self.entries@.len() && self.entries@[j].text@ == key;
                            if j != i { assert(before.entries@[j] == self.entries@[j]); }
                        }
                        if before.has(key) {
                            let j = choose|j: int| 0 <= j < before.entries@.len() && before.entries@[j].text@ == key;
                            assert(self.entries@[j].text@ == key);
                        }
                    }
                    assert forall|key: Seq<char>| #[trigger] self@.contains_key(key) implies self@[key]
                        == before@.insert(k, p)[key] by {
                        let j = choose|j: int| 0 <= j < self.entries@.len() && self.entries@[j].text@ == key;
                        self.lemma_at(j);
                        if j != i {
                            before.lemma_at(j);
                        }
                    }
                    assert(self@ =~= before@.insert(k, p));
                }
            },
            None => {
                self.entries.push(CachedStatement { text, result });
                proof {
                    let n = before.entries@.len() as int;
                    assert(self.wf());
                    assert forall|key: Seq<char>| #[trigger] self@.contains_key(key)
                        == before@.insert(k, p).contains_key(key) by {
                        if self.has(key) {
                            let j = choose|j: int| 0 <= j < self.entries@.len() && self.entries@[j].text@ == key;
                            if j != n { assert(before.entries@[j] == self.entries@[j]); }
                        }
                        if before.has(key) {
                            let j = choose|j: int| 0 <= j < before.entries@.len() && before.entries@[j].text@ == key;
                            assert(self.entries@[j].text@ == key);
                        }
                        assert(self.entries@[n].text@ == k);
                    }
                    assert forall|key: Seq<char>| #[trigger] self@.contains_key(key) implies self@[key]
                        == before@.insert(k, p)[key] by {
                        let j = choose|j: int| 0 <= j < self.entries@.len() && self.entries@[j].text@ == key;
                        self.lemma_at(j);
                        if j != n {
                            before.lemma_at(j);
                        }
                    }
                    assert(self@ =~= before@.insert(k, p));
                }
            },
        }
    }

    /// The result cached for the statement `text`, if it was described.
    pub fn get(&self, text: &str) -> (r: Option<&ProjectedResult>)
        requires
            self.wf(),
        ensures
            r is Some <==> self@.contains_key(text@),
            r is Some ==> *r->Some_0 == self@[text@],
    {
        let key = text.to_owned();
        match self.position(&key) {
            Some(i) => {
                proof {
                    self.lemma_at(i as int);
                }
                Some(&self.entries[i].result)
            },
            None => {
                assert(!self@.contains_key(text@));
                None
            },
        }
    }
}

} // verus!
