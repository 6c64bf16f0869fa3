//! What the language servers have been told: which servers were
//! initialized, and which documents are open with which version.
use vstd::prelude::*;
use crate::editor::language::string_is;

verus! {

/// The characters of each string.
pub open spec fn names_view(v: Seq<String>) -> Seq<Seq<char>> {
    v.map_values(|s: String| s@)
}

/// The open documents as (URI, version) pairs.
pub open spec fn docs_view(v: Seq<(String, i32)>) -> Seq<(Seq<char>, i32)> {
    v.map_values(|d: (String, i32)| (d.0@, d.1))
}

/// The version a URI has among open documents, if it is open.
pub open spec fn version_in(docs: Seq<(Seq<char>, i32)>, uri: Seq<char>) -> Option<i32>
    decreases docs.len(),
{
    if docs.len() == 0 {
        None
    } else if docs.last().0 == uri {
        Some(docs.last().1)
    } else {
        version_in(docs.drop_last(), uri)
    }
}

/// The servers that were initialized and the documents they were told of.
pub struct LspDocuments {
    pub initialized: Vec<String>,
    pub open: Vec<(String, i32)>,
}

impl LspDocuments {
    /// The initialized server commands.
    pub open spec fn servers(&self) -> Seq<Seq<char>> {
        names_view(self.initialized@)
    }

    /// The open documents with their versions.
    pub open spec fn docs(&self) -> Seq<(Seq<char>, i32)> {
        docs_view(self.open@)
    }

    /// Nothing initialized and nothing open.
    pub fn new() -> (d: Self)
        ensures
            d.servers().len() == 0,
            d.docs().len() == 0,
    {
        LspDocuments { initialized: Vec::new(), open: Vec::new() }
    }

    /// Where the document at `uri` is recorded: the last entry for it.
    fn index_of(&self, uri: &str) -> (r: Option<usize>)
        ensures
            match r {
                Some(k) => k < self.open.len() && self.docs()[k as int].0 == uri@ && forall|j: int|
                    k < j < self.open.len() ==> #[trigger] self.docs()[j].0 != uri@,
                None => forall|j: int| 0 <= j < self.open.len() ==> #[trigger] self.docs()[j].0 != uri@,
            },
    {
        let mut i: usize = self.open.len();
        while i > 0
            invariant
                i <= self.open.len(),
                self.docs().len() == self.open.len(),
                forall|j: int| i <= j < self.open.len() ==> #[trigger] self.docs()[j].0 != uri@,
            decreases i,
        {
            assert(self.docs()[i - 1] == (self.open@[i - 1].0@, self.open@[i - 1].1));
            if string_is(&self.open[i - 1].0, uri) {
                return Some(i - 1);
            }
            i -= 1;
        }
        None
    }

    /// The version of the document at `uri`, if the servers were told it
    /// is open.
    pub fn version_of(&self, uri: &str) -> (r: Option<i32>)
        ensures
            r == version_in(self.docs(), uri@),
    {
        match self.index_of(uri) {
            Some(k) => {
                proof {
                    lemma_version_at(self.docs(), uri@, k as int);
                }
                Some(self.open[k].1)
            },
            None => {
                proof {
                    lemma_version_none(self.docs(), uri@);
                }
                None
            },
        }
    }

    /// Record that the document at `uri` was opened on the server
    /// `server`, at version 1. Returns whether the server still has to be
    /// initialized first (it had not been before); it counts as
    /// initialized from now on.
    pub fn opened(&mut self, uri: String, server: String) -> (needs_init: bool)
        ensures
            needs_init == !old(self).servers().contains(server@),
            final(self).servers() == if needs_init {
                old(self).servers().push(server@)
            } else {
                old(self).servers()
            },
            final(self).docs() == old(self).docs().push((uri@, 1i32)),
    {
        let ghost s0 = self.servers();
        let mut found = false;
        let mut i: usize = 0;
        while i < self.initialized.len()
            invariant
                i <= self.initialized.len(),
                s0 == self.servers(),
                s0.len() == self.initialized.len(),
                found == exists|k: int| 0 <= k < i && #[trigger] s0[k] == server@,
            decreases self.initialized.len() - i,
        {
            assert(s0[i as int] == self.initialized@[i as int]@);
            if string_is(&self.initialized[i], server.as_str()) {
                found = true;
            }
            i += 1;
        }
        let ghost d0 = self.docs();
        let ghost sv = server@;
        let ghost uv = uri@;
        if !found {
            self.initialized.push(server);
            assert(self.servers() =~= s0.push(sv));
        }
        self.open.push((uri, 1));
        assert(self.docs() =~= d0.push((uv, 1i32)));
        !found
    }

    /// Count a change of the open document at `uri`: its version goes up
    /// by one and is returned; `None`, with nothing changed, when it is
    /// not open.
    pub fn changed(&mut self, uri: &str) -> (r: Option<i32>)
        requires
            match version_in(old(self).docs(), uri@) {
                Some(v) => v < i32::MAX,
                None => true,
            },
        ensures
            final(self).servers() == old(self).servers(),
            final(self).docs().len() == old(self).docs().len(),
            match version_in(old(self).docs(), uri@) {
                Some(v) => r == Some((v + 1) as i32) && version_in(final(self).docs(), uri@) == r,
                None => r is None && final(self).docs() == old(self).docs(),
            },
    {
        match self.index_of(uri) {
            Some(k) => {
                let ghost d0 = self.docs();
                proof {
                    lemma_version_at(d0, uri@, k as int);
                }
                let next = self.open[k].1 + 1;
                self.open.set(k, (uri.to_owned(), next));
                assert(self.docs() =~= d0.update(k as int, (uri@, next)));
                proof {
                    lemma_version_at(self.docs(), uri@, k as int);
                }
                Some(next)
            },
            None => {
                proof {
                    lemma_version_none(self.docs(), uri@);
                }
                None
            },
        }
    }

}

proof fn lemma_version_at(docs: Seq<(Seq<char>, i32)>, uri: Seq<char>, k: int)
    requires
        0 <= k < docs.len(),
        docs[k].0 == uri,
        forall|j: int| k < j < docs.len() ==> #[trigger] docs[j].0 != uri,
    ensures
        version_in(docs, uri) == Some(docs[k].1),
    decreases docs.len(),
{
    if k < docs.len() - 1 {
        assert(docs.last() == docs[docs.len() - 1]);
        lemma_version_at(docs.drop_last(), uri, k);
    }
}

proof fn lemma_version_none(docs: Seq<(Seq<char>, i32)>, uri: Seq<char>)
    requires
        forall|j: int| 0 <= j < docs.len() ==> #[trigger] docs[j].0 != uri,
    ensures
        version_in(docs, uri) is None,
    decreases docs.len(),
{
    if docs.len() > 0 {
        assert(docs.last() == docs[docs.len() - 1]);
        lemma_version_none(docs.drop_last(), uri);
    }
}

} // verus!
