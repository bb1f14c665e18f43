//! Resolvers built from import tables and system-interface import sets,
//! composed so that a front resolver overrides a back one.
use crate::imports::{Export, ExportView, ImportKey, ImportTable};
use vstd::prelude::*;

verus! {

/// One source of imports.
#[derive(Debug)]
pub enum ImportSource {
    /// A table built from host declarations.
    Table(ImportTable),
    /// The import set of the system interface, held outside under this handle;
    /// lookups in it are made there.
    System(u64),
}

/// The mathematical content of an import source.
pub enum SourceView {
    Table(Map<ImportKey, ExportView>),
    System(u64),
}

impl View for ImportSource {
    type V = SourceView;

    open spec fn view(&self) -> SourceView {
        match self {
            ImportSource::Table(t) => SourceView::Table(t@),
            ImportSource::System(h) => SourceView::System(*h),
        }
    }
}

/// What a lookup from some source on gives.
#[derive(Debug)]
pub enum Resolution<'a> {
    /// The export found in a table.
    Found(&'a Export),
    /// The source at `source` is a system-interface import set with this
    /// handle: the lookup is to be made there, and continued after it on a miss.
    Delegated { handle: u64, source: usize },
    /// No source from the start on has the key.
    Missing,
}

/// The mathematical content of a resolution.
pub enum ResolutionView {
    Found(ExportView),
    Delegated { handle: u64, source: int },
    Missing,
}

impl<'a> View for Resolution<'a> {
    type V = ResolutionView;

    open spec fn view(&self) -> ResolutionView {
        match self {
            Resolution::Found(e) => ResolutionView::Found(e@),
            Resolution::Delegated { handle, source } => ResolutionView::Delegated {
                handle: *handle,
                source: *source as int,
            },
            Resolution::Missing => ResolutionView::Missing,
        }
    }
}

/// The lookup of `k` in `sources`, from `start` on: the first table that has
/// the key answers, and the first system-interface set is asked.
pub open spec fn resolve_from(sources: Seq<SourceView>, start: int, k: ImportKey) -> ResolutionView
    decreases sources.len() - start,
{
    if start < 0 || start >= sources.len() {
        ResolutionView::Missing
    } else {
        match sources[start] {
            SourceView::Table(m) => {
                if m.contains_key(k) {
                    ResolutionView::Found(m[k])
                } else {
                    resolve_from(sources, start + 1, k)
                }
            },
            SourceView::System(h) => ResolutionView::Delegated { handle: h, source: start },
        }
    }
}

/// A resolution in `sources` seen from a sequence that has `offset` more
/// sources in front.
pub open spec fn shifted(r: ResolutionView, offset: int) -> ResolutionView {
    match r {
        ResolutionView::Delegated { handle, source } => ResolutionView::Delegated {
            handle,
            source: source + offset,
        },
        _ => r,
    }
}

/// A resolver: its sources, front first.
#[derive(Debug)]
pub struct Imports {
    sources: Vec<ImportSource>,
}

impl View for Imports {
    type V = Seq<SourceView>;

    closed spec fn view(&self) -> Seq<SourceView> {
        self.sources@.map_values(|s: ImportSource| s@)
    }
}

impl Imports {
    /// The resolver of one import table.
    pub fn from_table(table: ImportTable) -> (r: Imports)
        ensures
            r@ == seq![SourceView::Table(table@)],
    {
        let ghost v = table@;
        let mut sources: Vec<ImportSource> = Vec::new();
        sources.push(ImportSource::Table(table));
        let r = Imports { sources };
        assert(r@ =~= seq![SourceView::Table(v)]);
        r
    }

    /// The resolver of the system-interface import set held under `handle`.
    pub fn from_system(handle: u64) -> (r: Imports)
        ensures
            r@ == seq![SourceView::System(handle)],
    {
        let mut sources: Vec<ImportSource> = Vec::new();
        sources.push(ImportSource::System(handle));
        let r = Imports { sources };
        assert(r@ =~= seq![SourceView::System(handle)]);
        r
    }

    /// The number of sources.
    pub fn len(&self) -> (r: usize)
        ensures
            r == self@.len(),
    {
        self.sources.len()
    }

    /// Looks up `namespace` and `name` from the source `start` on.
    pub fn resolve_from(&self, start: usize, namespace: &String, name: &String) -> (r: Resolution)
        ensures
            r@ == resolve_from(self@, start as int, (namespace@, name@)),
    {
        let ghost k = (namespace@, name@);
        let mut i: usize = start;
        while i < self.sources.len()
            invariant
                start <= i,
                k == (namespace@, name@),
                resolve_from(self@, start as int, k) == resolve_from(self@, i as int, k),
                self@.len() == self.sources@.len(),
            decreases self.sources.len() - i,
        {
            assert(self@[i as int] == self.sources@[i as int]@);
            match &self.sources[i] {
                ImportSource::Table(t) => {
                    match t.lookup(namespace, name) {
                        Some(e) => {
                            return Resolution::Found(e);
                        },
                        None => {},
                    }
                },
                ImportSource::System(h) => {
                    return Resolution::Delegated { handle: *h, source: i };
                },
            }
            i = i + 1;
        }
        Resolution::Missing
    }

    /// Looks up `namespace` and `name`.
    pub fn resolve(&self, namespace: &String, name: &String) -> (r: Resolution)
        ensures
            r@ == resolve_from(self@, 0, (namespace@, name@)),
    {
        self.resolve_from(0, namespace, name)
    }

    /// A copy of the source.
    fn duplicate_source(s: &ImportSource) -> (r: ImportSource)
        ensures
            r@ == s@,
    {
        match s {
            ImportSource::Table(t) => ImportSource::Table(t.duplicate()),
            ImportSource::System(h) => ImportSource::System(*h),
        }
    }

    /// The resolver that looks in `front` first and falls back to `back`;
    /// both stay as they are.
    pub fn chain(back: &Imports, front: &Imports) -> (r: Imports)
        ensures
            r@ == front@ + back@,
    {
        let mut sources: Vec<ImportSource> = Vec::new();
        let mut i: usize = 0;
        while i < front.sources.len()
            invariant
                i <= front.sources@.len(),
                sources@.len() == i,
                forall|x: int| 0 <= x < i ==> (#[trigger] sources@[x])@ == front@[x],
                front@.len() == front.sources@.len(),
            decreases front.sources.len() - i,
        {
            assert(front@[i as int] == front.sources@[i as int]@);
            sources.push(Self::duplicate_source(&front.sources[i]));
            i = i + 1;
        }
        let mut j: usize = 0;
        while j < back.sources.len()
            invariant
                j <= back.sources@.len(),
                sources@.len() == front@.len() + j,
                forall|x: int| 0 <= x < front@.len() ==> (#[trigger] sources@[x])@ == front@[x],
                forall|x: int| 0 <= x < j ==> (#[trigger] sources@[front@.len() + x])@ == back@[x],
                back@.len() == back.sources@.len(),
            decreases back.sources.len() - j,
        {
            assert(back@[j as int] == back.sources@[j as int]@);
            sources.push(Self::duplicate_source(&back.sources[j]));
            j = j + 1;
        }
        let r = Imports { sources };
        assert forall|x: int| 0 <= x < r@.len() implies r@[x] == (front@ + back@)[x] by {
            assert(r@[x] == r.sources@[x]@);
            if x >= front@.len() {
                assert(r.sources@[front@.len() + (x - front@.len())]@ == back@[x - front@.len()]);
            }
        }
        assert(r@ =~= front@ + back@);
        r
    }
}

/// In a chained resolver, a key that the front resolves is resolved as the
/// front resolves it, and a key that the front does not have is resolved as
/// the back resolves it.
pub proof fn lemma_front_overrides_back(back: Seq<SourceView>, front: Seq<SourceView>, k: ImportKey)
    ensures
        resolve_from(front + back, 0, k) == match resolve_from(front, 0, k) {
            ResolutionView::Missing => shifted(resolve_from(back, 0, k), front.len() as int),
            found => found,
        },
{
    lemma_chain_from(back, front, 0, k);
}

proof fn lemma_chain_from(back: Seq<SourceView>, front: Seq<SourceView>, start: int, k: ImportKey)
    requires
        0 <= start <= front.len(),
    ensures
        resolve_from(front + back, start, k) == match resolve_from(front, start, k) {
            ResolutionView::Missing => shifted(resolve_from(back, 0, k), front.len() as int),
            found => found,
        },
    decreases front.len() - start,
{
    if start < front.len() {
        assert((front + back)[start] == front[start]);
        lemma_chain_from(back, front, start + 1, k);
    } else {
        lemma_back_from(back, front, 0, k);
    }
}

proof fn lemma_back_from(back: Seq<SourceView>, front: Seq<SourceView>, start: int, k: ImportKey)
    requires
        0 <= start <= back.len(),
    ensures
        resolve_from(front + back, front.len() + start, k) == shifted(
            resolve_from(back, start, k),
            front.len() as int,
        ),
    decreases back.len() - start,
{
    if start < back.len() {
        assert((front + back)[front.len() + start] == back[start]);
        lemma_back_from(back, front, start + 1, k);
    }
}

} // verus!
