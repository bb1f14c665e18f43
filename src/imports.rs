//! The import registry: host declarations turned into a table of exports
//! keyed by namespace and name, where a later declaration overrides an
//! earlier one under the same key.
use crate::exception::Error;
use crate::value::{tag_type, value_type_from_tag, ValueType};
use vstd::prelude::*;

verus! {

/// Size limits of a linear memory, in pages.
#[derive(Debug, Clone, Copy, PartialEq, Eq, Structural)]
pub struct MemoryType {
    pub minimum: u32,
    pub maximum: Option<u32>,
    pub shared: bool,
}

/// An import as the host declares it, with raw type tags and page counts.
#[derive(Debug)]
pub enum ImportDeclaration {
    /// A host function, with the tags of its parameter and result types and
    /// the handle of the host callback.
    Function {
        namespace: String,
        name: String,
        params: Vec<i32>,
        results: Vec<i32>,
        callback: u64,
    },
    /// A linear memory.
    Memory {
        namespace: String,
        name: String,
        min_pages: i32,
        max_pages: Option<i32>,
        shared: bool,
    },
}

/// A host function ready to be called through the boxed calling convention.
#[derive(Debug, PartialEq, Eq)]
pub struct FunctionImport {
    pub params: Vec<ValueType>,
    pub results: Vec<ValueType>,
    pub callback: u64,
}

/// What an import table holds under a key.
#[derive(Debug, PartialEq, Eq)]
pub enum Export {
    Function(FunctionImport),
    Memory(MemoryType),
}

/// The mathematical content of an export.
pub enum ExportView {
    Function { params: Seq<ValueType>, results: Seq<ValueType>, callback: u64 },
    Memory(MemoryType),
}

impl View for Export {
    type V = ExportView;

    open spec fn view(&self) -> ExportView {
        match self {
            Export::Function(f) => ExportView::Function {
                params: f.params@,
                results: f.results@,
                callback: f.callback,
            },
            Export::Memory(m) => ExportView::Memory(*m),
        }
    }
}

/// One declared import of a table.
#[derive(Debug, PartialEq, Eq)]
pub struct ImportEntry {
    pub namespace: String,
    pub name: String,
    pub export: Export,
}

/// A namespace and a name.
pub type ImportKey = (Seq<char>, Seq<char>);

/// The key of an entry.
pub open spec fn entry_key(e: ImportEntry) -> ImportKey {
    (e.namespace@, e.name@)
}

/// The exports that a sequence of entries makes reachable: each key maps to
/// the export of the last entry under it.
pub open spec fn exports_of(entries: Seq<ImportEntry>) -> Map<ImportKey, ExportView>
    decreases entries.len(),
{
    if entries.len() == 0 {
        Map::empty()
    } else {
        exports_of(entries.drop_last()).insert(entry_key(entries.last()), entries.last().export@)
    }
}

/// A memory import and its key.
pub type MemoryKey = (Seq<char>, Seq<char>, MemoryType);

/// The last memory entry of a sequence of entries, if any.
pub open spec fn last_memory(entries: Seq<ImportEntry>) -> Option<MemoryKey>
    decreases entries.len(),
{
    if entries.len() == 0 {
        None
    } else {
        match entries.last().export {
            Export::Memory(m) => Some((entries.last().namespace@, entries.last().name@, m)),
            Export::Function(_) => last_memory(entries.drop_last()),
        }
    }
}

/// The exports that a batch of declarations makes, in the order declared.
#[derive(Debug)]
pub struct ImportTable {
    entries: Vec<ImportEntry>,
}

impl View for ImportTable {
    type V = Map<ImportKey, ExportView>;

    open spec fn view(&self) -> Map<ImportKey, ExportView> {
        exports_of(self.spec_entries())
    }
}

impl ImportTable {
    /// The entries in the order they were added.
    pub closed spec fn spec_entries(&self) -> Seq<ImportEntry> {
        self.entries@
    }

    /// An empty table.
    pub fn new() -> (r: ImportTable)
        ensures
            r.spec_entries() == Seq::<ImportEntry>::empty(),
            r@ == Map::<ImportKey, ExportView>::empty(),
    {
        ImportTable { entries: Vec::new() }
    }

    /// Adds an entry; it overrides any earlier one under the same key.
    pub fn insert(&mut self, entry: ImportEntry)
        ensures
            final(self).spec_entries() == old(self).spec_entries().push(entry),
            final(self)@ == old(self)@.insert(entry_key(entry), entry.export@),
    {
        self.entries.push(entry);
        assert(self.entries@.drop_last() =~= old(self).entries@);
    }

    /// The entries in the order they were added.
    pub fn entries(&self) -> (r: &Vec<ImportEntry>)
        ensures
            r@ == self.spec_entries(),
    {
        &self.entries
    }

    /// The export reachable under `namespace` and `name`.
    pub fn lookup(&self, namespace: &String, name: &String) -> (r: Option<&Export>)
        ensures
            r is Some <==> self@.contains_key((namespace@, name@)),
            r matches Some(e) ==> e@ == self@[(namespace@, name@)],
    {
        let ghost k = (namespace@, name@);
        let mut i: usize = self.entries.len();
        assert(self.entries@.take(i as int) =~= self.entries@);
        while i > 0
            invariant
                i <= self.entries@.len(),
                k == (namespace@, name@),
                exports_of(self.entries@).contains_key(k) == exports_of(
                    self.entries@.take(i as int),
                ).contains_key(k),
                exports_of(self.entries@).contains_key(k) ==> exports_of(self.entries@)[k]
                    == exports_of(self.entries@.take(i as int))[k],
            decreases i,
        {
            let e = &self.entries[i - 1];
            let ghost pre = self.entries@.take(i as int);
            assert(pre.drop_last() =~= self.entries@.take(i - 1));
            assert(pre.last() == *e);
            assert(exports_of(pre) == exports_of(pre.drop_last()).insert(entry_key(*e), e.export@));
            let same_ns = e.namespace.eq(namespace);
            let same_name = e.name.eq(name);
            if same_ns && same_name {
                assert(entry_key(*e) == k);
                return Some(&e.export);
            }
            assert(entry_key(*e) != k);
            i = i - 1;
        }
        assert(self.entries@.take(0) =~= Seq::<ImportEntry>::empty());
        None
    }
}

/// The first tag of `tags` that names no value type, if any.
pub open spec fn first_unknown(tags: Seq<i32>) -> Option<i32>
    decreases tags.len(),
{
    if tags.len() == 0 {
        None
    } else if tag_type(tags[0]) is None {
        Some(tags[0])
    } else {
        first_unknown(tags.drop_first())
    }
}

/// The value types that `tags` name.
pub open spec fn tag_types(tags: Seq<i32>) -> Seq<ValueType> {
    tags.map_values(|t: i32| tag_type(t).unwrap())
}

/// The memory limits that a memory declaration asks for.
pub open spec fn declared_memory(min_pages: i32, max_pages: Option<i32>, shared: bool) -> MemoryType {
    MemoryType {
        minimum: min_pages as u32,
        maximum: match max_pages {
            Some(m) => Some(m as u32),
            None => None,
        },
        shared,
    }
}

/// Why a declaration cannot be registered, if it cannot.
pub open spec fn declaration_error(d: ImportDeclaration) -> Option<Error> {
    match d {
        ImportDeclaration::Function { params, results, .. } => match first_unknown(params@) {
            Some(t) => Some(Error::UnknownValueType(t)),
            None => match first_unknown(results@) {
                Some(t) => Some(Error::UnknownValueType(t)),
                None => None,
            },
        },
        ImportDeclaration::Memory { min_pages, max_pages, .. } => {
            if max_pages matches Some(m) && m < 0 {
                Some(Error::PageCountOutOfRange(max_pages.unwrap()))
            } else if min_pages < 0 {
                Some(Error::PageCountOutOfRange(min_pages))
            } else {
                None
            }
        },
    }
}

/// The key of a declaration.
pub open spec fn declaration_key(d: ImportDeclaration) -> ImportKey {
    match d {
        ImportDeclaration::Function { namespace, name, .. } => (namespace@, name@),
        ImportDeclaration::Memory { namespace, name, .. } => (namespace@, name@),
    }
}

/// The export that a valid declaration makes.
pub open spec fn declared_export(d: ImportDeclaration) -> ExportView {
    match d {
        ImportDeclaration::Function { params, results, callback, .. } => ExportView::Function {
            params: tag_types(params@),
            results: tag_types(results@),
            callback,
        },
        ImportDeclaration::Memory { min_pages, max_pages, shared, .. } => ExportView::Memory(
            declared_memory(min_pages, max_pages, shared),
        ),
    }
}

/// Whether `entries` are, one for one, what `decls` declare.
pub open spec fn built_from(entries: Seq<ImportEntry>, decls: Seq<ImportDeclaration>) -> bool {
    entries.len() == decls.len() && forall|i: int|
        0 <= i < decls.len() ==> entry_key(#[trigger] entries[i]) == declaration_key(decls[i])
            && entries[i].export@ == declared_export(decls[i])
}

/// Whether `decls[i]` is the first declaration that cannot be registered.
pub open spec fn is_first_invalid(decls: Seq<ImportDeclaration>, i: int) -> bool {
    0 <= i < decls.len() && declaration_error(decls[i]) is Some && forall|j: int|
        0 <= j < i ==> declaration_error(#[trigger] decls[j]) is None
}

/// Converts host type tags to value types; the first unknown tag is an error.
pub fn value_types_from_tags(tags: &Vec<i32>) -> (r: Result<Vec<ValueType>, Error>)
    ensures
        first_unknown(tags@) matches Some(t) ==> r == Err::<Vec<ValueType>, Error>(
            Error::UnknownValueType(t),
        ),
        first_unknown(tags@) is None ==> (r matches Ok(v) && v@ == tag_types(tags@)),
{
    let mut types: Vec<ValueType> = Vec::new();
    let mut i: usize = 0;
    assert(tags@.skip(0) =~= tags@);
    while i < tags.len()
        invariant
            i <= tags.len(),
            first_unknown(tags@) == first_unknown(tags@.skip(i as int)),
            types@ =~= tag_types(tags@).take(i as int),
        decreases tags.len() - i,
    {
        assert(tags@.skip(i as int).drop_first() =~= tags@.skip(i + 1));
        match value_type_from_tag(tags[i]) {
            Ok(t) => {
                types.push(t);
            },
            Err(e) => {
                return Err(e);
            },
        }
        i = i + 1;
    }
    assert(tags@.skip(i as int) =~= Seq::<i32>::empty());
    Ok(types)
}

/// Converts a host page count to an unsigned one; a negative count is an error.
pub fn page_count(count: i32) -> (r: Result<u32, Error>)
    ensures
        count >= 0 ==> r == Ok::<u32, Error>(count as u32),
        count < 0 ==> r == Err::<u32, Error>(Error::PageCountOutOfRange(count)),
{
    if count < 0 {
        Err(Error::PageCountOutOfRange(count))
    } else {
        Ok(count as u32)
    }
}

/// Whether an import of this name is a linear memory rather than a function.
pub fn is_memory_import(name: &String) -> (r: bool)
    ensures
        r == (name@ == "memory"@),
{
    let memory = <String as vstd::string::StringExecFns>::from_str("memory");
    name.eq(&memory)
}

/// Turns one declaration into a table entry.
pub fn entry_of_declaration(d: &ImportDeclaration) -> (r: Result<ImportEntry, Error>)
    ensures
        declaration_error(*d) matches Some(e) ==> r == Err::<ImportEntry, Error>(e),
        declaration_error(*d) is None ==> (r matches Ok(entry) && entry_key(entry)
            == declaration_key(*d) && entry.export@ == declared_export(*d)),
{
    match d {
        ImportDeclaration::Function { namespace, name, params, results, callback } => {
            let params = value_types_from_tags(params)?;
            let results = value_types_from_tags(results)?;
            Ok(
                ImportEntry {
                    namespace: namespace.clone(),
                    name: name.clone(),
                    export: Export::Function(
                        FunctionImport { params, results, callback: *callback },
                    ),
                },
            )
        },
        ImportDeclaration::Memory { namespace, name, min_pages, max_pages, shared } => {
            let maximum = match max_pages {
                Some(m) => Some(page_count(*m)?),
                None => None,
            };
            let minimum = page_count(*min_pages)?;
            Ok(
                ImportEntry {
                    namespace: namespace.clone(),
                    name: name.clone(),
                    export: Export::Memory(MemoryType { minimum, maximum, shared: *shared }),
                },
            )
        },
    }
}

/// Builds the import table of a batch of declarations, in order; the first
/// declaration that cannot be registered is reported as the error.
pub fn build_import_table(declarations: &Vec<ImportDeclaration>) -> (r: Result<ImportTable, Error>)
    ensures
        r is Ok <==> forall|i: int|
            0 <= i < declarations@.len() ==> declaration_error(#[trigger] declarations@[i]) is None,
        r matches Ok(t) ==> built_from(t.spec_entries(), declarations@),
        forall|i: int|
            is_first_invalid(declarations@, i) ==> r == Err::<ImportTable, Error>(
                declaration_error(declarations@[i]).unwrap(),
            ),
{
    let mut table = ImportTable::new();
    let mut i: usize = 0;
    while i < declarations.len()
        invariant
            i <= declarations@.len(),
            built_from(table.spec_entries(), declarations@.take(i as int)),
            forall|j: int| 0 <= j < i ==> declaration_error(#[trigger] declarations@[j]) is None,
        decreases declarations.len() - i,
    {
        match entry_of_declaration(&declarations[i]) {
            Ok(entry) => {
                table.insert(entry);
            },
            Err(e) => {
                proof {
                    assert forall|k: int| is_first_invalid(declarations@, k) implies k == i by {
                        if k > i {
                            assert(declaration_error(declarations@[i as int]) is None);
                        }
                    }
                }
                return Err(e);
            },
        }
        i = i + 1;
        assert(declarations@.take(i as int).drop_last() =~= declarations@.take(i - 1));
    }
    assert(declarations@.take(i as int) =~= declarations@);
    Ok(table)
}

/// The memory that host callbacks reach without it being handed to them.
#[derive(Debug, PartialEq, Eq)]
pub struct ImportedMemory {
    pub namespace: String,
    pub name: String,
    pub memory: MemoryType,
}

/// The key of the memory in a slot, if any.
pub open spec fn slot_key(slot: Option<ImportedMemory>) -> Option<MemoryKey> {
    match slot {
        Some(m) => Some((m.namespace@, m.name@, m.memory)),
        None => None,
    }
}

/// The ambient memory once a table's entries are registered: its last memory
/// import, or the one before where it has none.
pub open spec fn published(slot: Option<MemoryKey>, entries: Seq<ImportEntry>) -> Option<MemoryKey> {
    match last_memory(entries) {
        Some(m) => Some(m),
        None => slot,
    }
}

/// The key of the memory that a memory declaration makes.
pub open spec fn declared_memory_key(d: ImportDeclaration) -> MemoryKey
    recommends
        d is Memory,
{
    match d {
        ImportDeclaration::Memory { namespace, name, min_pages, max_pages, shared } => (
            namespace@,
            name@,
            declared_memory(min_pages, max_pages, shared),
        ),
        ImportDeclaration::Function { namespace, name, .. } => (
            namespace@,
            name@,
            declared_memory(0, None, false),
        ),
    }
}

impl ImportTable {
    /// The position of the table's last memory entry, which becomes the
    /// ambient memory.
    pub fn last_memory_index(&self) -> (r: Option<usize>)
        ensures
            r matches Some(i) ==> i < self.spec_entries().len() && last_memory(self.spec_entries())
                == Some(
                (
                    self.spec_entries()[i as int].namespace@,
                    self.spec_entries()[i as int].name@,
                    self.spec_entries()[i as int].export->Memory_0,
                ),
            ) && self.spec_entries()[i as int].export is Memory,
            r is None ==> last_memory(self.spec_entries()) is None,
    {
        let mut i: usize = self.entries.len();
        assert(self.entries@.take(i as int) =~= self.entries@);
        while i > 0
            invariant
                i <= self.entries@.len(),
                last_memory(self.entries@) == last_memory(self.entries@.take(i as int)),
            decreases i,
        {
            let e = &self.entries[i - 1];
            assert(self.entries@.take(i as int).drop_last() =~= self.entries@.take(i - 1));
            match &e.export {
                Export::Memory(_) => {
                    return Some(i - 1);
                },
                Export::Function(_) => {},
            }
            i = i - 1;
        }
        None
    }

    /// The last memory of the table, which becomes the ambient memory.
    pub fn imported_memory(&self) -> (r: Option<ImportedMemory>)
        ensures
            slot_key(r) == last_memory(self.spec_entries()),
    {
        match self.last_memory_index() {
            Some(i) => {
                let e = &self.entries[i];
                match &e.export {
                    Export::Memory(m) => Some(
                        ImportedMemory {
                            namespace: e.namespace.clone(),
                            name: e.name.clone(),
                            memory: *m,
                        },
                    ),
                    Export::Function(_) => None,
                }
            },
            None => None,
        }
    }
}

/// Makes the last memory of `table`, if it has one, the ambient memory.
pub fn publish_imported_memory(slot: &mut Option<ImportedMemory>, table: &ImportTable)
    ensures
        slot_key(*final(slot)) == published(slot_key(*old(slot)), table.spec_entries()),
{
    let latest = table.imported_memory();
    if latest.is_some() {
        *slot = latest;
    }
}

/// The last memory entry of a sequence is the one after which only functions follow.
proof fn lemma_last_memory_at(entries: Seq<ImportEntry>, i: int)
    requires
        0 <= i < entries.len(),
        entries[i].export is Memory,
        forall|j: int| i < j < entries.len() ==> (#[trigger] entries[j]).export is Function,
    ensures
        last_memory(entries) == Some(
            (entries[i].namespace@, entries[i].name@, entries[i].export->Memory_0),
        ),
    decreases entries.len(),
{
    if i < entries.len() - 1 {
        assert(entries.last().export is Function);
        lemma_last_memory_at(entries.drop_last(), i);
    }
}

/// Of two function declarations under one key, only the second is reachable
/// in the table built from them.
pub proof fn lemma_last_declaration_wins(entries: Seq<ImportEntry>, decls: Seq<ImportDeclaration>)
    requires
        decls.len() == 2,
        decls[0] is Function,
        decls[1] is Function,
        declaration_key(decls[0]) == declaration_key(decls[1]),
        built_from(entries, decls),
    ensures
        exports_of(entries).contains_key(declaration_key(decls[1])),
        exports_of(entries)[declaration_key(decls[1])] == declared_export(decls[1]),
{
    assert(entry_key(entries[1]) == declaration_key(decls[1]));
}

/// After a table with one memory import is registered, the ambient memory is
/// that memory; after a second such table, it is the second one's memory.
pub proof fn lemma_latest_memory_is_ambient(
    slot: Option<MemoryKey>,
    first_entries: Seq<ImportEntry>,
    first_decls: Seq<ImportDeclaration>,
    i: int,
    second_entries: Seq<ImportEntry>,
    second_decls: Seq<ImportDeclaration>,
    j: int,
)
    requires
        built_from(first_entries, first_decls),
        built_from(second_entries, second_decls),
        0 <= i < first_decls.len(),
        0 <= j < second_decls.len(),
        forall|k: int| 0 <= k < first_decls.len() ==> ((#[trigger] first_decls[k]) is Memory <==> k == i),
        forall|k: int| 0 <= k < second_decls.len() ==> ((#[trigger] second_decls[k]) is Memory <==> k == j),
    ensures
        published(slot, first_entries) == Some(declared_memory_key(first_decls[i])),
        published(published(slot, first_entries), second_entries) == Some(
            declared_memory_key(second_decls[j]),
        ),
{
    lemma_entries_follow_declarations(first_entries, first_decls);
    lemma_entries_follow_declarations(second_entries, second_decls);
    lemma_last_memory_at(first_entries, i);
    lemma_last_memory_at(second_entries, j);
}

/// An entry is a memory exactly where its declaration is.
proof fn lemma_entries_follow_declarations(entries: Seq<ImportEntry>, decls: Seq<ImportDeclaration>)
    requires
        built_from(entries, decls),
    ensures
        forall|k: int|
            0 <= k < decls.len() ==> ((#[trigger] entries[k]).export is Memory <==> decls[k] is Memory),
        forall|k: int|
            0 <= k < decls.len() && decls[k] is Memory ==> (entries[k].namespace@, entries[k].name@, (
            #[trigger] entries[k]).export->Memory_0) == declared_memory_key(decls[k]),
{
    assert forall|k: int| 0 <= k < decls.len() implies ((#[trigger] entries[k]).export is Memory
        <==> decls[k] is Memory) by {
        assert(entries[k].export@ == declared_export(decls[k]));
    }
    assert forall|k: int| 0 <= k < decls.len() && decls[k] is Memory implies (
    entries[k].namespace@,
    entries[k].name@,
    (#[trigger] entries[k]).export->Memory_0,
    ) == declared_memory_key(decls[k]) by {
        assert(entries[k].export@ == declared_export(decls[k]));
        assert(entry_key(entries[k]) == declaration_key(decls[k]));
    }
}

/// A copy of a list of value types.
fn copy_types(types: &Vec<ValueType>) -> (r: Vec<ValueType>)
    ensures
        r@ == types@,
{
    let mut r: Vec<ValueType> = Vec::new();
    let mut i: usize = 0;
    while i < types.len()
        invariant
            i <= types.len(),
            r@ =~= types@.take(i as int),
        decreases types.len() - i,
    {
        r.push(types[i]);
        i = i + 1;
    }
    r
}

impl Export {
    /// A copy of the export.
    pub fn duplicate(&self) -> (r: Export)
        ensures
            r@ == self@,
    {
        match self {
            Export::Function(f) => Export::Function(
                FunctionImport {
                    params: copy_types(&f.params),
                    results: copy_types(&f.results),
                    callback: f.callback,
                },
            ),
            Export::Memory(m) => Export::Memory(*m),
        }
    }
}

/// Entries with the same keys and exports, one for one, make the same exports.
proof fn lemma_exports_of_congruent(a: Seq<ImportEntry>, b: Seq<ImportEntry>)
    requires
        a.len() == b.len(),
        forall|i: int|
            0 <= i < a.len() ==> entry_key(#[trigger] a[i]) == entry_key(b[i]) && a[i].export@
                == b[i].export@,
    ensures
        exports_of(a) == exports_of(b),
    decreases a.len(),
{
    if a.len() > 0 {
        lemma_exports_of_congruent(a.drop_last(), b.drop_last());
    }
}

impl ImportTable {
    /// A copy of the table, with the same exports.
    pub fn duplicate(&self) -> (r: ImportTable)
        ensures
            r@ == self@,
    {
        let mut entries: Vec<ImportEntry> = Vec::new();
        let mut i: usize = 0;
        while i < self.entries.len()
            invariant
                i <= self.entries@.len(),
                entries@.len() == i,
                forall|j: int|
                    0 <= j < i ==> entry_key(#[trigger] entries@[j]) == entry_key(self.entries@[j])
                        && entries@[j].export@ == self.entries@[j].export@,
            decreases self.entries.len() - i,
        {
            let e = &self.entries[i];
            entries.push(
                ImportEntry {
                    namespace: e.namespace.clone(),
                    name: e.name.clone(),
                    export: e.export.duplicate(),
                },
            );
            i = i + 1;
        }
        proof {
            lemma_exports_of_congruent(entries@, self.entries@);
        }
        ImportTable { entries }
    }
}

} // verus!
