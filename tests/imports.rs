use wasmer_jni::exception::Error;
use wasmer_jni::imports::{
    build_import_table, is_memory_import, page_count, publish_imported_memory,
    value_types_from_tags, Export, FunctionImport, ImportDeclaration, ImportedMemory, MemoryType,
};
use wasmer_jni::value::ValueType;

fn function(namespace: &str, name: &str, params: Vec<i32>, results: Vec<i32>, callback: u64) -> ImportDeclaration {
    ImportDeclaration::Function {
        namespace: namespace.to_string(),
        name: name.to_string(),
        params,
        results,
        callback,
    }
}

fn memory(namespace: &str, min_pages: i32, max_pages: Option<i32>) -> ImportDeclaration {
    ImportDeclaration::Memory {
        namespace: namespace.to_string(),
        name: "memory".to_string(),
        min_pages,
        max_pages,
        shared: false,
    }
}

fn key(s: &str) -> String {
    s.to_string()
}

#[test]
fn memory_is_recognised_by_name() {
    assert!(is_memory_import(&key("memory")));
    assert!(!is_memory_import(&key("Memory")));
    assert!(!is_memory_import(&key("mem")));
}

#[test]
fn tags_convert_in_order() {
    assert_eq!(
        value_types_from_tags(&vec![4, 1, 3, 2]),
        Ok(vec![ValueType::F64, ValueType::I32, ValueType::F32, ValueType::I64])
    );
    assert_eq!(value_types_from_tags(&vec![1, 9, 0]), Err(Error::UnknownValueType(9)));
}

#[test]
fn page_counts_must_be_non_negative() {
    assert_eq!(page_count(0), Ok(0));
    assert_eq!(page_count(i32::MAX), Ok(i32::MAX as u32));
    assert_eq!(page_count(-1), Err(Error::PageCountOutOfRange(-1)));
}

#[test]
fn table_holds_functions() {
    let decls = vec![function("env", "add", vec![1, 1], vec![1], 10), function("env", "log", vec![4], vec![], 11)];
    let table = build_import_table(&decls).unwrap();
    assert_eq!(
        table.lookup(&key("env"), &key("add")),
        Some(&Export::Function(FunctionImport {
            params: vec![ValueType::I32, ValueType::I32],
            results: vec![ValueType::I32],
            callback: 10,
        }))
    );
    assert_eq!(
        table.lookup(&key("env"), &key("log")),
        Some(&Export::Function(FunctionImport { params: vec![ValueType::F64], results: vec![], callback: 11 }))
    );
    assert_eq!(table.lookup(&key("other"), &key("add")), None);
    assert_eq!(table.entries().len(), 2);
}

#[test]
fn later_declaration_wins() {
    let decls = vec![function("ns", "f", vec![1], vec![], 1), function("ns", "f", vec![2], vec![2], 2)];
    let table = build_import_table(&decls).unwrap();
    assert_eq!(
        table.lookup(&key("ns"), &key("f")),
        Some(&Export::Function(FunctionImport {
            params: vec![ValueType::I64],
            results: vec![ValueType::I64],
            callback: 2,
        }))
    );
}

#[test]
fn table_holds_memories() {
    let table = build_import_table(&vec![memory("env", 1, Some(4))]).unwrap();
    assert_eq!(
        table.lookup(&key("env"), &key("memory")),
        Some(&Export::Memory(MemoryType { minimum: 1, maximum: Some(4), shared: false }))
    );
}

#[test]
fn bad_declarations_are_errors() {
    let decls = vec![function("env", "ok", vec![1], vec![], 0), function("env", "bad", vec![1], vec![7], 1), memory("env", -2, None)];
    assert_eq!(build_import_table(&decls).unwrap_err(), Error::UnknownValueType(7));
    assert_eq!(build_import_table(&vec![memory("env", -2, None)]).unwrap_err(), Error::PageCountOutOfRange(-2));
    assert_eq!(build_import_table(&vec![memory("env", -2, Some(-3))]).unwrap_err(), Error::PageCountOutOfRange(-3));
}

#[test]
fn empty_batch_gives_empty_table() {
    let table = build_import_table(&vec![]).unwrap();
    assert_eq!(table.entries().len(), 0);
    assert_eq!(table.imported_memory(), None);
}

#[test]
fn latest_memory_becomes_ambient() {
    let mut slot: Option<ImportedMemory> = None;
    let first = build_import_table(&vec![function("env", "f", vec![], vec![], 0), memory("env", 1, None)]).unwrap();
    publish_imported_memory(&mut slot, &first);
    assert_eq!(
        slot,
        Some(ImportedMemory { namespace: key("env"), name: key("memory"), memory: MemoryType { minimum: 1, maximum: None, shared: false } })
    );
    let second = build_import_table(&vec![memory("js", 2, Some(3))]).unwrap();
    publish_imported_memory(&mut slot, &second);
    assert_eq!(
        slot,
        Some(ImportedMemory { namespace: key("js"), name: key("memory"), memory: MemoryType { minimum: 2, maximum: Some(3), shared: false } })
    );
    let third = build_import_table(&vec![function("env", "g", vec![], vec![], 5)]).unwrap();
    publish_imported_memory(&mut slot, &third);
    assert_eq!(slot.unwrap().namespace, key("js"));
}

#[test]
fn last_memory_position_is_found() {
    let table = build_import_table(&vec![
        memory("a", 1, None),
        function("env", "f", vec![], vec![], 0),
        memory("b", 2, None),
        function("env", "g", vec![], vec![], 1),
    ])
    .unwrap();
    assert_eq!(table.last_memory_index(), Some(2));
    assert_eq!(table.imported_memory().unwrap().namespace, key("b"));
    let none = build_import_table(&vec![function("env", "f", vec![], vec![], 0)]).unwrap();
    assert_eq!(none.last_memory_index(), None);
}
