use bumpalo::Bump;
use roc_front::arena::List;
use roc_front::header::{
    add_exposed_to_scope, exposed_from_import, exposed_symbols, foreign_references,
    ident_from_exposed,
    interface_header, module_name_parts, ExposedIdents, ExposesEntry, ImportsEntry,
    InterfaceHeader,
};
use roc_front::region::{Located, Region};
use roc_front::registry::{bytes_eq, IdentId, IdentIds, ModuleId, ModuleIds, Symbol};

#[test]
fn module_ids_are_stable() {
    let mut ids = ModuleIds::new();
    assert_eq!(ids.get_or_insert(b"Foo"), Some(ModuleId(0)));
    assert_eq!(ids.get_or_insert(b"Bar.Baz"), Some(ModuleId(1)));
    assert_eq!(ids.get_or_insert(b"Foo"), Some(ModuleId(0)));
    assert_eq!(ids.len(), 2);
    assert_eq!(ids.get_id(b"Bar.Baz"), Some(ModuleId(1)));
    assert_eq!(ids.get_id(b"Qux"), None);
    assert_eq!(ids.get_name(ModuleId(1)).map(|n| n.as_slice()), Some(&b"Bar.Baz"[..]));
    assert_eq!(ids.get_name(ModuleId(2)), None);
}

#[test]
fn ident_ids_find_the_latest() {
    let mut ids = IdentIds::new();
    assert_eq!(ids.add(b"foo"), Some(IdentId(0)));
    assert_eq!(ids.add(b"bar"), Some(IdentId(1)));
    assert_eq!(ids.add(b"foo"), Some(IdentId(2)));
    assert_eq!(ids.get_id(b"foo"), Some(IdentId(2)));
    assert_eq!(ids.get_id(b"bar"), Some(IdentId(1)));
    assert_eq!(ids.get_id(b"baz"), None);
    assert_eq!(ids.get_name(IdentId(0)).map(|n| n.as_slice()), Some(&b"foo"[..]));
    assert_eq!(ids.len(), 3);
}

#[test]
fn symbol_packs_and_unpacks() {
    let s = Symbol::new(ModuleId(7), IdentId(9));
    assert_eq!(s, Symbol(7 * 0x1_0000_0000 + 9));
    assert_eq!(s.module_id(), ModuleId(7));
    assert_eq!(s.ident_id(), IdentId(9));
    let top = Symbol::new(ModuleId(u32::MAX), IdentId(u32::MAX));
    assert_eq!(top, Symbol(u64::MAX));
    assert_eq!(top.module_id(), ModuleId(u32::MAX));
    assert_eq!(top.ident_id(), IdentId(u32::MAX));
    assert_ne!(Symbol::new(ModuleId(1), IdentId(0)), Symbol::new(ModuleId(0), IdentId(1)));
}

#[test]
fn bytes_are_compared_by_content() {
    assert!(bytes_eq(b"abc", b"abc"));
    assert!(!bytes_eq(b"abc", b"abd"));
    assert!(!bytes_eq(b"abc", b"ab"));
    assert!(bytes_eq(b"", b""));
}

#[test]
fn spaces_around_entries_are_ignored() {
    let inner = ExposesEntry::Ident(b"foo");
    let before = ExposesEntry::SpaceBefore(&inner, &[]);
    let after = ExposesEntry::SpaceAfter(&before, &[]);
    assert_eq!(ident_from_exposed(&after), b"foo".to_vec());

    let arena = Bump::new();
    let exposes = List::cons(
        &arena,
        Located::at(Region::zero(), after),
        List::cons(&arena, Located::at(Region::zero(), ExposesEntry::Ident(b"Bar")), List::Nil),
    );
    let module = ImportsEntry::Module(b"Task", exposes);
    let spaced = ImportsEntry::SpaceAfter(&module, &[]);
    let (name, exposed) = exposed_from_import(&spaced);
    assert_eq!(name, b"Task".to_vec());
    assert_eq!(exposed, vec![b"foo".to_vec(), b"Bar".to_vec()]);
}

#[test]
fn exposed_identifiers_enter_the_scope() {
    let mut scope = Vec::new();
    let mut ids = IdentIds::new();
    ids.add(b"earlier");
    let region = Region::new(1, 1, 2, 9);
    add_exposed_to_scope(ModuleId(3), &mut scope, vec![b"a".to_vec(), b"b".to_vec()], &mut ids, region);
    assert_eq!(scope.len(), 2);
    assert_eq!(scope[0].ident, b"a".to_vec());
    assert_eq!(scope[0].symbol, Symbol::new(ModuleId(3), IdentId(1)));
    assert_eq!(scope[0].region, region);
    assert_eq!(scope[1].ident, b"b".to_vec());
    assert_eq!(scope[1].symbol, Symbol::new(ModuleId(3), IdentId(2)));
    assert_eq!(ids.get_id(b"b"), Some(IdentId(2)));
}

#[test]
fn header_interns_the_module_and_its_imports() {
    let arena = Bump::new();
    let import_region = Region::new(0, 0, 30, 45);
    let exposed = List::cons(
        &arena,
        Located::at(Region::zero(), ExposesEntry::Ident(b"after")),
        List::Nil,
    );
    let imports = List::cons(
        &arena,
        Located::at(Region::zero(), ImportsEntry::Module(b"Str", List::Nil)),
        List::cons(
            &arena,
            Located::at(import_region, ImportsEntry::Module(b"Task", exposed)),
            List::Nil,
        ),
    );
    let exposes = List::cons(
        &arena,
        Located::at(Region::zero(), ExposesEntry::Ident(b"main")),
        List::Nil,
    );
    let header = InterfaceHeader { name: Located::at(Region::zero(), &b"App"[..]), exposes, imports };
    let mut module_ids = ModuleIds::new();
    module_ids.get_or_insert(b"Task");
    let mut idents = ExposedIdents::new();
    let h = interface_header(&header, b"main = 1", &mut module_ids, &mut idents);
    assert_eq!(h.module_id, ModuleId(1));
    assert_eq!(h.module_name, b"App".to_vec());
    assert_eq!(h.src, b"main = 1".to_vec());
    assert_eq!(h.exposes, vec![b"main".to_vec()]);
    assert_eq!(
        h.deps_by_name,
        vec![(b"Str".to_vec(), ModuleId(2)), (b"Task".to_vec(), ModuleId(0))]
    );
    assert_eq!(h.exposed_imports.len(), 1);
    assert_eq!(h.exposed_imports[0].ident, b"after".to_vec());
    assert_eq!(h.exposed_imports[0].symbol, Symbol::new(ModuleId(0), IdentId(0)));
    assert_eq!(h.exposed_imports[0].region, import_region);
    assert_eq!(idents.count(ModuleId(0)), 1);
    assert_eq!(idents.count(ModuleId(2)), 0);
    // The id given to `Task` before is the id it still has.
    assert_eq!(module_ids.get_id(b"Task"), Some(ModuleId(0)));
}

#[test]
fn foreign_references_leave_out_the_home_module() {
    let home = ModuleId(1);
    let refs = vec![
        Symbol::new(ModuleId(1), IdentId(0)),
        Symbol::new(ModuleId(2), IdentId(5)),
        Symbol::new(ModuleId(0), IdentId(1)),
        Symbol::new(ModuleId(1), IdentId(3)),
    ];
    assert_eq!(
        foreign_references(home, &refs),
        vec![Symbol::new(ModuleId(2), IdentId(5)), Symbol::new(ModuleId(0), IdentId(1))]
    );
}

#[test]
fn module_name_is_split_at_its_dots() {
    assert_eq!(
        module_name_parts(b"Foo.Bar.Baz"),
        vec![b"Foo".to_vec(), b"Bar".to_vec(), b"Baz".to_vec()]
    );
    assert_eq!(module_name_parts(b"Foo"), vec![b"Foo".to_vec()]);
    assert_eq!(module_name_parts(b""), vec![b"".to_vec()]);
    assert_eq!(module_name_parts(b"A."), vec![b"A".to_vec(), b"".to_vec()]);
}

#[test]
fn imports_of_one_module_take_its_identifier_ids_in_turn() {
    let arena = Bump::new();
    let first = Region::new(2, 2, 4, 20);
    let second = Region::new(4, 4, 4, 12);
    let a_and_b = List::cons(
        &arena,
        Located::at(Region::zero(), ExposesEntry::Ident(b"a")),
        List::cons(&arena, Located::at(Region::zero(), ExposesEntry::Ident(b"b")), List::Nil),
    );
    let only_c =
        List::cons(&arena, Located::at(Region::zero(), ExposesEntry::Ident(b"c")), List::Nil);
    let imports = List::cons(
        &arena,
        Located::at(first, ImportsEntry::Module(b"Task", a_and_b)),
        List::cons(
            &arena,
            Located::at(Region::zero(), ImportsEntry::Module(b"Str", List::Nil)),
            List::cons(
                &arena,
                Located::at(second, ImportsEntry::Module(b"Task", only_c)),
                List::Nil,
            ),
        ),
    );
    let header = InterfaceHeader {
        name: Located::at(Region::zero(), &b"App"[..]),
        exposes: List::Nil,
        imports,
    };
    let mut module_ids = ModuleIds::new();
    let mut idents = ExposedIdents::new();
    let h = interface_header(&header, b"", &mut module_ids, &mut idents);
    assert_eq!(h.module_id, ModuleId(0));
    assert_eq!(
        h.deps_by_name,
        vec![
            (b"Task".to_vec(), ModuleId(1)),
            (b"Str".to_vec(), ModuleId(2)),
            (b"Task".to_vec(), ModuleId(1))
        ]
    );
    assert_eq!(module_ids.len(), 3);
    let scope: Vec<(Vec<u8>, Symbol, Region)> =
        h.exposed_imports.iter().map(|e| (e.ident.clone(), e.symbol, e.region)).collect();
    assert_eq!(
        scope,
        vec![
            (b"a".to_vec(), Symbol::new(ModuleId(1), IdentId(0)), first),
            (b"b".to_vec(), Symbol::new(ModuleId(1), IdentId(1)), first),
            (b"c".to_vec(), Symbol::new(ModuleId(1), IdentId(2)), second),
        ]
    );
    assert_eq!(idents.count(ModuleId(1)), 3);
    assert_eq!(idents.count(ModuleId(0)), 0);
}

#[test]
fn exposed_identifiers_get_ids_in_the_order_of_the_header() {
    let exposes = vec![b"main".to_vec(), b"after".to_vec(), b"Task".to_vec()];
    let (ids, symbols) = exposed_symbols(ModuleId(7), &exposes);
    assert_eq!(ids.len(), 3);
    assert_eq!(ids.get_id(b"main"), Some(IdentId(0)));
    assert_eq!(ids.get_id(b"after"), Some(IdentId(1)));
    assert_eq!(ids.get_id(b"Task"), Some(IdentId(2)));
    assert_eq!(
        symbols,
        vec![
            Symbol::new(ModuleId(7), IdentId(0)),
            Symbol::new(ModuleId(7), IdentId(1)),
            Symbol::new(ModuleId(7), IdentId(2)),
        ]
    );
    let (ids, symbols) = exposed_symbols(ModuleId(7), &vec![]);
    assert_eq!(ids.len(), 0);
    assert!(symbols.is_empty());
}
