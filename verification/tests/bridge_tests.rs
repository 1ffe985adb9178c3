use extern_fn::bridge::{declarations_for, synthesize, Declaration, Role};
use extern_fn::collect::{collect_items, Accumulator, Candidate, TypeRecord};
use extern_fn::eligibility::to_boundary;
use extern_fn::model::{Attribute, Function, Item, Param, Visibility};
use extern_fn::ownership::{classify, owner_marks, Ownership};
use extern_fn::render::{render_function, render_unit, write_declarations, write_function, write_items};
use extern_fn::rules::Rules;

fn br_attr(name: &str, text: &str) -> Attribute {
    Attribute { name: name.to_string(), text: text.to_string() }
}

fn br_rules() -> Rules {
    Rules::around(br_attr("repr", "repr(C)"), br_attr("no_mangle", "no_mangle"))
}

fn br_record(name: &str, fields: &[&str]) -> TypeRecord {
    TypeRecord {
        unit: 0,
        name: name.to_string(),
        exported: true,
        field_types: fields.iter().map(|f| f.to_string()).collect(),
        prefers_shared: false,
    }
}

fn br_fn(name: &str) -> Function {
    Function {
        attrs: Vec::new(),
        vis: Visibility::Public,
        is_const: false,
        is_async: false,
        is_unsafe: false,
        abi: None,
        name: name.to_string(),
        generics: String::new(),
        receiver: None,
        params: Vec::new(),
        ret: None,
        bounds: String::new(),
        body: Vec::new(),
    }
}

fn br_candidate(unit: usize, name: &str) -> Candidate {
    Candidate { unit, origin: name.to_string(), decl: to_boundary(&br_fn(name), &br_rules()) }
}

fn br_acc(types: Vec<TypeRecord>, candidates: Vec<Candidate>, exposed: &[&str]) -> Accumulator {
    Accumulator { types, candidates, exposed: exposed.iter().map(|e| e.to_string()).collect() }
}

fn br_symbols(decls: &[Declaration]) -> Vec<&str> {
    decls.iter().map(|d| d.decl.name.as_str()).collect()
}

#[test]
fn a_type_without_owners_is_a_value() {
    let types = vec![br_record("Age", &["u8"]), br_record("Empty", &[]), br_record("Pair", &["Age", "Unknown"])];
    assert_eq!(classify(&types, &br_rules()), vec![Ownership::Value, Ownership::Value, Ownership::Value]);
}

#[test]
fn an_exclusive_owner_makes_a_unique_handle() {
    let types = vec![
        br_record("Person", &["Age", "String"]),
        br_record("Tree", &["Option", "Box", "Tree"]),
        br_record("List", &["Vec", "u8"]),
    ];
    assert_eq!(classify(&types, &br_rules()), vec![Ownership::Unique, Ownership::Unique, Ownership::Unique]);
}

#[test]
fn a_counted_owner_makes_a_shared_handle() {
    let types = vec![br_record("Node", &["Rc", "u8"]), br_record("Pool", &["Arc"])];
    assert_eq!(classify(&types, &br_rules()), vec![Ownership::Shared, Ownership::Shared]);
}

#[test]
fn a_category_is_inherited_through_recorded_types() {
    let types = vec![
        br_record("A", &["B"]),
        br_record("B", &["u8", "C"]),
        br_record("C", &["Box"]),
        br_record("D", &["E"]),
        br_record("E", &["Rc"]),
        br_record("F", &["G"]),
    ];
    assert_eq!(
        classify(&types, &br_rules()),
        vec![
            Ownership::Unique,
            Ownership::Unique,
            Ownership::Unique,
            Ownership::Shared,
            Ownership::Shared,
            Ownership::Value,
        ]
    );
}

#[test]
fn a_long_chain_is_followed_to_its_end() {
    let mut types = Vec::new();
    for i in 0..40 {
        let next = format!("T{}", i + 1);
        types.push(br_record(&format!("T{}", i), &[next.as_str()]));
    }
    types.push(br_record("T40", &["Arc"]));
    let kinds = classify(&types, &br_rules());
    assert_eq!(kinds.len(), 41);
    assert!(kinds.iter().all(|k| *k == Ownership::Shared));
    types[40] = br_record("T40", &["u8"]);
    assert!(classify(&types, &br_rules()).iter().all(|k| *k == Ownership::Value));
}

#[test]
fn types_that_name_each_other_hold_what_either_holds() {
    let plain = vec![br_record("A", &["B"]), br_record("B", &["A"])];
    assert_eq!(classify(&plain, &br_rules()), vec![Ownership::Value, Ownership::Value]);
    let owning = vec![br_record("A", &["B"]), br_record("B", &["A", "Rc"])];
    assert_eq!(classify(&owning, &br_rules()), vec![Ownership::Shared, Ownership::Shared]);
}

#[test]
fn a_type_with_both_kinds_is_unique_by_default() {
    let types = vec![br_record("Mixed", &["Box", "Arc"]), br_record("Outer", &["Inner", "Rc"]), br_record("Inner", &["String"])];
    assert_eq!(classify(&types, &br_rules()), vec![Ownership::Unique, Ownership::Unique, Ownership::Unique]);
}

#[test]
fn the_marker_makes_a_mixed_type_shared() {
    let mut marked = br_record("Mixed", &["Box", "Arc"]);
    marked.prefers_shared = true;
    let mut only_unique = br_record("Owned", &["Box"]);
    only_unique.prefers_shared = true;
    let types = vec![marked, only_unique, br_record("Outer", &["Mixed"])];
    assert_eq!(classify(&types, &br_rules()), vec![Ownership::Shared, Ownership::Unique, Ownership::Unique]);
}

#[test]
fn the_rules_can_make_every_mixed_type_shared() {
    let mut rules = br_rules();
    rules.mixed_is_shared = true;
    let types = vec![br_record("Mixed", &["Box", "Arc"]), br_record("Owned", &["Box"])];
    assert_eq!(classify(&types, &rules), vec![Ownership::Shared, Ownership::Unique]);
}

#[test]
fn the_owner_tables_come_from_the_rules() {
    let mut rules = br_rules();
    rules.unique_owners = vec!["Handle".to_string()];
    rules.shared_owners = Vec::new();
    let types = vec![br_record("A", &["Box", "Rc"]), br_record("B", &["Handle"])];
    assert_eq!(classify(&types, &rules), vec![Ownership::Value, Ownership::Unique]);
    assert_eq!(owner_marks(&types, &rules.unique_owners), vec![false, true]);
    assert_eq!(owner_marks(&types, &rules.shared_owners), vec![false, false]);
}

#[test]
fn records_of_one_name_count_together() {
    let types = vec![br_record("T", &[]), br_record("User", &["T"]), br_record("T", &["Box"])];
    assert_eq!(classify(&types, &br_rules()), vec![Ownership::Value, Ownership::Unique, Ownership::Unique]);
}

#[test]
fn no_records_no_categories() {
    assert_eq!(classify(&Vec::new(), &br_rules()), Vec::<Ownership>::new());
}

#[test]
fn a_unique_handle_gets_construct_and_destroy() {
    let acc = br_acc(vec![br_record("Person", &["String"])], Vec::new(), &[]);
    let decls = synthesize(&acc, &br_rules());
    assert_eq!(decls.len(), 2);
    let symbol = vec![br_attr("no_mangle", "no_mangle")];
    assert_eq!(
        decls[0],
        Declaration {
            unit: 0,
            role: Role::Construct,
            subject: "Person".to_string(),
            decl: Function {
                attrs: symbol.clone(),
                vis: Visibility::Public,
                is_const: false,
                is_async: false,
                is_unsafe: false,
                abi: Some("C".to_string()),
                name: "Person_new_ffi".to_string(),
                generics: String::new(),
                receiver: None,
                params: vec![Param { name: "value".to_string(), ty: "Person".to_string() }],
                ret: Some("Box<Person>".to_string()),
                bounds: String::new(),
                body: vec![Item::Other("Box::new(value)".to_string())],
            },
        }
    );
    assert_eq!(
        decls[1],
        Declaration {
            unit: 0,
            role: Role::Destroy,
            subject: "Person".to_string(),
            decl: Function {
                attrs: symbol,
                vis: Visibility::Public,
                is_const: false,
                is_async: false,
                is_unsafe: false,
                abi: Some("C".to_string()),
                name: "Person_drop_ffi".to_string(),
                generics: String::new(),
                receiver: None,
                params: vec![Param { name: "this".to_string(), ty: "Box<Person>".to_string() }],
                ret: None,
                bounds: String::new(),
                body: vec![Item::Other("drop(this)".to_string())],
            },
        }
    );
}

#[test]
fn a_shared_handle_gets_construct_share_and_destroy() {
    let mut node = br_record("Node", &["Rc"]);
    node.unit = 4;
    let decls = synthesize(&br_acc(vec![node], Vec::new(), &[]), &br_rules());
    assert_eq!(br_symbols(&decls), vec!["Node_new_ffi", "Node_clone_ffi", "Node_drop_ffi"]);
    let roles: Vec<Role> = decls.iter().map(|d| d.role).collect();
    assert_eq!(roles, vec![Role::Construct, Role::Share, Role::Destroy]);
    assert!(decls.iter().all(|d| d.unit == 4 && d.subject == "Node"));
    assert_eq!(decls[0].decl.params, vec![Param { name: "value".to_string(), ty: "Node".to_string() }]);
    assert_eq!(decls[0].decl.ret, Some("std::sync::Arc<Node>".to_string()));
    assert_eq!(decls[0].decl.body, vec![Item::Other("std::sync::Arc::new(value)".to_string())]);
    assert_eq!(decls[1].decl.params, vec![Param { name: "this".to_string(), ty: "&std::sync::Arc<Node>".to_string() }]);
    assert_eq!(decls[1].decl.ret, Some("std::sync::Arc<Node>".to_string()));
    assert_eq!(decls[1].decl.body, vec![Item::Other("std::sync::Arc::clone(this)".to_string())]);
    assert_eq!(decls[2].decl.params, vec![Param { name: "this".to_string(), ty: "std::sync::Arc<Node>".to_string() }]);
    assert_eq!(decls[2].decl.ret, None);
    assert_eq!(decls[2].decl.body, vec![Item::Other("drop(this)".to_string())]);
    assert!(decls.iter().all(|d| d.decl.abi == Some("C".to_string())));
}

#[test]
fn values_and_hidden_types_get_no_entry_points() {
    let mut hidden = br_record("Hidden", &["Box"]);
    hidden.exported = false;
    let acc = br_acc(vec![br_record("Age", &["u8"]), hidden], Vec::new(), &[]);
    assert!(synthesize(&acc, &br_rules()).is_empty());
}

#[test]
fn each_handle_is_paired_exactly_once() {
    let acc = br_acc(
        vec![br_record("A", &["Box"]), br_record("B", &["Arc"]), br_record("C", &["A"]), br_record("V", &["u8"])],
        Vec::new(),
        &[],
    );
    let decls = synthesize(&acc, &br_rules());
    let count = |subject: &str, role: Role| decls.iter().filter(|d| d.subject == subject && d.role == role).count();
    for unique in ["A", "C"] {
        assert_eq!(count(unique, Role::Construct), 1);
        assert_eq!(count(unique, Role::Destroy), 1);
        assert_eq!(count(unique, Role::Share), 0);
    }
    assert_eq!(count("B", Role::Construct), 1);
    assert_eq!(count("B", Role::Share), 1);
    assert_eq!(count("B", Role::Destroy), 1);
    assert_eq!(count("V", Role::Construct) + count("V", Role::Destroy) + count("V", Role::Share), 0);
    assert_eq!(decls.len(), 7);
}

#[test]
fn entry_points_come_before_function_entries() {
    let acc = br_acc(
        vec![br_record("Person", &["String"])],
        vec![br_candidate(0, "new"), br_candidate(1, "run")],
        &[],
    );
    let decls = synthesize(&acc, &br_rules());
    assert_eq!(br_symbols(&decls), vec!["Person_new_ffi", "Person_drop_ffi", "new_ffi", "run_ffi"]);
    assert_eq!(decls[2].role, Role::Entry);
    assert_eq!(decls[2].subject, "new");
    assert_eq!(decls[2].decl, acc.candidates[0].decl);
    assert_eq!(decls[3].unit, 1);
}

#[test]
fn an_exposed_symbol_is_not_synthesized_again() {
    let acc = br_acc(
        vec![br_record("Person", &["String"])],
        vec![br_candidate(0, "run"), br_candidate(0, "stop")],
        &["run_ffi", "Person_drop_ffi"],
    );
    let decls = synthesize(&acc, &br_rules());
    assert_eq!(br_symbols(&decls), vec!["Person_new_ffi", "stop_ffi"]);
}

#[test]
fn a_symbol_is_synthesized_once() {
    let acc = br_acc(
        vec![br_record("T", &["Box"]), br_record("T", &["Rc"])],
        vec![br_candidate(0, "T_new"), br_candidate(0, "get"), br_candidate(1, "get")],
        &[],
    );
    let decls = synthesize(&acc, &br_rules());
    assert_eq!(br_symbols(&decls), vec!["T_new_ffi", "T_drop_ffi", "T_clone_ffi", "get_ffi"]);
    assert_eq!(decls[0].decl.ret, Some("Box<T>".to_string()));
    assert_eq!(decls[3].unit, 0);
}

#[test]
fn synthesis_only_reads_the_accumulator() {
    let acc = br_acc(vec![br_record("Person", &["String"])], vec![br_candidate(0, "run")], &["x_ffi"]);
    let before = acc.clone();
    let first = synthesize(&acc, &br_rules());
    let second = synthesize(&acc, &br_rules());
    assert_eq!(acc, before);
    assert_eq!(first, second);
}

#[test]
fn each_unit_gets_its_share_and_every_declaration_goes_out_once() {
    let mut far = br_record("Far", &["Box"]);
    far.unit = 2;
    let acc = br_acc(
        vec![br_record("Near", &["Rc"]), far],
        vec![br_candidate(1, "a"), br_candidate(0, "b"), br_candidate(2, "c"), br_candidate(1, "d")],
        &[],
    );
    let decls = synthesize(&acc, &br_rules());
    let zero = declarations_for(&decls, 0);
    let one = declarations_for(&decls, 1);
    let two = declarations_for(&decls, 2);
    assert_eq!(br_symbols(&zero), vec!["Near_new_ffi", "Near_clone_ffi", "Near_drop_ffi", "b_ffi"]);
    assert_eq!(br_symbols(&one), vec!["a_ffi", "d_ffi"]);
    assert_eq!(br_symbols(&two), vec!["Far_new_ffi", "Far_drop_ffi", "c_ffi"]);
    assert!(declarations_for(&decls, 3).is_empty());
    assert_eq!(zero.len() + one.len() + two.len(), decls.len());
    for d in &decls {
        let found = [&zero, &one, &two].iter().map(|s| s.iter().filter(|x| *x == d).count()).sum::<usize>();
        assert_eq!(found, 1);
    }
    assert_eq!(decls[0].duplicate(), decls[0]);
}

#[test]
fn a_function_renders_as_source() {
    let mut f = br_fn("is_adult");
    f.attrs = vec![br_attr("doc", "doc = \" Old enough?\""), br_attr("inline", "inline")];
    f.receiver = Some(extern_fn::model::Receiver {
        kind: extern_fn::model::ReceiverKind::Shared,
        enclosing: "Person".to_string(),
        text: "& self".to_string(),
    });
    f.params = vec![Param { name: "limit".to_string(), ty: "u8".to_string() }];
    f.ret = Some("bool".to_string());
    f.body = vec![Item::Other("let old = self . age . 0 ;".to_string()), Item::Other("old >= limit".to_string())];
    assert_eq!(
        render_function(&f),
        "#[doc = \" Old enough?\"]\n#[inline]\npub fn is_adult(& self, limit: u8, ) -> bool {\nlet old = self . age . 0 ;\nold >= limit\n}\n"
    );
}

#[test]
fn qualifiers_render_in_order() {
    let mut f = br_fn("poke");
    f.vis = Visibility::Restricted("pub(crate)".to_string());
    f.is_const = true;
    f.is_async = true;
    f.is_unsafe = true;
    f.abi = Some("C".to_string());
    f.generics = "< T >".to_string();
    f.bounds = "where T : Copy".to_string();
    assert_eq!(
        render_function(&f),
        "pub(crate) const async unsafe extern \"C\" fn poke< T >() where T : Copy {\n}\n"
    );
    let mut g = br_fn("plain");
    g.vis = Visibility::Private;
    assert_eq!(render_function(&g), "fn plain() {\n}\n");
    g.body = vec![Item::Function(br_fn("nested")), Item::Other("nested ()".to_string())];
    assert_eq!(render_function(&g), "fn plain() {\npub fn nested() {\n}\nnested ()\n}\n");
}

#[test]
fn a_boundary_entry_renders_with_its_marks() {
    let mut f = br_fn("bday");
    f.receiver = Some(extern_fn::model::Receiver {
        kind: extern_fn::model::ReceiverKind::Exclusive,
        enclosing: "Person".to_string(),
        text: "& mut self".to_string(),
    });
    f.body = vec![Item::Other("self . age . 0 += 1".to_string())];
    let b = to_boundary(&f, &br_rules());
    assert_eq!(
        render_function(&b),
        "#[no_mangle]\npub extern \"C\" fn bday_ffi(this: &mut Person, ) {\nself . age . 0 += 1\n}\n"
    );
}

#[test]
fn a_unit_renders_every_declaration_in_order() {
    let mut age = extern_fn::model::Aggregate {
        attrs: vec![br_attr("repr", "repr(C)")],
        vis: Visibility::Public,
        name: "Age".to_string(),
        generics: String::new(),
        field_types: vec!["u8".to_string()],
        body: "(u8) ;".to_string(),
    };
    let citizen = extern_fn::model::Aggregate {
        attrs: Vec::new(),
        vis: Visibility::Private,
        name: "Citizen".to_string(),
        generics: "< T >".to_string(),
        field_types: vec!["T".to_string()],
        body: "{ Adult (T) , Minor }".to_string(),
    };
    let unit = extern_fn::model::SourceUnit {
        name: "person.rs".to_string(),
        items: vec![
            Item::Other("use std :: fmt ;".to_string()),
            Item::Product(age.clone()),
            Item::Sum(citizen),
            Item::Scope(extern_fn::model::Scope {
                header: "impl Age".to_string(),
                items: vec![Item::Function(br_fn("zero")), Item::Other("const MAX : u8 = 150 ;".to_string())],
            }),
        ],
    };
    let decls = synthesize(&br_acc(Vec::new(), vec![br_candidate(0, "zero")], &[]), &br_rules());
    let expected = "use std :: fmt ;\n\
                    #[repr(C)]\npub struct Age (u8) ;\n\
                    enum Citizen< T > { Adult (T) , Minor }\n\
                    impl Age {\npub fn zero() {\n}\nconst MAX : u8 = 150 ;\n}\n\
                    #[no_mangle]\npub extern \"C\" fn zero_ffi() {\n}\n";
    assert_eq!(render_unit(&unit, &decls), expected);
    age.attrs.clear();
    let mut text = String::from("// start\n");
    write_items(&vec![Item::Product(age)], &mut text);
    write_function(&br_fn("f"), &mut text);
    write_declarations(&decls, &mut text);
    assert_eq!(
        text,
        "// start\npub struct Age (u8) ;\npub fn f() {\n}\n#[no_mangle]\npub extern \"C\" fn zero_ffi() {\n}\n"
    );
}

#[test]
fn collected_functions_are_synthesized_in_order() {
    let items = vec![Item::Function(br_fn("a")), Item::Function(br_fn("b"))];
    let mut acc = Accumulator::new();
    collect_items(&items, 0, &br_rules(), &mut acc);
    assert_eq!(br_symbols(&synthesize(&acc, &br_rules())), vec!["a_ffi", "b_ffi"]);
}
