use extern_fn::bridge::{synthesize, Declaration, Role};
use extern_fn::collect::{Accumulator, Candidate, TypeRecord};
use extern_fn::pass::{check_declarations, emit_bridge, emit_unit, scan_unit, verdict, RenderError};
use extern_fn::marker::{attribute_from, single, MarkerError};
use extern_fn::model::{Aggregate, Attribute, Function, Item, Param, SourceUnit, Visibility};
use extern_fn::render::{render_function, render_unit};
use extern_fn::rules::Rules;
use extern_fn::syntax::{check_text, parse_source, read_attributes};

fn sx_attr(name: &str, text: &str) -> Attribute {
    Attribute { name: name.to_string(), text: text.to_string() }
}

fn sx_rules() -> Rules {
    Rules::around(sx_attr("repr", "repr(C)"), sx_attr("no_mangle", "no_mangle"))
}

fn sx_fn(name: &str, body: &str) -> Function {
    Function {
        attrs: Vec::new(),
        vis: Visibility::Public,
        is_const: false,
        is_async: false,
        is_unsafe: false,
        abi: None,
        name: name.to_string(),
        generics: String::new(),
        receiver: None,
        params: Vec::new(),
        ret: None,
        bounds: String::new(),
        body: if body.is_empty() { Vec::new() } else { vec![Item::Other(body.to_string())] },
    }
}

fn sx_entry(unit: usize, name: &str, body: &str) -> Declaration {
    let mut decl = sx_fn(name, body);
    decl.abi = Some("C".to_string());
    decl.attrs.push(sx_attr("no_mangle", "no_mangle"));
    Declaration { unit, role: Role::Entry, subject: name.to_string(), decl }
}

fn sx_squeeze(text: &str) -> String {
    text.chars().filter(|c| !c.is_whitespace()).collect()
}

#[test]
fn a_source_file_is_well_formed() {
    assert_eq!(check_text("pub struct Age(u8);\nfn main() { let _ = Age(1); }\n"), Ok(()));
    assert_eq!(check_text(""), Ok(()));
    assert_eq!(check_text("#[no_mangle]\npub extern \"C\" fn f(this: &mut Person, ) { }\n"), Ok(()));
}

#[test]
fn a_broken_text_is_rejected_with_the_parser_message() {
    for text in ["fn (", "pub struct ;", "fn f() { ", "}", "let x = 1;"] {
        let checked = check_text(text);
        assert!(checked.is_err());
        assert!(!checked.unwrap_err().is_empty());
    }
}

#[test]
fn check_text_agrees_with_the_parser() {
    for text in ["fn a() {}", "fn a( {}", "mod m { pub enum E { A, B } }", "mod m { pub enum E { A, B }", "impl X { fn f(&self) {} }"] {
        assert_eq!(check_text(text).is_ok(), syn::parse_file(text).is_ok());
    }
}

#[test]
fn attributes_are_read_with_path_and_content() {
    let attrs = read_attributes("#[repr(C)]").unwrap();
    assert_eq!(attrs.len(), 1);
    assert_eq!(attrs[0].name, "repr");
    assert_eq!(sx_squeeze(&attrs[0].text), "repr(C)");
    let more = read_attributes("#[no_mangle] /// extern_fn:skip\n #[cfg(feature = \"x\")]").unwrap();
    let names: Vec<&str> = more.iter().map(|a| a.name.as_str()).collect();
    assert_eq!(names, vec!["no_mangle", "doc", "cfg"]);
    assert_eq!(more[0].text, "no_mangle");
    assert!(more[1].text.contains("extern_fn:skip"));
    assert_eq!(sx_squeeze(&more[2].text), "cfg(feature=\"x\")");
    assert_eq!(read_attributes("").unwrap(), Vec::new());
}

#[test]
fn what_is_not_attributes_is_an_error() {
    for text in ["#[", "repr(C)", "#[a] fn f() {}", "#![inner]", "#[a]]"] {
        let read = read_attributes(text);
        assert!(read.is_err());
        assert!(!read.unwrap_err().is_empty());
    }
}

#[test]
fn a_read_attribute_renders_back_to_what_the_parser_reads() {
    let one = attribute_from("#[doc = \" extern_fn:skip\"]").unwrap();
    let text = format!("#[{}]", one.text);
    assert_eq!(read_attributes(&text).unwrap(), vec![one]);
}

#[test]
fn one_annotation_is_taken_from_its_text() {
    let layout = attribute_from("#[repr(C)]").unwrap();
    assert_eq!(layout.name, "repr");
    assert_eq!(sx_squeeze(&layout.text), "repr(C)");
    let symbol = attribute_from("#[no_mangle]").unwrap();
    assert_eq!(symbol, sx_attr("no_mangle", "no_mangle"));
}

#[test]
fn a_text_that_does_not_parse_is_malformed() {
    match attribute_from("#[repr(C") {
        Err(MarkerError::Malformed(message)) => assert!(!message.is_empty()),
        other => panic!("unexpected: {:?}", other),
    }
    assert!(matches!(attribute_from("repr"), Err(MarkerError::Malformed(_))));
}

#[test]
fn no_annotation_or_several_are_not_single() {
    assert_eq!(attribute_from(""), Err(MarkerError::NotSingle(0)));
    assert_eq!(attribute_from("  "), Err(MarkerError::NotSingle(0)));
    assert_eq!(attribute_from("#[repr(C)] #[no_mangle]"), Err(MarkerError::NotSingle(2)));
    assert_eq!(attribute_from("#[a] #[b] #[c]"), Err(MarkerError::NotSingle(3)));
}

#[test]
fn single_takes_the_one_of_a_list_of_one() {
    assert_eq!(single(vec![sx_attr("a", "a")]), Ok(sx_attr("a", "a")));
    assert_eq!(single(Vec::new()), Err(MarkerError::NotSingle(0)));
    assert_eq!(single(vec![sx_attr("a", "a"), sx_attr("b", "b")]), Err(MarkerError::NotSingle(2)));
}

#[test]
fn the_standard_rules_are_the_conventional_ones() {
    let rules = Rules::standard().unwrap();
    assert!(!rules.strict);
    assert_eq!(rules.skip_marker, "extern_fn:skip");
    assert_eq!(rules.suffix, "_ffi");
    assert_eq!(rules.abi, "C");
    assert_eq!(rules.receiver, "this");
    assert_eq!(rules.symbol, sx_attr("no_mangle", "no_mangle"));
    assert_eq!(rules.layout.name, "repr");
    assert_eq!(sx_squeeze(&rules.layout.text), "repr(C)");
    assert_eq!(rules.unique_owners, vec!["Box".to_string(), "String".to_string(), "Vec".to_string()]);
    assert_eq!(rules.shared_owners, vec!["Rc".to_string(), "Arc".to_string()]);
    assert_eq!(rules.shared_marker, "extern_fn:shared");
    assert!(!rules.mixed_is_shared);
    assert_eq!(rules.layout, attribute_from("#[repr(C)]").unwrap());
}

#[test]
fn rules_around_given_annotations_keep_them() {
    let rules = Rules::around(sx_attr("repr", "repr(transparent)"), sx_attr("export_name", "export_name = \"f\""));
    assert_eq!(rules.layout, sx_attr("repr", "repr(transparent)"));
    assert_eq!(rules.symbol, sx_attr("export_name", "export_name = \"f\""));
    assert_eq!(rules.suffix, "_ffi");
}

#[test]
fn every_synthesized_declaration_parses_alone() {
    let acc = Accumulator {
        types: vec![
            TypeRecord { unit: 0, name: "Person".to_string(), exported: true, field_types: vec!["String".to_string()], prefers_shared: false },
            TypeRecord { unit: 0, name: "Node".to_string(), exported: true, field_types: vec!["Rc".to_string()], prefers_shared: false },
        ],
        candidates: vec![Candidate {
            unit: 0,
            origin: "get".to_string(),
            decl: {
                let mut f = sx_fn("get_ffi", "self . 0");
                f.abi = Some("C".to_string());
                f.attrs.push(sx_attr("no_mangle", "no_mangle"));
                f.params.push(Param { name: "this".to_string(), ty: "&Cell".to_string() });
                f.params.push(Param { name: "at".to_string(), ty: "usize".to_string() });
                f.ret = Some("u8".to_string());
                f
            },
        }],
        exposed: Vec::new(),
    };
    let decls = synthesize(&acc, &Rules::standard().unwrap());
    assert_eq!(decls.len(), 6);
    for d in &decls {
        let text = render_function(&d.decl);
        let file = syn::parse_file(&text).unwrap();
        assert_eq!(file.items.len(), 1);
        match &file.items[0] {
            syn::Item::Fn(f) => {
                assert_eq!(f.sig.ident.to_string(), d.decl.name);
                assert!(f.sig.abi.is_some());
                assert_eq!(f.sig.inputs.len(), d.decl.params.len());
                assert!(f.attrs.iter().any(|a| a.path().is_ident("no_mangle")));
            },
            _ => panic!("not a function"),
        }
    }
    assert_eq!(check_declarations(&decls), Ok(()));
}

#[test]
fn the_first_declaration_that_does_not_parse_is_named() {
    let decls = vec![sx_entry(0, "a_ffi", ""), sx_entry(0, "b_ffi", "("), sx_entry(0, "c_ffi", "]")];
    match check_declarations(&decls) {
        Err((at, reason)) => {
            assert_eq!(at, 1);
            assert!(!reason.is_empty());
        },
        Ok(()) => panic!("accepted"),
    }
    assert_eq!(check_declarations(&Vec::new()), Ok(()));
    assert_eq!(check_declarations(&decls[..1].to_vec()), Ok(()));
}

#[test]
fn the_verdict_follows_the_two_checks() {
    let text = "fn f() {\n}\n".to_string();
    assert_eq!(verdict("a.rs", text.clone(), Ok(()), Ok(())), Ok(text.clone()));
    assert_eq!(
        verdict("a.rs", text.clone(), Err((2, "bad".to_string())), Ok(())),
        Err(RenderError { unit: "a.rs".to_string(), declaration: Some(2), reason: "bad".to_string() })
    );
    assert_eq!(
        verdict("a.rs", text.clone(), Err((0, "bad".to_string())), Err("worse".to_string())),
        Err(RenderError { unit: "a.rs".to_string(), declaration: Some(0), reason: "bad".to_string() })
    );
    assert_eq!(
        verdict("b.rs", text, Ok(()), Err("worse".to_string())),
        Err(RenderError { unit: "b.rs".to_string(), declaration: None, reason: "worse".to_string() })
    );
}

#[test]
fn a_unit_is_emitted_annotated_with_its_share() {
    let age = Aggregate {
        attrs: Vec::new(),
        vis: Visibility::Public,
        name: "Age".to_string(),
        generics: String::new(),
        field_types: vec!["u8".to_string()],
        body: "(u8) ;".to_string(),
    };
    let mut unit = SourceUnit {
        name: "age.rs".to_string(),
        items: vec![Item::Product(age.clone()), Item::Function(sx_fn("zero", ""))],
    };
    let decls = vec![sx_entry(1, "other_ffi", ""), sx_entry(0, "zero_ffi", "")];
    let text = emit_unit(&mut unit, 0, &decls, &sx_rules()).unwrap();
    assert_eq!(
        text,
        "#[repr(C)]\npub struct Age (u8) ;\npub fn zero() {\n}\n#[no_mangle]\npub extern \"C\" fn zero_ffi() {\n}\n"
    );
    let mut annotated = age;
    annotated.attrs.push(sx_attr("repr", "repr(C)"));
    assert_eq!(unit.items[0], Item::Product(annotated));
    assert_eq!(text, render_unit(&unit, &decls[1..].to_vec()));
    assert!(syn::parse_file(&text).is_ok());
}

#[test]
fn a_declaration_that_does_not_parse_fails_the_unit() {
    let mut unit = SourceUnit { name: "bad.rs".to_string(), items: vec![Item::Function(sx_fn("ok", ""))] };
    let decls = vec![sx_entry(5, "elsewhere_ffi", "("), sx_entry(0, "fine_ffi", ""), sx_entry(0, "broken_ffi", "(")];
    match emit_unit(&mut unit, 0, &decls, &sx_rules()) {
        Err(e) => {
            assert_eq!(e.unit, "bad.rs");
            assert_eq!(e.declaration, Some(1));
            assert!(!e.reason.is_empty());
        },
        Ok(_) => panic!("accepted"),
    }
}

#[test]
fn a_unit_that_does_not_parse_as_a_whole_fails() {
    let mut unit = SourceUnit {
        name: "torn.rs".to_string(),
        items: vec![Item::Other("fn half (".to_string())],
    };
    match emit_unit(&mut unit, 0, &vec![sx_entry(0, "fine_ffi", "")], &sx_rules()) {
        Err(e) => {
            assert_eq!(e.unit, "torn.rs");
            assert_eq!(e.declaration, None);
            assert!(!e.reason.is_empty());
        },
        Ok(_) => panic!("accepted"),
    }
}

#[test]
fn the_boundary_can_go_into_a_file_of_its_own() {
    let decls = vec![sx_entry(0, "a_ffi", ""), sx_entry(3, "b_ffi", "1 ;")];
    let text = emit_bridge("bridge_ffi.rs", &decls).unwrap();
    assert_eq!(
        text,
        "#[no_mangle]\npub extern \"C\" fn a_ffi() {\n}\n#[no_mangle]\npub extern \"C\" fn b_ffi() {\n1 ;\n}\n"
    );
    assert_eq!(emit_bridge("bridge_ffi.rs", &Vec::new()), Ok(String::new()));
    let broken = vec![sx_entry(0, "a_ffi", ""), sx_entry(0, "b_ffi", "(")];
    match emit_bridge("bridge_ffi.rs", &broken) {
        Err(e) => {
            assert_eq!(e.unit, "bridge_ffi.rs");
            assert_eq!(e.declaration, Some(1));
        },
        Ok(_) => panic!("accepted"),
    }
}

#[test]
fn the_first_pass_annotates_and_then_collects() {
    let mut outer = sx_fn("outer", "");
    outer.body = vec![Item::Product(Aggregate {
        attrs: Vec::new(),
        vis: Visibility::Public,
        name: "Local".to_string(),
        generics: String::new(),
        field_types: vec!["String".to_string()],
        body: "(String) ;".to_string(),
    })];
    let mut unit = SourceUnit { name: "a.rs".to_string(), items: vec![Item::Function(outer)] };
    let mut acc = Accumulator { types: Vec::new(), candidates: Vec::new(), exposed: Vec::new() };
    scan_unit(&mut unit, 3, &sx_rules(), &mut acc);
    let local = match &unit.items[0] {
        Item::Function(f) => f.body[0].clone(),
        _ => panic!("the function is gone"),
    };
    match &local {
        Item::Product(a) => assert_eq!(a.attrs, vec![sx_attr("repr", "repr(C)")]),
        _ => panic!("the type is gone"),
    }
    assert_eq!(acc.candidates.len(), 1);
    assert_eq!(acc.candidates[0].unit, 3);
    assert_eq!(acc.candidates[0].decl.body, vec![local]);
    assert_eq!(acc.types.len(), 1);
    assert_eq!(acc.types[0].name, "Local");
}

#[test]
fn a_source_file_is_parsed_into_its_tree() {
    let file = parse_source("pub struct Age(u8);\nfn main() {}\n").unwrap();
    assert_eq!(file.items.len(), 2);
    assert!(matches!(file.items[0], syn::Item::Struct(_)));
    assert!(matches!(file.items[1], syn::Item::Fn(_)));
    assert_eq!(parse_source("").unwrap().items.len(), 0);
    let refused = parse_source("pub struct ;");
    assert!(refused.is_err());
    assert_eq!(refused.unwrap_err(), syn::parse_file("pub struct ;").unwrap_err().to_string());
}
