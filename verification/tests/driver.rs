use schism::ast::ModulePath;
use schism::ast::Sect;
use schism::ast::UseDecl;
use schism::ast::Definition;
use schism::ast::FunctionDef;
use schism::ast::StackEffect;
use schism::ast::StackImage;
use schism::compiler::Compiler;
use schism::compiler::path_to_sect;
use schism::errors::CompilationError;

fn unit_using(dep: &str) -> Sect {
    Sect {
        uses: vec![UseDecl {
            sect: ModulePath(dep.to_string()),
            type_names: vec![],
            function_names: vec![],
        }],
        defs: vec![],
    }
}

#[test]
fn module_cycle_is_compiled_with_each_module_parsed_once() {
    // A uses B, B uses C, C uses A: the closure terminates and each of the
    // three is recorded exactly once.
    let mut comp = Compiler::new(vec![]);
    comp.enqueue_sources(vec!["A".to_string()]);
    let mut parsed: Vec<String> = Vec::new();
    while let Some(m) = comp.next_pending() {
        let unit = match m.0.as_str() {
            "A" => unit_using("B"),
            "B" => unit_using("C"),
            "C" => unit_using("A"),
            other => panic!("unexpected module {:?}", other),
        };
        parsed.push(m.0.clone());
        comp.record_sect(m, unit);
    }
    parsed.sort();
    assert_eq!(vec!["A".to_string(), "B".to_string(), "C".to_string()], parsed);
    assert_eq!(3, comp.sect_count());
    assert!(comp.is_loaded(&ModulePath("A".to_string())));
    assert!(comp.is_loaded(&ModulePath("B".to_string())));
    assert!(comp.is_loaded(&ModulePath("C".to_string())));
}

#[test]
fn diamond_dependencies_are_parsed_once_each() {
    // A uses B and C; both use D.
    let mut comp = Compiler::new(vec![]);
    comp.enqueue_sources(vec!["A".to_string()]);
    let mut count = 0;
    while let Some(m) = comp.next_pending() {
        let unit = match m.0.as_str() {
            "A" => Sect {
                uses: vec![
                    UseDecl {
                        sect: ModulePath("B".to_string()),
                        type_names: vec![],
                        function_names: vec![],
                    },
                    UseDecl {
                        sect: ModulePath("C".to_string()),
                        type_names: vec![],
                        function_names: vec![],
                    },
                ],
                defs: vec![],
            },
            "B" => unit_using("D"),
            "C" => unit_using("D"),
            "D" => Sect { uses: vec![], defs: vec![] },
            other => panic!("unexpected module {:?}", other),
        };
        count += 1;
        comp.record_sect(m, unit);
    }
    assert_eq!(4, count);
    assert_eq!(4, comp.sect_count());
}

fn dummy_def() -> Definition {
    Definition::Function(FunctionDef {
        name: "f".to_string(),
        type_params: vec![],
        effect: StackEffect {
            effect_domains: vec![],
            before: StackImage { context: None, stack: vec![] },
            after: StackImage { context: None, stack: vec![] },
        },
        body: vec![],
    })
}

#[test]
fn fresh_names_for_one_type_var_get_distinct_discriminators() {
    let mut comp = Compiler::new(vec![]);
    let a = ModulePath("a".to_string());
    let b = ModulePath("b".to_string());
    let n1 = comp.instantiate_type_param(a, dummy_def(), "`T".to_string());
    let n2 = comp.instantiate_type_param(b, dummy_def(), "`T".to_string());
    assert_ne!(n1, n2);
    assert_eq!("`T", n1.0);
    assert_eq!("`T", n2.0);
    assert_eq!(1, n1.1);
    assert_eq!(2, n2.1);
}

#[test]
fn fresh_names_for_different_type_vars_never_collide() {
    let mut comp = Compiler::new(vec![]);
    let a = ModulePath("a".to_string());
    let n1 = comp.instantiate_type_param(a.clone(), dummy_def(), "`T".to_string());
    let n2 = comp.instantiate_type_param(a, dummy_def(), "`U".to_string());
    assert_ne!(n1.0, n2.0);
    assert_ne!(n1, n2);
    assert_eq!(2, comp.type_parameter_instantiations.len());
}

#[test]
fn missing_module_fails_fast_with_its_exact_path() {
    let comp = Compiler::new(vec!["lib".to_string()]);
    let sect = ModulePath("deep.missing".to_string());
    let candidates = comp.candidate_paths(&sect);
    assert_eq!(vec!["deep/missing.schism".to_string(), "lib/deep/missing.schism".to_string()],
        candidates);
    let exists = vec![false, false];
    match comp.resolve_from(sect, &candidates, &exists) {
        Err(CompilationError::ModuleNotFoundError(p)) => assert_eq!("deep.missing", p.0),
        other => panic!("expected a module-not-found error, got {:?}", other),
    }
}

#[test]
fn resolution_picks_the_first_existing_candidate() {
    let comp = Compiler::new(vec!["one".to_string(), "two".to_string()]);
    let sect = ModulePath("m".to_string());
    let candidates = comp.candidate_paths(&sect);
    assert_eq!(
        vec!["m.schism".to_string(), "one/m.schism".to_string(), "two/m.schism".to_string()],
        candidates
    );
    let exists = vec![false, true, true];
    assert_eq!(Ok("one/m.schism".to_string()), comp.resolve_from(sect, &candidates, &exists));
}

#[test]
fn source_identifiers_drop_the_file_extension() {
    assert_eq!("A", path_to_sect(&"A".to_string()).0);
    assert_eq!("a.b", path_to_sect(&"a.b.schism".to_string()).0);
    assert_eq!("short", path_to_sect(&"short".to_string()).0);
}

#[test]
fn register_source_hands_out_sequential_ids() {
    let mut comp = Compiler::new(vec![]);
    assert_eq!(0, comp.register_source("a.schism".to_string()));
    assert_eq!(1, comp.register_source("b.schism".to_string()));
    assert_eq!(vec!["a.schism".to_string(), "b.schism".to_string()], comp.paths);
}

#[test]
fn module_paths_convert_between_forms() {
    let p = ModulePath::new(vec!["lib".to_string(), "data".to_string(), "queue".to_string()]);
    assert_eq!("lib.data.queue", p.0);
    assert_eq!("lib/data/queue", p.to_file_syntax());
    assert_eq!(vec!["lib".to_string(), "data".to_string(), "queue".to_string()], p.segments());
}
