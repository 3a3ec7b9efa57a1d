use oxide_emit::builtins::{builtin_globals, non_writable_global_builtins, restricted_global_lexical_names};
use oxide_emit::ctx::CompileCtx;
use oxide_emit::restricted::check_restricted_global_lexical;

#[test]
fn restricted_lexical_names_within_builtin_globals() {
    let builtins = builtin_globals();
    for name in restricted_global_lexical_names() {
        assert!(builtins.contains(&name), "受限全局名缺失于 builtin 名单：{name}");
    }
}

#[test]
fn readonly_and_writable_partition_builtin_globals() {
    let builtins = builtin_globals();
    let readonly_names = non_writable_global_builtins();
    for name in &readonly_names {
        assert!(builtins.contains(name), "只读全局名缺失于 builtin 名单：{name}");
    }
    for name in &builtins {
        let readonly = readonly_names.contains(name);
        let writable = CompileCtx::is_writable_builtin_global(name);
        assert!(readonly ^ writable, "builtin 名只读/可写归属漂移：{name}");
    }
}

#[test]
fn deletable_global_builtins_derive_from_writable_partition() {
    let readonly_names = non_writable_global_builtins();
    for name in builtin_globals() {
        let deletable = CompileCtx::is_deletable_global_builtin(name);
        let writable = CompileCtx::is_writable_builtin_global(name);
        assert!(!deletable || writable, "可删名缺失于可写划分：{name}");
        if readonly_names.contains(&name) {
            assert!(!deletable, "只读三常量名误入可删集：{name}");
        }
    }
    assert!(!CompileCtx::is_deletable_global_builtin("$262"), "不可删名误入可删集：$262");
}

#[test]
fn builtin_table_has_sixty_five_names_ending_with_host() {
    let builtins = builtin_globals();
    assert_eq!(builtins.len(), 65);
    assert_eq!(builtins[0], "NaN");
    assert_eq!(builtins[64], "$262");
}

#[test]
fn known_builtin_queries() {
    assert!(CompileCtx::is_known_builtin("parseInt"));
    assert!(CompileCtx::is_known_builtin("$262"));
    assert!(!CompileCtx::is_known_builtin("parseint"));
    assert!(CompileCtx::is_non_writable_global_builtin("NaN"));
    assert!(!CompileCtx::is_non_writable_global_builtin("eval"));
    assert!(CompileCtx::is_writable_builtin_global("eval"));
    assert!(!CompileCtx::is_writable_builtin_global("undefined"));
    assert!(!CompileCtx::is_writable_builtin_global("notABuiltin"));
    assert!(CompileCtx::is_deletable_global_builtin("Math"));
    assert!(!CompileCtx::is_deletable_global_builtin("Infinity"));
}

#[test]
fn restricted_lexical_declaration_is_refused_only_at_top_level() {
    let err = check_restricted_global_lexical("undefined", true).unwrap_err();
    assert_eq!(err, "Identifier 'undefined' has already been declared");
    assert_eq!(
        check_restricted_global_lexical("Infinity", true),
        Err("Identifier 'Infinity' has already been declared".to_string())
    );
    assert_eq!(check_restricted_global_lexical("undefined", false), Ok(()));
    assert_eq!(check_restricted_global_lexical("eval", true), Ok(()));
    assert_eq!(check_restricted_global_lexical("x", true), Ok(()));
}
