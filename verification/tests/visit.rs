use rush_env::condition::{Condition, Conditions, Facts, Predicate};
use rush_env::env_map::EnvMap;
use rush_env::env_source::EnvSource;
use rush_env::language::{Language, Languages};
use rush_env::path::{Path, Paths};
use rush_env::platform::{Platform, ARCH, OS};
use rush_env::plugin::{Plugin, Plugins};
use rush_env::proxy::Proxy;
use rush_env::rush::Rush;
use rush_env::script::alias::AliasScript;
use rush_env::script::eval::EvalScript;
use rush_env::script::export::ExportScript;
use rush_env::script::function::{re_indent, FunctionScript};
use rush_env::script::raw::RawScript;
use rush_env::script::source::SourceScript;
use rush_env::script::var::VarScript;
use rush_env::script::{Script, Scripts};
use rush_env::tool::{Tool, Tools};
use rush_env::vars::expand_env;
use rush_env::visitor::{VisitorContext, VisitorError};

fn linux_x86() -> Platform {
    Platform { os: Some(OS::linux), arch: Some(ARCH::x86_64) }
}

fn always() -> Condition {
    Condition(Predicate::Always)
}

fn never() -> Condition {
    Condition(Predicate::Not(Box::new(Condition(Predicate::Always))))
}

fn fresh_ctx() -> VisitorContext {
    VisitorContext::new(EnvMap::new(), Facts::new(linux_x86()))
}

#[test]
fn all_of_no_children_holds() {
    let facts = Facts::new(linux_x86());
    let p = Predicate::All(Conditions(Vec::new()));
    assert!(p.check(&facts));
}

#[test]
fn any_of_no_children_fails() {
    let facts = Facts::new(linux_x86());
    let p = Predicate::Any(Conditions(Vec::new()));
    assert!(!p.check(&facts));
}

#[test]
fn predicate_combinators_and_probes() {
    let mut facts = Facts::new(linux_x86());
    facts.commands.push("git".to_string());
    facts.files.push("/etc/hosts".to_string());
    facts.dirs.push("/tmp".to_string());
    assert!(Predicate::Has("git".to_string()).check(&facts));
    assert!(!Predicate::Has("hg".to_string()).check(&facts));
    assert!(Predicate::FileExists("/etc/hosts".to_string()).check(&facts));
    assert!(!Predicate::LinkExists("/etc/hosts".to_string()).check(&facts));
    assert!(Predicate::DirExists("/tmp".to_string()).check(&facts));
    let both = Predicate::All(Conditions(vec![
        Predicate::Has("git".to_string()),
        Predicate::DirExists("/tmp".to_string()),
    ]));
    assert!(both.check(&facts));
    let neither = Predicate::Any(Conditions(vec![
        Predicate::Has("hg".to_string()),
        Predicate::FileExists("/nope".to_string()),
    ]));
    assert!(!neither.check(&facts));
    assert!(Predicate::Not(Box::new(Condition(neither))).check(&facts));
}

#[test]
fn platform_predicate_matches_by_axis() {
    let facts = Facts::new(linux_x86());
    assert!(Predicate::Platform(Platform { os: Some(OS::linux), arch: None }).check(&facts));
    assert!(Predicate::Platform(Platform { os: None, arch: None }).check(&facts));
    assert!(!Predicate::Platform(Platform { os: Some(OS::macos), arch: None }).check(&facts));
    assert!(!Predicate::Platform(Platform { os: Some(OS::linux), arch: Some(ARCH::aarch64) })
        .check(&facts));
}

#[test]
fn platform_names_and_tags() {
    assert_eq!(OS::linux.as_str(), "linux");
    assert_eq!(ARCH::aarch64.as_str(), "aarch64");
    assert_eq!(linux_x86().as_tag(), "linux-x86_64");
    assert_eq!(Platform { os: None, arch: Some(ARCH::x86_64) }.as_tag(), "unknown-x86_64");
    assert_eq!(Platform { os: Some(OS::macos), arch: None }.as_tag(), "macos");
    let r = Platform::resolve("linux", "x86_64");
    assert_eq!(r.os, Some(OS::linux));
    assert_eq!(r.arch, Some(ARCH::x86_64));
    assert_eq!(Platform::resolve("plan9", "mips").as_tag(), "unknown-unknown");
}

#[test]
fn export_emits_and_updates_environment() {
    let mut ctx = fresh_ctx();
    let node = ExportScript::new("EDITOR", "vim");
    assert!(node.visit(&mut ctx).is_ok());
    assert_eq!(ctx.out, "export EDITOR=\"vim\"\n");
    assert_eq!(ctx.env.get("EDITOR"), Some("vim".to_string()));
}

#[test]
fn export_of_path_name_is_refused() {
    let mut ctx = fresh_ctx();
    let node = ExportScript::new("pAtH", "/usr/bin");
    let err = node.visit(&mut ctx).unwrap_err();
    assert!(matches!(err, VisitorError::ExportPath(v) if v == "/usr/bin"));
    assert_eq!(ctx.out, "");
    assert_eq!(ctx.env.get("pAtH"), None);
    assert_eq!(ctx.env.get("PATH"), None);
}

#[test]
fn missing_source_standalone_propagates() {
    let mut ctx = fresh_ctx();
    let node = SourceScript { file: "/no/such/file".to_string(), condition: always() };
    let err = node.visit(&mut ctx).unwrap_err();
    assert!(matches!(err, VisitorError::SourceFileNotExist(f) if f == "/no/such/file"));
    assert_eq!(ctx.out, "");
}

#[test]
fn missing_source_in_list_is_swallowed() {
    let mut ctx = fresh_ctx();
    let list = Scripts(vec![
        Script::Source(SourceScript { file: "/no/such/file".to_string(), condition: always() }),
        Script::Raw(RawScript { script: "date".to_string(), condition: always() }),
    ]);
    assert!(list.visit(&mut ctx).is_ok());
    assert_eq!(ctx.out, "date\n");
    assert_eq!(ctx.skipped_sources, vec!["/no/such/file".to_string()]);
}

#[test]
fn source_expands_before_check_but_emits_original() {
    let mut env = EnvMap::new();
    env.set("HOME", "/home/me");
    let mut facts = Facts::new(linux_x86());
    facts.files.push("/home/me/.profile".to_string());
    let mut ctx = VisitorContext::new(env, facts);
    let node = SourceScript { file: "$HOME/.profile".to_string(), condition: always() };
    assert!(node.visit(&mut ctx).is_ok());
    assert_eq!(ctx.out, "source $HOME/.profile\n");
}

#[test]
fn paths_append_in_order_on_top_of_existing() {
    let mut env = EnvMap::new();
    env.set("PATH", "/usr/bin");
    let mut ctx = VisitorContext::new(env, Facts::new(linux_x86()));
    let list = Paths(vec![Path("/a/bin".to_string()), Path("/b/bin".to_string())]);
    assert!(list.visit(&mut ctx).is_ok());
    assert_eq!(ctx.env.get("PATH"), Some("/usr/bin:/a/bin:/b/bin".to_string()));
    assert_eq!(ctx.paths, vec!["/a/bin".to_string(), "/b/bin".to_string()]);
}

#[test]
fn path_entry_with_separator_is_refused() {
    let mut env = EnvMap::new();
    env.set("PATH", "/usr/bin");
    let mut ctx = VisitorContext::new(env, Facts::new(linux_x86()));
    let err = Path("/a:/b".to_string()).visit(&mut ctx).unwrap_err();
    assert!(matches!(err, VisitorError::JoinPathsError(p) if p == "/a:/b"));
    assert_eq!(ctx.env.get("PATH"), Some("/usr/bin".to_string()));
    assert!(ctx.paths.is_empty());
}

#[test]
fn path_without_existing_path_only_records() {
    let mut ctx = fresh_ctx();
    assert!(Path("/a/bin".to_string()).visit(&mut ctx).is_ok());
    assert_eq!(ctx.env.get("PATH"), None);
    assert_eq!(ctx.paths, vec!["/a/bin".to_string()]);
}

#[test]
fn function_body_is_reindented() {
    assert_eq!(re_indent("\n  echo hi\n    echo bye\n", "    "), "    echo hi\n      echo bye");
    let mut ctx = fresh_ctx();
    let node = FunctionScript {
        name: "greet".to_string(),
        body: "\n  echo hi\n    echo bye\n".to_string(),
        condition: always(),
    };
    assert!(node.visit(&mut ctx).is_ok());
    assert_eq!(ctx.out, "function greet {\n    echo hi\n      echo bye\n}\n");
}

#[test]
fn reindent_keeps_blank_lines_empty() {
    assert_eq!(re_indent("\ta\n\n\t\tb", "  "), "  a\n\n  \tb");
    assert_eq!(re_indent("", "  "), "");
}

#[test]
fn simple_script_lines() {
    let mut ctx = fresh_ctx();
    let list = Scripts(vec![
        Script::Alias(AliasScript {
            name: "ll".to_string(),
            command: "ls -l".to_string(),
            condition: always(),
        }),
        Script::Eval(EvalScript { script: "starship init zsh".to_string(), condition: always() }),
        Script::Var(VarScript {
            name: "HISTSIZE".to_string(),
            value: "10000".to_string(),
            condition: always(),
        }),
        Script::Raw(RawScript { script: "setopt autocd".to_string(), condition: always() }),
    ]);
    assert!(list.visit(&mut ctx).is_ok());
    assert_eq!(
        ctx.out,
        "alias ll=\"ls -l\"\neval $(starship init zsh)\nHISTSIZE=\"10000\"\nsetopt autocd\n"
    );
    assert_eq!(ctx.env.get("HISTSIZE"), None);
}

#[test]
fn guarded_script_is_inert() {
    let mut ctx = fresh_ctx();
    let node = AliasScript {
        name: "ll".to_string(),
        command: "ls -l".to_string(),
        condition: never(),
    };
    assert!(node.visit(&mut ctx).is_ok());
    assert_eq!(ctx.out, "");
}

#[test]
fn language_with_false_condition_changes_nothing() {
    let mut env = EnvMap::new();
    env.set("PATH", "/usr/bin");
    let mut ctx = VisitorContext::new(env, Facts::new(linux_x86()));
    let lang = Language {
        name: "node".to_string(),
        version: Some("20".to_string()),
        description: "javascript runtime".to_string(),
        condition: never(),
        scripts: Scripts(vec![Script::Raw(RawScript {
            script: "corepack enable".to_string(),
            condition: always(),
        })]),
        paths: Paths(vec![Path("/opt/node/bin".to_string())]),
    };
    assert!(lang.visit(&mut ctx).is_ok());
    assert_eq!(ctx.out, "");
    assert_eq!(ctx.env.get("PATH"), Some("/usr/bin".to_string()));
    assert_eq!(ctx.env.get("NODE_VERSION"), None);
    assert!(ctx.paths.is_empty());
}

#[test]
fn active_language_exports_version_then_paths_then_scripts() {
    let mut env = EnvMap::new();
    env.set("PATH", "/usr/bin");
    let mut ctx = VisitorContext::new(env, Facts::new(linux_x86()));
    let lang = Language {
        name: "node".to_string(),
        version: Some("20".to_string()),
        description: "javascript runtime".to_string(),
        condition: always(),
        scripts: Scripts(vec![Script::Raw(RawScript {
            script: "corepack enable".to_string(),
            condition: always(),
        })]),
        paths: Paths(vec![Path("/opt/node/bin".to_string())]),
    };
    assert!(lang.visit(&mut ctx).is_ok());
    assert_eq!(ctx.out, "export NODE_VERSION=\"20\"\ncorepack enable\n");
    assert_eq!(ctx.env.get("NODE_VERSION"), Some("20".to_string()));
    assert_eq!(ctx.env.get("PATH"), Some("/usr/bin:/opt/node/bin".to_string()));
    assert_eq!(ctx.paths, vec!["/opt/node/bin".to_string()]);
}

#[test]
fn plugin_exports_dir_and_records_it() {
    let mut ctx = fresh_ctx();
    let plug = Plugin {
        name: "fzf".to_string(),
        work_dir: "/opt/fzf".to_string(),
        condition: always(),
        scripts: Scripts(vec![Script::Source(SourceScript {
            file: "$FZF_DIR/key-bindings.zsh".to_string(),
            condition: always(),
        })]),
    };
    ctx.facts.files.push("/opt/fzf/key-bindings.zsh".to_string());
    assert!(plug.visit(&mut ctx).is_ok());
    assert_eq!(
        ctx.out,
        "export FZF_DIR=\"/opt/fzf\"\nsource $FZF_DIR/key-bindings.zsh\n"
    );
    assert_eq!(ctx.plugin_work_dirs, vec!["/opt/fzf".to_string()]);
}

#[test]
fn document_walk_keeps_declaration_order() {
    let mut env = EnvMap::new();
    env.set("PATH", "/bin");
    let mut facts = Facts::new(linux_x86());
    facts.files.push("hello/rc".to_string());
    let mut ctx = VisitorContext::new(env, facts);
    let doc = Rush {
        proxy: Proxy {
            scripts: Scripts(vec![Script::Raw(RawScript {
                script: "# proxy".to_string(),
                condition: always(),
            })]),
        },
        plugins: Plugins(Vec::new()),
        functions: Scripts(Vec::new()),
        aliases: Scripts(vec![Script::Alias(AliasScript {
            name: "g".to_string(),
            command: "git".to_string(),
            condition: always(),
        })]),
        envs: Scripts(vec![Script::Export(ExportScript::new("FOO", "hello"))]),
        languages: Languages(vec![Language {
            name: "sh".to_string(),
            version: None,
            description: "shell".to_string(),
            condition: always(),
            scripts: Scripts(vec![Script::Source(SourceScript {
                file: "$FOO/rc".to_string(),
                condition: always(),
            })]),
            paths: Paths(Vec::new()),
        }]),
        tools: Tools(vec![Tool {
            name: "rg".to_string(),
            version: Some("14".to_string()),
            description: "search".to_string(),
            condition: always(),
            scripts: Scripts(Vec::new()),
            paths: Paths(Vec::new()),
        }]),
    };
    assert!(doc.visit(&mut ctx).is_ok());
    assert_eq!(
        ctx.out,
        "# proxy\nalias g=\"git\"\nexport FOO=\"hello\"\nsource $FOO/rc\nexport RG_VERSION=\"14\"\n"
    );
}

#[test]
fn document_walk_stops_at_fatal_error() {
    let mut ctx = fresh_ctx();
    let doc = Rush {
        proxy: Proxy { scripts: Scripts(Vec::new()) },
        plugins: Plugins(Vec::new()),
        functions: Scripts(Vec::new()),
        aliases: Scripts(Vec::new()),
        envs: Scripts(vec![
            Script::Export(ExportScript::new("PATH", "/evil")),
            Script::Raw(RawScript { script: "never".to_string(), condition: always() }),
        ]),
        languages: Languages(Vec::new()),
        tools: Tools(Vec::new()),
    };
    let err = doc.visit(&mut ctx).unwrap_err();
    assert!(matches!(err, VisitorError::ExportPath(v) if v == "/evil"));
    assert_eq!(ctx.out, "");
}

#[test]
fn later_exports_are_seen_by_later_expansions() {
    let mut ctx = fresh_ctx();
    let first = ExportScript::new("A", "one");
    assert!(first.visit(&mut ctx).is_ok());
    assert_eq!(expand_env("${A:-two}", &ctx.env), "one");
    assert_eq!(expand_env("${B:-two}", &ctx.env), "two");
}

#[test]
fn error_messages_name_the_offender() {
    assert_eq!(
        VisitorError::ExportPath("/x".to_string()).message(),
        "Cannot export ${PATH} using '<export>': /x. Consider using '<path>' instead."
    );
    assert_eq!(
        VisitorError::SourceFileNotExist("f.sh".to_string()).message(),
        "Not found source file: f.sh."
    );
    assert_eq!(
        VisitorError::JoinPathsError("/a:/b".to_string()).message(),
        "Cannot join search path entry: /a:/b."
    );
}

#[test]
fn node_tags_describe_the_schema() {
    assert_eq!(AliasScript::tag(), "<alias name>");
    assert_eq!(EvalScript::tag(), "<eval>");
    assert_eq!(ExportScript::tag(), "<export name>");
    assert_eq!(FunctionScript::tag(), "<function name>");
    assert_eq!(RawScript::tag(), "<raw>");
    assert_eq!(SourceScript::tag(), "<source>");
    assert_eq!(VarScript::tag(), "<var name>");
    assert_eq!(Path::tag(), "<path>");
    assert_eq!(Plugin::tag(), "<plugin name work_dir>");
    assert_eq!(Language::tag(), "<language>");
}
