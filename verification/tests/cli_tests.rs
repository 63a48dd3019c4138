use ts_native::cli::{
    dependency_file_name, executable_name, object_file_name, parse_cli, replaced, should_link,
    CliCommand,
};
use ts_native::codegen::HirExpr;
use ts_native::outline::parse_simple;

fn args(v: &[&str]) -> Vec<String> {
    v.iter().map(|s| s.to_string()).collect()
}

#[test]
fn test_flag_and_usage() {
    assert!(matches!(parse_cli(&args(&["tsn", "--test"])), CliCommand::SelfTest));
    assert!(matches!(parse_cli(&args(&["tsn"])), CliCommand::Usage));
}

#[test]
fn input_output_and_flags_are_read() {
    match parse_cli(&args(&["tsn", "main.ts", "-o", "out.exe", "--skip-check"])) {
        CliCommand::Build(o) => {
            assert_eq!(o.input_file, "main.ts");
            assert_eq!(o.output_file, "out.exe");
            assert!(o.skip_check);
            assert!(!o.gen_syntax_md);
        }
        _ => panic!("expected a build"),
    }
}

#[test]
fn only_the_first_plain_argument_is_the_input() {
    match parse_cli(&args(&["tsn", "a.ts", "b.ts", "--output", "x", "--gen-syntax-md", "-z"])) {
        CliCommand::Build(o) => {
            assert_eq!(o.input_file, "a.ts");
            assert_eq!(o.output_file, "x");
            assert!(o.gen_syntax_md);
            assert!(!o.skip_check);
        }
        _ => panic!("expected a build"),
    }
}

#[test]
fn trailing_output_flag_without_value_is_ignored() {
    match parse_cli(&args(&["tsn", "-o"])) {
        CliCommand::Build(o) => {
            assert_eq!(o.input_file, "");
            assert_eq!(o.output_file, "");
        }
        _ => panic!("expected a build"),
    }
}

#[test]
fn object_and_executable_names() {
    assert_eq!(object_file_name("app.exe"), "app.o");
    assert_eq!(object_file_name("app.o"), "app.o");
    assert_eq!(object_file_name("app"), "app.o");
    assert_eq!(object_file_name("my.exe.dir/app.exe"), "my.o.dir/app.o");
    assert!(should_link("app.exe"));
    assert!(should_link("app.o"));
    assert!(!should_link("app"));
    assert_eq!(executable_name("app.exe"), "app.exe");
    assert_eq!(executable_name("app.o"), "app.exe");
}

#[test]
fn replacement_is_left_to_right_without_overlap() {
    assert_eq!(replaced("aaa", "aa", "b"), "ba");
    assert_eq!(replaced("x.o.o", ".o", ".exe"), "x.exe.exe");
    assert_eq!(replaced("none", "zz", "y"), "none");
}

#[test]
fn quick_scan_finds_function_headers() {
    let src = "  function add ( a , b ) {\nlet x = 1;\nfunction main() {}\r\nfunction broken(\n";
    let p = parse_simple(src);
    assert_eq!(p.len(), 2);
    match &p[0] {
        HirExpr::Function { name, params, body } => {
            assert_eq!(name, "add");
            assert_eq!(params, &vec!["a".to_string(), "b".to_string()]);
            assert!(body.is_empty());
        }
        _ => panic!("expected a function"),
    }
    match &p[1] {
        HirExpr::Function { name, params, .. } => {
            assert_eq!(name, "main");
            assert!(params.is_empty());
        }
        _ => panic!("expected a function"),
    }
}

#[test]
fn quick_scan_without_functions_gives_main_returning_zero() {
    let p = parse_simple("let x = 1;\n");
    assert_eq!(p.len(), 1);
    match &p[0] {
        HirExpr::Function { name, params, body } => {
            assert_eq!(name, "main");
            assert!(params.is_empty());
            assert_eq!(body.len(), 1);
            assert!(matches!(&body[0], HirExpr::Return(Some(b)) if matches!(**b, HirExpr::Number(0))));
        }
        _ => panic!("expected a function"),
    }
}

#[test]
fn dependency_file_sits_beside_the_source() {
    assert_eq!(dependency_file_name("main.ts"), "main.ts.toml");
    assert_eq!(dependency_file_name("dir/app.ts"), "dir/app.ts.toml");
}
