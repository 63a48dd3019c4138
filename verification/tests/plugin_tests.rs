use ts_native::extension::{
    find_plugin_crates, is_allowed_plugin, ArgType, CargoMetadata, CargoPackage, CargoToml,
    choose_manifest, Extension, ExtensionPackage, ExtensionRegistry, ExternalFunction, LinkConfig,
    ManifestSource, RetType, TsNativeMetadata,
};
use ts_native::linker::{link_inputs, merged_link_config, Linker};

fn function(impl_name: &str) -> ExternalFunction {
    ExternalFunction { args: vec![ArgType::Number], ret: RetType::Number, impl_name: impl_name.to_string(), is_property: false }
}

fn extension(name: &str, fns: &[(&str, &str)], libs: &[&str], flags: &[&str]) -> Extension {
    Extension {
        package: ExtensionPackage { name: name.to_string(), version: "0.1.0".to_string(), description: String::new() },
        functions: fns.iter().map(|(ts, c)| (ts.to_string(), function(c))).collect(),
        link: LinkConfig {
            runtime: None,
            lib: None,
            libs: libs.iter().map(|s| s.to_string()).collect(),
            flags: flags.iter().map(|s| s.to_string()).collect(),
            ffi: None,
        },
    }
}

#[test]
fn registry_maps_names_to_symbols() {
    let mut reg = ExtensionRegistry::new();
    assert!(!reg.is_external_function("http_get"));
    reg.register(extension("net", &[("http_get", "tsn_http_get"), ("ping", "tsn_ping")], &[], &[]));
    assert!(reg.is_external_function("http_get"));
    assert_eq!(reg.get_c_name("http_get").map(|s| s.as_str()), Some("tsn_http_get"));
    assert_eq!(reg.get_c_name("ping").map(|s| s.as_str()), Some("tsn_ping"));
    assert_eq!(reg.get_c_name("nope"), None);
}

#[test]
fn later_registration_replaces_a_name() {
    let mut reg = ExtensionRegistry::new();
    reg.register(extension("a", &[("f", "a_f")], &[], &[]));
    reg.register(extension("b", &[("f", "b_f"), ("g", "b_g")], &[], &[]));
    assert_eq!(reg.get_c_name("f").map(|s| s.as_str()), Some("b_f"));
    assert_eq!(reg.get_c_name("g").map(|s| s.as_str()), Some("b_g"));
    assert_eq!(reg.extensions.len(), 2);
}

#[test]
fn merged_link_config_lists_each_library_once() {
    let mut reg = ExtensionRegistry::new();
    reg.register(extension("a", &[], &["ws2_32", "m"], &["-pthread"]));
    reg.register(extension("b", &[], &["m", "ssl"], &["-pthread", "-O2"]));
    let cfg = merged_link_config(&reg);
    assert_eq!(cfg.libs, vec!["ws2_32", "m", "ssl"]);
    assert_eq!(cfg.flags, vec!["-pthread", "-O2"]);
    assert!(cfg.runtime.is_none());
}

#[test]
fn merged_link_config_keeps_the_single_lib_first() {
    let mut reg = ExtensionRegistry::new();
    let mut e1 = extension("a", &[], &["ssl"], &["-g"]);
    e1.link.lib = Some("curl".to_string());
    reg.register(e1);
    reg.register(extension("b", &[], &["ssl", "crypto"], &["-g"]));
    let cfg = merged_link_config(&reg);
    assert_eq!(cfg.libs, vec!["curl", "ssl", "crypto"]);
    assert_eq!(cfg.flags, vec!["-g"]);
}

#[test]
fn manifest_choice() {
    assert_eq!(choose_manifest(Some(true), true), ManifestSource::Listed);
    assert_eq!(choose_manifest(Some(false), true), ManifestSource::Default);
    assert_eq!(choose_manifest(None, true), ManifestSource::Default);
    assert_eq!(choose_manifest(Some(false), false), ManifestSource::Missing);
    assert_eq!(choose_manifest(None, false), ManifestSource::Missing);
}

#[test]
fn plugin_filter() {
    assert!(is_allowed_plugin(None, "anything"));
    let list = vec!["json".to_string(), "net".to_string()];
    assert!(is_allowed_plugin(Some(&list), "net"));
    assert!(!is_allowed_plugin(Some(&list), "fs"));
}

fn manifest(plugin: bool) -> CargoToml {
    CargoToml {
        dependencies: vec![],
        package: CargoPackage { metadata: CargoMetadata { ts_native: Some(TsNativeMetadata { plugin, manifest: None }) } },
    }
}

#[test]
fn plugin_crates_are_those_marked_as_plugins() {
    let names = vec!["a".to_string(), "b".to_string(), "c".to_string()];
    let manifests = vec![Some(manifest(true)), None, Some(manifest(false))];
    assert_eq!(find_plugin_crates(&names, &manifests), vec!["a".to_string()]);
    assert!(manifest(true).is_plugin());
    assert!(!CargoToml { dependencies: vec![], package: CargoPackage::default() }.is_plugin());
}

#[test]
fn windows_link_arguments() {
    let cfg = LinkConfig { runtime: None, lib: None, libs: vec!["user32".to_string()], flags: vec!["/DEBUG".to_string()], ffi: None };
    let l = Linker::new("app.exe", cfg);
    let args = l.windows_args(&["main.o", "start_nocrt.o"], None);
    assert_eq!(
        args,
        vec![
            "/NOLOGO", "/ENTRY:_start", "/SUBSYSTEM:CONSOLE", "/OUT:app.exe", "main.o", "start_nocrt.o",
            "user32.lib", "kernel32.lib", "shell32.lib", "legacy_stdio_definitions.lib", "/DEBUG",
        ]
    );
    let args = l.windows_args(&["main.o"], Some("crt.o".to_string()));
    assert_eq!(args[1], "/ENTRY:mainCRTStartup");
    assert_eq!(args[5], "crt.o");
}

#[test]
fn unix_link_arguments() {
    let cfg = LinkConfig { runtime: None, lib: None, libs: vec!["m".to_string()], flags: vec!["-s".to_string()], ffi: None };
    let l = Linker::new("app", cfg);
    assert_eq!(l.unix_args(&["main.o"], true), vec!["-o", "app", "-no-pie", "main.o", "-lm", "-s"]);
    assert_eq!(l.unix_args(&["main.o"], false), vec!["-o", "app", "main.o", "-lm", "-s"]);
}

#[test]
fn linker_programs_and_paths() {
    assert_eq!(Linker::windows_linker(None), "link.exe");
    assert_eq!(Linker::windows_linker(Some("lld-link".to_string())), "lld-link");
    assert_eq!(Linker::unix_driver(None, None), "cc");
    assert_eq!(Linker::unix_driver(None, Some("gcc".to_string())), "gcc");
    assert_eq!(Linker::unix_driver(Some("clang".to_string()), Some("gcc".to_string())), "clang");
    assert_eq!(Linker::normalize_path("\\\\?\\C:\\x"), "C:\\x");
    assert_eq!(Linker::normalize_path("/tmp/x"), "/tmp/x");
}

#[test]
fn object_files_for_the_linker() {
    assert_eq!(link_inputs("out.o", true, true), vec!["out.o", "start_nocrt.o", "runtime_nocrt.o"]);
    assert_eq!(link_inputs("out.o", false, false), vec!["out.o"]);
}
