use cargo_mre::project::{library_name, manifest_imsi_of, named_manifest, package_name_of};
use cargo_mre::recipe::{
    cargo_build_args, is_static_library, link_args, objcopy_args, output_file_name,
    rust_library_path, sdk_artifact_path, shim_args, shim_object_path, shim_source_path,
};

#[test]
fn package_name_from_first_name_line() {
    let toml = "[package]\nname = \"hello-mre\"\nversion = \"0.1.0\"\n\n[dependencies]\nname = \"other\"\n";
    assert_eq!(package_name_of(toml), Some("hello-mre".to_string()));
}

#[test]
fn package_name_needs_the_exact_prefix() {
    assert_eq!(package_name_of("  name = \"indented\"\nname=\"tight\"\n"), None);
    assert_eq!(package_name_of(""), None);
    assert_eq!(package_name_of("name = no quotes\nname = \"late\"\n"), None);
}

#[test]
fn package_name_without_closing_quote_runs_to_line_end() {
    assert_eq!(package_name_of("name = \"open\r\nx"), Some("open".to_string()));
    assert_eq!(package_name_of("name = \"last\r"), Some("last\r".to_string()));
    assert_eq!(package_name_of("x\r\nname = \"a\"b\"c\""), Some("a".to_string()));
}

#[test]
fn imsi_from_manifest() {
    let manifest = "{\n  \"name\": \"demo\",\n  \"imsi\": \" 460001234567890 \"\n}\n";
    assert_eq!(manifest_imsi_of(manifest), "460001234567890");
}

#[test]
fn imsi_defaults() {
    assert_eq!(manifest_imsi_of(""), "000000000000000");
    assert_eq!(manifest_imsi_of("{\"name\": \"x\"}"), "000000000000000");
    // the first line with the key decides, even without a value on it
    assert_eq!(manifest_imsi_of("\"imsi\"\n\"imsi\": \"1\"\n"), "000000000000000");
}

#[test]
fn imsi_is_trimmed_of_unicode_white_space() {
    assert_eq!(manifest_imsi_of("\"imsi\": \"\u{3000}\t123\u{a0}\""), "123");
    assert_eq!(manifest_imsi_of("\"imsi\": \"   \""), "");
}

#[test]
fn library_name_turns_dashes_into_underscores() {
    assert_eq!(library_name("my-mre-app"), "my_mre_app");
    assert_eq!(library_name("plain"), "plain");
    assert_eq!(library_name("--"), "__");
    assert_eq!(library_name(""), "");
}

#[test]
fn template_gets_the_package_name() {
    let template = "[package]\nname = \"my_mre_app\"\nversion = \"0.1.0\"\n";
    assert_eq!(
        named_manifest(template, "blinky"),
        "[package]\nname = \"blinky\"\nversion = \"0.1.0\"\n"
    );
    assert_eq!(named_manifest("no name here", "blinky"), "no name here");
    assert_eq!(
        named_manifest("name = \"my_mre_app\"name = \"my_mre_app\"", "b"),
        "name = \"b\"name = \"b\""
    );
}

#[test]
fn static_library_extension() {
    assert!(is_static_library("libvmsys.a"));
    assert!(is_static_library("x.tar.a"));
    assert!(is_static_library("lib..a"));
    assert!(!is_static_library(".a"));
    assert!(!is_static_library("a"));
    assert!(!is_static_library("libfoo.ab"));
    assert!(!is_static_library("libfoo.so"));
    assert!(!is_static_library(".."));
    assert!(!is_static_library(""));
}

#[test]
fn build_paths() {
    assert_eq!(
        rust_library_path("my_app"),
        "target/armv5te-unknown-linux-gnueabi/release/libmy_app.a"
    );
    assert_eq!(output_file_name("demo"), "demo.vxp");
    assert_eq!(sdk_artifact_path("demo", "axf"), "target/mre-sdk/demo.axf");
    assert_eq!(shim_source_path("diag.c"), "target/mre-sdk/sdk/shims/diag.c");
    assert_eq!(shim_object_path("diag.c"), "target/mre-sdk/diag.c.o");
}

#[test]
fn link_arguments_in_order() {
    let libs = vec!["target/mre-sdk/sdk/lib/a.a".to_string(), "b.a".to_string()];
    let args = link_args("out.axf", "librust.a", &libs);
    let expected = [
        "-o",
        "out.axf",
        "target/mre-sdk/c_fix.c.o",
        "target/mre-sdk/diag.c.o",
        "target/mre-sdk/gccmain.c.o",
        "librust.a",
        "-lstdc++",
        "target/mre-sdk/sdk/lib/a.a",
        "b.a",
        "-fno-threadsafe-statics",
        "-Wl,--gc-sections",
        "-fpic",
        "-fpcc-struct-return",
        "--disable-libstdcxx-verbose",
        "-pie",
        "-lm",
        "-T",
        "target/mre-sdk/sdk/scat.ld",
    ];
    assert_eq!(args, expected);
}

#[test]
fn shim_compile_arguments() {
    let args = shim_args("s.c", "s.o");
    assert_eq!(args.len(), 39);
    assert_eq!(&args[..6], ["-c", "-fpic", "-march=armv5te", "-fvisibility=hidden", "-Os", "-mlittle-endian"]);
    assert_eq!(&args[36..], ["s.c", "-o", "s.o"]);
    assert_eq!(args[35], "-ffunction-sections");
}

#[test]
fn tool_arguments() {
    assert_eq!(cargo_build_args(), ["build", "--target", "armv5te-unknown-linux-gnueabi", "--release"]);
    assert_eq!(
        objcopy_args("a.axf", "a.vxp"),
        ["-I", "elf32-little", "--add-section", ".vm_res=target/mre-sdk/sdk/resource.bin", "a.axf", "a.vxp"]
    );
}
