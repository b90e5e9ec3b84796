//! The command lines and file names of a project build: where the Rust
//! static library lands, which SDK archives are linked, and the arguments
//! handed to the cross compiler and linker.
use vstd::prelude::*;
use vstd::string::StringExecFns;
use crate::text::chars_of;

verus! {

/// The directory under the project that holds the extracted SDK.
pub const SDK_DIR: &'static str = "target/mre-sdk";

/// The C sources of the SDK that every application is linked with.
pub const SHIMS: [&'static str; 3] = ["c_fix.c", "diag.c", "gccmain.c"];

/// The extension of a file name, as `Path::extension` gives it: the text
/// after the last `'.'`, unless there is no `'.'`, the only one starts the
/// name, or the name is `".."`.
pub open spec fn extension(name: Seq<char>) -> Option<Seq<char>> {
    let dots = Set::new(|i: int| 0 <= i < name.len() && name[i] == '.');
    if name == seq!['.', '.'] || dots.is_empty() {
        None
    } else {
        let last = choose|i: int| dots.contains(i) && forall|j: int| dots.contains(j) ==> j <= i;
        if last == 0 {
            None
        } else {
            Some(name.skip(last + 1))
        }
    }
}

/// Whether the file called `name` is a static library, that is, its
/// extension is `a`.
pub fn is_static_library(name: &str) -> (b: bool)
    ensures
        b == (extension(name@) == Some(seq!['a'])),
{
    let v = chars_of(name);
    let n = v.len();
    let ghost dots = Set::new(|i: int| 0 <= i < v@.len() && v@[i] == '.');
    if n == 2 && v[0] == '.' && v[1] == '.' {
        assert(v@ =~= seq!['.', '.']);
        return false;
    }
    let mut i = n;
    while i > 0 && v[i - 1] != '.'
        invariant
            i <= n == v@.len(),
            forall|j: int| i <= j < n ==> v@[j] != '.',
        decreases i,
    {
        i = i - 1;
    }
    if i == 0 {
        assert(dots =~= Set::<int>::empty());
        return false;
    }
    let last = i - 1;
    assert(dots.contains(last as int));
    let ghost chosen = choose|k: int| dots.contains(k) && forall|j: int| dots.contains(j) ==> j <= k;
    assert(chosen == last as int);
    if last == 0 {
        return false;
    }
    let b = n - last == 2 && v[last + 1] == 'a';
    proof {
        let tail = v@.skip(last + 1);
        if n - last == 2 {
            assert(tail.len() == 1 && tail[0] == v@[last + 1]);
            if b {
                assert(tail =~= seq!['a']);
            }
        }
        if tail == seq!['a'] {
            assert(seq!['a'].len() == 1 && seq!['a'][0] == 'a');
            assert(tail.len() == 1);
            assert(tail[0] == v@[last + 1]);
        }
        assert(b == (tail == seq!['a']));
    }
    b
}

/// The Rust static library that `cargo build` leaves for the crate
/// `library`.
pub fn rust_library_path(library: &str) -> (path: String)
    ensures
        path@ == "target/armv5te-unknown-linux-gnueabi/release/lib"@ + library@ + ".a"@,
{
    let mut path = String::from_str("target/armv5te-unknown-linux-gnueabi/release/lib");
    path.append(library);
    path.append(".a");
    path
}

/// The file with extension `extension` that a build of `project` writes in
/// the SDK directory (`"axf"` for the linked binary, `"vxp"` for the image).
pub fn sdk_artifact_path(project: &str, extension: &str) -> (path: String)
    ensures
        path@ == "target/mre-sdk/"@ + project@ + "."@ + extension@,
{
    let mut path = String::from_str("target/mre-sdk/");
    path.append(project);
    path.append(".");
    path.append(extension);
    path
}

/// The file that a build of `project` finally writes.
pub fn output_file_name(project: &str) -> (name: String)
    ensures
        name@ == project@ + ".vxp"@,
{
    let mut name = String::from_str(project);
    name.append(".vxp");
    name
}

/// The views of `v`.
pub open spec fn views(v: Seq<String>) -> Seq<Seq<char>> {
    v.map_values(|s: String| s@)
}

/// The arguments that compile the SDK shim `source` into `object`.
pub open spec fn shim_compile_args(source: Seq<char>, object: Seq<char>) -> Seq<Seq<char>> {
    seq![
        "-c"@, "-fpic"@, "-march=armv5te"@, "-fvisibility=hidden"@, "-Os"@, "-mlittle-endian"@,
        "-I"@, "target/mre-sdk/sdk/include"@,
        "-I"@, "target/mre-sdk/sdk/shims/include"@,
        "-I"@, "target/mre-sdk/sdk/shims/ResID"@,
        "-I"@, "target/mre-sdk/sdk/shims"@,
        "-D"@, "_MINIGUI_LIB_"@, "-D"@, "_USE_MINIGUIENTRY"@, "-D"@, "_NOUNIX_"@,
        "-D"@, "_FOR_WNC"@, "-D"@, "__MRE_SDK__"@, "-D"@, "__MRE_VENUS_NORMAL__"@,
        "-D"@, "__MMI_MAINLCD_240X320__"@, "-D"@, "MRE"@, "-D"@, "GCC"@, "-D"@,
        "__MRE_COMPILER_GCC__"@,
        "-fdata-sections"@, "-ffunction-sections"@,
        source,
        "-o"@, object,
    ]
}

/// Appends a copy of `s` to `args`.
fn push_arg(args: &mut Vec<String>, s: &str)
    ensures
        views(final(args)@) == views(old(args)@).push(s@),
{
    let ghost before = old(args)@;
    args.push(String::from_str(s));
    assert(views(args@) =~= views(before).push(s@));
}

/// Appends copies of `items` to `args`.
fn push_args(args: &mut Vec<String>, items: &[&str])
    ensures
        views(final(args)@) == views(old(args)@) + items@.map_values(|s: &str| s@),
{
    let mut i: usize = 0;
    while i < items.len()
        invariant
            i <= items@.len(),
            views(args@) == views(old(args)@) + items@.take(i as int).map_values(|s: &str| s@),
        decreases items@.len() - i,
    {
        push_arg(args, items[i]);
        assert(items@.take(i + 1).map_values(|s: &str| s@) =~= items@.take(i as int).map_values(
            |s: &str| s@,
        ).push(items@[i as int]@));
        i = i + 1;
    }
    assert(items@.take(items@.len() as int) =~= items@);
}

/// The source file of the SDK shim `shim`.
pub fn shim_source_path(shim: &str) -> (path: String)
    ensures
        path@ == "target/mre-sdk/sdk/shims/"@ + shim@,
{
    let mut path = String::from_str("target/mre-sdk/sdk/shims/");
    path.append(shim);
    path
}

/// The object file that the SDK shim `shim` compiles to.
pub fn shim_object_path(shim: &str) -> (path: String)
    ensures
        path@ == "target/mre-sdk/"@ + shim@ + ".o"@,
{
    let mut path = String::from_str("target/mre-sdk/");
    path.append(shim);
    path.append(".o");
    path
}

/// The arguments that compile the SDK shim `source` into `object`.
pub fn shim_args(source: &str, object: &str) -> (args: Vec<String>)
    ensures
        views(args@) == shim_compile_args(source@, object@),
{
    let flags: [&str; 36] = [
        "-c", "-fpic", "-march=armv5te", "-fvisibility=hidden", "-Os", "-mlittle-endian",
        "-I", "target/mre-sdk/sdk/include",
        "-I", "target/mre-sdk/sdk/shims/include",
        "-I", "target/mre-sdk/sdk/shims/ResID",
        "-I", "target/mre-sdk/sdk/shims",
        "-D", "_MINIGUI_LIB_", "-D", "_USE_MINIGUIENTRY", "-D", "_NOUNIX_",
        "-D", "_FOR_WNC", "-D", "__MRE_SDK__", "-D", "__MRE_VENUS_NORMAL__",
        "-D", "__MMI_MAINLCD_240X320__", "-D", "MRE", "-D", "GCC", "-D",
        "__MRE_COMPILER_GCC__",
        "-fdata-sections", "-ffunction-sections",
    ];
    let mut args: Vec<String> = Vec::new();
    push_args(&mut args, &flags);
    push_arg(&mut args, source);
    push_arg(&mut args, "-o");
    push_arg(&mut args, object);
    assert(views(args@) =~= shim_compile_args(source@, object@));
    args
}

/// The arguments that link `axf` from the SDK shims, the Rust library
/// `rust_lib` and the SDK archives `sdk_libs`.
pub open spec fn link_arg_list(
    axf: Seq<char>,
    rust_lib: Seq<char>,
    sdk_libs: Seq<Seq<char>>,
) -> Seq<Seq<char>> {
    seq![
        "-o"@, axf,
        "target/mre-sdk/c_fix.c.o"@, "target/mre-sdk/diag.c.o"@, "target/mre-sdk/gccmain.c.o"@,
        rust_lib, "-lstdc++"@,
    ] + sdk_libs + seq![
        "-fno-threadsafe-statics"@, "-Wl,--gc-sections"@, "-fpic"@, "-fpcc-struct-return"@,
        "--disable-libstdcxx-verbose"@, "-pie"@, "-lm"@, "-T"@, "target/mre-sdk/sdk/scat.ld"@,
    ]
}

/// The arguments that link `axf` from the SDK shims, the Rust library
/// `rust_lib` and the SDK archives `sdk_libs`, in that order.
pub fn link_args(axf: &str, rust_lib: &str, sdk_libs: &Vec<String>) -> (args: Vec<String>)
    ensures
        views(args@) == link_arg_list(axf@, rust_lib@, views(sdk_libs@)),
{
    let mut args: Vec<String> = Vec::new();
    push_arg(&mut args, "-o");
    push_arg(&mut args, axf);
    push_args(
        &mut args,
        &["target/mre-sdk/c_fix.c.o", "target/mre-sdk/diag.c.o", "target/mre-sdk/gccmain.c.o"],
    );
    push_arg(&mut args, rust_lib);
    push_arg(&mut args, "-lstdc++");
    let ghost head = views(args@);
    let mut i: usize = 0;
    while i < sdk_libs.len()
        invariant
            i <= sdk_libs@.len(),
            views(args@) == head + views(sdk_libs@.take(i as int)),
        decreases sdk_libs@.len() - i,
    {
        push_arg(&mut args, sdk_libs[i].as_str());
        assert(views(sdk_libs@.take(i + 1)) =~= views(sdk_libs@.take(i as int)).push(
            sdk_libs@[i as int]@,
        ));
        i = i + 1;
    }
    assert(sdk_libs@.take(sdk_libs@.len() as int) =~= sdk_libs@);
    push_args(
        &mut args,
        &[
            "-fno-threadsafe-statics",
            "-Wl,--gc-sections",
            "-fpic",
            "-fpcc-struct-return",
            "--disable-libstdcxx-verbose",
            "-pie",
            "-lm",
            "-T",
            "target/mre-sdk/sdk/scat.ld",
        ],
    );
    assert(views(args@) =~= link_arg_list(axf@, rust_lib@, views(sdk_libs@)));
    args
}

/// The arguments of the `cargo` run that cross-compiles the project.
pub fn cargo_build_args() -> (args: Vec<String>)
    ensures
        views(args@) == seq!["build"@, "--target"@, "armv5te-unknown-linux-gnueabi"@, "--release"@],
{
    let mut args: Vec<String> = Vec::new();
    push_args(&mut args, &["build", "--target", "armv5te-unknown-linux-gnueabi", "--release"]);
    assert(views(args@) =~= seq![
        "build"@,
        "--target"@,
        "armv5te-unknown-linux-gnueabi"@,
        "--release"@,
    ]);
    args
}

/// The arguments of the `objcopy` run that turns `axf` into `vxp` with the
/// SDK resources added.
pub fn objcopy_args(axf: &str, vxp: &str) -> (args: Vec<String>)
    ensures
        views(args@) == seq![
            "-I"@,
            "elf32-little"@,
            "--add-section"@,
            ".vm_res=target/mre-sdk/sdk/resource.bin"@,
            axf@,
            vxp@,
        ],
{
    let mut args: Vec<String> = Vec::new();
    push_args(
        &mut args,
        &["-I", "elf32-little", "--add-section", ".vm_res=target/mre-sdk/sdk/resource.bin"],
    );
    push_arg(&mut args, axf);
    push_arg(&mut args, vxp);
    assert(views(args@) =~= seq![
        "-I"@,
        "elf32-little"@,
        "--add-section"@,
        ".vm_res=target/mre-sdk/sdk/resource.bin"@,
        axf@,
        vxp@,
    ]);
    args
}

/// The shim compile command: position-independent ARMv5TE code, optimised
/// for size and little-endian, with the SDK's header directories (each the
/// SDK directory followed by its place in the SDK) on the include path,
/// the SDK's configuration macros defined, each function and datum in a
/// section of its own, then `source`, `-o` and `object`.
pub proof fn law_shim_command(source: Seq<char>, object: Seq<char>)
    ensures
        ({
            let a = shim_compile_args(source, object);
            &&& a.len() == 39
            &&& a.take(6) == seq![
                "-c"@,
                "-fpic"@,
                "-march=armv5te"@,
                "-fvisibility=hidden"@,
                "-Os"@,
                "-mlittle-endian"@,
            ]
            &&& a[6] == "-I"@ && a[7] == SDK_DIR@ + "/sdk/include"@
            &&& a[8] == "-I"@ && a[9] == SDK_DIR@ + "/sdk/shims/include"@
            &&& a[10] == "-I"@ && a[11] == SDK_DIR@ + "/sdk/shims/ResID"@
            &&& a[12] == "-I"@ && a[13] == SDK_DIR@ + "/sdk/shims"@
            &&& forall|i: int| 0 <= i < 10 ==> #[trigger] a[14 + 2 * i] == "-D"@
            &&& a[15] == "_MINIGUI_LIB_"@
            &&& a[17] == "_USE_MINIGUIENTRY"@
            &&& a[19] == "_NOUNIX_"@
            &&& a[21] == "_FOR_WNC"@
            &&& a[23] == "__MRE_SDK__"@
            &&& a[25] == "__MRE_VENUS_NORMAL__"@
            &&& a[27] == "__MMI_MAINLCD_240X320__"@
            &&& a[29] == "MRE"@
            &&& a[31] == "GCC"@
            &&& a[33] == "__MRE_COMPILER_GCC__"@
            &&& a[34] == "-fdata-sections"@ && a[35] == "-ffunction-sections"@
            &&& a[36] == source && a[37] == "-o"@ && a[38] == object
        }),
{
    reveal_strlit("target/mre-sdk");
    reveal_strlit("/sdk/include");
    reveal_strlit("target/mre-sdk/sdk/include");
    reveal_strlit("/sdk/shims/include");
    reveal_strlit("target/mre-sdk/sdk/shims/include");
    reveal_strlit("/sdk/shims/ResID");
    reveal_strlit("target/mre-sdk/sdk/shims/ResID");
    reveal_strlit("/sdk/shims");
    reveal_strlit("target/mre-sdk/sdk/shims");
    let a = shim_compile_args(source, object);
    assert(a.take(6) =~= seq![
        "-c"@,
        "-fpic"@,
        "-march=armv5te"@,
        "-fvisibility=hidden"@,
        "-Os"@,
        "-mlittle-endian"@,
    ]);
    assert(SDK_DIR@ + "/sdk/include"@ =~= "target/mre-sdk/sdk/include"@);
    assert(SDK_DIR@ + "/sdk/shims/include"@ =~= "target/mre-sdk/sdk/shims/include"@);
    assert(SDK_DIR@ + "/sdk/shims/ResID"@ =~= "target/mre-sdk/sdk/shims/ResID"@);
    assert(SDK_DIR@ + "/sdk/shims"@ =~= "target/mre-sdk/sdk/shims"@);
    assert forall|i: int| 0 <= i < 10 implies #[trigger] a[14 + 2 * i] == "-D"@ by {
        assert(i == 0 || i == 1 || i == 2 || i == 3 || i == 4 || i == 5 || i == 6 || i == 7 || i
            == 8 || i == 9);
    }
}

/// The link command: the output `axf`, the three shim objects, the Rust
/// library and the C++ runtime, then every SDK archive given, each once and
/// in the order given, then the fixed flags ending with the SDK's linker
/// script.
pub proof fn law_link_command(axf: Seq<char>, rust_lib: Seq<char>, sdk_libs: Seq<Seq<char>>)
    ensures
        ({
            let a = link_arg_list(axf, rust_lib, sdk_libs);
            let n = sdk_libs.len() as int;
            &&& a.len() == 16 + n
            &&& a[0] == "-o"@ && a[1] == axf
            &&& a[2] == SDK_DIR@ + "/"@ + SHIMS[0]@ + ".o"@
            &&& a[3] == SDK_DIR@ + "/"@ + SHIMS[1]@ + ".o"@
            &&& a[4] == SDK_DIR@ + "/"@ + SHIMS[2]@ + ".o"@
            &&& a[5] == rust_lib && a[6] == "-lstdc++"@
            &&& forall|i: int| 0 <= i < n ==> #[trigger] a[7 + i] == sdk_libs[i]
            &&& a.skip(7 + n) == seq![
                "-fno-threadsafe-statics"@,
                "-Wl,--gc-sections"@,
                "-fpic"@,
                "-fpcc-struct-return"@,
                "--disable-libstdcxx-verbose"@,
                "-pie"@,
                "-lm"@,
                "-T"@,
                SDK_DIR@ + "/sdk/scat.ld"@,
            ]
        }),
{
    reveal_strlit("target/mre-sdk");
    reveal_strlit("/");
    reveal_strlit(".o");
    reveal_strlit("c_fix.c");
    reveal_strlit("diag.c");
    reveal_strlit("gccmain.c");
    reveal_strlit("target/mre-sdk/c_fix.c.o");
    reveal_strlit("target/mre-sdk/diag.c.o");
    reveal_strlit("target/mre-sdk/gccmain.c.o");
    reveal_strlit("/sdk/scat.ld");
    reveal_strlit("target/mre-sdk/sdk/scat.ld");
    let a = link_arg_list(axf, rust_lib, sdk_libs);
    let n = sdk_libs.len() as int;
    assert(SDK_DIR@ + "/"@ + SHIMS[0]@ + ".o"@ =~= "target/mre-sdk/c_fix.c.o"@);
    assert(SDK_DIR@ + "/"@ + SHIMS[1]@ + ".o"@ =~= "target/mre-sdk/diag.c.o"@);
    assert(SDK_DIR@ + "/"@ + SHIMS[2]@ + ".o"@ =~= "target/mre-sdk/gccmain.c.o"@);
    assert(SDK_DIR@ + "/sdk/scat.ld"@ =~= "target/mre-sdk/sdk/scat.ld"@);
    assert(a.skip(7 + n) =~= seq![
        "-fno-threadsafe-statics"@,
        "-Wl,--gc-sections"@,
        "-fpic"@,
        "-fpcc-struct-return"@,
        "--disable-libstdcxx-verbose"@,
        "-pie"@,
        "-lm"@,
        "-T"@,
        SDK_DIR@ + "/sdk/scat.ld"@,
    ]);
}

} // verus!
