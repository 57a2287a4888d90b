//! The catalog of known target platforms and the configured matrix.
//!
//! Configured platform lists are validated against a hard-coded catalog of
//! known target identifiers; a missing list defaults to the whole catalog.
use vstd::prelude::*;

use crate::config::ConfigRustup;
use crate::errors::MirrorError;
use crate::strutil::vec_contains_string;

verus! {

/// The known unix-like platforms: their installer carries no suffix.
pub open spec fn unix_catalog() -> Seq<Seq<char>> {
    seq![
        "aarch64-fuschia"@,
        "aarch64-linux-android"@,
        "aarch64-pc-windows-msvc"@,
        "aarch64-unknown-hermit"@,
        "aarch64-unknown-linux-gnu"@,
        "aarch64-unknown-none"@,
        "aarch64-unknown-none-softfloat"@,
        "aarch64-unknown-redox"@,
        "arm-linux-androideabi"@,
        "arm-unknown-linux-gnueabi"@,
        "arm-unknown-linux-gnueabihf"@,
        "arm-unknown-linux-musleabi"@,
        "arm-unknown-linux-musleabihf"@,
        "armebv7r-none-eabi"@,
        "armebv7r-none-eabihf"@,
        "armv5te-unknown-linux-gnueabi"@,
        "armv5te-unknown-linux-musleabi"@,
        "armv7-apple-ios"@,
        "armv7-linux-androideabi"@,
        "armv7-unknown-linux-gnueabi"@,
        "armv7-unknown-linux-gnueabihf"@,
        "armv7s-apple-ios"@,
        "asmjs-unknown-emscripten"@,
        "i386-apple-ios"@,
        "i586-pc-windows-msvc"@,
        "i586-unknown-linux-gnu"@,
        "i586-unknown-linux-musl"@,
        "i686-apple-darwin"@,
        "i686-linux-android"@,
        "i686-unknown-freebsd"@,
        "i686-unknown-linux-gnu"@,
        "i686-unknown-linux-musl"@,
        "mips-unknown-linux-gnu"@,
        "mips64-unknown-linux-gnuabi64"@,
        "mips64-unknown-linux-muslabi64"@,
        "mips64el-unknown-linux-gnuabi64"@,
        "mips64el-unknown-linux-muslabi64"@,
        "mipsel-unknown-linux-gnu"@,
        "mipsisa32r6el-unknown-linux-gnu"@,
        "mipsisa64r6-unknown-linux-gnuabi64"@,
        "mipsisa64r6el-unknown-linux-gnuabi64"@,
        "nvptx64-nvidia-cuda"@,
        "powerpc-unknown-linux-gnu"@,
        "powerpc64-unknown-linux-gnu"@,
        "powerpc64le-unknown-linux-gnu"@,
        "riscv32gc-unknown-linux-gnu"@,
        "riscv32i-unknown-none-elf"@,
        "riscv32imac-unknown-none-elf"@,
        "riscv32imc-unknown-none-elf"@,
        "riscv64gc-unknown-none-elf"@,
        "riscv64imac-unknown-none-elf"@,
        "s390x-unknown-linux-gnu"@,
        "sparc64-unknown-linux-gnu"@,
        "sparcv9-sun-solaris"@,
        "thumbv6m-none-eabi"@,
        "thumbv7em-none-eabi"@,
        "thumbv7neon-linux-androideabi"@,
        "thumbv7neon-unknown-linux-gnueabihf"@,
        "wasm32-unknown-emscripten"@,
        "wasm32-unknown-unknown"@,
        "wasm32-wasi"@,
        "x86_64-apple-darwin"@,
        "x86_64-apple-ios"@,
        "x86_64-fortanix-unknown-sgx"@,
        "x86_64-fuschia"@,
        "x86_64-linux-android"@,
        "x86_64-pc-solaris"@,
        "x86_64-rumprun-netbsd"@,
        "x86_64-sun-solaris"@,
        "x86_64-unknown-freebsd"@,
        "x86_64-unknown-linux-gnu"@,
        "x86_64-unknown-linux-gnux32"@,
        "x86_64-unknown-linux-musl"@,
        "x86_64-unknown-netbsd"@,
        "x86_64-unknown-redox"@,
    ]
}

/// The known windows-like platforms: their installer name ends in `.exe`.
pub open spec fn windows_catalog() -> Seq<Seq<char>> {
    seq![
        "i586-pc-windows-msvc"@,
        "i686-pc-windows-gnu"@,
        "i686-pc-windows-msvc"@,
        "x86_64-pc-windows-gnu"@,
        "x86_64-pc-windows-msvc"@,
    ]
}

/// The unix-like platform catalog.
pub fn platforms_unix_catalog() -> (v: Vec<String>)
    ensures
        v.deep_view() =~= unix_catalog(),
{
    let mut v: Vec<String> = Vec::new();
    v.push(String::from_str("aarch64-fuschia"));
    v.push(String::from_str("aarch64-linux-android"));
    v.push(String::from_str("aarch64-pc-windows-msvc"));
    v.push(String::from_str("aarch64-unknown-hermit"));
    v.push(String::from_str("aarch64-unknown-linux-gnu"));
    v.push(String::from_str("aarch64-unknown-none"));
    v.push(String::from_str("aarch64-unknown-none-softfloat"));
    v.push(String::from_str("aarch64-unknown-redox"));
    v.push(String::from_str("arm-linux-androideabi"));
    v.push(String::from_str("arm-unknown-linux-gnueabi"));
    v.push(String::from_str("arm-unknown-linux-gnueabihf"));
    v.push(String::from_str("arm-unknown-linux-musleabi"));
    v.push(String::from_str("arm-unknown-linux-musleabihf"));
    v.push(String::from_str("armebv7r-none-eabi"));
    v.push(String::from_str("armebv7r-none-eabihf"));
    v.push(String::from_str("armv5te-unknown-linux-gnueabi"));
    v.push(String::from_str("armv5te-unknown-linux-musleabi"));
    v.push(String::from_str("armv7-apple-ios"));
    v.push(String::from_str("armv7-linux-androideabi"));
    v.push(String::from_str("armv7-unknown-linux-gnueabi"));
    v.push(String::from_str("armv7-unknown-linux-gnueabihf"));
    v.push(String::from_str("armv7s-apple-ios"));
    v.push(String::from_str("asmjs-unknown-emscripten"));
    v.push(String::from_str("i386-apple-ios"));
    v.push(String::from_str("i586-pc-windows-msvc"));
    v.push(String::from_str("i586-unknown-linux-gnu"));
    v.push(String::from_str("i586-unknown-linux-musl"));
    v.push(String::from_str("i686-apple-darwin"));
    v.push(String::from_str("i686-linux-android"));
    v.push(String::from_str("i686-unknown-freebsd"));
    v.push(String::from_str("i686-unknown-linux-gnu"));
    v.push(String::from_str("i686-unknown-linux-musl"));
    v.push(String::from_str("mips-unknown-linux-gnu"));
    v.push(String::from_str("mips64-unknown-linux-gnuabi64"));
    v.push(String::from_str("mips64-unknown-linux-muslabi64"));
    v.push(String::from_str("mips64el-unknown-linux-gnuabi64"));
    v.push(String::from_str("mips64el-unknown-linux-muslabi64"));
    v.push(String::from_str("mipsel-unknown-linux-gnu"));
    v.push(String::from_str("mipsisa32r6el-unknown-linux-gnu"));
    v.push(String::from_str("mipsisa64r6-unknown-linux-gnuabi64"));
    v.push(String::from_str("mipsisa64r6el-unknown-linux-gnuabi64"));
    v.push(String::from_str("nvptx64-nvidia-cuda"));
    v.push(String::from_str("powerpc-unknown-linux-gnu"));
    v.push(String::from_str("powerpc64-unknown-linux-gnu"));
    v.push(String::from_str("powerpc64le-unknown-linux-gnu"));
    v.push(String::from_str("riscv32gc-unknown-linux-gnu"));
    v.push(String::from_str("riscv32i-unknown-none-elf"));
    v.push(String::from_str("riscv32imac-unknown-none-elf"));
    v.push(String::from_str("riscv32imc-unknown-none-elf"));
    v.push(String::from_str("riscv64gc-unknown-none-elf"));
    v.push(String::from_str("riscv64imac-unknown-none-elf"));
    v.push(String::from_str("s390x-unknown-linux-gnu"));
    v.push(String::from_str("sparc64-unknown-linux-gnu"));
    v.push(String::from_str("sparcv9-sun-solaris"));
    v.push(String::from_str("thumbv6m-none-eabi"));
    v.push(String::from_str("thumbv7em-none-eabi"));
    v.push(String::from_str("thumbv7neon-linux-androideabi"));
    v.push(String::from_str("thumbv7neon-unknown-linux-gnueabihf"));
    v.push(String::from_str("wasm32-unknown-emscripten"));
    v.push(String::from_str("wasm32-unknown-unknown"));
    v.push(String::from_str("wasm32-wasi"));
    v.push(String::from_str("x86_64-apple-darwin"));
    v.push(String::from_str("x86_64-apple-ios"));
    v.push(String::from_str("x86_64-fortanix-unknown-sgx"));
    v.push(String::from_str("x86_64-fuschia"));
    v.push(String::from_str("x86_64-linux-android"));
    v.push(String::from_str("x86_64-pc-solaris"));
    v.push(String::from_str("x86_64-rumprun-netbsd"));
    v.push(String::from_str("x86_64-sun-solaris"));
    v.push(String::from_str("x86_64-unknown-freebsd"));
    v.push(String::from_str("x86_64-unknown-linux-gnu"));
    v.push(String::from_str("x86_64-unknown-linux-gnux32"));
    v.push(String::from_str("x86_64-unknown-linux-musl"));
    v.push(String::from_str("x86_64-unknown-netbsd"));
    v.push(String::from_str("x86_64-unknown-redox"));
    proof {
        assert(v.deep_view() =~= unix_catalog());
    }
    v
}

/// The windows-like platform catalog.
pub fn platforms_windows_catalog() -> (v: Vec<String>)
    ensures
        v.deep_view() =~= windows_catalog(),
{
    let mut v: Vec<String> = Vec::new();
    v.push(String::from_str("i586-pc-windows-msvc"));
    v.push(String::from_str("i686-pc-windows-gnu"));
    v.push(String::from_str("i686-pc-windows-msvc"));
    v.push(String::from_str("x86_64-pc-windows-gnu"));
    v.push(String::from_str("x86_64-pc-windows-msvc"));
    proof {
        assert(v.deep_view() =~= windows_catalog());
    }
    v
}

/// The platform matrix a sync works over.
pub struct Platforms {
    /// Unix-like platforms, all from the unix catalog.
    pub unix: Vec<String>,
    /// Windows-like platforms, all from the windows catalog.
    pub windows: Vec<String>,
}

/// Whether every identifier of the list stands in the catalog.
pub open spec fn all_known(list: Seq<Seq<char>>, catalog: Seq<Seq<char>>) -> bool {
    forall|i: int| 0 <= i < list.len() ==> catalog.contains(list[i])
}

/// Whether a configured list is acceptable: absent, or all known.
pub open spec fn list_ok(list: Option<Vec<String>>, catalog: Seq<Seq<char>>) -> bool {
    match list {
        Some(l) => all_known(l.deep_view(), catalog),
        None => true,
    }
}

/// The platforms a configured list selects: itself, or the whole catalog
/// when absent.
pub open spec fn chosen_platforms(list: Option<Vec<String>>, catalog: Seq<Seq<char>>) -> Seq<
    Seq<char>,
> {
    match list {
        Some(l) => l.deep_view(),
        None => catalog,
    }
}

/// Copies a configured list, validating every entry against the catalog.
fn validate_list(list: &Vec<String>, catalog: &Vec<String>) -> (r: Option<Vec<String>>)
    ensures
        r is Some <==> all_known(list.deep_view(), catalog.deep_view()),
        r is Some ==> r->0.deep_view() =~= list.deep_view(),
{
    let mut out: Vec<String> = Vec::new();
    let mut i: usize = 0;
    while i < list.len()
        invariant
            i <= list@.len(),
            out@.len() == i,
            forall|k: int| 0 <= k < i ==> out@[k]@ == list@[k]@,
            forall|k: int| 0 <= k < i ==> catalog.deep_view().contains(list.deep_view()[k]),
        decreases list@.len() - i,
    {
        if !vec_contains_string(catalog, &list[i]) {
            proof {
                assert(!catalog.deep_view().contains(list.deep_view()[i as int]));
            }
            return None;
        }
        out.push(list[i].clone());
        i = i + 1;
    }
    proof {
        assert forall|k: int| 0 <= k < out.deep_view().len() implies out.deep_view()[k]
            == list.deep_view()[k] by {
            assert(out.deep_view()[k] == out@[k]@);
        }
        assert(out.deep_view() =~= list.deep_view());
    }
    Some(out)
}

/// Builds the platform matrix from the configuration: a present list must
/// name only known platforms and is taken as given; a missing one defaults
/// to the whole catalog.
pub fn get_platforms(rustup: &ConfigRustup) -> (r: Result<Platforms, MirrorError>)
    ensures
        r is Ok <==> list_ok(rustup.platforms_unix, unix_catalog()) && list_ok(
            rustup.platforms_windows,
            windows_catalog(),
        ),
        r is Ok ==> r->Ok_0.unix.deep_view() =~= chosen_platforms(
            rustup.platforms_unix,
            unix_catalog(),
        ),
        r is Ok ==> r->Ok_0.windows.deep_view() =~= chosen_platforms(
            rustup.platforms_windows,
            windows_catalog(),
        ),
        r is Err ==> r->Err_0 is Config,
{
    let unix = match &rustup.platforms_unix {
        Some(p) => match validate_list(p, &platforms_unix_catalog()) {
            Some(l) => l,
            None => {
                return Err(
                    MirrorError::Config(String::from_str("bad value for 'platforms_unix'")),
                );
            },
        },
        None => platforms_unix_catalog(),
    };
    let windows = match &rustup.platforms_windows {
        Some(p) => match validate_list(p, &platforms_windows_catalog()) {
            Some(l) => l,
            None => {
                return Err(
                    MirrorError::Config(String::from_str("bad value for 'platforms_windows'")),
                );
            },
        },
        None => platforms_windows_catalog(),
    };
    Ok(Platforms { unix, windows })
}

} // verus!
