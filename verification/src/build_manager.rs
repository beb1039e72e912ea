//! What the generated Rust project needs, and the text of its manifest and header.
use vstd::prelude::*;

use crate::text::{join_with, lemma_join_push, push_str, str_eq};

verus! {

/// The runtime features a compiled program needs, and the imports it skips.
#[derive(Clone, Debug)]
pub struct BuildRequirements {
    pub uses_std_fs: bool,
    pub uses_std_time: bool,
    pub uses_std_net: bool,
    pub uses_pipes: bool,
    pub uses_anyhow: bool,
    pub skipped_module_imports: Vec<String>,
}

/// Some entry of the list is `x`.
pub open spec fn lists(v: Seq<String>, x: Seq<char>) -> bool {
    exists|k: int| 0 <= k < v.len() && #[trigger] v[k]@ == x
}

impl BuildRequirements {
    /// No feature and no skipped import.
    pub fn new() -> (r: BuildRequirements)
        ensures
            !r.uses_std_fs && !r.uses_std_time && !r.uses_std_net && !r.uses_pipes && !r.uses_anyhow,
            r.skipped_module_imports@.len() == 0,
    {
        BuildRequirements {
            uses_std_fs: false,
            uses_std_time: false,
            uses_std_net: false,
            uses_pipes: false,
            uses_anyhow: false,
            skipped_module_imports: Vec::new(),
        }
    }

    /// Notes an imported standard module: `std_fs`, `std_time` and `std_net` need runtime
    /// features; other modules need none.
    pub fn record_module(&mut self, module_name: &str)
        ensures
            final(self).uses_std_fs == (old(self).uses_std_fs || module_name@ == "std_fs"@),
            final(self).uses_std_time == (old(self).uses_std_time || module_name@ == "std_time"@),
            final(self).uses_std_net == (old(self).uses_std_net || module_name@ == "std_net"@),
            final(self).uses_pipes == old(self).uses_pipes,
            final(self).uses_anyhow == old(self).uses_anyhow,
            final(self).skipped_module_imports == old(self).skipped_module_imports,
    {
        let fs = str_eq(module_name, "std_fs");
        let time = str_eq(module_name, "std_time");
        let net = str_eq(module_name, "std_net");
        if fs {
            self.uses_std_fs = true;
        }
        if time {
            self.uses_std_time = true;
        }
        if net {
            self.uses_std_net = true;
        }
    }

    pub fn record_pipes(&mut self, uses_pipes: bool)
        ensures
            final(self).uses_pipes == (old(self).uses_pipes || uses_pipes),
            final(self).uses_std_fs == old(self).uses_std_fs,
            final(self).uses_std_time == old(self).uses_std_time,
            final(self).uses_std_net == old(self).uses_std_net,
            final(self).uses_anyhow == old(self).uses_anyhow,
            final(self).skipped_module_imports == old(self).skipped_module_imports,
    {
        self.uses_pipes = self.uses_pipes || uses_pipes;
    }

    pub fn record_anyhow(&mut self, uses_anyhow: bool)
        ensures
            final(self).uses_anyhow == (old(self).uses_anyhow || uses_anyhow),
            final(self).uses_std_fs == old(self).uses_std_fs,
            final(self).uses_std_time == old(self).uses_std_time,
            final(self).uses_std_net == old(self).uses_std_net,
            final(self).uses_pipes == old(self).uses_pipes,
            final(self).skipped_module_imports == old(self).skipped_module_imports,
    {
        self.uses_anyhow = self.uses_anyhow || uses_anyhow;
    }

    /// Marks a module whose import the build leaves out.
    pub fn skip_module_import(&mut self, module_name: &str)
        ensures
            forall|x: Seq<char>| #[trigger] lists(final(self).skipped_module_imports@, x)
                == (lists(old(self).skipped_module_imports@, x) || x == module_name@),
            final(self).uses_std_fs == old(self).uses_std_fs,
            final(self).uses_std_time == old(self).uses_std_time,
            final(self).uses_std_net == old(self).uses_std_net,
            final(self).uses_pipes == old(self).uses_pipes,
            final(self).uses_anyhow == old(self).uses_anyhow,
    {
        let ghost before = self.skipped_module_imports@;
        self.skipped_module_imports.push(String::from_str(module_name));
        proof {
            assert forall|x: Seq<char>| #[trigger] lists(self.skipped_module_imports@, x)
                == (lists(before, x) || x == module_name@) by {
                if lists(self.skipped_module_imports@, x) {
                    let k = choose|k: int| 0 <= k < self.skipped_module_imports@.len() && #[trigger] self.skipped_module_imports@[k]@ == x;
                    if k < before.len() {
                        assert(before[k]@ == x);
                    }
                }
                if lists(before, x) {
                    let k = choose|k: int| 0 <= k < before.len() && #[trigger] before[k]@ == x;
                    assert(self.skipped_module_imports@[k]@ == x);
                }
                if x == module_name@ {
                    assert(self.skipped_module_imports@[before.len() as int]@ == x);
                }
            }
        }
    }

    /// Whether the build leaves out the import of a module.
    pub fn skips_module_import(&self, module_name: &str) -> (r: bool)
        ensures
            r == lists(self.skipped_module_imports@, module_name@),
    {
        let mut i: usize = 0;
        while i < self.skipped_module_imports.len()
            invariant
                i <= self.skipped_module_imports@.len(),
                forall|k: int| 0 <= k < i ==> #[trigger] self.skipped_module_imports@[k]@ != module_name@,
            decreases self.skipped_module_imports.len() - i,
        {
            if str_eq(self.skipped_module_imports[i].as_str(), module_name) {
                return true;
            }
            i = i + 1;
        }
        false
    }
}

/// The generated project's directory.
pub struct BuildManager {
    pub build_dir: String,
}

/// The start of the generated header module that holds the glue of host functions.
pub const HEADER_PREAMBLE: &'static str = "//! Kiro Header - Generated glue code for rust fn\n\nuse kiro_runtime::{HostResult, KiroError, RuntimeVal};\n\n";

/// The tokio features a program needs: always the macros and the threaded runtime, and
/// the file system and timers where the program uses them.
pub open spec fn tokio_features(r: BuildRequirements) -> Seq<Seq<char>> {
    let base = seq!["macros"@, "rt-multi-thread"@];
    let with_fs = if r.uses_std_fs { base.push("fs"@) } else { base };
    if r.uses_std_time { with_fs.push("time"@) } else { with_fs }
}

pub open spec fn quoted(s: Seq<Seq<char>>) -> Seq<Seq<char>> {
    Seq::new(s.len(), |i: int| "\""@ + s[i] + "\""@)
}

/// The dependency lines of the generated manifest.
pub open spec fn dependency_lines(r: BuildRequirements) -> Seq<Seq<char>> {
    let base = seq![
        "tokio = { version = \"1.49.0\", features = ["@ + join_with(quoted(tokio_features(r)), ", "@) + "] }"@,
        "kiro_runtime = { path = \"../kiro_runtime\" }"@
    ];
    let a = if r.uses_anyhow { base.push("anyhow = \"1\""@) } else { base };
    let b = if r.uses_pipes { a.push("async-channel = \"2.5.0\""@) } else { a };
    if r.uses_std_net { b.push("reqwest = { version = \"0.13.1\", features = [\"gzip\", \"json\"] }"@) } else { b }
}

/// The manifest always declares tokio, with the macros and threaded-runtime features first
/// and the `fs` and `time` features exactly where the program uses the file system and
/// timers, then the runtime; after them it declares anyhow, async-channel and reqwest each
/// exactly where the program needs it.
pub proof fn lemma_manifest_dependencies(r: BuildRequirements)
    ensures
        tokio_features(r)[0] == "macros"@,
        tokio_features(r)[1] == "rt-multi-thread"@,
        tokio_features(r).contains("fs"@) <==> r.uses_std_fs,
        tokio_features(r).contains("time"@) <==> r.uses_std_time,
        dependency_lines(r)[0] == "tokio = { version = \"1.49.0\", features = ["@ + join_with(quoted(tokio_features(r)), ", "@) + "] }"@,
        dependency_lines(r)[1] == "kiro_runtime = { path = \"../kiro_runtime\" }"@,
        dependency_lines(r).contains("anyhow = \"1\""@) <==> r.uses_anyhow,
        dependency_lines(r).contains("async-channel = \"2.5.0\""@) <==> r.uses_pipes,
        dependency_lines(r).contains("reqwest = { version = \"0.13.1\", features = [\"gzip\", \"json\"] }"@) <==> r.uses_std_net,
{
    reveal_strlit("macros");
    reveal_strlit("rt-multi-thread");
    reveal_strlit("fs");
    reveal_strlit("time");
    reveal_strlit("tokio = { version = \"1.49.0\", features = [");
    reveal_strlit("kiro_runtime = { path = \"../kiro_runtime\" }");
    reveal_strlit("anyhow = \"1\"");
    reveal_strlit("async-channel = \"2.5.0\"");
    reveal_strlit("reqwest = { version = \"0.13.1\", features = [\"gzip\", \"json\"] }");
    let f = tokio_features(r);
    if f.contains("fs"@) {
        let i = choose|i: int| 0 <= i < f.len() && f[i] == "fs"@;
        assert(f[i][0] == 'f');
    }
    if f.contains("time"@) {
        let i = choose|i: int| 0 <= i < f.len() && f[i] == "time"@;
        assert(f[i][0] == 't');
    }
    if r.uses_std_fs {
        assert(f[2] == "fs"@);
    }
    if r.uses_std_time {
        assert(f[f.len() - 1] == "time"@);
    }
    let d = dependency_lines(r);
    let t = "tokio = { version = \"1.49.0\", features = ["@ + join_with(quoted(f), ", "@) + "] }"@;
    assert(t[0] == 't');
    if d.contains("anyhow = \"1\""@) {
        let i = choose|i: int| 0 <= i < d.len() && d[i] == "anyhow = \"1\""@;
        assert(d[i][0] == 'a' && d[i][1] == 'n');
    }
    if d.contains("async-channel = \"2.5.0\""@) {
        let i = choose|i: int| 0 <= i < d.len() && d[i] == "async-channel = \"2.5.0\""@;
        assert(d[i][0] == 'a' && d[i][1] == 's');
    }
    if d.contains("reqwest = { version = \"0.13.1\", features = [\"gzip\", \"json\"] }"@) {
        let i = choose|i: int| 0 <= i < d.len() && d[i] == "reqwest = { version = \"0.13.1\", features = [\"gzip\", \"json\"] }"@;
        assert(d[i][0] == 'r');
    }
    if r.uses_anyhow {
        assert(d[2] == "anyhow = \"1\""@);
    }
    if r.uses_pipes {
        let k = if r.uses_anyhow { 3int } else { 2int };
        assert(d[k] == "async-channel = \"2.5.0\""@);
    }
    if r.uses_std_net {
        assert(d[d.len() - 1] == "reqwest = { version = \"0.13.1\", features = [\"gzip\", \"json\"] }"@);
    }
}

/// The manifest of the generated project.
pub open spec fn cargo_toml_text(r: BuildRequirements) -> Seq<char> {
    "\n[package]\nname = \"kiro_script\"\nversion = \"0.1.0\"\nedition = \"2021\"\n\n[dependencies]\n"@
        + join_with(dependency_lines(r), "\n"@) + "\n"@
}

fn push_line(lines: &mut Vec<String>, s: String)
    ensures
        final(lines)@.len() == old(lines)@.len() + 1,
        forall|k: int| 0 <= k < old(lines)@.len() ==> final(lines)@[k] == old(lines)@[k],
        final(lines)@.last() == s,
{
    lines.push(s);
}

fn quote(name: &str) -> (r: String)
    ensures
        r@ == "\""@ + name@ + "\""@,
{
    let mut r = String::from_str("\"");
    push_str(&mut r, name);
    push_str(&mut r, "\"");
    r
}

pub open spec fn texts(v: Seq<String>) -> Seq<Seq<char>> {
    Seq::new(v.len(), |i: int| v[i]@)
}

fn join_strings(v: &Vec<String>, sep: &str) -> (r: String)
    ensures
        r@ == join_with(texts(v@), sep@),
{
    let mut r = String::new();
    let mut i: usize = 0;
    while i < v.len()
        invariant
            i <= v@.len(),
            r@ == join_with(texts(v@.subrange(0, i as int)), sep@),
        decreases v.len() - i,
    {
        proof {
            assert(texts(v@.subrange(0, i + 1)) =~= texts(v@.subrange(0, i as int)).push(v@[i as int]@));
            lemma_join_push(texts(v@.subrange(0, i as int)), sep@, v@[i as int]@);
            if i == 0 {
                assert(texts(v@.subrange(0, 0)) =~= Seq::<Seq<char>>::empty());
            }
        }
        if i > 0 {
            push_str(&mut r, sep);
        }
        let ghost before = r@;
        push_str(&mut r, v[i].as_str());
        proof {
            if i == 0 {
                assert(r@ =~= v@[0]@);
            }
        }
        i = i + 1;
    }
    proof {
        assert(v@.subrange(0, v@.len() as int) =~= v@);
    }
    r
}

impl BuildManager {
    pub fn new(build_dir: &str) -> (r: BuildManager)
        ensures
            r.build_dir@ == build_dir@,
    {
        BuildManager { build_dir: String::from_str(build_dir) }
    }

    /// The start of the generated header module.
    pub fn header_preamble() -> (r: &'static str)
        ensures
            r@ == HEADER_PREAMBLE@,
    {
        HEADER_PREAMBLE
    }

    /// Where the generated header module is written: `<build dir>/src/header.rs`.
    pub fn header_path(&self) -> (r: String)
        ensures
            r@ == self.build_dir@ + "/src/header.rs"@,
    {
        let mut r = self.build_dir.clone();
        push_str(&mut r, "/src/header.rs");
        r
    }

    /// Where a generated source file is written: `<build dir>/src/<name>.rs`.
    pub fn source_path(&self, name_without_ext: &str) -> (r: String)
        ensures
            r@ == self.build_dir@ + "/src/"@ + name_without_ext@ + ".rs"@,
    {
        let mut r = self.build_dir.clone();
        push_str(&mut r, "/src/");
        push_str(&mut r, name_without_ext);
        push_str(&mut r, ".rs");
        r
    }

    /// Where the manifest is written: `<build dir>/Cargo.toml`.
    pub fn cargo_toml_path(&self) -> (r: String)
        ensures
            r@ == self.build_dir@ + "/Cargo.toml"@,
    {
        let mut r = self.build_dir.clone();
        push_str(&mut r, "/Cargo.toml");
        r
    }

    /// The manifest of the generated project: tokio with the features the program needs,
    /// the runtime, and each optional dependency the program needs.
    pub fn cargo_toml(requirements: &BuildRequirements) -> (r: String)
        ensures
            r@ == cargo_toml_text(*requirements),
    {
        let mut features: Vec<String> = Vec::new();
        features.push(quote("macros"));
        features.push(quote("rt-multi-thread"));
        if requirements.uses_std_fs {
            features.push(quote("fs"));
        }
        if requirements.uses_std_time {
            features.push(quote("time"));
        }
        proof {
            assert(texts(features@) =~= quoted(tokio_features(*requirements)));
        }
        let feature_list = join_strings(&features, ", ");
        let mut tokio = String::from_str("tokio = { version = \"1.49.0\", features = [");
        push_str(&mut tokio, feature_list.as_str());
        push_str(&mut tokio, "] }");
        let mut lines: Vec<String> = Vec::new();
        lines.push(tokio);
        lines.push(String::from_str("kiro_runtime = { path = \"../kiro_runtime\" }"));
        if requirements.uses_anyhow {
            lines.push(String::from_str("anyhow = \"1\""));
        }
        if requirements.uses_pipes {
            lines.push(String::from_str("async-channel = \"2.5.0\""));
        }
        if requirements.uses_std_net {
            lines.push(String::from_str("reqwest = { version = \"0.13.1\", features = [\"gzip\", \"json\"] }"));
        }
        proof {
            assert(texts(lines@) =~= dependency_lines(*requirements));
        }
        let deps = join_strings(&lines, "\n");
        let mut content = String::from_str("\n[package]\nname = \"kiro_script\"\nversion = \"0.1.0\"\nedition = \"2021\"\n\n[dependencies]\n");
        push_str(&mut content, deps.as_str());
        push_str(&mut content, "\n");
        content
    }
}

} // verus!
