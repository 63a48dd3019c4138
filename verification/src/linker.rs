use crate::extension::{Extension, ExtensionRegistry, LinkConfig};
use crate::text::{contains_string, contains_text, has_infix, has_prefix, joined, owned, starts_with, texts};
use vstd::prelude::*;

verus! {

/// Plans the invocation of the platform linker for one executable.
pub struct Linker {
    output_name: String,
    link_config: LinkConfig,
}

/// The views of a list of string slices.
pub open spec fn str_texts(v: Seq<&str>) -> Seq<Seq<char>> {
    v.map_values(|s: &str| s@)
}

/// Each item of `v` followed by `suffix`.
pub open spec fn with_suffix(v: Seq<Seq<char>>, suffix: Seq<char>) -> Seq<Seq<char>> {
    v.map_values(|s: Seq<char>| s + suffix)
}

/// Each item of `v` after `prefix`.
pub open spec fn with_prefix(v: Seq<Seq<char>>, prefix: Seq<char>) -> Seq<Seq<char>> {
    v.map_values(|s: Seq<char>| prefix + s)
}

/// The entry point: `_start` when the no-CRT start object is linked in.
pub open spec fn windows_entry(objects: Seq<Seq<char>>) -> Seq<char> {
    if exists|i: int| 0 <= i < objects.len() && has_infix(#[trigger] objects[i], "start_nocrt.o"@) {
        "_start"@
    } else {
        "mainCRTStartup"@
    }
}

/// The arguments given to `link.exe`.
pub open spec fn windows_link_args(
    output: Seq<char>,
    objects: Seq<Seq<char>>,
    crt_start: Option<Seq<char>>,
    libs: Seq<Seq<char>>,
    flags: Seq<Seq<char>>,
) -> Seq<Seq<char>> {
    seq![
        "/NOLOGO"@,
        "/ENTRY:"@ + windows_entry(objects),
        "/SUBSYSTEM:CONSOLE"@,
        "/OUT:"@ + output,
    ] + objects + (match crt_start {
        Some(c) => seq![c],
        None => Seq::empty(),
    }) + with_suffix(libs, ".lib"@) + seq![
        "kernel32.lib"@,
        "shell32.lib"@,
        "legacy_stdio_definitions.lib"@,
    ] + flags
}

/// The arguments given to the C compiler driver that links on Unix systems.
pub open spec fn unix_link_args(
    output: Seq<char>,
    no_pie: bool,
    objects: Seq<Seq<char>>,
    libs: Seq<Seq<char>>,
    flags: Seq<Seq<char>>,
) -> Seq<Seq<char>> {
    seq!["-o"@, output] + (if no_pie {
        seq!["-no-pie"@]
    } else {
        Seq::empty()
    }) + objects + with_prefix(libs, "-l"@) + flags
}

/// Appends each string of `items` to `out`.
fn push_all(out: &mut Vec<String>, items: &Vec<String>)
    ensures
        texts(final(out)@) == texts(old(out)@) + texts(items@),
{
    let ghost start = texts(out@);
    let mut i: usize = 0;
    while i < items.len()
        invariant
            i <= items@.len(),
            start == texts(old(out)@),
            texts(out@) == start + texts(items@).take(i as int),
        decreases items@.len() - i,
    {
        let item = items[i].clone();
        let ghost prev = out@;
        out.push(item);
        assert(texts(out@) =~= texts(prev).push(item@));
        assert(texts(items@).take(i + 1) =~= texts(items@).take(i as int).push(item@));
        assert(texts(out@) =~= start + texts(items@).take(i + 1));
        i = i + 1;
    }
    assert(texts(items@).take(i as int) =~= texts(items@));
}

/// Appends each object file name to `out`.
fn push_objects(out: &mut Vec<String>, objects: &[&str])
    ensures
        texts(final(out)@) == texts(old(out)@) + str_texts(objects@),
{
    let ghost start = texts(out@);
    let mut i: usize = 0;
    while i < objects.len()
        invariant
            i <= objects@.len(),
            start == texts(old(out)@),
            texts(out@) == start + str_texts(objects@).take(i as int),
        decreases objects@.len() - i,
    {
        let item = owned(objects[i]);
        assert(item@ == str_texts(objects@)[i as int]);
        let ghost prev = out@;
        out.push(item);
        assert(texts(out@) =~= texts(prev).push(item@));
        assert(str_texts(objects@).take(i + 1) =~= str_texts(objects@).take(i as int).push(item@));
        assert(texts(out@) =~= start + str_texts(objects@).take(i + 1));
        i = i + 1;
    }
    assert(str_texts(objects@).take(i as int) =~= str_texts(objects@));
}

/// Appends `prefix + lib + suffix` for each library to `out`.
fn push_decorated(out: &mut Vec<String>, libs: &Vec<String>, prefix: &str, suffix: &str)
    ensures
        texts(final(out)@) == texts(old(out)@) + with_suffix(with_prefix(texts(libs@), prefix@), suffix@),
{
    let ghost start = texts(out@);
    let ghost want = with_suffix(with_prefix(texts(libs@), prefix@), suffix@);
    let mut i: usize = 0;
    while i < libs.len()
        invariant
            i <= libs@.len(),
            want == with_suffix(with_prefix(texts(libs@), prefix@), suffix@),
            start == texts(old(out)@),
            texts(out@) == start + want.take(i as int),
        decreases libs@.len() - i,
    {
        let item = joined(joined(prefix, libs[i].as_str()).as_str(), suffix);
        assert(item@ == want[i as int]);
        let ghost prev = out@;
        out.push(item);
        assert(texts(out@) =~= texts(prev).push(item@));
        assert(want.take(i + 1) =~= want.take(i as int).push(item@));
        assert(texts(out@) =~= start + want.take(i + 1));
        i = i + 1;
    }
    assert(want.take(i as int) =~= want);
}

impl Linker {
    /// The executable to produce.
    pub closed spec fn spec_output(&self) -> Seq<char> {
        self.output_name@
    }

    /// The libraries to link against.
    pub closed spec fn spec_libs(&self) -> Seq<Seq<char>> {
        texts(self.link_config.libs@)
    }

    /// The extra linker flags.
    pub closed spec fn spec_flags(&self) -> Seq<Seq<char>> {
        texts(self.link_config.flags@)
    }

    pub fn new(output_name: &str, link_config: LinkConfig) -> (r: Self)
        ensures
            r.spec_output() == output_name@,
            r.spec_libs() == texts(link_config.libs@),
            r.spec_flags() == texts(link_config.flags@),
    {
        Linker { output_name: owned(output_name), link_config }
    }

    /// The linker program on Windows: `TSN_LINKER` where set, else `link.exe`.
    pub fn windows_linker(tsn_linker: Option<String>) -> (r: String)
        ensures
            r@ == (match tsn_linker {
                Some(s) => s@,
                None => "link.exe"@,
            }),
    {
        match tsn_linker {
            Some(s) => s,
            None => owned("link.exe"),
        }
    }

    /// The compiler driver used to link on Unix: `TSN_CC`, else `CC`, else `cc`.
    pub fn unix_driver(tsn_cc: Option<String>, cc: Option<String>) -> (r: String)
        ensures
            r@ == (match (tsn_cc, cc) {
                (Some(s), _) => s@,
                (None, Some(s)) => s@,
                (None, None) => "cc"@,
            }),
    {
        match tsn_cc {
            Some(s) => s,
            None => match cc {
                Some(s) => s,
                None => owned("cc"),
            },
        }
    }

    /// The arguments for `link.exe`; `crt_start` is the value of `TSN_CRT_START`.
    pub fn windows_args(&self, object_files: &[&str], crt_start: Option<String>) -> (r: Vec<String>)
        ensures
            texts(r@) == windows_link_args(
                self.spec_output(),
                str_texts(object_files@),
                match crt_start {
                    Some(c) => Some(c@),
                    None => None,
                },
                self.spec_libs(),
                self.spec_flags(),
            ),
    {
        let mut has_start = false;
        let mut i: usize = 0;
        while i < object_files.len()
            invariant
                i <= object_files@.len(),
                has_start == exists|k: int|
                    0 <= k < i && has_infix(#[trigger] str_texts(object_files@)[k], "start_nocrt.o"@),
            decreases object_files@.len() - i,
        {
            if contains_text(object_files[i], "start_nocrt.o") {
                assert(has_infix(str_texts(object_files@)[i as int], "start_nocrt.o"@));
                has_start = true;
            }
            i = i + 1;
        }
        let entry = if has_start { owned("_start") } else { owned("mainCRTStartup") };
        let mut args: Vec<String> = Vec::new();
        args.push(owned("/NOLOGO"));
        args.push(joined("/ENTRY:", entry.as_str()));
        args.push(owned("/SUBSYSTEM:CONSOLE"));
        args.push(joined("/OUT:", self.output_name.as_str()));
        let ghost head = texts(args@);
        assert(head =~= seq![
            "/NOLOGO"@,
            "/ENTRY:"@ + windows_entry(str_texts(object_files@)),
            "/SUBSYSTEM:CONSOLE"@,
            "/OUT:"@ + self.spec_output(),
        ]);
        push_objects(&mut args, object_files);
        let ghost after_objects = texts(args@);
        let ghost crt_view: Option<Seq<char>> = match &crt_start {
            Some(c) => Some(c@),
            None => None,
        };
        match crt_start {
            Some(c) => args.push(c),
            None => {},
        }
        let ghost after_crt = texts(args@);
        assert(after_crt =~= after_objects + match crt_view {
            Some(c) => seq![c],
            None => Seq::empty(),
        });
        push_decorated(&mut args, &self.link_config.libs, "", ".lib");
        let ghost after_libs = texts(args@);
        args.push(owned("kernel32.lib"));
        args.push(owned("shell32.lib"));
        args.push(owned("legacy_stdio_definitions.lib"));
        let ghost after_defaults = texts(args@);
        assert(after_defaults =~= after_libs + seq![
            "kernel32.lib"@,
            "shell32.lib"@,
            "legacy_stdio_definitions.lib"@,
        ]);
        push_all(&mut args, &self.link_config.flags);
        proof {
            reveal_strlit("");
            let libs = texts(self.link_config.libs@);
            assert(with_prefix(libs, ""@) =~= libs) by {
                assert forall|k: int| 0 <= k < libs.len() implies with_prefix(libs, ""@)[k]
                    == libs[k] by {
                    assert(""@ + libs[k] =~= libs[k]);
                }
            }
            assert(texts(args@) =~= windows_link_args(
                self.spec_output(),
                str_texts(object_files@),
                crt_view,
                self.spec_libs(),
                self.spec_flags(),
            ));
        }
        args
    }

    /// The arguments for the compiler driver; `-no-pie` is passed on Linux.
    pub fn unix_args(&self, object_files: &[&str], no_pie: bool) -> (r: Vec<String>)
        ensures
            texts(r@) == unix_link_args(
                self.spec_output(),
                no_pie,
                str_texts(object_files@),
                self.spec_libs(),
                self.spec_flags(),
            ),
    {
        let mut args: Vec<String> = Vec::new();
        args.push(owned("-o"));
        args.push(self.output_name.clone());
        if no_pie {
            args.push(owned("-no-pie"));
        }
        push_objects(&mut args, object_files);
        push_decorated(&mut args, &self.link_config.libs, "-l", "");
        push_all(&mut args, &self.link_config.flags);
        proof {
            reveal_strlit("");
            let d = with_prefix(texts(self.link_config.libs@), "-l"@);
            assert(with_suffix(d, ""@) =~= d) by {
                assert forall|k: int| 0 <= k < d.len() implies with_suffix(d, ""@)[k] == d[k] by {
                    assert(d[k] + ""@ =~= d[k]);
                }
            }
            assert(texts(args@) =~= unix_link_args(
                self.spec_output(),
                no_pie,
                str_texts(object_files@),
                self.spec_libs(),
                self.spec_flags(),
            ));
        }
        args
    }

    /// A canonical path without the `\\?\` verbatim prefix that Windows adds.
    pub fn normalize_path(canonical: &str) -> (r: String)
        ensures
            has_prefix(canonical@, "\\\\?\\"@) ==> r@ == canonical@.skip(4),
            !has_prefix(canonical@, "\\\\?\\"@) ==> r@ == canonical@,
    {
        if starts_with(canonical, "\\\\?\\") {
            let cs = crate::text::chars_of(canonical);
            let mut rest: Vec<char> = Vec::new();
            let mut i: usize = 4;
            proof {
                reveal_strlit("\\\\?\\");
            }
            while i < cs.len()
                invariant
                    4 <= i <= cs@.len(),
                    rest@ == cs@.subrange(4, i as int),
                decreases cs@.len() - i,
            {
                rest.push(cs[i]);
                i = i + 1;
                assert(rest@ =~= cs@.subrange(4, i as int));
            }
            assert(cs@.subrange(4, i as int) =~= canonical@.skip(4));
            crate::text::string_of(&rest)
        } else {
            owned(canonical)
        }
    }
}

/// `acc` extended, in order, by each item of `items` that it does not hold yet.
pub open spec fn union_in_order(acc: Seq<Seq<char>>, items: Seq<Seq<char>>) -> Seq<Seq<char>>
    decreases items.len(),
{
    if items.len() == 0 {
        acc
    } else {
        let r = union_in_order(acc, items.drop_last());
        if r.contains(items.last()) {
            r
        } else {
            r.push(items.last())
        }
    }
}

/// The libraries one plugin asks for: its single `lib`, if any, then its
/// `libs`.
pub open spec fn declared_libs(link: LinkConfig) -> Seq<Seq<char>> {
    (match link.lib {
        Some(l) => seq![l@],
        None => Seq::empty(),
    }) + texts(link.libs@)
}

/// The libraries of all extensions, each once, in order of first mention.
pub open spec fn collected_libs(exts: Seq<Extension>) -> Seq<Seq<char>>
    decreases exts.len(),
{
    if exts.len() == 0 {
        Seq::empty()
    } else {
        union_in_order(collected_libs(exts.drop_last()), declared_libs(exts.last().link))
    }
}

/// The libraries one plugin asks for, `lib` first.
fn libs_of(link: &LinkConfig) -> (r: Vec<String>)
    ensures
        texts(r@) == declared_libs(*link),
{
    let mut out: Vec<String> = Vec::new();
    match &link.lib {
        Some(l) => out.push(l.clone()),
        None => {},
    }
    let ghost first = texts(out@);
    let mut i: usize = 0;
    while i < link.libs.len()
        invariant
            i <= link.libs@.len(),
            texts(out@) == first + texts(link.libs@).take(i as int),
        decreases link.libs@.len() - i,
    {
        let ghost prev = out@;
        let item = link.libs[i].clone();
        out.push(item);
        assert(texts(out@) =~= texts(prev).push(link.libs@[i as int]@));
        assert(texts(link.libs@).take(i + 1) =~= texts(link.libs@).take(i as int).push(
            link.libs@[i as int]@,
        ));
        i = i + 1;
    }
    assert(texts(link.libs@).take(i as int) =~= texts(link.libs@));
    assert(texts(out@) =~= declared_libs(*link));
    out
}

/// The link flags of all extensions, each once, in order of first mention.
pub open spec fn collected_flags(exts: Seq<Extension>) -> Seq<Seq<char>>
    decreases exts.len(),
{
    if exts.len() == 0 {
        Seq::empty()
    } else {
        union_in_order(collected_flags(exts.drop_last()), texts(exts.last().link.flags@))
    }
}

/// Appends each item of `items` that `out` does not hold yet.
fn merge_into(out: &mut Vec<String>, items: &Vec<String>)
    ensures
        texts(final(out)@) == union_in_order(texts(old(out)@), texts(items@)),
{
    let ghost start = texts(out@);
    let mut i: usize = 0;
    while i < items.len()
        invariant
            start == texts(old(out)@),
            i <= items@.len(),
            texts(out@) == union_in_order(start, texts(items@).take(i as int)),
        decreases items@.len() - i,
    {
        proof {
            assert(texts(items@).take(i + 1).drop_last() =~= texts(items@).take(i as int));
        }
        if !contains_string(out, &items[i]) {
            let item = items[i].clone();
            let ghost prev = out@;
            out.push(item);
            assert(texts(out@) =~= texts(prev).push(item@));
        }
        i = i + 1;
    }
    assert(texts(items@).take(i as int) =~= texts(items@));
}

/// The link configuration of a program that uses the registered plugins:
/// every library (each plugin's `lib`, then its `libs`) and every flag that
/// some plugin asks for, each once, in order of first mention; nothing else
/// is set.
pub fn merged_link_config(registry: &ExtensionRegistry) -> (r: LinkConfig)
    ensures
        texts(r.libs@) == collected_libs(registry.extensions@),
        texts(r.flags@) == collected_flags(registry.extensions@),
        r.runtime is None,
        r.lib is None,
        r.ffi is None,
{
    let mut config = LinkConfig::default();
    assert(texts(config.libs@) =~= Seq::empty());
    assert(texts(config.flags@) =~= Seq::empty());
    let mut i: usize = 0;
    while i < registry.extensions.len()
        invariant
            i <= registry.extensions@.len(),
            texts(config.libs@) == collected_libs(registry.extensions@.take(i as int)),
            texts(config.flags@) == collected_flags(registry.extensions@.take(i as int)),
            config.runtime is None,
            config.lib is None,
            config.ffi is None,
        decreases registry.extensions@.len() - i,
    {
        proof {
            assert(registry.extensions@.take(i + 1).drop_last() =~= registry.extensions@.take(
                i as int,
            ));
        }
        let libs = libs_of(&registry.extensions[i].link);
        merge_into(&mut config.libs, &libs);
        merge_into(&mut config.flags, &registry.extensions[i].link.flags);
        i = i + 1;
    }
    assert(registry.extensions@.take(i as int) =~= registry.extensions@);
    config
}

/// The object files handed to the linker: the program's own object, then
/// the no-CRT start and runtime objects where they are present.
pub fn link_inputs(obj_file: &str, has_start: bool, has_runtime: bool) -> (r: Vec<String>)
    ensures
        texts(r@) == seq![obj_file@] + (if has_start {
            seq!["start_nocrt.o"@]
        } else {
            Seq::empty()
        }) + (if has_runtime {
            seq!["runtime_nocrt.o"@]
        } else {
            Seq::empty()
        }),
{
    let mut v: Vec<String> = Vec::new();
    v.push(owned(obj_file));
    if has_start {
        v.push(owned("start_nocrt.o"));
    }
    if has_runtime {
        v.push(owned("runtime_nocrt.o"));
    }
    let ghost want = seq![obj_file@] + (if has_start {
        seq!["start_nocrt.o"@]
    } else {
        Seq::empty()
    }) + (if has_runtime {
        seq!["runtime_nocrt.o"@]
    } else {
        Seq::empty()
    });
    assert(texts(v@) =~= want);
    v
}

} // verus!
