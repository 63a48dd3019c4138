use crate::text::{chars_of, has_prefix, matches_at, owned, starts_with, str_eq, string_of};
use vstd::prelude::*;
use vstd::string::StrSliceExecFns;

verus! {

/// `p` is a suffix of `s`.
pub open spec fn has_suffix(s: Seq<char>, p: Seq<char>) -> bool {
    p.len() <= s.len() && s.skip(s.len() - p.len()) == p
}

/// Whether `s` ends with `p`.
pub fn ends_with(s: &str, p: &str) -> (r: bool)
    ensures
        r == has_suffix(s@, p@),
{
    let sc = chars_of(s);
    let pc = chars_of(p);
    if pc.len() > sc.len() {
        return false;
    }
    let at = sc.len() - pc.len();
    let r = matches_at(&sc, &pc, at);
    assert(sc@.subrange(at as int, at + pc@.len()) =~= sc@.skip(at as int));
    r
}

/// `s` with each occurrence of the non-empty `from`, found from left to
/// right without overlap, replaced by `to`.
pub open spec fn replace_all(s: Seq<char>, from: Seq<char>, to: Seq<char>) -> Seq<char>
    recommends
        from.len() > 0,
    decreases s.len(),
{
    if from.len() == 0 || s.len() < from.len() {
        s
    } else if s.take(from.len() as int) == from {
        to + replace_all(s.skip(from.len() as int), from, to)
    } else {
        seq![s[0]] + replace_all(s.skip(1), from, to)
    }
}

/// `s` with every occurrence of `from` replaced by `to`.
pub fn replaced(s: &str, from: &str, to: &str) -> (r: String)
    requires
        from@.len() > 0,
    ensures
        r@ == replace_all(s@, from@, to@),
{
    let sc = chars_of(s);
    let fc = chars_of(from);
    let tc = chars_of(to);
    let mut out: Vec<char> = Vec::new();
    let mut i: usize = 0;
    assert(sc@.skip(0) =~= sc@);
    assert(out@ + replace_all(sc@, fc@, tc@) =~= replace_all(sc@, fc@, tc@));
    while i < sc.len()
        invariant
            sc@ == s@,
            fc@ == from@,
            tc@ == to@,
            fc@.len() > 0,
            i <= sc@.len(),
            out@ + replace_all(sc@.skip(i as int), fc@, tc@) == replace_all(sc@, fc@, tc@),
        decreases sc@.len() - i,
    {
        let ghost rest = sc@.skip(i as int);
        if fc.len() <= sc.len() - i && matches_at(&sc, &fc, i) {
            assert(rest.take(fc@.len() as int) =~= sc@.subrange(i as int, i + fc@.len()));
            assert(rest.skip(fc@.len() as int) =~= sc@.skip(i + fc@.len()));
            let mut j: usize = 0;
            let ghost before = out@;
            while j < tc.len()
                invariant
                    j <= tc@.len(),
                    out@ == before + tc@.take(j as int),
                decreases tc@.len() - j,
            {
                out.push(tc[j]);
                j = j + 1;
                assert(out@ =~= before + tc@.take(j as int));
            }
            assert(tc@.take(j as int) =~= tc@);
            assert(out@ + replace_all(sc@.skip(i + fc@.len()), fc@, tc@) =~= before + (tc@
                + replace_all(sc@.skip(i + fc@.len()), fc@, tc@)));
            i = i + fc.len();
        } else {
            if fc.len() <= sc.len() - i {
                assert(rest.take(fc@.len() as int) =~= sc@.subrange(i as int, i + fc@.len()));
            }
            assert(rest.skip(1) =~= sc@.skip(i + 1));
            let ghost before = out@;
            out.push(sc[i]);
            assert(out@ + replace_all(sc@.skip(i + 1), fc@, tc@) =~= before + (seq![sc@[i as int]]
                + replace_all(sc@.skip(i + 1), fc@, tc@)));
            i = i + 1;
        }
    }
    assert(replace_all(sc@.skip(i as int), fc@, tc@) == sc@.skip(i as int));
    assert(sc@.skip(i as int) =~= Seq::<char>::empty());
    assert(out@ =~= replace_all(sc@, fc@, tc@));
    string_of(&out)
}

/// The options of a compile run given on the command line.
pub struct CliOptions {
    pub input_file: String,
    pub output_file: String,
    pub skip_check: bool,
    pub gen_syntax_md: bool,
}

/// What the command line asks for.
pub enum CliCommand {
    /// `--test` as the first argument: compile the built-in sample program.
    SelfTest,
    /// No argument at all: show how to call the compiler.
    Usage,
    /// Compile with these options.
    Build(CliOptions),
}

/// The mathematical form of `CliOptions`.
pub ghost struct OptionsView {
    pub input_file: Seq<char>,
    pub output_file: Seq<char>,
    pub skip_check: bool,
    pub gen_syntax_md: bool,
}

impl View for CliOptions {
    type V = OptionsView;

    open spec fn view(&self) -> OptionsView {
        OptionsView {
            input_file: self.input_file@,
            output_file: self.output_file@,
            skip_check: self.skip_check,
            gen_syntax_md: self.gen_syntax_md,
        }
    }
}

/// The options read from the arguments at positions `i` on, starting
/// from `acc`: `-o` or `--output` takes the next argument as the output,
/// `--skip-check` and `--gen-syntax-md` set their flags, and the first
/// argument that does not start with `-` is the input; anything else is
/// passed over.
pub open spec fn scan_args(args: Seq<Seq<char>>, i: int, acc: OptionsView) -> OptionsView
    decreases args.len() - i,
{
    if i < 0 || i >= args.len() {
        acc
    } else if args[i] == "-o"@ || args[i] == "--output"@ {
        if i + 1 < args.len() {
            scan_args(args, i + 2, OptionsView { output_file: args[i + 1], ..acc })
        } else {
            acc
        }
    } else if args[i] == "--skip-check"@ {
        scan_args(args, i + 1, OptionsView { skip_check: true, ..acc })
    } else if args[i] == "--gen-syntax-md"@ {
        scan_args(args, i + 1, OptionsView { gen_syntax_md: true, ..acc })
    } else if !has_prefix(args[i], "-"@) && acc.input_file.len() == 0 {
        scan_args(args, i + 1, OptionsView { input_file: args[i], ..acc })
    } else {
        scan_args(args, i + 1, acc)
    }
}

/// The options of a fresh run: no input, no output, no flag.
pub open spec fn no_options() -> OptionsView {
    OptionsView {
        input_file: Seq::empty(),
        output_file: Seq::empty(),
        skip_check: false,
        gen_syntax_md: false,
    }
}

/// Reads the command line `args`, the program's name first.
pub fn parse_cli(args: &Vec<String>) -> (r: CliCommand)
    ensures
        args@.len() > 1 && args@[1]@ == "--test"@ ==> r is SelfTest,
        !(args@.len() > 1 && args@[1]@ == "--test"@) && args@.len() < 2 ==> r is Usage,
        args@.len() >= 2 && args@[1]@ != "--test"@ ==> (r matches CliCommand::Build(o) && o@
            == scan_args(crate::text::texts(args@), 1, no_options())),
{
    if args.len() > 1 && str_eq(args[1].as_str(), "--test") {
        return CliCommand::SelfTest;
    }
    if args.len() < 2 {
        return CliCommand::Usage;
    }
    let ghost a = crate::text::texts(args@);
    let mut o = CliOptions {
        input_file: String::new(),
        output_file: String::new(),
        skip_check: false,
        gen_syntax_md: false,
    };
    let mut i: usize = 1;
    while i < args.len()
        invariant
            a == crate::text::texts(args@),
            1 <= i,
            scan_args(a, 1, no_options()) == scan_args(a, i as int, o@),
        decreases args@.len() - i,
    {
        let arg = args[i].as_str();
        assert(a[i as int] == arg@);
        if str_eq(arg, "-o") || str_eq(arg, "--output") {
            if i + 1 < args.len() {
                o.output_file = args[i + 1].clone();
                assert(a[i + 1] == args@[i + 1]@);
                i = i + 2;
            } else {
                assert(scan_args(a, i as int, o@) == o@);
                i = args.len();
                assert(scan_args(a, i as int, o@) == o@);
            }
        } else if str_eq(arg, "--skip-check") {
            o.skip_check = true;
            i = i + 1;
        } else if str_eq(arg, "--gen-syntax-md") {
            o.gen_syntax_md = true;
            i = i + 1;
        } else if !starts_with(arg, "-") && o.input_file.as_str().unicode_len() == 0 {
            o.input_file = args[i].clone();
            i = i + 1;
        } else {
            i = i + 1;
        }
    }
    CliCommand::Build(o)
}

/// The object file a run writes for the output name `output`: `.exe`
/// made `.o`, an `.o` name kept, else `.o` added.
pub open spec fn object_file_for(output: Seq<char>) -> Seq<char> {
    if has_suffix(output, ".exe"@) {
        replace_all(output, ".exe"@, ".o"@)
    } else if has_suffix(output, ".o"@) {
        output
    } else {
        output + ".o"@
    }
}

/// Whether a run links an executable after writing the object file: the
/// output name ends in `.exe` or `.o`.
pub open spec fn links_executable(output: Seq<char>) -> bool {
    has_suffix(output, ".exe"@) || has_suffix(output, ".o"@)
}

/// The executable a linking run writes: the output name where it ends in
/// `.exe`, else that name with `.o` made `.exe`.
pub open spec fn executable_for(output: Seq<char>) -> Seq<char> {
    if has_suffix(output, ".exe"@) {
        output
    } else {
        replace_all(output, ".o"@, ".exe"@)
    }
}

/// The object file name for the output name `output`.
pub fn object_file_name(output: &str) -> (r: String)
    ensures
        r@ == object_file_for(output@),
{
    proof {
        reveal_strlit(".exe");
        reveal_strlit(".o");
    }
    if ends_with(output, ".exe") {
        replaced(output, ".exe", ".o")
    } else if ends_with(output, ".o") {
        owned(output)
    } else {
        crate::text::joined(output, ".o")
    }
}

/// Whether the run links an executable for the output name `output`.
pub fn should_link(output: &str) -> (r: bool)
    ensures
        r == links_executable(output@),
{
    ends_with(output, ".exe") || ends_with(output, ".o")
}

/// The executable name for the output name `output`.
pub fn executable_name(output: &str) -> (r: String)
    ensures
        r@ == executable_for(output@),
{
    proof {
        reveal_strlit(".o");
    }
    if ends_with(output, ".exe") {
        owned(output)
    } else {
        replaced(output, ".o", ".exe")
    }
}

/// The file that declares which plugins a source file uses: the source
/// file's name with `.toml` added (`main.ts.toml` for `main.ts`).
pub fn dependency_file_name(input_file: &str) -> (r: String)
    ensures
        r@ == input_file@ + ".toml"@,
{
    crate::text::joined(input_file, ".toml")
}

} // verus!
