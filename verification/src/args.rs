//! The options of a build and the arguments that they become on the build
//! tool's command line.

use vstd::prelude::*;
use vstd::string::*;
use crate::classify::{BuildProductSelector, SelectorView};
use crate::text::{lemma_texts_push, opt_text, texts};

verus! {

/// What the user asked of the build.
#[derive(Debug, PartialEq, Eq)]
pub struct BuildOptions {
    /// The product that the tool is to work on.
    pub selector: BuildProductSelector,
    /// Whether the build's own output is unwanted.
    pub quiet: bool,
    /// The package to build.
    pub package: Option<String>,
    /// Configuration overrides, in the order given.
    pub config: Vec<String>,
    /// The number of parallel jobs.
    pub jobs: Option<String>,
    /// Whether to build with optimizations.
    pub release: bool,
    /// The profile to build with.
    pub profile: Option<String>,
    /// The path of the manifest.
    pub manifest_path: Option<String>,
    /// Features to activate, in the order given.
    pub features: Vec<String>,
    pub no_default_features: bool,
    pub all_features: bool,
    /// The target triple to build for.
    pub target: Option<String>,
    /// How often verbose output was asked for.
    pub verbose: u64,
    /// When to colour the output.
    pub color: Option<String>,
    pub frozen: bool,
    pub locked: bool,
    pub offline: bool,
    /// Unstable flags for the build tool, in the order given.
    pub unstable_features: Vec<String>,
}

/// Mathematical model of [`BuildOptions`].
pub struct OptionsView {
    pub selector: SelectorView,
    pub quiet: bool,
    pub package: Option<Seq<char>>,
    pub config: Seq<Seq<char>>,
    pub jobs: Option<Seq<char>>,
    pub release: bool,
    pub profile: Option<Seq<char>>,
    pub manifest_path: Option<Seq<char>>,
    pub features: Seq<Seq<char>>,
    pub no_default_features: bool,
    pub all_features: bool,
    pub target: Option<Seq<char>>,
    pub verbose: u64,
    pub color: Option<Seq<char>>,
    pub frozen: bool,
    pub locked: bool,
    pub offline: bool,
    pub unstable_features: Seq<Seq<char>>,
}

impl View for BuildOptions {
    type V = OptionsView;

    open spec fn view(&self) -> OptionsView {
        OptionsView {
            selector: self.selector@,
            quiet: self.quiet,
            package: opt_text(self.package),
            config: texts(self.config@),
            jobs: opt_text(self.jobs),
            release: self.release,
            profile: opt_text(self.profile),
            manifest_path: opt_text(self.manifest_path),
            features: texts(self.features@),
            no_default_features: self.no_default_features,
            all_features: self.all_features,
            target: opt_text(self.target),
            verbose: self.verbose,
            color: opt_text(self.color),
            frozen: self.frozen,
            locked: self.locked,
            offline: self.offline,
            unstable_features: texts(self.unstable_features@),
        }
    }
}

/// A switch: its name where it is on, nothing where it is off.
pub open spec fn flag(on: bool, name: Seq<char>) -> Seq<Seq<char>> {
    if on {
        seq![name]
    } else {
        Seq::empty()
    }
}

/// An option with a value: its name and the value, or nothing.
pub open spec fn pair(name: Seq<char>, value: Option<Seq<char>>) -> Seq<Seq<char>> {
    match value {
        Some(v) => seq![name, v],
        None => Seq::empty(),
    }
}

/// An option that may be repeated: its name before each of the values.
pub open spec fn each(name: Seq<char>, values: Seq<Seq<char>>) -> Seq<Seq<char>>
    decreases values.len(),
{
    if values.len() == 0 {
        Seq::empty()
    } else {
        each(name, values.drop_last()) + seq![name, values.last()]
    }
}

/// The letter `v`, `count` times.
pub open spec fn letters_v(count: nat) -> Seq<char> {
    Seq::new(count, |i: int| 'v')
}

/// The verbosity handed on to the build tool: the first request for
/// verbose output concerns the proxy alone, each further one adds a `v`.
pub open spec fn verbosity(verbose: u64) -> Seq<Seq<char>> {
    if verbose > 1 {
        seq![seq!['-'] + letters_v((verbose - 1) as nat)]
    } else {
        Seq::empty()
    }
}

/// The arguments that ask the build tool for the product that `selector`
/// names. There is none for `Any`, nor for a build script.
pub open spec fn selector_args(selector: SelectorView) -> Seq<Seq<char>> {
    match selector {
        SelectorView::Any => Seq::empty(),
        SelectorView::Binary(name) => seq!["--bin"@, name],
        SelectorView::Example(name) => seq!["--example"@, name],
        SelectorView::Test(name) => seq!["--test"@, name],
        SelectorView::Bench(name) => seq!["--bench"@, name],
        SelectorView::Library => seq!["--lib"@],
        SelectorView::CustomBuildScript => Seq::empty(),
    }
}

/// The arguments that `options` become, in the order in which the build
/// tool is given them.
pub open spec fn build_args(options: OptionsView) -> Seq<Seq<char>> {
    flag(options.quiet, "--quiet"@) + pair("--package"@, options.package) + each(
        "--config"@,
        options.config,
    ) + pair("-j"@, options.jobs) + selector_args(options.selector) + flag(
        options.release,
        "--release"@,
    ) + pair("--profile"@, options.profile) + pair("--manifest-path"@, options.manifest_path)
        + each("--features"@, options.features) + flag(
        options.no_default_features,
        "--no-default-features"@,
    ) + flag(options.all_features, "--all-features"@) + pair("--target"@, options.target)
        + verbosity(options.verbose) + pair("--color"@, options.color) + flag(
        options.frozen,
        "--frozen"@,
    ) + flag(options.locked, "--locked"@) + flag(options.offline, "--offline"@) + each(
        "-Z"@,
        options.unstable_features,
    )
}

/// The whole command line of the build, after the build tool's name: the
/// subcommand, the options, and the request for a machine-readable stream
/// with diagnostics rendered for display.
pub open spec fn build_command(options: OptionsView) -> Seq<Seq<char>> {
    seq!["build"@] + build_args(options) + seq!["--message-format=json-diagnostic-rendered-ansi"@]
}

fn push_word(args: &mut Vec<String>, word: &str)
    ensures
        texts(final(args)@) == texts(old(args)@) + seq![word@],
{
    let owned = word.to_owned();
    proof {
        lemma_texts_push(args@, owned);
    }
    args.push(owned);
    assert(texts(old(args)@).push(word@) =~= texts(old(args)@) + seq![word@]);
}

fn push_flag(args: &mut Vec<String>, on: bool, name: &str)
    ensures
        texts(final(args)@) == texts(old(args)@) + flag(on, name@),
{
    if on {
        push_word(args, name);
    } else {
        assert(texts(args@) + flag(on, name@) =~= texts(args@));
    }
}

fn push_pair(args: &mut Vec<String>, name: &str, value: &Option<String>)
    ensures
        texts(final(args)@) == texts(old(args)@) + pair(name@, opt_text(*value)),
{
    match value {
        Some(v) => {
            push_word(args, name);
            push_word(args, v.as_str());
            assert(texts(old(args)@) + seq![name@] + seq![v@] =~= texts(old(args)@) + seq![
                name@,
                v@,
            ]);
        },
        None => {
            assert(texts(args@) + pair(name@, opt_text(*value)) =~= texts(args@));
        },
    }
}

fn push_each(args: &mut Vec<String>, name: &str, values: &Vec<String>)
    ensures
        texts(final(args)@) == texts(old(args)@) + each(name@, texts(values@)),
{
    let mut i: usize = 0;
    assert(texts(args@) + each(name@, texts(values@).take(0)) =~= texts(args@));
    while i < values.len()
        invariant
            i <= values.len(),
            texts(args@) == texts(old(args)@) + each(name@, texts(values@).take(i as int)),
        decreases values.len() - i,
    {
        let ghost before = texts(args@);
        push_word(args, name);
        push_word(args, values[i].as_str());
        proof {
            let all = texts(values@);
            assert(all.take(i + 1).drop_last() =~= all.take(i as int));
            assert(all.take(i + 1).last() == values@[i as int]@);
            assert(before + seq![name@] + seq![values@[i as int]@] =~= texts(old(args)@) + (each(
                name@,
                all.take(i as int),
            ) + seq![name@, values@[i as int]@]));
        }
        i += 1;
    }
    assert(texts(values@).take(values.len() as int) =~= texts(values@));
}

fn push_verbosity(args: &mut Vec<String>, verbose: u64)
    ensures
        texts(final(args)@) == texts(old(args)@) + verbosity(verbose),
{
    if verbose > 1 {
        let mut word = String::from_str("-");
        let mut count: u64 = 0;
        proof {
            reveal_strlit("-");
            reveal_strlit("v");
            assert(word@ =~= seq!['-'] + letters_v(0));
        }
        while count < verbose - 1
            invariant
                verbose > 1,
                count <= verbose - 1,
                word@ == seq!['-'] + letters_v(count as nat),
                "v"@ == seq!['v'],
            decreases verbose - 1 - count,
        {
            word.append("v");
            count += 1;
            assert(word@ =~= seq!['-'] + letters_v(count as nat));
        }
        push_word(args, word.as_str());
    } else {
        assert(texts(args@) + verbosity(verbose) =~= texts(args@));
    }
}

fn push_selector(args: &mut Vec<String>, selector: &BuildProductSelector)
    ensures
        texts(final(args)@) == texts(old(args)@) + selector_args(selector@),
{
    match selector {
        BuildProductSelector::Any | BuildProductSelector::CustomBuildScript => {
            assert(texts(args@) + selector_args(selector@) =~= texts(args@));
        },
        BuildProductSelector::Binary(name) => {
            push_word(args, "--bin");
            push_word(args, name.as_str());
            assert(texts(args@) =~= texts(old(args)@) + selector_args(selector@));
        },
        BuildProductSelector::Example(name) => {
            push_word(args, "--example");
            push_word(args, name.as_str());
            assert(texts(args@) =~= texts(old(args)@) + selector_args(selector@));
        },
        BuildProductSelector::Test(name) => {
            push_word(args, "--test");
            push_word(args, name.as_str());
            assert(texts(args@) =~= texts(old(args)@) + selector_args(selector@));
        },
        BuildProductSelector::Bench(name) => {
            push_word(args, "--bench");
            push_word(args, name.as_str());
            assert(texts(args@) =~= texts(old(args)@) + selector_args(selector@));
        },
        BuildProductSelector::Library => {
            push_word(args, "--lib");
        },
    }
}

/// The arguments that `options` become on the build tool's command line.
pub fn cargo_build_args(options: &BuildOptions) -> (args: Vec<String>)
    ensures
        texts(args@) == build_args(options@),
{
    let mut args: Vec<String> = Vec::new();
    assert(texts(args@) =~= Seq::<Seq<char>>::empty());
    push_flag(&mut args, options.quiet, "--quiet");
    assert(texts(args@) =~= flag(options.quiet, "--quiet"@));
    push_pair(&mut args, "--package", &options.package);
    push_each(&mut args, "--config", &options.config);
    push_pair(&mut args, "-j", &options.jobs);
    push_selector(&mut args, &options.selector);
    push_flag(&mut args, options.release, "--release");
    push_pair(&mut args, "--profile", &options.profile);
    push_pair(&mut args, "--manifest-path", &options.manifest_path);
    push_each(&mut args, "--features", &options.features);
    push_flag(&mut args, options.no_default_features, "--no-default-features");
    push_flag(&mut args, options.all_features, "--all-features");
    push_pair(&mut args, "--target", &options.target);
    push_verbosity(&mut args, options.verbose);
    push_pair(&mut args, "--color", &options.color);
    push_flag(&mut args, options.frozen, "--frozen");
    push_flag(&mut args, options.locked, "--locked");
    push_flag(&mut args, options.offline, "--offline");
    push_each(&mut args, "-Z", &options.unstable_features);
    args
}

/// The build's whole command line after the build tool's name.
pub fn cargo_build_command(options: &BuildOptions) -> (args: Vec<String>)
    ensures
        texts(args@) == build_command(options@),
{
    let mut args: Vec<String> = Vec::new();
    assert(texts(args@) =~= Seq::<Seq<char>>::empty());
    push_word(&mut args, "build");
    assert(texts(args@) =~= seq!["build"@]);
    let mut options_part = cargo_build_args(options);
    let ghost head = args@;
    let ghost tail = options_part@;
    args.append(&mut options_part);
    proof {
        crate::text::lemma_texts_add(head, tail);
    }
    push_word(&mut args, "--message-format=json-diagnostic-rendered-ansi");
    args
}

} // verus!
