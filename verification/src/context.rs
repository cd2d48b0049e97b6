//! The target of an invocation: which platform the tool's input was built
//! for, and what the tool is told of it.

use vstd::prelude::*;
use vstd::string::*;
use crate::llvm::{arch_name, endian_of_name, is_thumb, llvm_arch_name, Cfg, Endian};
use crate::paths::{first_name, first_normal_component, path_below, strip_prefix};
use crate::product::{BuildProduct, ProductView};
use crate::text::{lemma_texts_push, starts_with, str_eq, texts};

verus! {

/// Why no target could be made out.
#[derive(Debug, PartialEq, Eq)]
pub enum ResolutionError {
    /// The product has no file by which its target could be told.
    NoProductFile,
    /// The product's file does not lie in a directory of the build's
    /// output directory.
    OutsideBuildRoot,
    /// The toolchain could not be asked about the target; the text is its
    /// complaint.
    ToolchainQuery(String),
    /// The toolchain reported a byte order that is neither little nor big.
    UnknownEndian(String),
}

/// Mathematical model of a [`ResolutionError`].
pub enum ResolutionErrorView {
    NoProductFile,
    OutsideBuildRoot,
    ToolchainQuery(Seq<char>),
    UnknownEndian(Seq<char>),
}

impl View for ResolutionError {
    type V = ResolutionErrorView;

    open spec fn view(&self) -> ResolutionErrorView {
        match self {
            ResolutionError::NoProductFile => ResolutionErrorView::NoProductFile,
            ResolutionError::OutsideBuildRoot => ResolutionErrorView::OutsideBuildRoot,
            ResolutionError::ToolchainQuery(cause) => ResolutionErrorView::ToolchainQuery(cause@),
            ResolutionError::UnknownEndian(name) => ResolutionErrorView::UnknownEndian(name@),
        }
    }
}

impl ResolutionErrorView {
    /// What the user is told: the failure, with its cause where the
    /// toolchain gave one.
    pub open spec fn message(self) -> Seq<char> {
        match self {
            ResolutionErrorView::NoProductFile => "the build product has no file to tell its target by"@,
            ResolutionErrorView::OutsideBuildRoot =>
                "the build product does not lie in the build's output directory"@,
            ResolutionErrorView::ToolchainQuery(cause) => "the toolchain does not know the target: "@
                + cause,
            ResolutionErrorView::UnknownEndian(name) => "unknown byte order: "@ + name,
        }
    }
}

impl ResolutionError {
    /// What the user is told.
    pub fn message(&self) -> (text: String)
        ensures
            text@ == self@.message(),
    {
        match self {
            ResolutionError::NoProductFile => String::from_str(
                "the build product has no file to tell its target by",
            ),
            ResolutionError::OutsideBuildRoot => String::from_str(
                "the build product does not lie in the build's output directory",
            ),
            ResolutionError::ToolchainQuery(cause) => String::from_str(
                "the toolchain does not know the target: ",
            ).concat(cause.as_str()),
            ResolutionError::UnknownEndian(name) => String::from_str("unknown byte order: ").concat(
                name.as_str(),
            ),
        }
    }
}

/// The target that a product was built for, told by the directory of the
/// build's output directory in which it lies: the host where that is the
/// directory of a profile, else the target that the directory is named
/// after.
pub open spec fn target_of_segment(segment: Seq<char>, host: Seq<char>) -> Seq<char> {
    if is_profile_dir(segment) {
        host
    } else {
        segment
    }
}

/// The target of an invocation that has no product to go by: the target
/// that was asked for, else the one that the workspace's configuration
/// records, else the host.
pub open spec fn target_of_flag(
    flag: Option<Seq<char>>,
    config: Option<Seq<char>>,
    host: Seq<char>,
) -> Seq<char> {
    match flag {
        Some(target) => target,
        None => match config {
            Some(target) => target,
            None => host,
        },
    }
}

/// The target that a product in the directory `segment` of the build's
/// output directory was built for.
pub fn segment_target(segment: &str, host: &str) -> (target: String)
    ensures
        target@ == target_of_segment(segment@, host@),
{
    if names_host(segment) {
        host.to_owned()
    } else {
        segment.to_owned()
    }
}

/// The target of an invocation that has no product to go by.
pub fn flag_target(flag: Option<&str>, config: Option<&str>, host: &str) -> (target: String)
    ensures
        target@ == target_of_flag(opt_str(flag), opt_str(config), host@),
{
    match flag {
        Some(target) => target.to_owned(),
        None => match config {
            Some(target) => target.to_owned(),
            None => host.to_owned(),
        },
    }
}

/// Whether a directory of the build's output directory is that of a
/// profile, whose products are built for the host.
pub open spec fn is_profile_dir(segment: Seq<char>) -> bool {
    segment == "debug"@ || segment == "release"@
}

/// Whether a directory of the build's output directory is that of a
/// profile, so that the host has to be asked for.
pub fn names_host(segment: &str) -> (profile: bool)
    ensures
        profile == is_profile_dir(segment@),
{
    str_eq(segment, "debug") || str_eq(segment, "release")
}

/// The model of a target, or of the reason why there is none.
pub open spec fn target_view(result: Result<String, ResolutionError>) -> Result<
    Seq<char>,
    ResolutionErrorView,
> {
    match result {
        Ok(target) => Ok(target@),
        Err(error) => Err(error@),
    }
}

/// The directory of `target_directory`, the build's output directory, in
/// which `file` lies: the first component of the part of `file` that lies
/// below `target_directory`, where that is the name of a directory.
pub open spec fn segment_below(file: Seq<char>, target_directory: Seq<char>) -> Option<Seq<char>> {
    match path_below(file, target_directory) {
        Some(below) => first_name(below),
        None => None,
    }
}

/// The directory of the build's output directory in which the file of
/// `product` lies. There is none for a product without a file, nor for
/// one whose file does not lie in a directory of the output directory.
pub open spec fn segment_of_product(product: ProductView, target_directory: Seq<char>) -> Result<
    Seq<char>,
    ResolutionErrorView,
> {
    match product.canonical_file() {
        None => Err(ResolutionErrorView::NoProductFile),
        Some(file) => match segment_below(file, target_directory) {
            Some(segment) => Ok(segment),
            None => Err(ResolutionErrorView::OutsideBuildRoot),
        },
    }
}

/// The target that `product` was built for: the one that
/// [`target_of_segment`] gives for the directory in which its file lies.
pub open spec fn target_of_product(
    product: ProductView,
    target_directory: Seq<char>,
    host: Seq<char>,
) -> Result<Seq<char>, ResolutionErrorView> {
    match segment_of_product(product, target_directory) {
        Ok(segment) => Ok(target_of_segment(segment, host)),
        Err(error) => Err(error),
    }
}

/// The target of an invocation: that of the product where there is one,
/// else the one that [`target_of_flag`] gives.
pub open spec fn resolved_target(
    flag: Option<Seq<char>>,
    product: Option<ProductView>,
    target_directory: Seq<char>,
    config: Option<Seq<char>>,
    host: Seq<char>,
) -> Result<Seq<char>, ResolutionErrorView> {
    match product {
        Some(p) => target_of_product(p, target_directory, host),
        None => Ok(target_of_flag(flag, config, host)),
    }
}

/// Whether the target of an invocation depends on the host: it does
/// without a product, and for a product that lies in the directory of a
/// profile.
pub open spec fn reads_host(product: Option<ProductView>, target_directory: Seq<char>) -> bool {
    match product {
        Some(p) => match segment_of_product(p, target_directory) {
            Ok(segment) => is_profile_dir(segment),
            Err(_) => false,
        },
        None => true,
    }
}

/// Where the target does not depend on the host, it is the same whatever
/// is given for the host.
pub proof fn lemma_host_is_read_only_where_needed(
    flag: Option<Seq<char>>,
    product: Option<ProductView>,
    target_directory: Seq<char>,
    config: Option<Seq<char>>,
    host: Seq<char>,
    other: Seq<char>,
)
    requires
        !reads_host(product, target_directory),
    ensures
        resolved_target(flag, product, target_directory, config, host) == resolved_target(
            flag,
            product,
            target_directory,
            config,
            other,
        ),
{
}

/// The model of an optional product.
pub open spec fn opt_product_view(product: Option<&BuildProduct>) -> Option<ProductView> {
    match product {
        Some(p) => Some(p@),
        None => None,
    }
}

/// The directory of `target_directory`, the build's output directory, in
/// which the file of `product` lies.
pub fn product_segment(product: &BuildProduct, target_directory: &str) -> (result: Result<
    String,
    ResolutionError,
>)
    ensures
        target_view(result) == segment_of_product(product@, target_directory@),
{
    let file = match product.canonical_file() {
        Some(file) => file,
        None => {
            return Err(ResolutionError::NoProductFile);
        },
    };
    let below = match strip_prefix(file, target_directory) {
        Ok(rest) => rest,
        Err(_) => {
            return Err(ResolutionError::OutsideBuildRoot);
        },
    };
    match first_normal_component(below.as_str()) {
        Some(segment) => Ok(segment),
        None => Err(ResolutionError::OutsideBuildRoot),
    }
}

/// The target that `product` was built for, told by where its file lies
/// below `target_directory`, the build's output directory.
pub fn product_target(product: &BuildProduct, target_directory: &str, host: &str) -> (result:
    Result<String, ResolutionError>)
    ensures
        target_view(result) == target_of_product(product@, target_directory@, host@),
{
    match product_segment(product, target_directory) {
        Ok(segment) => Ok(segment_target(segment.as_str(), host)),
        Err(error) => Err(error),
    }
}

/// Whether the host has to be known to tell the target of an invocation.
pub fn host_needed(product: Option<&BuildProduct>, target_directory: &str) -> (needed: bool)
    ensures
        needed == reads_host(opt_product_view(product), target_directory@),
{
    match product {
        Some(p) => match product_segment(p, target_directory) {
            Ok(segment) => names_host(segment.as_str()),
            Err(_) => false,
        },
        None => true,
    }
}

/// A product in the directory of a profile was built for the host,
/// whatever the host is; a product in any other directory was built for
/// the target that the directory is named after.
pub proof fn lemma_profile_directories_mean_the_host(segment: Seq<char>, host: Seq<char>)
    ensures
        target_of_segment("debug"@, host) == host,
        target_of_segment("release"@, host) == host,
        segment != "debug"@ && segment != "release"@ ==> target_of_segment(segment, host) == segment,
{
}

/// The character sequence of an optional string slice.
pub open spec fn opt_str(value: Option<&str>) -> Option<Seq<char>> {
    match value {
        Some(s) => Some(s@),
        None => None,
    }
}

/// The target of an invocation: that of the product where there is one,
/// else what [`flag_target`] gives.
pub fn resolve_target(
    flag: Option<&str>,
    product: Option<&BuildProduct>,
    target_directory: &str,
    config: Option<&str>,
    host: &str,
) -> (result: Result<String, ResolutionError>)
    ensures
        target_view(result) == resolved_target(
            opt_str(flag),
            opt_product_view(product),
            target_directory@,
            opt_str(config),
            host@,
        ),
{
    match product {
        Some(p) => product_target(p, target_directory, host),
        None => Ok(flag_target(flag, config, host)),
    }
}

/// The execution context of a tool: the target of its input and what the
/// compiler reports of that target.
#[derive(Debug, PartialEq, Eq)]
pub struct Context {
    cfg: Cfg,
    /// Final compilation target
    target: String,
}

/// Mathematical model of a [`Context`].
pub struct ContextView {
    pub target: Seq<char>,
    pub arch: Seq<char>,
    pub endian: Endian,
}

impl View for Context {
    type V = ContextView;

    closed spec fn view(&self) -> ContextView {
        ContextView {
            target: self.target@,
            arch: self.cfg.target_arch@,
            endian: self.cfg.target_endian,
        }
    }
}

impl ContextView {
    /// LLVM's name for the architecture of the target.
    pub open spec fn arch_name(self) -> Seq<char> {
        llvm_arch_name(self.arch, self.endian, self.target)
    }

    /// What a tool that has to know the architecture is told: the whole
    /// target where its name marks a Thumb target, which the architecture
    /// and byte order cannot be trusted to tell, else LLVM's name for the
    /// architecture.
    pub open spec fn arch_args(self) -> Seq<Seq<char>> {
        if is_thumb(self.target) {
            seq!["--triple"@, self.target]
        } else {
            seq!["--arch-name="@ + self.arch_name()]
        }
    }
}

/// A target whose name begins with `thumb` is named whole to the tool,
/// whatever the compiler reports of it; any other target is named by
/// LLVM's name for its architecture.
pub proof fn lemma_thumb_targets_are_named_whole(context: ContextView)
    ensures
        is_thumb(context.target) ==> context.arch_args() == seq!["--triple"@, context.target],
        !is_thumb(context.target) ==> context.arch_args() == seq![
            "--arch-name="@ + crate::llvm::llvm_arch(context.arch, context.endian),
        ],
{
}

impl Context {
    /// The context of `target_name`, of which the compiler reports `cfg`.
    pub fn from_target_name(target_name: &str, cfg: Cfg) -> (context: Context)
        ensures
            context@ == (ContextView {
                target: target_name@,
                arch: cfg.target_arch@,
                endian: cfg.target_endian,
            }),
    {
        Context { cfg, target: target_name.to_owned() }
    }

    /// The context of `target_name` from what the toolchain answered when
    /// asked about it: the architecture and the byte order, both as the
    /// compiler spells them. Fails exactly where the byte order is none
    /// that is known.
    pub fn from_query(target_name: &str, arch: &str, endian: &str) -> (result: Result<
        Context,
        ResolutionError,
    >)
        ensures
            match endian_of_name(endian@) {
                Some(order) => result matches Ok(context) && context@ == (ContextView {
                    target: target_name@,
                    arch: arch@,
                    endian: order,
                }),
                None => result matches Err(ResolutionError::UnknownEndian(name)) && name@
                    == endian@,
            },
    {
        match Endian::from_name(endian) {
            Some(order) => Ok(
                Context::from_target_name(
                    target_name,
                    Cfg { target_arch: arch.to_owned(), target_endian: order },
                ),
            ),
            None => Err(ResolutionError::UnknownEndian(endian.to_owned())),
        }
    }

    /// The context of `target_name` from the toolchain's answer to the
    /// question what it reports of the target: the architecture and the
    /// byte order, or its complaint. Fails with the complaint where there
    /// is one, and else exactly where the byte order is none that is
    /// known.
    pub fn resolve(target_name: &str, answer: Result<(String, String), String>) -> (result: Result<
        Context,
        ResolutionError,
    >)
        ensures
            match answer {
                Err(cause) => result matches Err(ResolutionError::ToolchainQuery(text)) && text@
                    == cause@,
                Ok((arch, endian)) => match endian_of_name(endian@) {
                    Some(order) => result matches Ok(context) && context@ == (ContextView {
                        target: target_name@,
                        arch: arch@,
                        endian: order,
                    }),
                    None => result matches Err(ResolutionError::UnknownEndian(name)) && name@
                        == endian@,
                },
            },
    {
        match answer {
            Err(cause) => Err(ResolutionError::ToolchainQuery(cause)),
            Ok((arch, endian)) => Context::from_query(target_name, arch.as_str(), endian.as_str()),
        }
    }

    /// The target's name.
    pub fn target(&self) -> (target: &str)
        ensures
            target@ == self@.target,
    {
        self.target.as_str()
    }

    /// What the compiler reports of the target.
    pub fn cfg(&self) -> (cfg: &Cfg)
        ensures
            cfg.target_arch@ == self@.arch,
            cfg.target_endian == self@.endian,
    {
        &self.cfg
    }

    /// LLVM's name for the architecture of the target.
    pub fn arch_name(&self) -> (name: &str)
        ensures
            name@ == self@.arch_name(),
    {
        arch_name(&self.cfg, self.target.as_str())
    }

    /// The arguments that tell a tool the architecture of its input.
    pub fn arch_args(&self) -> (args: Vec<String>)
        ensures
            texts(args@) == self@.arch_args(),
    {
        let mut args: Vec<String> = Vec::new();
        if starts_with(self.target.as_str(), "thumb") {
            // `--arch-name=thumb` does not give the right output; the
            // triple says more of the target
            let flag = String::from_str("--triple");
            let target = self.target.clone();
            proof {
                lemma_texts_push(args@, flag);
                lemma_texts_push(args@.push(flag), target);
            }
            args.push(flag);
            args.push(target);
            assert(texts(args@) =~= self@.arch_args());
        } else {
            let flag = String::from_str("--arch-name=").concat(self.arch_name());
            proof {
                lemma_texts_push(args@, flag);
            }
            args.push(flag);
            assert(texts(args@) =~= self@.arch_args());
        }
        args
    }
}

} // verus!
