//! The command that runs a tool: its program, its arguments and the
//! directory in which it is started.

use vstd::prelude::*;
use vstd::string::*;
use crate::context::{Context, ContextView};
use crate::paths::{file_name, file_name_of, parent, parent_of};
use crate::product::{clone_strings, BuildProduct, ProductView};
use crate::text::{lemma_texts_add, lemma_texts_push, opt_text, str_eq, texts};
use crate::tool::{Tool, EXIT_INTERNAL, EXIT_NO_CODE};

verus! {

/// Why a tool cannot be run.
#[derive(Debug, PartialEq, Eq)]
pub enum InvocationError {
    /// The tool is not installed where the toolchain keeps its tools.
    ToolNotFound { tool: Tool, path: String },
    /// The place where the toolchain keeps its tools could not be made
    /// out; `reason` says why.
    LookupFailed { tool: Tool, reason: String },
    /// The tool could not be started; `reason` says why.
    SpawnFailed { tool: Tool, reason: String },
    /// The product has no file to hand to the tool.
    NoProductFile,
    /// The product's file has no directory, or no name of its own.
    NoFileName,
}

/// Mathematical model of an [`InvocationError`].
pub enum InvocationErrorView {
    ToolNotFound { tool: Tool, path: Seq<char> },
    LookupFailed { tool: Tool, reason: Seq<char> },
    SpawnFailed { tool: Tool, reason: Seq<char> },
    NoProductFile,
    NoFileName,
}

impl View for InvocationError {
    type V = InvocationErrorView;

    open spec fn view(&self) -> InvocationErrorView {
        match self {
            InvocationError::ToolNotFound { tool, path } => InvocationErrorView::ToolNotFound {
                tool: *tool,
                path: path@,
            },
            InvocationError::LookupFailed { tool, reason } => InvocationErrorView::LookupFailed {
                tool: *tool,
                reason: reason@,
            },
            InvocationError::SpawnFailed { tool, reason } => InvocationErrorView::SpawnFailed {
                tool: *tool,
                reason: reason@,
            },
            InvocationError::NoProductFile => InvocationErrorView::NoProductFile,
            InvocationError::NoFileName => InvocationErrorView::NoFileName,
        }
    }
}

impl InvocationErrorView {
    /// What the user is told. Of a tool that is not installed the user is
    /// told where it was looked for and how to install it.
    pub open spec fn message(self) -> Seq<char> {
        match self {
            InvocationErrorView::ToolNotFound { tool, path } => "Could not find tool: "@
                + tool.spec_name() + "\nat: "@ + path
                + "\nConsider `rustup component add llvm-tools`"@,
            InvocationErrorView::LookupFailed { tool, reason } => "Failed to find tool: "@
                + tool.spec_name() + "\n"@ + reason,
            InvocationErrorView::SpawnFailed { tool, reason } => "Failed to execute tool: "@
                + tool.spec_name() + "\n"@ + reason,
            InvocationErrorView::NoProductFile => "The build product has no file"@,
            InvocationErrorView::NoFileName => "The build product's file has no name"@,
        }
    }

    /// The exit code of a proxy that fails with this error.
    pub open spec fn exit_code(self) -> i32 {
        match self {
            InvocationErrorView::ToolNotFound { .. } => crate::tool::EXIT_TOOL_MISSING,
            _ => EXIT_INTERNAL,
        }
    }
}

impl InvocationError {
    /// What the user is told.
    pub fn message(&self) -> (text: String)
        ensures
            text@ == self@.message(),
    {
        match self {
            InvocationError::ToolNotFound { tool, path } => String::from_str(
                "Could not find tool: ",
            ).concat(tool.name()).concat("\nat: ").concat(path.as_str()).concat(
                "\nConsider `rustup component add llvm-tools`",
            ),
            InvocationError::LookupFailed { tool, reason } => String::from_str(
                "Failed to find tool: ",
            ).concat(tool.name()).concat("\n").concat(reason.as_str()),
            InvocationError::SpawnFailed { tool, reason } => String::from_str(
                "Failed to execute tool: ",
            ).concat(tool.name()).concat("\n").concat(reason.as_str()),
            InvocationError::NoProductFile => String::from_str("The build product has no file"),
            InvocationError::NoFileName => String::from_str(
                "The build product's file has no name",
            ),
        }
    }

    /// The exit code of a proxy that fails with this error.
    pub fn exit_code(&self) -> (code: i32)
        ensures
            code == self@.exit_code(),
    {
        match self {
            InvocationError::ToolNotFound { .. } => crate::tool::EXIT_TOOL_MISSING,
            _ => EXIT_INTERNAL,
        }
    }
}

/// Whether a tool can be run: it can where its executable was found at
/// `path`; else it is reported as not installed there.
pub fn installed(tool: Tool, path: &str, found: bool) -> (result: Result<(), InvocationError>)
    ensures
        match result {
            Ok(_) => found,
            Err(error) => !found && error@ == (InvocationErrorView::ToolNotFound {
                tool,
                path: path@,
            }),
        },
{
    if found {
        Ok(())
    } else {
        Err(InvocationError::ToolNotFound { tool, path: path.to_owned() })
    }
}

/// The arguments that a forwarder hands to its tool: its own without the
/// first, which is the name under which it was called.
pub fn forwarded_args(own: &Vec<String>) -> (args: Vec<String>)
    ensures
        texts(args@) == if own.len() > 0 {
            texts(own@).drop_first()
        } else {
            texts(own@)
        },
{
    let mut args: Vec<String> = Vec::new();
    let mut i: usize = 1;
    if own.len() == 0 {
        assert(texts(args@) =~= texts(own@));
        return args;
    }
    assert(texts(args@) =~= texts(own@).subrange(1, 1));
    while i < own.len()
        invariant
            1 <= i <= own.len(),
            texts(args@) == texts(own@).subrange(1, i as int),
        decreases own.len() - i,
    {
        let arg = own[i].clone();
        proof {
            lemma_texts_push(args@, arg);
            assert(texts(own@).subrange(1, i as int).push(arg@) =~= texts(own@).subrange(
                1,
                i + 1,
            ));
        }
        args.push(arg);
        i += 1;
    }
    assert(texts(own@).subrange(1, own.len() as int) =~= texts(own@).drop_first());
    args
}

/// How the product is handed to a tool.
#[derive(Debug, PartialEq, Eq)]
pub struct Location {
    /// The directory in which the tool is started, where it is not that of
    /// the proxy.
    pub current_dir: Option<String>,
    /// The argument that names the product's file.
    pub argument: String,
}

/// Mathematical model of a [`Location`].
pub struct LocationView {
    pub current_dir: Option<Seq<char>>,
    pub argument: Seq<char>,
}

impl View for Location {
    type V = LocationView;

    open spec fn view(&self) -> LocationView {
        LocationView { current_dir: opt_text(self.current_dir), argument: self.argument@ }
    }
}

/// A command, ready to be run.
#[derive(Debug, PartialEq, Eq)]
pub struct ToolCommand {
    pub program: String,
    pub args: Vec<String>,
    /// The directory in which the command is started, where it is not that
    /// of the proxy.
    pub current_dir: Option<String>,
}

/// Mathematical model of a [`ToolCommand`].
pub struct CommandView {
    pub program: Seq<char>,
    pub args: Seq<Seq<char>>,
    pub current_dir: Option<Seq<char>>,
}

impl View for ToolCommand {
    type V = CommandView;

    open spec fn view(&self) -> CommandView {
        CommandView {
            program: self.program@,
            args: texts(self.args@),
            current_dir: opt_text(self.current_dir),
        }
    }
}

/// The model of an optional context.
pub open spec fn opt_context_view(context: Option<&Context>) -> Option<ContextView> {
    match context {
        Some(c) => Some(c@),
        None => None,
    }
}

/// The model of an optional location.
pub open spec fn opt_location_view(location: Option<Location>) -> Option<LocationView> {
    match location {
        Some(l) => Some(l@),
        None => None,
    }
}

/// Whether the arguments for the tool ask for nothing but its help.
pub open spec fn asks_for_help(tool_args: Seq<Seq<char>>) -> bool {
    tool_args.len() > 0 && tool_args[0] == "--help"@
}

/// Whether the project is built before the tool runs: the tool works on a
/// build product and is asked for more than its help.
pub open spec fn builds_first(tool: Tool, tool_args: Seq<Seq<char>>) -> bool {
    tool.spec_needs_build() && !asks_for_help(tool_args)
}

/// The arguments that tell the tool the architecture of its input, for a
/// tool that has to know it and an invocation whose target is known.
pub open spec fn arch_part(tool: Tool, context: Option<ContextView>) -> Seq<Seq<char>> {
    match context {
        Some(c) => if tool.spec_needs_arch() {
            c.arch_args()
        } else {
            Seq::empty()
        },
        None => Seq::empty(),
    }
}

/// The argument that makes the section reader print in the readable GNU
/// style rather than its own.
pub open spec fn style_part(tool: Tool) -> Seq<Seq<char>> {
    if tool == Tool::Readobj {
        seq!["--elf-output-style=GNU"@]
    } else {
        Seq::empty()
    }
}

/// The argument that names the product, for a tool that works on one.
pub open spec fn product_part(tool: Tool, location: Option<LocationView>) -> Seq<Seq<char>> {
    match location {
        Some(l) => if tool.spec_needs_build() {
            seq![l.argument]
        } else {
            Seq::empty()
        },
        None => Seq::empty(),
    }
}

/// The directory in which the tool is started, where it is not that of the
/// proxy.
pub open spec fn start_dir(tool: Tool, location: Option<LocationView>) -> Option<Seq<char>> {
    match location {
        Some(l) => if tool.spec_needs_build() {
            l.current_dir
        } else {
            None
        },
        None => None,
    }
}

/// The command that runs `tool`: the tool's proxy as the program; the
/// arguments that the tool's kind calls for, then the product, then the
/// user's own arguments, unchanged and in their order.
pub open spec fn command_for(
    tool: Tool,
    context: Option<ContextView>,
    location: Option<LocationView>,
    tool_args: Seq<Seq<char>>,
) -> CommandView {
    CommandView {
        program: "rust-"@ + tool.spec_name(),
        args: arch_part(tool, context) + style_part(tool) + product_part(tool, location)
            + tool_args,
        current_dir: start_dir(tool, location),
    }
}

/// The exit code of a proxy whose tool has run: zero where the tool
/// succeeded, else the tool's own code, or `EXIT_NO_CODE` where it ended
/// without one.
pub open spec fn exit_code_of(success: bool, code: Option<i32>) -> i32 {
    if success {
        0
    } else {
        match code {
            Some(c) => c,
            None => EXIT_NO_CODE,
        }
    }
}

/// Whether the project is built before the tool runs.
pub fn wants_build(tool: Tool, tool_args: &Vec<String>) -> (build: bool)
    ensures
        build == builds_first(tool, texts(tool_args@)),
{
    let help = tool_args.len() > 0 && str_eq(tool_args[0].as_str(), "--help");
    assert(help == asks_for_help(texts(tool_args@))) by {
        if tool_args.len() > 0 {
            assert(texts(tool_args@)[0] == tool_args@[0]@);
        }
    }
    tool.needs_build() && !help
}

/// The model of a location, or of the reason why there is none.
pub open spec fn location_view(result: Result<Location, InvocationError>) -> Result<
    LocationView,
    InvocationErrorView,
> {
    match result {
        Ok(location) => Ok(location@),
        Err(error) => Err(error@),
    }
}

/// How a product is handed to `tool`.
///
/// A product without a file cannot be handed over. A tool that prints the
/// path of its input is started in the directory of the product's file
/// and given the file's bare name, so that it prints short names; a file
/// without a directory, or without a name of its own, cannot be handed to
/// it. Any other tool is given the path as it is.
pub open spec fn location_of(tool: Tool, product: ProductView) -> Result<
    LocationView,
    InvocationErrorView,
> {
    match product.canonical_file() {
        None => Err(InvocationErrorView::NoProductFile),
        Some(file) => if tool.spec_shortens_paths() {
            match (parent_of(file), file_name_of(file)) {
                (Some(dir), Some(name)) => Ok(
                    LocationView { current_dir: Some(dir), argument: name },
                ),
                _ => Err(InvocationErrorView::NoFileName),
            }
        } else {
            Ok(LocationView { current_dir: None, argument: file })
        },
    }
}

/// How `product` is handed to `tool`.
pub fn product_location(tool: Tool, product: &BuildProduct) -> (result: Result<
    Location,
    InvocationError,
>)
    ensures
        location_view(result) == location_of(tool, product@),
{
    let file = match product.canonical_file() {
        Some(file) => file,
        None => {
            return Err(InvocationError::NoProductFile);
        },
    };
    if tool.shortens_paths() {
        match parent(file) {
            Some(dir) => match file_name(file) {
                Some(name) => Ok(Location { current_dir: Some(dir), argument: name }),
                None => Err(InvocationError::NoFileName),
            },
            None => Err(InvocationError::NoFileName),
        }
    } else {
        Ok(Location { current_dir: None, argument: file.to_owned() })
    }
}

/// The command that runs `tool` on the product at `location`, for the
/// target that `context` describes, with the user's `tool_args`.
pub fn tool_command(
    tool: Tool,
    context: Option<&Context>,
    location: Option<Location>,
    tool_args: &Vec<String>,
) -> (command: ToolCommand)
    ensures
        command@ == command_for(
            tool,
            opt_context_view(context),
            opt_location_view(location),
            texts(tool_args@),
        ),
{
    let ghost context_view = opt_context_view(context);
    let ghost location_view = opt_location_view(location);
    let program = String::from_str("rust-").concat(tool.name());
    let mut args: Vec<String> = Vec::new();
    assert(texts(args@) =~= Seq::<Seq<char>>::empty());
    match context {
        Some(c) => {
            if tool.needs_arch() {
                args = c.arch_args();
            }
        },
        None => {},
    }
    assert(texts(args@) == arch_part(tool, context_view));
    match tool {
        Tool::Readobj => {
            let style = String::from_str("--elf-output-style=GNU");
            proof {
                lemma_texts_push(args@, style);
            }
            args.push(style);
        },
        _ => {},
    }
    assert(texts(args@) =~= arch_part(tool, context_view) + style_part(tool));
    let mut current_dir: Option<String> = None;
    match location {
        Some(l) => {
            if tool.needs_build() {
                proof {
                    lemma_texts_push(args@, l.argument);
                }
                args.push(l.argument);
                current_dir = l.current_dir;
            }
        },
        None => {},
    }
    assert(texts(args@) =~= arch_part(tool, context_view) + style_part(tool) + product_part(
        tool,
        location_view,
    ));
    let mut rest = clone_strings(tool_args);
    proof {
        lemma_texts_add(args@, rest@);
    }
    args.append(&mut rest);
    ToolCommand { program, args, current_dir }
}

/// The model of the outcome of planning a command.
pub open spec fn command_result_view(result: Result<ToolCommand, InvocationError>) -> Result<
    CommandView,
    InvocationErrorView,
> {
    match result {
        Ok(command) => Ok(command@),
        Err(error) => Err(error@),
    }
}

/// The command that runs `tool` on `product`: the command for no
/// location where there is no product, else the command for the location
/// at which the product is handed over, where it can be.
pub open spec fn planned(
    tool: Tool,
    context: Option<ContextView>,
    product: Option<ProductView>,
    tool_args: Seq<Seq<char>>,
) -> Result<CommandView, InvocationErrorView> {
    match product {
        None => Ok(command_for(tool, context, None, tool_args)),
        Some(p) => match location_of(tool, p) {
            Ok(location) => Ok(command_for(tool, context, Some(location), tool_args)),
            Err(error) => Err(error),
        },
    }
}

/// The command that runs `tool` on `product`, for the target that
/// `context` describes, with the user's `tool_args`.
pub fn invocation(
    tool: Tool,
    context: Option<&Context>,
    product: Option<&BuildProduct>,
    tool_args: &Vec<String>,
) -> (result: Result<ToolCommand, InvocationError>)
    ensures
        command_result_view(result) == planned(
            tool,
            opt_context_view(context),
            crate::context::opt_product_view(product),
            texts(tool_args@),
        ),
{
    match product {
        None => Ok(tool_command(tool, context, None, tool_args)),
        Some(p) => match product_location(tool, p) {
            Ok(location) => Ok(tool_command(tool, context, Some(location), tool_args)),
            Err(error) => Err(error),
        },
    }
}

/// The exit code of a proxy whose tool has run.
pub fn exit_code(success: bool, code: Option<i32>) -> (exit: i32)
    ensures
        exit == exit_code_of(success, code),
{
    if success {
        0
    } else {
        match code {
            Some(c) => c,
            None => EXIT_NO_CODE,
        }
    }
}

/// The exit code of a forwarder whose tool has run: the tool's own code,
/// or `EXIT_INTERNAL` where it ended without one.
pub fn forwarded_exit_code(code: Option<i32>) -> (exit: i32)
    ensures
        exit == match code {
            Some(c) => c,
            None => EXIT_INTERNAL,
        },
{
    match code {
        Some(c) => c,
        None => EXIT_INTERNAL,
    }
}

} // verus!
