//! The plan by which assembly text becomes a loaded runtime.
//!
//! Building a runtime takes work outside of this library: files are written,
//! an assembler and a C compiler are run, a shared library is loaded. What is
//! decided here is which files there are and what they hold, how each tool is
//! called on this host, in which order the steps come, and which error a step
//! that fails stands for. Whoever drives the build carries out one step at a
//! time and reports whether it succeeded.

use vstd::prelude::*;
use vstd::string::*;
use crate::error::{AotError, BuildStage};

verus! {

/// The name of the entry symbol of the generated assembly.
pub open spec fn entry_symbol_text() -> Seq<char> {
    "openvm_aot_entry"@
}

/// The name of the entry symbol of the generated assembly.
pub fn entry_symbol() -> (name: &'static str)
    ensures
        name@ == entry_symbol_text(),
{
    "openvm_aot_entry"
}

/// The source of the handler that is used when none is given: it ends the
/// execution by storing the terminate value in the pc cell.
pub open spec fn default_handler_text() -> Seq<char> {
    "\n#include <stdint.h>\n\nvoid openvm_aot_handler(\n    const uint8_t* pre_compute,\n    uint64_t* instret,\n    uint32_t* pc,\n    uint64_t arg,\n    void* state\n) {\n    // Default: terminate execution\n    *pc = 0xFFFFFFFF;\n}\n"@
}

/// The source of the handler that is used when none is given.
pub fn default_handler_source() -> (source: &'static str)
    ensures
        source@ == default_handler_text(),
{
    "\n#include <stdint.h>\n\nvoid openvm_aot_handler(\n    const uint8_t* pre_compute,\n    uint64_t* instret,\n    uint32_t* pc,\n    uint64_t arg,\n    void* state\n) {\n    // Default: terminate execution\n    *pc = 0xFFFFFFFF;\n}\n"
}

/// A handler source whose handler and register shims are weak symbols, for a
/// library that is linked against the real ones later.
pub open spec fn stub_handler_text() -> Seq<char> {
    "\n#include <stdint.h>\n\n// External handler function that will be linked\nextern void openvm_aot_handler(\n    const uint8_t* pre_compute,\n    uint64_t* instret,\n    uint32_t* pc,\n    uint64_t arg,\n    void* state\n);\n\n// Register sync functions that will be linked\nextern void openvm_sync_registers_to_memory(\n    void* state,\n    const uint32_t* register_buffer\n);\n\nextern void openvm_sync_registers_from_memory(\n    const void* state,\n    uint32_t* register_buffer\n);\n\n// Default handler implementation (can be overridden by linking with actual implementation)\n__attribute__((weak)) void openvm_aot_handler(\n    const uint8_t* pre_compute,\n    uint64_t* instret,\n    uint32_t* pc,\n    uint64_t arg,\n    void* state\n) {\n    // Default implementation: terminate execution\n    *pc = 0xFFFFFFFF;\n}\n\n// Default sync implementations (will be overridden by Rust implementations)\n__attribute__((weak)) void openvm_sync_registers_to_memory(\n    void* state,\n    const uint32_t* register_buffer\n) {\n    // No-op default\n}\n\n__attribute__((weak)) void openvm_sync_registers_from_memory(\n    const void* state,\n    uint32_t* register_buffer\n) {\n    // No-op default\n}\n"@
}

/// A handler source whose handler and register shims are weak symbols.
pub fn stub_handler_source() -> (source: &'static str)
    ensures
        source@ == stub_handler_text(),
{
    "\n#include <stdint.h>\n\n// External handler function that will be linked\nextern void openvm_aot_handler(\n    const uint8_t* pre_compute,\n    uint64_t* instret,\n    uint32_t* pc,\n    uint64_t arg,\n    void* state\n);\n\n// Register sync functions that will be linked\nextern void openvm_sync_registers_to_memory(\n    void* state,\n    const uint32_t* register_buffer\n);\n\nextern void openvm_sync_registers_from_memory(\n    const void* state,\n    uint32_t* register_buffer\n);\n\n// Default handler implementation (can be overridden by linking with actual implementation)\n__attribute__((weak)) void openvm_aot_handler(\n    const uint8_t* pre_compute,\n    uint64_t* instret,\n    uint32_t* pc,\n    uint64_t arg,\n    void* state\n) {\n    // Default implementation: terminate execution\n    *pc = 0xFFFFFFFF;\n}\n\n// Default sync implementations (will be overridden by Rust implementations)\n__attribute__((weak)) void openvm_sync_registers_to_memory(\n    void* state,\n    const uint32_t* register_buffer\n) {\n    // No-op default\n}\n\n__attribute__((weak)) void openvm_sync_registers_from_memory(\n    const void* state,\n    uint32_t* register_buffer\n) {\n    // No-op default\n}\n"
}

/// The operating system of the host, as far as the build cares.
#[derive(Clone, Copy, Debug, PartialEq, Eq, Structural)]
pub enum HostOs {
    Linux,
    MacOs,
    Other,
}

/// The object format of the assembler for a host, if the host is supported.
pub open spec fn spec_object_format(os: HostOs) -> Option<Seq<char>> {
    match os {
        HostOs::Linux => Some("elf64"@),
        HostOs::MacOs => Some("macho64"@),
        HostOs::Other => None,
    }
}

/// The file name of the shared library on a host.
pub open spec fn spec_library_name(os: HostOs) -> Seq<char> {
    match os {
        HostOs::MacOs => "libaot.dylib"@,
        _ => "libaot.so"@,
    }
}

/// The object format of the assembler for a host.
pub fn object_format(os: HostOs) -> (format: Result<&'static str, AotError>)
    ensures
        match format {
            Ok(name) => spec_object_format(os) == Some(name@),
            Err(error) => spec_object_format(os) is None && error == AotError::UnsupportedPlatform,
        },
{
    match os {
        HostOs::Linux => Ok("elf64"),
        HostOs::MacOs => Ok("macho64"),
        HostOs::Other => Err(AotError::UnsupportedPlatform),
    }
}

/// The file name of the shared library on a host.
pub fn library_name(os: HostOs) -> (name: &'static str)
    ensures
        name@ == spec_library_name(os),
{
    match os {
        HostOs::MacOs => "libaot.dylib",
        _ => "libaot.so",
    }
}

/// A file of the build directory.
#[derive(Clone, Copy, Debug, PartialEq, Eq, Structural)]
pub enum BuildFile {
    AssemblySource,
    HandlerSource,
    AssemblyObject,
    HandlerObject,
    Library,
}

/// The name of a file of the build directory.
pub open spec fn spec_file_name(file: BuildFile, os: HostOs) -> Seq<char> {
    match file {
        BuildFile::AssemblySource => "aot.asm"@,
        BuildFile::HandlerSource => "handler.c"@,
        BuildFile::AssemblyObject => "aot.o"@,
        BuildFile::HandlerObject => "handler.o"@,
        BuildFile::Library => spec_library_name(os),
    }
}

/// The name of a file of the build directory.
pub fn file_name(file: BuildFile, os: HostOs) -> (name: &'static str)
    ensures
        name@ == spec_file_name(file, os),
{
    match file {
        BuildFile::AssemblySource => "aot.asm",
        BuildFile::HandlerSource => "handler.c",
        BuildFile::AssemblyObject => "aot.o",
        BuildFile::HandlerObject => "handler.o",
        BuildFile::Library => library_name(os),
    }
}

/// An argument of a tool: a flag as it stands, or the path of a file of the build directory.
#[derive(Clone, Copy, Debug)]
pub enum ToolArg {
    Flag(&'static str),
    File(BuildFile),
}

/// The mathematical value of a [`ToolArg`].
pub ghost enum ToolArgView {
    Flag(Seq<char>),
    File(BuildFile),
}

impl View for ToolArg {
    type V = ToolArgView;

    open spec fn view(&self) -> ToolArgView {
        match *self {
            ToolArg::Flag(flag) => ToolArgView::Flag(flag@),
            ToolArg::File(file) => ToolArgView::File(file),
        }
    }
}

/// A call of an external tool.
#[derive(Debug)]
pub struct ToolCall {
    pub program: &'static str,
    pub args: Vec<ToolArg>,
}

/// The program that carries out a stage, where the stage is the run of a tool.
pub open spec fn spec_tool_program(stage: BuildStage) -> Option<Seq<char>> {
    match stage {
        BuildStage::Assemble => Some("nasm"@),
        BuildStage::Compile => Some("gcc"@),
        BuildStage::Link => Some("gcc"@),
        BuildStage::Load => None,
    }
}

/// The arguments of the tool that carries out a stage:
/// `-f <format> -o <object> <assembly>` for the assembler,
/// `-c -fPIC -o <object> <source>` for the compiler and
/// `-shared -o <library> <objects>` for the linker.
pub open spec fn spec_tool_args(stage: BuildStage, format: Seq<char>) -> Seq<ToolArgView> {
    match stage {
        BuildStage::Assemble => seq![
            ToolArgView::Flag("-f"@),
            ToolArgView::Flag(format),
            ToolArgView::Flag("-o"@),
            ToolArgView::File(BuildFile::AssemblyObject),
            ToolArgView::File(BuildFile::AssemblySource),
        ],
        BuildStage::Compile => seq![
            ToolArgView::Flag("-c"@),
            ToolArgView::Flag("-fPIC"@),
            ToolArgView::Flag("-o"@),
            ToolArgView::File(BuildFile::HandlerObject),
            ToolArgView::File(BuildFile::HandlerSource),
        ],
        BuildStage::Link => seq![
            ToolArgView::Flag("-shared"@),
            ToolArgView::Flag("-o"@),
            ToolArgView::File(BuildFile::Library),
            ToolArgView::File(BuildFile::AssemblyObject),
            ToolArgView::File(BuildFile::HandlerObject),
        ],
        BuildStage::Load => Seq::empty(),
    }
}

/// The arguments of a tool call, each taken by its value.
pub open spec fn args_view(args: Seq<ToolArg>) -> Seq<ToolArgView> {
    Seq::new(args.len(), |i: int| args[i]@)
}

/// A step of the build, in the order in which the steps are carried out.
#[derive(Clone, Copy, Debug, PartialEq, Eq, Structural)]
pub enum BuildStep {
    /// Making the temporary directory.
    CreateDirectory,
    /// Writing the assembly text to its file.
    WriteAssembly,
    /// Writing the handler source to its file.
    WriteHandler,
    /// Running the assembler.
    Assemble,
    /// Running the C compiler on the handler source.
    CompileHandler,
    /// Linking the two object files.
    Link,
    /// Loading the shared library.
    Load,
    /// Looking up the entry symbol.
    ResolveEntry,
}

impl BuildStep {
    /// The step that follows, if there is one.
    pub open spec fn spec_next(self) -> Option<BuildStep> {
        match self {
            BuildStep::CreateDirectory => Some(BuildStep::WriteAssembly),
            BuildStep::WriteAssembly => Some(BuildStep::WriteHandler),
            BuildStep::WriteHandler => Some(BuildStep::Assemble),
            BuildStep::Assemble => Some(BuildStep::CompileHandler),
            BuildStep::CompileHandler => Some(BuildStep::Link),
            BuildStep::Link => Some(BuildStep::Load),
            BuildStep::Load => Some(BuildStep::ResolveEntry),
            BuildStep::ResolveEntry => None,
        }
    }

    /// The stage that a step belongs to: a step that prepares the input of a
    /// tool counts to the stage of that tool. Looking up the entry symbol
    /// belongs to no stage.
    pub open spec fn spec_stage(self) -> Option<BuildStage> {
        match self {
            BuildStep::CreateDirectory => Some(BuildStage::Assemble),
            BuildStep::WriteAssembly => Some(BuildStage::Assemble),
            BuildStep::WriteHandler => Some(BuildStage::Compile),
            BuildStep::Assemble => Some(BuildStage::Assemble),
            BuildStep::CompileHandler => Some(BuildStage::Compile),
            BuildStep::Link => Some(BuildStage::Link),
            BuildStep::Load => Some(BuildStage::Load),
            BuildStep::ResolveEntry => None,
        }
    }

    /// The error that a failure of the step stands for, anchored at `pc`.
    pub open spec fn spec_failure(self, pc: u32) -> AotError {
        match self.spec_stage() {
            Some(stage) => AotError::AotCompileFailure { pc, stage },
            None => AotError::NoEntryPoint,
        }
    }

    /// The number of the step in the order of the build.
    pub open spec fn spec_position(self) -> nat {
        match self {
            BuildStep::CreateDirectory => 0,
            BuildStep::WriteAssembly => 1,
            BuildStep::WriteHandler => 2,
            BuildStep::Assemble => 3,
            BuildStep::CompileHandler => 4,
            BuildStep::Link => 5,
            BuildStep::Load => 6,
            BuildStep::ResolveEntry => 7,
        }
    }

    /// The step with which a build starts.
    pub fn first() -> (step: Self)
        ensures
            step == BuildStep::CreateDirectory,
    {
        BuildStep::CreateDirectory
    }

    /// The stage that the step belongs to.
    pub fn stage(self) -> (stage: Option<BuildStage>)
        ensures
            stage == self.spec_stage(),
    {
        match self {
            BuildStep::CreateDirectory => Some(BuildStage::Assemble),
            BuildStep::WriteAssembly => Some(BuildStage::Assemble),
            BuildStep::WriteHandler => Some(BuildStage::Compile),
            BuildStep::Assemble => Some(BuildStage::Assemble),
            BuildStep::CompileHandler => Some(BuildStage::Compile),
            BuildStep::Link => Some(BuildStage::Link),
            BuildStep::Load => Some(BuildStage::Load),
            BuildStep::ResolveEntry => None,
        }
    }

    /// What comes after the step: the next step when it succeeded, the end of the
    /// build when the last step succeeded, and the error of the step when it failed.
    pub fn advance(self, succeeded: bool, pc: u32) -> (outcome: Result<Option<BuildStep>, AotError>)
        ensures
            outcome == if succeeded {
                Ok::<Option<BuildStep>, AotError>(self.spec_next())
            } else {
                Err::<Option<BuildStep>, AotError>(self.spec_failure(pc))
            },
    {
        if !succeeded {
            return match self.stage() {
                Some(stage) => Err(AotError::AotCompileFailure { pc, stage }),
                None => Err(AotError::NoEntryPoint),
            };
        }
        Ok(
            match self {
                BuildStep::CreateDirectory => Some(BuildStep::WriteAssembly),
                BuildStep::WriteAssembly => Some(BuildStep::WriteHandler),
                BuildStep::WriteHandler => Some(BuildStep::Assemble),
                BuildStep::Assemble => Some(BuildStep::CompileHandler),
                BuildStep::CompileHandler => Some(BuildStep::Link),
                BuildStep::Link => Some(BuildStep::Load),
                BuildStep::Load => Some(BuildStep::ResolveEntry),
                BuildStep::ResolveEntry => None,
            },
        )
    }
}

/// What a build does on one host: the two sources and the names that depend on the host.
#[derive(Debug)]
pub struct BuildPlan {
    pub assembly: String,
    pub handler_source: String,
    pub os: HostOs,
    pub object_format: &'static str,
}

impl BuildPlan {
    /// The plan names the object format of its host.
    pub open spec fn wf(&self) -> bool {
        spec_object_format(self.os) == Some(self.object_format@)
    }

    /// Checks that the plan names the object format of its host. A plan made by
    /// `AotRuntimeBuilder::plan` does; the fields of a plan are open to its users.
    pub fn is_well_formed(&self) -> (well_formed: bool)
        ensures
            well_formed == self.wf(),
    {
        match object_format(self.os) {
            Ok(format) => String::from_str(format) == String::from_str(self.object_format),
            Err(_) => false,
        }
    }

    /// The text that the build writes to a source file; the other files are written by the tools.
    pub open spec fn spec_contents(&self, file: BuildFile) -> Option<Seq<char>> {
        match file {
            BuildFile::AssemblySource => Some(self.assembly@),
            BuildFile::HandlerSource => Some(self.handler_source@),
            _ => None,
        }
    }

    /// The text that the build writes to a source file.
    pub fn contents(&self, file: BuildFile) -> (text: Option<&str>)
        ensures
            match text {
                Some(text) => self.spec_contents(file) == Some(text@),
                None => self.spec_contents(file) is None,
            },
    {
        match file {
            BuildFile::AssemblySource => Some(self.assembly.as_str()),
            BuildFile::HandlerSource => Some(self.handler_source.as_str()),
            _ => None,
        }
    }

    /// The call of the tool that carries out a stage; loading is no call of a tool.
    pub fn tool_call(&self, stage: BuildStage) -> (call: Option<ToolCall>)
        requires
            self.wf(),
        ensures
            match call {
                Some(call) => spec_tool_program(stage) == Some(call.program@) && args_view(
                    call.args@,
                ) == spec_tool_args(stage, self.object_format@),
                None => stage == BuildStage::Load,
            },
    {
        let mut args: Vec<ToolArg> = Vec::new();
        let program = match stage {
            BuildStage::Assemble => {
                args.push(ToolArg::Flag("-f"));
                args.push(ToolArg::Flag(self.object_format));
                args.push(ToolArg::Flag("-o"));
                args.push(ToolArg::File(BuildFile::AssemblyObject));
                args.push(ToolArg::File(BuildFile::AssemblySource));
                "nasm"
            },
            BuildStage::Compile => {
                args.push(ToolArg::Flag("-c"));
                args.push(ToolArg::Flag("-fPIC"));
                args.push(ToolArg::Flag("-o"));
                args.push(ToolArg::File(BuildFile::HandlerObject));
                args.push(ToolArg::File(BuildFile::HandlerSource));
                "gcc"
            },
            BuildStage::Link => {
                args.push(ToolArg::Flag("-shared"));
                args.push(ToolArg::Flag("-o"));
                args.push(ToolArg::File(BuildFile::Library));
                args.push(ToolArg::File(BuildFile::AssemblyObject));
                args.push(ToolArg::File(BuildFile::HandlerObject));
                "gcc"
            },
            BuildStage::Load => {
                return None;
            },
        };
        assert(args_view(args@) =~= spec_tool_args(stage, self.object_format@));
        Some(ToolCall { program, args })
    }
}

/// What is needed to build a runtime: the assembly text and, if the default is
/// not wanted, the source of the handler.
#[derive(Debug)]
pub struct AotRuntimeBuilder {
    pub assembly: String,
    pub handler_source: Option<String>,
}

impl AotRuntimeBuilder {
    pub fn new(assembly: String) -> (builder: Self)
        ensures
            builder.assembly == assembly,
            builder.handler_source is None,
    {
        AotRuntimeBuilder { assembly, handler_source: None }
    }

    /// Takes the handler from this source in place of the default.
    pub fn with_handler_source(self, source: &str) -> (builder: Self)
        ensures
            builder.assembly == self.assembly,
            builder.handler_source matches Some(text) && text@ == source@,
    {
        AotRuntimeBuilder { assembly: self.assembly, handler_source: Some(String::from_str(source)) }
    }

    /// The handler source that a build from this builder uses.
    pub open spec fn spec_handler_text(&self) -> Seq<char> {
        match self.handler_source {
            Some(source) => source@,
            None => default_handler_text(),
        }
    }

    /// The plan of the build on a host. A host without a known object format
    /// has no plan, so nothing is written or run for it.
    pub fn plan(self, os: HostOs) -> (plan: Result<BuildPlan, AotError>)
        ensures
            match plan {
                Ok(plan) => {
                    &&& plan.wf()
                    &&& plan.os == os
                    &&& plan.assembly == self.assembly
                    &&& plan.handler_source@ == self.spec_handler_text()
                },
                Err(error) => spec_object_format(os) is None && error
                    == AotError::UnsupportedPlatform,
            },
    {
        let format = match object_format(os) {
            Ok(format) => format,
            Err(error) => {
                return Err(error);
            },
        };
        let handler_source = match self.handler_source {
            Some(source) => source,
            None => String::from_str(default_handler_source()),
        };
        Ok(BuildPlan { assembly: self.assembly, handler_source, os, object_format: format })
    }
}

/// The build, step by step. From the first step on, a build in which every
/// step succeeds goes through all eight steps in their order and then ends; it
/// never comes back to a step.
pub proof fn lemma_build_order(step: BuildStep)
    ensures
        match step.spec_next() {
            Some(next) => next.spec_position() == step.spec_position() + 1,
            None => step.spec_position() == 7,
        },
        BuildStep::CreateDirectory.spec_position() == 0,
{
}

/// A failed step that is the run of a tool, or the loading of the library,
/// stands for a build failure of exactly that stage, anchored at the program
/// counter given; a missing entry symbol stands for itself.
pub proof fn lemma_failure_names_stage(pc: u32)
    ensures
        BuildStep::Assemble.spec_failure(pc) == (AotError::AotCompileFailure {
            pc,
            stage: BuildStage::Assemble,
        }),
        BuildStep::CompileHandler.spec_failure(pc) == (AotError::AotCompileFailure {
            pc,
            stage: BuildStage::Compile,
        }),
        BuildStep::Link.spec_failure(pc) == (AotError::AotCompileFailure {
            pc,
            stage: BuildStage::Link,
        }),
        BuildStep::Load.spec_failure(pc) == (AotError::AotCompileFailure {
            pc,
            stage: BuildStage::Load,
        }),
        BuildStep::ResolveEntry.spec_failure(pc) == AotError::NoEntryPoint,
{
}

} // verus!
