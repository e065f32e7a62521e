use vstd::prelude::*;
use vstd::string::StrSliceExecFns;
use vstd::string::StringExecFns;

use crate::result::CommandExecutionResult;

verus! {

/// The compilers that a run can be configured for.
#[derive(Clone, Copy, Debug, PartialEq, Eq, Structural)]
pub enum CppCompiler {
    CLANG,
    MSVC,
    GCC,
}

impl CppCompiler {
    /// Whether the compiler must run inside a developer shell that was
    /// detected beforehand, rather than being spawned directly.
    pub open spec fn shell_wrapped(self) -> bool {
        self is MSVC
    }

    pub open spec fn driver_spec(self) -> Seq<char> {
        match self {
            CppCompiler::CLANG => "clang++"@,
            CppCompiler::MSVC => "cl"@,
            CppCompiler::GCC => "g++"@,
        }
    }

    pub open spec fn name_spec(self) -> Seq<char> {
        match self {
            CppCompiler::CLANG => "clang"@,
            CppCompiler::MSVC => "msvc"@,
            CppCompiler::GCC => "gcc"@,
        }
    }

    pub fn is_shell_wrapped(&self) -> (r: bool)
        ensures
            r == self.shell_wrapped(),
    {
        match self {
            CppCompiler::MSVC => true,
            _ => false,
        }
    }

    /// The name of the compiler driver executable.
    pub fn get_driver(&self) -> (r: &'static str)
        ensures
            r@ == self.driver_spec(),
    {
        proof {
            reveal_strlit("clang++");
            reveal_strlit("cl");
            reveal_strlit("g++");
        }
        match self {
            CppCompiler::CLANG => "clang++",
            CppCompiler::MSVC => "cl",
            CppCompiler::GCC => "g++",
        }
    }

    /// The name of the compiler family, as used in output directories.
    pub fn as_str(&self) -> (r: &'static str)
        ensures
            r@ == self.name_spec(),
    {
        proof {
            reveal_strlit("clang");
            reveal_strlit("msvc");
            reveal_strlit("gcc");
        }
        match self {
            CppCompiler::CLANG => "clang",
            CppCompiler::MSVC => "msvc",
            CppCompiler::GCC => "gcc",
        }
    }
}

/// One token of a generated command line.
#[derive(Clone, Debug)]
pub struct Argument {
    pub value: String,
}

/// The texts of a sequence of arguments.
pub open spec fn arg_words(args: Seq<Argument>) -> Seq<Seq<char>> {
    args.map_values(|a: Argument| a.value@)
}

/// A file name joined onto a directory: an absolute file name stands alone,
/// otherwise one separator goes between the two unless the directory is
/// empty or already ends with one.
pub open spec fn join_path(dir: Seq<char>, file: Seq<char>) -> Seq<char> {
    if file.len() > 0 && file[0] == '/' {
        file
    } else if dir.len() == 0 || dir.last() == '/' {
        dir + file
    } else {
        dir + seq!['/'] + file
    }
}

/// Joins a file name onto a directory, as `join_path` says.
pub fn join(dir: &str, file: &str) -> (r: String)
    ensures
        r@ == join_path(dir@, file@),
{
    let file_len = file.unicode_len();
    if file_len > 0 && file.get_char(0) == '/' {
        return String::from_str(file);
    }
    let dir_len = dir.unicode_len();
    let mut r = String::from_str(dir);
    if dir_len > 0 && dir.get_char(dir_len - 1) != '/' {
        proof {
            reveal_strlit("/");
        }
        r.append("/");
    }
    r.append(file);
    r
}

/// Where the binary that a compiler links is placed: the executable's name
/// in the compiler's own folder under the output directory, with the
/// platform's extension when it has one.
pub open spec fn binary_path_spec(
    compiler: CppCompiler,
    output_dir: Seq<char>,
    name: Seq<char>,
    extension: Seq<char>,
) -> Seq<char> {
    let base = join_path(join_path(output_dir, compiler.name_spec()), name);
    if extension.len() == 0 {
        base
    } else {
        base + seq!['.'] + extension
    }
}

/// The path of the binary that `compiler` links under `output_dir`.
pub fn binary_path(compiler: CppCompiler, output_dir: &str, name: &str, extension: &str) -> (r:
    String)
    ensures
        r@ == binary_path_spec(compiler, output_dir@, name@, extension@),
{
    let folder = join(output_dir, compiler.as_str());
    let mut r = join(folder.as_str(), name);
    if extension.unicode_len() > 0 {
        proof {
            reveal_strlit(".");
        }
        r.append(".");
        r.append(extension);
    }
    r
}

/// The generated command line of one translation unit.
#[derive(Clone, Debug)]
pub struct SourceCommandLine {
    pub directory: String,
    pub file: String,
    pub args: Vec<Argument>,
    /// An earlier run built this unit successfully, so this one skips it.
    pub processed: bool,
    pub execution_result: CommandExecutionResult,
}

impl SourceCommandLine {
    /// The command line of a translation unit, from the directory that holds
    /// it and its file name with extension.
    pub fn from_translation_unit(
        directory: String,
        file: String,
        args: Vec<Argument>,
        processed: bool,
        execution_result: CommandExecutionResult,
    ) -> (r: Self)
        ensures
            r.directory == directory,
            r.file == file,
            r.args == args,
            r.processed == processed,
            r.execution_result == execution_result,
    {
        SourceCommandLine { directory, file, args, processed, execution_result }
    }

    /// The full path of the unit's file.
    pub fn path(&self) -> (r: String)
        ensures
            r@ == join_path(self.directory@, self.file@),
    {
        join(self.directory.as_str(), self.file.as_str())
    }

    /// The arguments of the command line.
    pub fn into_iter(self) -> (r: Vec<Argument>)
        ensures
            r == self.args,
    {
        self.args
    }
}

/// The command line that links the final binary.
#[derive(Debug)]
pub struct ExecutableCommandLine {
    pub main: String,
    pub sources_paths: Vec<String>,
    pub args: Vec<Argument>,
    pub execution_result: CommandExecutionResult,
}

impl Default for ExecutableCommandLine {
    fn default() -> (r: Self)
        ensures
            r.main@ == "."@,
            r.sources_paths@.len() == 0,
            r.args@.len() == 0,
            r.execution_result == CommandExecutionResult::Unreached,
    {
        proof {
            reveal_strlit(".");
        }
        ExecutableCommandLine {
            main: String::from_str("."),
            sources_paths: Vec::new(),
            args: Vec::new(),
            execution_result: CommandExecutionResult::Unreached,
        }
    }
}

/// The command line that precompiles one system module, by name.
#[derive(Clone, Debug)]
pub struct SystemModuleCommandLine {
    pub name: String,
    pub args: Vec<Argument>,
}

/// All the command lines of one run, for one compiler.
#[derive(Debug)]
pub struct Commands {
    pub compiler: CppCompiler,
    pub system_modules: Vec<SystemModuleCommandLine>,
    pub interfaces: Vec<SourceCommandLine>,
    pub implementations: Vec<SourceCommandLine>,
    pub sources: Vec<SourceCommandLine>,
    pub main: ExecutableCommandLine,
    pub generated_files_paths: Vec<Argument>,
}

impl Commands {
    /// Whether the system modules are keyed by distinct names.
    pub open spec fn system_module_names_unique(&self) -> bool {
        forall|i: int, j: int|
            #![trigger self.system_modules@[i], self.system_modules@[j]]
            0 <= i < j < self.system_modules@.len() ==> self.system_modules@[i].name@
                != self.system_modules@[j].name@
    }

    pub fn new(compiler: &CppCompiler) -> (r: Self)
        ensures
            r.compiler == *compiler,
            r.system_modules@.len() == 0,
            r.interfaces@.len() == 0,
            r.implementations@.len() == 0,
            r.sources@.len() == 0,
            r.main.main@ == "."@,
            r.main.sources_paths@.len() == 0,
            r.main.args@.len() == 0,
            r.main.execution_result == CommandExecutionResult::Unreached,
            r.generated_files_paths@.len() == 0,
            r.system_module_names_unique(),
    {
        Commands {
            compiler: *compiler,
            system_modules: Vec::new(),
            interfaces: Vec::new(),
            implementations: Vec::new(),
            sources: Vec::new(),
            main: ExecutableCommandLine::default(),
            generated_files_paths: Vec::new(),
        }
    }
}

/// The texts of `ws` with `sep` between each two.
pub open spec fn separated(ws: Seq<Seq<char>>, sep: Seq<char>) -> Seq<char>
    decreases ws.len(),
{
    if ws.len() == 0 {
        Seq::empty()
    } else if ws.len() == 1 {
        ws[0]
    } else {
        separated(ws.drop_last(), sep) + sep + ws.last()
    }
}

/// One unit's command line, quoted: its arguments separated by spaces.
pub open spec fn unit_line(u: SourceCommandLine) -> Seq<char> {
    seq!['"'] + separated(arg_words(u.args@), " "@) + seq!['"']
}

/// The command lines of some units, as a bracketed list.
pub open spec fn unit_list(units: Seq<SourceCommandLine>) -> Seq<char> {
    "["@ + separated(units.map_values(|u: SourceCommandLine| unit_line(u)), ", "@) + "]"@
}

pub open spec fn description(c: Commands) -> Seq<char> {
    "Commands for ["@ + c.compiler.name_spec() + "]:\n- Interfaces: "@ + unit_list(c.interfaces@)
        + ",\n- Implementations: "@ + unit_list(c.implementations@) + ",\n- Sources: "@
        + unit_list(c.sources@)
}

/// Appends the command line of `u`, quoted, to `out`.
fn push_unit_line(out: &mut String, u: &SourceCommandLine)
    ensures
        final(out)@ == old(out)@ + unit_line(*u),
{
    proof {
        reveal_strlit("\"");
        reveal_strlit(" ");
    }
    out.append("\"");
    let ghost start = out@;
    let ghost ws = arg_words(u.args@);
    let mut i: usize = 0;
    while i < u.args.len()
        invariant
            i <= u.args@.len(),
            ws == arg_words(u.args@),
            out@ == start + separated(ws.take(i as int), " "@),
        decreases u.args@.len() - i,
    {
        assert(ws.take(i + 1).drop_last() =~= ws.take(i as int));
        if i > 0 {
            out.append(" ");
        } else {
            assert(ws.take(0) =~= Seq::<Seq<char>>::empty());
        }
        out.append(u.args[i].value.as_str());
        i = i + 1;
    }
    assert(ws.take(i as int) =~= ws);
    out.append("\"");
}

/// Appends the command lines of `units`, as a bracketed list, to `out`.
fn push_unit_list(out: &mut String, units: &Vec<SourceCommandLine>)
    ensures
        final(out)@ == old(out)@ + unit_list(units@),
{
    proof {
        reveal_strlit("[");
        reveal_strlit("]");
        reveal_strlit(", ");
    }
    out.append("[");
    let ghost start = out@;
    let ghost ls = units@.map_values(|u: SourceCommandLine| unit_line(u));
    let mut i: usize = 0;
    while i < units.len()
        invariant
            i <= units@.len(),
            ls == units@.map_values(|u: SourceCommandLine| unit_line(u)),
            out@ == start + separated(ls.take(i as int), ", "@),
        decreases units@.len() - i,
    {
        assert(ls.take(i + 1).drop_last() =~= ls.take(i as int));
        if i > 0 {
            out.append(", ");
        } else {
            assert(ls.take(0) =~= Seq::<Seq<char>>::empty());
        }
        push_unit_line(out, &units[i]);
        i = i + 1;
    }
    assert(ls.take(i as int) =~= ls);
    out.append("]");
}

impl Commands {
    /// A text that lists the command lines of each phase of units.
    pub fn describe(&self) -> (r: String)
        ensures
            r@ == description(*self),
    {
        proof {
            reveal_strlit("Commands for [");
            reveal_strlit("]:\n- Interfaces: ");
            reveal_strlit(",\n- Implementations: ");
            reveal_strlit(",\n- Sources: ");
        }
        let mut r = String::from_str("Commands for [");
        r.append(self.compiler.as_str());
        r.append("]:\n- Interfaces: ");
        push_unit_list(&mut r, &self.interfaces);
        r.append(",\n- Implementations: ");
        push_unit_list(&mut r, &self.implementations);
        r.append(",\n- Sources: ");
        push_unit_list(&mut r, &self.sources);
        assert(r@ =~= description(*self));
        r
    }

    /// Sets the command line of the system module `name`: it replaces the
    /// arguments of a module of that name, or adds the module after the others.
    pub fn insert_system_module(&mut self, name: String, args: Vec<Argument>)
        requires
            old(self).system_module_names_unique(),
        ensures
            final(self).system_module_names_unique(),
            final(self).compiler == old(self).compiler,
            final(self).interfaces == old(self).interfaces,
            final(self).implementations == old(self).implementations,
            final(self).sources == old(self).sources,
            final(self).main == old(self).main,
            final(self).generated_files_paths == old(self).generated_files_paths,
            (exists|i: int| 0 <= i < old(self).system_modules@.len() && old(self).system_modules@[i].name@ == name@)
                ==> final(self).system_modules@.len() == old(self).system_modules@.len(),
            !(exists|i: int| 0 <= i < old(self).system_modules@.len() && old(self).system_modules@[i].name@ == name@)
                ==> final(self).system_modules@ == old(self).system_modules@.push(
                (SystemModuleCommandLine { name, args }),
            ),
            forall|i: int|
                0 <= i < final(self).system_modules@.len() ==> (#[trigger] final(self).system_modules@[i]).name@
                    == name@ ==> final(self).system_modules@[i] == (SystemModuleCommandLine { name, args }),
            forall|i: int|
                0 <= i < old(self).system_modules@.len() && (#[trigger] old(self).system_modules@[i]).name@
                    != name@ ==> final(self).system_modules@[i] == old(self).system_modules@[i],
    {
        let mut i: usize = 0;
        while i < self.system_modules.len()
            invariant
                *self == *old(self),
                old(self).system_module_names_unique(),
                i <= self.system_modules@.len(),
                forall|k: int| 0 <= k < i ==> (#[trigger] self.system_modules@[k]).name@ != name@,
            decreases self.system_modules@.len() - i,
        {
            if self.system_modules[i].name == name {
                let ghost pre = self.system_modules@;
                assert(pre == old(self).system_modules@);
                assert forall|a: int, b: int|
                    #![trigger pre[a], pre[b]]
                    0 <= a < b < pre.len() implies pre[a].name@ != pre[b].name@ by {
                    assert(old(self).system_modules@[a] == pre[a]);
                    assert(old(self).system_modules@[b] == pre[b]);
                }
                assert(pre[i as int].name@ == name@);
                self.system_modules.set(i, SystemModuleCommandLine { name, args });
                proof {
                    let mods = self.system_modules@;
                    assert forall|k: int| 0 <= k < mods.len() implies (#[trigger] mods[k]).name@
                        == pre[k].name@ by {}
                    assert forall|k: int| 0 <= k < mods.len() && k != i implies (#[trigger] pre[k]).name@
                        != name@ by {
                        if k > i {
                            assert(pre[i as int].name@ != pre[k].name@);
                        }
                    }
                    assert forall|a: int, b: int|
                        #![trigger mods[a], mods[b]]
                        0 <= a < b < mods.len() implies mods[a].name@ != mods[b].name@ by {
                        assert(pre[a].name@ != pre[b].name@);
                    }
                }
                return;
            }
            i = i + 1;
        }
        self.system_modules.push(SystemModuleCommandLine { name, args });
    }
}

} // verus!
