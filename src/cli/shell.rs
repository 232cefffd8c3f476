use vstd::prelude::*;

use crate::cli::common::{contains_spec, contains_text, join_path, joined};

verus! {

/// Arguments of the `shell` command.
pub struct Args {
    pub subcommand: ShellSubcommand,
}

/// A shell named on the command line, or none to detect the running one.
pub struct ShellArg {
    pub shell: Option<String>,
}

pub enum ShellSubcommand {
    /// Edit the shell's configuration file so that the shims come first on PATH.
    Init(ShellArg),
    /// Print the environment change that puts the shims first on PATH.
    Generate(ShellArg),
}

/// A shell, by the name of its program.
#[derive(Clone, Debug, PartialEq, Eq)]
pub enum Shell {
    Bash,
    Zsh,
    Unknown(String),
}

/// `s` in lower case.
pub uninterp spec fn lower_of(s: Seq<char>) -> Seq<char>;

/// Relies on `str::to_lowercase`: the result depends on the characters alone.
#[verifier::external_body]
fn lowercase(s: &str) -> (r: String)
    ensures
        r@ == lower_of(s@),
{
    s.to_lowercase()
}

/// The tools that get a shim.
pub open spec fn shimmed_tools() -> Seq<Seq<char>> {
    seq!["pip"@, "uv"@, "pixi"@, "conda"@]
}

/// One shim: a script that hands a tool's invocation to araki.
pub struct ShimFile {
    pub tool: String,
    pub script: String,
}

/// What `shell init` writes: a snippet for the configuration file and the shims.
pub struct ShellSetup {
    pub config_file: String,
    pub snippet: String,
    pub shims: Vec<ShimFile>,
}

pub open spec fn posix_snippet(name: Seq<char>) -> Seq<char> {
    "# Araki configuration\neval $(araki shell generate "@ + name + ")\n"@
}

pub open spec fn shim_script(shell: Seq<char>, tool: Seq<char>) -> Seq<char> {
    "#!/bin/"@ + shell + "\naraki shim "@ + tool + " $@\n"@
}

impl Shell {
    pub open spec fn name_spec(&self) -> Seq<char> {
        match self {
            Shell::Bash => "bash"@,
            Shell::Zsh => "zsh"@,
            Shell::Unknown(n) => n@,
        }
    }

    pub open spec fn is_known(&self) -> bool {
        !(self is Unknown)
    }

    /// The shell that the lower-case name `l` designates.
    pub fn from_lowercase(l: &str) -> (r: Shell)
        ensures
            l@ == "bash"@ ==> r == Shell::Bash,
            l@ == "zsh"@ ==> r == Shell::Zsh,
            l@ != "bash"@ && l@ != "zsh"@ ==> (r matches Shell::Unknown(n) && n@ == l@),
    {
        proof {
            reveal_strlit("bash");
            reveal_strlit("zsh");
            assert("bash"@.len() != "zsh"@.len());
        }
        let given = String::from_str(l);
        if given == String::from_str("bash") {
            Shell::Bash
        } else if given == String::from_str("zsh") {
            Shell::Zsh
        } else {
            Shell::Unknown(given)
        }
    }

    /// The shell named `s`, in any case.
    pub fn from_str(s: &str) -> (r: Shell)
        ensures
            lower_of(s@) == "bash"@ ==> r == Shell::Bash,
            lower_of(s@) == "zsh"@ ==> r == Shell::Zsh,
            lower_of(s@) != "bash"@ && lower_of(s@) != "zsh"@ ==> (r matches Shell::Unknown(n) && n@ == lower_of(s@)),
    {
        let l = lowercase(s);
        Shell::from_lowercase(l.as_str())
    }

    /// The shell's program name.
    pub fn name(&self) -> (r: String)
        ensures
            r@ == self.name_spec(),
    {
        match self {
            Shell::Bash => String::from_str("bash"),
            Shell::Zsh => String::from_str("zsh"),
            Shell::Unknown(n) => n.clone(),
        }
    }

    /// The shells whose configuration can be updated.
    pub fn supported_shells() -> (r: Vec<&'static str>)
        ensures
            r@.len() == 2,
            r@[0]@ == "bash"@,
            r@[1]@ == "zsh"@,
    {
        let mut v: Vec<&'static str> = Vec::new();
        v.push("bash");
        v.push("zsh");
        v
    }

    /// The configuration file of the shell, in the home directory `home`.
    pub fn get_shell_config(&self, home: &str) -> (r: Result<String, String>)
        ensures
            self == Shell::Bash ==> (r matches Ok(p) && p@ == joined(home@, ".bashrc"@)),
            self == Shell::Zsh ==> (r matches Ok(p) && p@ == joined(home@, ".zshrc"@)),
            self is Unknown ==> (r matches Err(m) && m@ == "Cannot get shell configuration for unknown shell: "@ + self.name_spec()),
    {
        match self {
            Shell::Bash => Ok(join_path(home, ".bashrc")),
            Shell::Zsh => Ok(join_path(home, ".zshrc")),
            Shell::Unknown(n) => {
                let mut m = String::from_str("Cannot get shell configuration for unknown shell: ");
                m.append(n.as_str());
                Err(m)
            },
        }
    }

    /// The snippet that makes the shell evaluate araki's PATH update at start.
    pub fn posix_config(&self) -> (r: String)
        ensures
            r@ == posix_snippet(self.name_spec()),
    {
        let mut s = String::from_str("# Araki configuration\neval $(araki shell generate ");
        let n = self.name();
        s.append(n.as_str());
        s.append(")\n");
        s
    }

    /// The text to append to a configuration file that holds `contents`:
    /// nothing when the snippet is already there.
    pub fn config_addition(&self, contents: &str) -> (r: Option<String>)
        ensures
            r is None <==> contains_spec(contents@, posix_snippet(self.name_spec())),
            r matches Some(a) ==> a@ == posix_snippet(self.name_spec()),
    {
        let snippet = self.posix_config();
        if contains_text(contents, snippet.as_str()) {
            None
        } else {
            Some(snippet)
        }
    }

    /// The shim script for `tool`.
    pub fn shim(&self, tool: &str) -> (r: String)
        ensures
            r@ == shim_script(self.name_spec(), tool@),
    {
        let mut s = String::from_str("#!/bin/");
        let n = self.name();
        s.append(n.as_str());
        s.append("\naraki shim ");
        s.append(tool);
        s.append(" $@\n");
        s
    }

    /// What updating the shell's configuration writes, for the home directory
    /// `home`: the snippet for its configuration file and one shim per tool.
    pub fn update_shell_config(&self, home: &str) -> (r: Result<ShellSetup, String>)
        ensures
            r is Ok <==> self.is_known(),
            r matches Ok(s) ==> {
                &&& s.config_file@ == joined(home@, if self == Shell::Bash { ".bashrc"@ } else { ".zshrc"@ })
                &&& s.snippet@ == posix_snippet(self.name_spec())
                &&& s.shims@.len() == 4
                &&& forall|i: int| 0 <= i < 4 ==> (#[trigger] s.shims@[i]).tool@ == shimmed_tools()[i]
                    && s.shims@[i].script@ == shim_script(self.name_spec(), shimmed_tools()[i])
            },
            r matches Err(m) ==> m@ == "Cannot get shell configuration for unknown shell: "@ + self.name_spec(),
    {
        let config_file = self.get_shell_config(home)?;
        let snippet = self.posix_config();
        let mut shims: Vec<ShimFile> = Vec::new();
        let tools: [&str; 4] = ["pip", "uv", "pixi", "conda"];
        let mut i: usize = 0;
        while i < 4
            invariant
                i <= 4,
                tools@.len() == 4,
                forall|k: int| 0 <= k < 4 ==> (#[trigger] tools@[k])@ == shimmed_tools()[k],
                shims@.len() == i,
                forall|k: int| 0 <= k < i ==> (#[trigger] shims@[k]).tool@ == shimmed_tools()[k]
                    && shims@[k].script@ == shim_script(self.name_spec(), shimmed_tools()[k]),
            decreases 4 - i,
        {
            let tool = tools[i];
            let script = self.shim(tool);
            shims.push(ShimFile { tool: String::from_str(tool), script });
            i = i + 1;
        }
        Ok(ShellSetup { config_file, snippet, shims })
    }

    /// The environment change that puts the shim directory `bin_dir` first on PATH.
    pub fn print_env(&self, bin_dir: &str) -> (r: Result<String, String>)
        ensures
            r is Ok <==> self.is_known(),
            r matches Ok(s) ==> s@ == "PATH="@ + bin_dir@ + ":$PATH"@,
            r matches Err(m) ==> m@ == "Cannot generate environment updates for "@ + self.name_spec(),
    {
        match self {
            Shell::Unknown(n) => {
                let mut m = String::from_str("Cannot generate environment updates for ");
                m.append(n.as_str());
                Err(m)
            },
            _ => {
                let mut s = String::from_str("PATH=");
                s.append(bin_dir);
                s.append(":$PATH");
                Ok(s)
            },
        }
    }
}

} // verus!
