//! Configuration model and the merge of its three sources: command-line
//! commands, a YAML process file, and package-manager scripts. File
//! reading and deserialisation happen outside; the data and the merge
//! rules live here.

use vstd::prelude::*;

use crate::ports::is_space_char;
use crate::types::ProcessConfig;
use vstd::string::StringExecFns;

verus! {

/// The command-line arguments, as plain data.
pub struct Cli {
    /// Commands to run directly, each becoming one process.
    pub commands: Vec<String>,
    /// Explicit path to a config file.
    pub config: Option<String>,
    /// Read scripts from package.json.
    pub npm: bool,
    /// Exit when every process has stopped.
    pub auto_exit: bool,
    /// Working directory for script discovery.
    pub cwd: Option<String>,
    /// Names for the positional commands, in order.
    pub names: Vec<String>,
}

/// One process entry of the YAML file: either a bare command string or a
/// full configuration.
pub enum YamlProcEntry {
    Simple(String),
    Full(YamlProcConfig),
}

/// The full YAML form of one process.
pub struct YamlProcConfig {
    pub shell: Option<String>,
    pub cmd: Option<Vec<String>>,
    pub cwd: Option<String>,
    pub env: Vec<(String, String)>,
    pub autostart: bool,
    pub autorestart: bool,
    pub port: Option<u16>,
}

/// The YAML settings table.
pub struct YamlSettings {
    pub auto_exit: bool,
    pub mouse: Option<bool>,
    pub scrollback: Option<usize>,
}

/// A parsed YAML config file: named processes in file order, plus
/// settings.
pub struct YamlConfig {
    pub procs: Vec<(String, YamlProcEntry)>,
    pub settings: YamlSettings,
}

/// The fully merged configuration handed to the supervisor.
pub struct AppConfig {
    pub processes: Vec<ProcessConfig>,
    pub auto_exit: bool,
}

/// Why no configuration could be assembled.
#[derive(Clone, Copy, Debug, PartialEq, Eq, Structural)]
pub enum ConfigError {
    /// No source supplied any process.
    NoProcesses,
}

impl YamlConfig {
    pub fn auto_exit(&self) -> (r: bool)
        ensures
            r == self.settings.auto_exit,
    {
        self.settings.auto_exit
    }
}

/// What a process built from a bare command string looks like.
pub open spec fn simple_config(name: Seq<char>, cmd: Seq<char>, c: ProcessConfig) -> bool {
    &&& c.name@ == name
    &&& c.command@ == cmd
    &&& c.cmd is None
    &&& c.cwd is None
    &&& c.env@.len() == 0
    &&& c.autostart == true
    &&& c.autorestart == false
    &&& c.port is None
}

/// What a process built from a full YAML entry looks like.
pub open spec fn full_config(name: Seq<char>, y: YamlProcConfig, c: ProcessConfig) -> bool {
    &&& c.name@ == name
    &&& c.command@ == (match y.shell {
        Some(sh) => sh@,
        None => Seq::<char>::empty(),
    })
    &&& c.cmd == y.cmd
    &&& c.cwd == y.cwd
    &&& c.env == y.env
    &&& c.autostart == y.autostart
    &&& c.autorestart == y.autorestart
    &&& c.port == y.port
}

pub open spec fn entry_config(name: Seq<char>, e: YamlProcEntry, c: ProcessConfig) -> bool {
    match e {
        YamlProcEntry::Simple(cmd) => simple_config(name, cmd@, c),
        YamlProcEntry::Full(y) => full_config(name, y, c),
    }
}

impl YamlConfig {
    /// Turn the YAML entries into process configurations, in file order:
    /// a bare string becomes an autostarted shell command under its key,
    /// a full entry carries its fields over.
    pub fn into_process_configs(self) -> (r: Vec<ProcessConfig>)
        ensures
            r@.len() == self.procs@.len(),
            forall|i: int|
                0 <= i < r@.len() ==> entry_config(
                    self.procs@[i].0@,
                    self.procs@[i].1,
                    #[trigger] r@[i],
                ),
    {
        let ghost orig = self.procs@;
        let mut procs = self.procs;
        let mut out: Vec<ProcessConfig> = Vec::new();
        while procs.len() > 0
            invariant
                out@.len() + procs@.len() == orig.len(),
                procs@ =~= orig.skip(out@.len() as int),
                forall|i: int|
                    0 <= i < out@.len() ==> entry_config(orig[i].0@, orig[i].1, #[trigger] out@[i]),
            decreases procs@.len(),
        {
            let ghost before = procs@;
            let (name, entry) = procs.remove(0);
            proof {
                assert(procs@ =~= before.skip(1));
            }
            let config = match entry {
                YamlProcEntry::Simple(cmd) => ProcessConfig {
                    name,
                    command: cmd,
                    cmd: None,
                    cwd: None,
                    env: Vec::new(),
                    autostart: true,
                    autorestart: false,
                    port: None,
                },
                YamlProcEntry::Full(y) => ProcessConfig {
                    name,
                    command: (match y.shell {
                        Some(sh) => sh,
                        None => String::new(),
                    }),
                    cmd: y.cmd,
                    cwd: y.cwd,
                    env: y.env,
                    autostart: y.autostart,
                    autorestart: y.autorestart,
                    port: y.port,
                },
            };
            out.push(config);
        }
        proof {
            assert(out@.len() == orig.len());
        }
        out
    }
}

/// Length of the run of non-whitespace characters starting at `i`.
pub open spec fn word_at(s: Seq<char>, i: int) -> int
    decreases s.len() - i,
    when 0 <= i <= s.len()
{
    if i >= s.len() || is_space_char(s[i]) {
        0
    } else {
        1 + word_at(s, i + 1)
    }
}

/// Length of the run of whitespace characters starting at `i`.
pub open spec fn space_run_at(s: Seq<char>, i: int) -> int
    decreases s.len() - i,
    when 0 <= i <= s.len()
{
    if i >= s.len() || !is_space_char(s[i]) {
        0
    } else {
        1 + space_run_at(s, i + 1)
    }
}

/// The display name derived from a command: its first whitespace-
/// delimited word, or `proc` when there is none.
pub open spec fn derived_name(s: Seq<char>) -> Seq<char> {
    let a = space_run_at(s, 0);
    if a >= s.len() {
        "proc"@
    } else {
        s.subrange(a, a + word_at(s, a))
    }
}

proof fn lemma_space_run_at_is(s: Seq<char>, i: int, w: int)
    requires
        0 <= i <= s.len(),
        0 <= w,
        i + w <= s.len(),
        forall|k: int| 0 <= k < w ==> is_space_char(#[trigger] s[i + k]),
        i + w == s.len() || !is_space_char(s[i + w]),
    ensures
        space_run_at(s, i) == w,
    decreases w,
{
    if w > 0 {
        assert(is_space_char(s[i + 0]));
        assert forall|k: int| 0 <= k < w - 1 implies is_space_char(#[trigger] s[i + 1 + k]) by {
            assert(is_space_char(s[i + (k + 1)]));
        }
        lemma_space_run_at_is(s, i + 1, w - 1);
    }
}

proof fn lemma_word_at_is(s: Seq<char>, i: int, w: int)
    requires
        0 <= i <= s.len(),
        0 <= w,
        i + w <= s.len(),
        forall|k: int| 0 <= k < w ==> !is_space_char(#[trigger] s[i + k]),
        i + w == s.len() || is_space_char(s[i + w]),
    ensures
        word_at(s, i) == w,
    decreases w,
{
    if w > 0 {
        assert(!is_space_char(s[i + 0]));
        assert forall|k: int| 0 <= k < w - 1 implies !is_space_char(#[trigger] s[i + 1 + k]) by {
            assert(!is_space_char(s[i + (k + 1)]));
        }
        lemma_word_at_is(s, i + 1, w - 1);
    }
}

/// The first word of the command, or `proc` when it is all whitespace.
fn derive_name(command: &String) -> (r: String)
    ensures
        r@ == derived_name(command@),
{
    let cs = crate::strutil::str_chars(command.as_str());
    let n = cs.len();
    let mut a: usize = 0;
    while a < n && (cs[a] == ' ' || cs[a] == '\t' || cs[a] == '\n' || cs[a] == '\r' || cs[a]
        == '\x0b' || cs[a] == '\x0c')
        invariant
            n == cs@.len(),
            a <= n,
            forall|k: int| 0 <= k < a ==> is_space_char(#[trigger] cs@[k]),
        decreases n - a,
    {
        a = a + 1;
    }
    proof {
        assert forall|k: int| 0 <= k < a implies is_space_char(#[trigger] cs@[0 + k]) by {
            assert(is_space_char(cs@[k]));
        }
        lemma_space_run_at_is(cs@, 0, a as int);
    }
    if a == n {
        return "proc".to_owned();
    }
    let mut b: usize = a;
    while b < n && !(cs[b] == ' ' || cs[b] == '\t' || cs[b] == '\n' || cs[b] == '\r' || cs[b]
        == '\x0b' || cs[b] == '\x0c')
        invariant
            n == cs@.len(),
            a <= b <= n,
            forall|k: int| a <= k < b ==> !is_space_char(#[trigger] cs@[k]),
        decreases n - b,
    {
        b = b + 1;
    }
    proof {
        assert forall|k: int| 0 <= k < b - a implies !is_space_char(#[trigger] cs@[a + k]) by {
            assert(!is_space_char(cs@[a + k]));
        }
        lemma_word_at_is(cs@, a as int, b as int - a as int);
    }
    let mut word: Vec<char> = Vec::new();
    let mut k: usize = a;
    while k < b
        invariant
            a <= k <= b <= n,
            n == cs@.len(),
            word@ =~= cs@.subrange(a as int, k as int),
        decreases b - k,
    {
        word.push(cs[k]);
        k = k + 1;
    }
    proof {
        assert(word@ =~= cs@.subrange(a as int, a + word_at(cs@, a as int)));
    }
    crate::strutil::chars_string(&word)
}

/// What a process built from a positional command looks like: the
/// matching explicit name when one was given, else the command's first
/// word.
pub open spec fn cli_config(cmds: Seq<String>, names: Seq<String>, i: int, c: ProcessConfig) -> bool {
    &&& simple_config(
        if i < names.len() {
            names[i]@
        } else {
            derived_name(cmds[i]@)
        },
        cmds[i]@,
        c,
    )
}

fn cli_configs(commands: &Vec<String>, names: &Vec<String>) -> (r: Vec<ProcessConfig>)
    ensures
        r@.len() == commands@.len(),
        forall|i: int|
            0 <= i < r@.len() ==> cli_config(commands@, names@, i, #[trigger] r@[i]),
{
    let mut out: Vec<ProcessConfig> = Vec::new();
    let n = commands.len();
    let mut i: usize = 0;
    while i < n
        invariant
            n == commands@.len(),
            i <= n,
            out@.len() == i,
            forall|j: int| 0 <= j < i ==> cli_config(commands@, names@, j, #[trigger] out@[j]),
        decreases n - i,
    {
        let name = if i < names.len() {
            names[i].clone()
        } else {
            derive_name(&commands[i])
        };
        out.push(
            ProcessConfig {
                name,
                command: commands[i].clone(),
                cmd: None,
                cwd: None,
                env: Vec::new(),
                autostart: true,
                autorestart: false,
                port: None,
            },
        );
        i = i + 1;
    }
    out
}

/// What a process built from a package script looks like.
pub open spec fn npm_config(script: Seq<char>, c: ProcessConfig) -> bool {
    &&& c.name@ == script
    &&& c.command@ == "npm run "@ + script
    &&& c.cmd is None
    &&& c.cwd is None
    &&& c.env@.len() == 0
    &&& c.autostart == false
    &&& c.autorestart == false
    &&& c.port is None
}

/// Package scripts become processes that are not autostarted, so the
/// user picks which to run.
fn npm_configs(scripts: &Vec<String>) -> (r: Vec<ProcessConfig>)
    ensures
        r@.len() == scripts@.len(),
        forall|i: int| 0 <= i < r@.len() ==> npm_config(scripts@[i]@, #[trigger] r@[i]),
{
    let mut out: Vec<ProcessConfig> = Vec::new();
    let n = scripts.len();
    let mut i: usize = 0;
    while i < n
        invariant
            n == scripts@.len(),
            i <= n,
            out@.len() == i,
            forall|j: int| 0 <= j < i ==> npm_config(scripts@[j]@, #[trigger] out@[j]),
        decreases n - i,
    {
        let command = "npm run ".to_owned().concat(scripts[i].as_str());
        out.push(
            ProcessConfig {
                name: scripts[i].clone(),
                command,
                cmd: None,
                cwd: None,
                env: Vec::new(),
                autostart: false,
                autorestart: false,
                port: None,
            },
        );
        i = i + 1;
    }
    out
}

/// Merge the configuration sources, in precedence order: positional
/// commands; else the YAML file's processes; plus, when asked for,
/// package scripts. Yields an error when no source supplied a process.
/// Auto-exit holds when the command line asked for it, or when the YAML
/// file was used and asked for it.
pub fn merge_config(cli: &Cli, yaml: Option<YamlConfig>, npm_scripts: Option<Vec<String>>) -> (r:
    Result<AppConfig, ConfigError>)
    ensures
        ({
            let ncli = cli.commands@.len() as int;
            let yaml_used = ncli == 0 && yaml is Some;
            let nyaml: int = if yaml_used {
                yaml->0.procs@.len() as int
            } else {
                0
            };
            let npm_used = cli.npm && npm_scripts is Some;
            let nnpm: int = if npm_used {
                npm_scripts->0@.len() as int
            } else {
                0
            };
            &&& (r is Err <==> ncli + nyaml + nnpm == 0)
            &&& (r matches Err(e) ==> e == ConfigError::NoProcesses)
            &&& (r matches Ok(app) ==> {
                &&& app.processes@.len() == ncli + nyaml + nnpm
                &&& (forall|i: int|
                    0 <= i < ncli ==> cli_config(
                        cli.commands@,
                        cli.names@,
                        i,
                        #[trigger] app.processes@[i],
                    ))
                &&& (forall|i: int|
                    0 <= i < nyaml ==> entry_config(
                        yaml->0.procs@[i].0@,
                        yaml->0.procs@[i].1,
                        #[trigger] app.processes@[ncli + i],
                    ))
                &&& (forall|i: int|
                    0 <= i < nnpm ==> npm_config(
                        npm_scripts->0@[i]@,
                        #[trigger] app.processes@[ncli + nyaml + i],
                    ))
                &&& app.auto_exit == (cli.auto_exit || (yaml_used
                    && yaml->0.settings.auto_exit))
            })
        }),
{
    let mut processes = cli_configs(&cli.commands, &cli.names);
    let mut auto_exit_from_yaml = false;

    if processes.len() == 0 {
        match yaml {
            Some(y) => {
                auto_exit_from_yaml = y.auto_exit();
                let mut v = y.into_process_configs();
                processes.append(&mut v);
            }
            None => {}
        }
    }

    if cli.npm {
        match npm_scripts {
            Some(ref scripts) => {
                let mut v = npm_configs(scripts);
                processes.append(&mut v);
            }
            None => {}
        }
    }

    if processes.len() == 0 {
        Err(ConfigError::NoProcesses)
    } else {
        Ok(AppConfig { processes, auto_exit: cli.auto_exit || auto_exit_from_yaml })
    }
}

} // verus!
