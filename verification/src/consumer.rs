//! Fixed generation-selected terminal and launcher consumers: argument
//! parsing, required outputs, search-path composition and the exact command
//! each consumer is replaced by.
use vstd::prelude::*;

use crate::text::{push_str, str_equal};

verus! {

/// The two programs that consume one selected theme generation directly.
#[derive(Debug, Clone, Copy, PartialEq, Eq, Structural)]
pub enum FixedConsumer {
    /// The default Foot terminal.
    Terminal,
    /// The default Fuzzel launcher.
    Launcher,
}

/// The message for any argument list other than the two accepted pairs.
pub open spec fn usage_message() -> Seq<char> {
    "expected exactly --fixed-consumer terminal|launcher"@
}

/// The consumer an argument list selects, if it is one of the two exact pairs.
pub open spec fn spec_parse_args(args: Seq<Seq<char>>) -> Option<FixedConsumer> {
    if args.len() == 2 && args[0] == "--fixed-consumer"@ && args[1] == "terminal"@ {
        Some(FixedConsumer::Terminal)
    } else if args.len() == 2 && args[0] == "--fixed-consumer"@ && args[1] == "launcher"@ {
        Some(FixedConsumer::Launcher)
    } else {
        None
    }
}

/// The generation outputs a consumer requires, in check order.
pub open spec fn spec_outputs(c: FixedConsumer) -> Seq<Seq<char>> {
    match c {
        FixedConsumer::Terminal => seq![
            "foot/foot.ini"@,
            "foot/foot-modern.ini"@,
            "zsh/.zshrc"@,
            "starship.toml"@,
            "yazi/yazi.toml"@,
            "yazi/keymap.toml"@,
            "yazi/theme.toml"@,
            "btop/btop.conf"@,
            "btop/themes/realm.theme"@,
            "share/themes/realm/gtk-3.0/gtk.css"@,
            "share/themes/realm/gtk-4.0/gtk.css"@,
            "qt6ct/qt6ct.conf"@,
            "qt6ct/colors/realm.conf"@,
        ],
        FixedConsumer::Launcher => seq!["fuzzel/fuzzel.ini"@],
    }
}

impl FixedConsumer {
    /// Stable child-mode spelling.
    pub open spec fn spec_as_str(self) -> Seq<char> {
        match self {
            FixedConsumer::Terminal => "terminal"@,
            FixedConsumer::Launcher => "launcher"@,
        }
    }

    /// Program each consumer is replaced by.
    pub open spec fn spec_executable(self) -> Seq<char> {
        match self {
            FixedConsumer::Terminal => "foot"@,
            FixedConsumer::Launcher => "fuzzel"@,
        }
    }

    /// Parse the exact private child-mode argument pair.
    pub fn parse_args(args: &[String]) -> (r: Result<Self, String>)
        ensures
            ({
                let parsed = spec_parse_args(args@.map_values(|a: String| a@));
                &&& parsed is Some ==> r == Ok::<Self, String>(parsed.unwrap())
                &&& parsed is None ==> r is Err && r->Err_0@ == usage_message()
            }),
    {
        proof {
            reveal_strlit("--fixed-consumer");
            reveal_strlit("terminal");
            reveal_strlit("launcher");
        }
        let ghost views = args@.map_values(|a: String| a@);
        if args.len() == 2 {
            let flag = str_equal(args[0].as_str(), "--fixed-consumer");
            let terminal = str_equal(args[1].as_str(), "terminal");
            let launcher = str_equal(args[1].as_str(), "launcher");
            assert(views[0] == args@[0]@ && views[1] == args@[1]@);
            if flag && terminal {
                return Ok(FixedConsumer::Terminal);
            }
            if flag && launcher {
                return Ok(FixedConsumer::Launcher);
            }
        }
        Err(String::from_str("expected exactly --fixed-consumer terminal|launcher"))
    }

    /// Stable child-mode spelling used by the worker.
    pub fn as_str(self) -> (s: &'static str)
        ensures
            s@ == self.spec_as_str(),
    {
        proof {
            reveal_strlit("terminal");
            reveal_strlit("launcher");
        }
        match self {
            FixedConsumer::Terminal => "terminal",
            FixedConsumer::Launcher => "launcher",
        }
    }

    /// Program the consumer execs.
    pub fn executable(self) -> (s: &'static str)
        ensures
            s@ == self.spec_executable(),
    {
        proof {
            reveal_strlit("foot");
            reveal_strlit("fuzzel");
        }
        match self {
            FixedConsumer::Terminal => "foot",
            FixedConsumer::Launcher => "fuzzel",
        }
    }

    /// Generation outputs that must be readable before the consumer starts.
    pub fn outputs(self) -> (v: Vec<&'static str>)
        ensures
            v@.map_values(|s: &'static str| s@) == spec_outputs(self),
    {
        let mut v: Vec<&'static str> = Vec::new();
        match self {
            FixedConsumer::Terminal => {
                v.push("foot/foot.ini");
                v.push("foot/foot-modern.ini");
                v.push("zsh/.zshrc");
                v.push("starship.toml");
                v.push("yazi/yazi.toml");
                v.push("yazi/keymap.toml");
                v.push("yazi/theme.toml");
                v.push("btop/btop.conf");
                v.push("btop/themes/realm.theme");
                v.push("share/themes/realm/gtk-3.0/gtk.css");
                v.push("share/themes/realm/gtk-4.0/gtk.css");
                v.push("qt6ct/qt6ct.conf");
                v.push("qt6ct/colors/realm.conf");
                proof {
                    assert(v@.map_values(|s: &'static str| s@) =~= spec_outputs(self));
                }
            },
            FixedConsumer::Launcher => {
                v.push("fuzzel/fuzzel.ini");
                proof {
                    assert(v@.map_values(|s: &'static str| s@) =~= spec_outputs(self));
                }
            },
        }
        v
    }
}

/// A relative path appended to a base path: the base's trailing separator
/// is reused, and an empty base yields the relative path itself.
pub open spec fn spec_join(base: Seq<char>, rel: Seq<char>) -> Seq<char> {
    if base.len() == 0 {
        rel
    } else if base.last() == '/' {
        base + rel
    } else {
        base + "/"@ + rel
    }
}

/// Append a relative path to a base path.
pub fn join_path(base: &str, rel: &str) -> (p: String)
    ensures
        p@ == spec_join(base@, rel@),
{
    proof {
        reveal_strlit("/");
    }
    let chars = crate::text::chars_of(base);
    let mut p = String::new();
    push_str(&mut p, base);
    if chars.len() > 0 && chars[chars.len() - 1] != '/' {
        push_str(&mut p, "/");
    }
    push_str(&mut p, rel);
    p
}

/// The configuration root: a nonempty `XDG_CONFIG_HOME`, else `.config`
/// under a nonempty `HOME`.
pub open spec fn spec_config_root(xdg_config_home: Option<Seq<char>>, home: Option<Seq<char>>) -> Option<Seq<char>> {
    if xdg_config_home is Some && xdg_config_home.unwrap().len() > 0 {
        xdg_config_home
    } else if home is Some && home.unwrap().len() > 0 {
        Some(spec_join(home.unwrap(), ".config"@))
    } else {
        None
    }
}

/// The view of an optional string.
pub open spec fn opt_view(s: Option<String>) -> Option<Seq<char>> {
    match s {
        Some(v) => Some(v@),
        None => None,
    }
}

/// Resolve the standard configuration root from the two inherited variables.
pub fn config_root(xdg_config_home: Option<String>, home: Option<String>) -> (r: Result<String, String>)
    ensures
        ({
            let root = spec_config_root(opt_view(xdg_config_home), opt_view(home));
            &&& root is Some ==> r is Ok && r->Ok_0@ == root.unwrap()
            &&& root is None ==> r is Err && r->Err_0@ == "no XDG_CONFIG_HOME or HOME for realm configuration"@
        }),
{
    proof {
        reveal_strlit(".config");
    }
    if let Some(x) = xdg_config_home {
        if !x.as_str().is_empty() {
            return Ok(x);
        }
    }
    if let Some(h) = home {
        if !h.as_str().is_empty() {
            return Ok(join_path(h.as_str(), ".config"));
        }
    }
    Err(String::from_str("no XDG_CONFIG_HOME or HOME for realm configuration"))
}

/// Whether a character sequence contains a colon.
pub open spec fn has_colon(s: Seq<char>) -> bool {
    exists|i: int| 0 <= i < s.len() && s[i] == ':'
}

/// An XDG search list with the generation (and an optional suffix under it)
/// first, then the inherited nonempty list or the default.
pub open spec fn spec_search_list(
    generation: Seq<char>,
    suffix: Option<Seq<char>>,
    inherited: Option<Seq<char>>,
    default: Seq<char>,
) -> Seq<char> {
    let head = match suffix {
        Some(s) => generation + "/"@ + s,
        None => generation,
    };
    let tail = if inherited is Some && inherited.unwrap().len() > 0 {
        inherited.unwrap()
    } else {
        default
    };
    head + ":"@ + tail
}

/// The message when a generation path cannot stand in a search list.
pub open spec fn unrepresentable_message() -> Seq<char> {
    "generation path cannot be represented in XDG search lists"@
}

/// Prepend a generation to an XDG search list.
///
/// `generation` is `None` when the path is not valid UTF-8; such a path, or
/// one containing the list separator `:`, is refused.
pub fn prepend_xdg_search_root(
    generation: Option<&str>,
    suffix: Option<&str>,
    inherited: Option<String>,
    default: &str,
) -> (r: Result<String, String>)
    ensures
        generation is None || has_colon(generation.unwrap()@) ==> r is Err && r->Err_0@
            == unrepresentable_message(),
        generation is Some && !has_colon(generation.unwrap()@) ==> r is Ok && r->Ok_0@
            == spec_search_list(
            generation.unwrap()@,
            match suffix {
                Some(s) => Some(s@),
                None => None,
            },
            opt_view(inherited),
            default@,
        ),
{
    proof {
        reveal_strlit("/");
        reveal_strlit(":");
    }
    let g: &str = match generation {
        Some(g) => g,
        None => return Err(String::from_str("generation path cannot be represented in XDG search lists")),
    };
    let chars = crate::text::chars_of(g);
    let mut i: usize = 0;
    while i < chars.len()
        invariant
            i <= chars@.len(),
            chars@ == g@,
            generation == Some(g),
            forall|j: int| 0 <= j < i ==> chars@[j] != ':',
        decreases chars.len() - i,
    {
        if chars[i] == ':' {
            proof {
                assert(g@[i as int] == ':');
                assert(has_colon(generation.unwrap()@));
            }
            return Err(String::from_str("generation path cannot be represented in XDG search lists"));
        }
        i = i + 1;
    }
    let mut value = String::new();
    push_str(&mut value, g);
    if let Some(s) = suffix {
        push_str(&mut value, "/");
        push_str(&mut value, s);
    }
    push_str(&mut value, ":");
    match inherited {
        Some(list) => {
            if !list.as_str().is_empty() {
                push_str(&mut value, list.as_str());
            } else {
                push_str(&mut value, default);
            }
        },
        None => push_str(&mut value, default),
    }
    Ok(value)
}

/// One of the two generated Foot configurations.
#[derive(Debug, Clone, Copy, PartialEq, Eq, Structural)]
pub enum FootConfig {
    /// The configuration for current Foot releases.
    Modern,
    /// The fallback configuration for older releases.
    Legacy,
}

impl FootConfig {
    /// Output path of the configuration inside a generation.
    pub open spec fn spec_output(self) -> Seq<char> {
        match self {
            FootConfig::Modern => "foot/foot-modern.ini"@,
            FootConfig::Legacy => "foot/foot.ini"@,
        }
    }

    /// Output path of the configuration inside a generation.
    pub fn output(self) -> (s: &'static str)
        ensures
            s@ == self.spec_output(),
    {
        proof {
            reveal_strlit("foot/foot-modern.ini");
            reveal_strlit("foot/foot.ini");
        }
        match self {
            FootConfig::Modern => "foot/foot-modern.ini",
            FootConfig::Legacy => "foot/foot.ini",
        }
    }
}

/// The Foot configuration to use after probing: the modern one when Foot
/// accepts it, else the legacy one when Foot accepts that, else none.
/// The legacy probe only matters when the modern one failed.
pub fn choose_foot_config(modern_accepted: bool, legacy_accepted: bool) -> (c: Option<FootConfig>)
    ensures
        modern_accepted ==> c == Some(FootConfig::Modern),
        !modern_accepted && legacy_accepted ==> c == Some(FootConfig::Legacy),
        !modern_accepted && !legacy_accepted ==> c is None,
{
    if modern_accepted {
        Some(FootConfig::Modern)
    } else if legacy_accepted {
        Some(FootConfig::Legacy)
    } else {
        None
    }
}

/// The exact process a consumer is replaced by.
#[derive(Debug, Clone, PartialEq, Eq)]
pub struct ConsumerCommand {
    /// Program looked up on `PATH`.
    pub program: String,
    /// Arguments after the program name.
    pub args: Vec<String>,
    /// Environment variables set on top of the inherited environment, in order.
    pub env: Vec<(String, String)>,
}

/// The argument naming a consumer's configuration file.
pub open spec fn config_argument(config: Seq<char>) -> Seq<char> {
    "--config="@ + config
}

/// The arguments of a consumer's command.
pub open spec fn spec_consumer_args(c: FixedConsumer, config: Seq<char>) -> Seq<Seq<char>> {
    match c {
        FixedConsumer::Terminal => seq![
            config_argument(config),
            "--log-level=error"@,
            "--override=key-bindings.spawn-terminal=none"@,
            "zsh"@,
        ],
        FixedConsumer::Launcher => seq![config_argument(config)],
    }
}

/// The environment a consumer's command sets.
pub open spec fn spec_consumer_env(
    c: FixedConsumer,
    generation: Seq<char>,
    data_dirs: Seq<char>,
    config_dirs: Seq<char>,
) -> Seq<(Seq<char>, Seq<char>)> {
    match c {
        FixedConsumer::Terminal => seq![
            ("REALM_GENERATION"@, generation),
            ("ZDOTDIR"@, spec_join(generation, "zsh"@)),
            ("STARSHIP_CONFIG"@, spec_join(generation, "starship.toml"@)),
            ("YAZI_CONFIG_HOME"@, spec_join(generation, "yazi"@)),
            ("GTK_THEME"@, "realm"@),
            ("XDG_DATA_DIRS"@, data_dirs),
            ("QT_QPA_PLATFORMTHEME"@, "qt6ct"@),
            ("XDG_CONFIG_DIRS"@, config_dirs),
        ],
        FixedConsumer::Launcher => seq![],
    }
}

/// Append one environment entry.
fn push_env(env: &mut Vec<(String, String)>, name: &str, value: String)
    ensures
        final(env)@.map_values(|e: (String, String)| (e.0@, e.1@)) == old(env)@.map_values(
            |e: (String, String)| (e.0@, e.1@),
        ).push((name@, value@)),
{
    let mut n = String::new();
    push_str(&mut n, name);
    let ghost before = env@;
    env.push((n, value));
    proof {
        assert(env@.map_values(|e: (String, String)| (e.0@, e.1@)) =~= before.map_values(
            |e: (String, String)| (e.0@, e.1@),
        ).push((name@, value@)));
    }
}

/// A string holding the given slice.
fn owned(s: &str) -> (r: String)
    ensures
        r@ == s@,
{
    let mut r = String::new();
    push_str(&mut r, s);
    r
}

/// The command a consumer execs for a selected generation.
///
/// `config` is the configuration file chosen for the consumer; the terminal
/// additionally gets the generation-local shell, prompt, file manager and
/// toolkit environment, with the prepared XDG search lists.
pub fn consumer_command(
    consumer: FixedConsumer,
    generation: &str,
    config: &str,
    data_dirs: &str,
    config_dirs: &str,
) -> (cmd: ConsumerCommand)
    ensures
        cmd.program@ == consumer.spec_executable(),
        cmd.args@.map_values(|a: String| a@) == spec_consumer_args(consumer, config@),
        cmd.env@.map_values(|e: (String, String)| (e.0@, e.1@)) == spec_consumer_env(
            consumer,
            generation@,
            data_dirs@,
            config_dirs@,
        ),
{
    proof {
        reveal_strlit("--config=");
        reveal_strlit("--log-level=error");
        reveal_strlit("--override=key-bindings.spawn-terminal=none");
        reveal_strlit("zsh");
        reveal_strlit("REALM_GENERATION");
        reveal_strlit("ZDOTDIR");
        reveal_strlit("STARSHIP_CONFIG");
        reveal_strlit("starship.toml");
        reveal_strlit("YAZI_CONFIG_HOME");
        reveal_strlit("yazi");
        reveal_strlit("GTK_THEME");
        reveal_strlit("realm");
        reveal_strlit("XDG_DATA_DIRS");
        reveal_strlit("QT_QPA_PLATFORMTHEME");
        reveal_strlit("qt6ct");
        reveal_strlit("XDG_CONFIG_DIRS");
    }
    let program = owned(consumer.executable());
    let mut argument = String::new();
    push_str(&mut argument, "--config=");
    push_str(&mut argument, config);
    let mut args: Vec<String> = Vec::new();
    args.push(argument);
    let mut env: Vec<(String, String)> = Vec::new();
    match consumer {
        FixedConsumer::Terminal => {
            args.push(owned("--log-level=error"));
            args.push(owned("--override=key-bindings.spawn-terminal=none"));
            args.push(owned("zsh"));
            push_env(&mut env, "REALM_GENERATION", owned(generation));
            push_env(&mut env, "ZDOTDIR", join_path(generation, "zsh"));
            push_env(&mut env, "STARSHIP_CONFIG", join_path(generation, "starship.toml"));
            push_env(&mut env, "YAZI_CONFIG_HOME", join_path(generation, "yazi"));
            push_env(&mut env, "GTK_THEME", owned("realm"));
            push_env(&mut env, "XDG_DATA_DIRS", owned(data_dirs));
            push_env(&mut env, "QT_QPA_PLATFORMTHEME", owned("qt6ct"));
            push_env(&mut env, "XDG_CONFIG_DIRS", owned(config_dirs));
        },
        FixedConsumer::Launcher => {},
    }
    proof {
        assert(args@.map_values(|a: String| a@) =~= spec_consumer_args(consumer, config@));
        assert(env@.map_values(|e: (String, String)| (e.0@, e.1@)) =~= spec_consumer_env(
            consumer,
            generation@,
            data_dirs@,
            config_dirs@,
        ));
    }
    ConsumerCommand { program, args, env }
}

/// The message naming a required output that could not be read.
pub fn missing_output_message(output: &str, error: &str) -> (m: String)
    ensures
        m@ == "required output "@ + output@ + " is unavailable: "@ + error@,
{
    let mut m = String::from_str("required output ");
    push_str(&mut m, output);
    push_str(&mut m, " is unavailable: ");
    push_str(&mut m, error);
    m
}

} // verus!
