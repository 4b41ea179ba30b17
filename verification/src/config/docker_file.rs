//! The typed form of the imperative build script: one variant per directive,
//! an ordered document, and the rendering back to text.

use vstd::prelude::*;

use crate::text::{chars_of, dec_str, render_u64, string_of};
use crate::words::{exec_shell_join, exec_plain_join, plain_join, shell_join};

verus! {

/// One directive of the build script.
pub enum DockerCommand {
    Add { sources: Vec<String>, dest: String, chown: Option<String> },
    Arg { name: String, default_value: Option<String> },
    Cmd { command: Vec<String> },
    Copy { source: String, dest: String, chown: Option<String> },
    Entrypoint { command: Vec<String> },
    Env { key: String, value: String },
    Expose { port: u16, protocol: Option<String> },
    Healthcheck {
        command: Vec<String>,
        interval: Option<String>,
        timeout: Option<String>,
        start_period: Option<String>,
        retries: Option<u32>,
    },
    Label { labels: Vec<(String, String)> },
    Maintainer { name: String },
    Onbuild { command: Box<DockerCommand> },
    Run { command: String },
    Shell { shell: Vec<String> },
    StopSignal { signal: String },
    User { user: String, group: Option<String> },
    Volume { paths: Vec<String> },
    Workdir { path: String },
}

/// The mathematical form of one directive, over sequences of characters.
pub enum CommandView {
    Add { sources: Seq<Seq<char>>, dest: Seq<char>, chown: Option<Seq<char>> },
    Arg { name: Seq<char>, default_value: Option<Seq<char>> },
    Cmd { command: Seq<Seq<char>> },
    Copy { source: Seq<char>, dest: Seq<char>, chown: Option<Seq<char>> },
    Entrypoint { command: Seq<Seq<char>> },
    Env { key: Seq<char>, value: Seq<char> },
    Expose { port: u16, protocol: Option<Seq<char>> },
    Healthcheck {
        command: Seq<Seq<char>>,
        interval: Option<Seq<char>>,
        timeout: Option<Seq<char>>,
        start_period: Option<Seq<char>>,
        retries: Option<u32>,
    },
    Label { labels: Seq<(Seq<char>, Seq<char>)> },
    Maintainer { name: Seq<char> },
    Onbuild { command: Box<CommandView> },
    Run { command: Seq<char> },
    Shell { shell: Seq<Seq<char>> },
    StopSignal { signal: Seq<char> },
    User { user: Seq<char>, group: Option<Seq<char>> },
    Volume { paths: Seq<Seq<char>> },
    Workdir { path: Seq<char> },
}

/// The views of a list of strings.
pub open spec fn strings_view(s: Seq<String>) -> Seq<Seq<char>> {
    s.map_values(|x: String| x@)
}

/// The views of a list of string pairs.
pub open spec fn pairs_view(s: Seq<(String, String)>) -> Seq<(Seq<char>, Seq<char>)> {
    s.map_values(|p: (String, String)| (p.0@, p.1@))
}

/// The view of an optional string.
pub open spec fn opt_view(s: Option<String>) -> Option<Seq<char>> {
    match s {
        Some(x) => Some(x@),
        None => None,
    }
}

/// The mathematical form of a directive.
pub open spec fn cmd_view(c: DockerCommand) -> CommandView
    decreases c,
{
    match c {
        DockerCommand::Add { sources, dest, chown } => CommandView::Add {
            sources: strings_view(sources@),
            dest: dest@,
            chown: opt_view(chown),
        },
        DockerCommand::Arg { name, default_value } => CommandView::Arg {
            name: name@,
            default_value: opt_view(default_value),
        },
        DockerCommand::Cmd { command } => CommandView::Cmd { command: strings_view(command@) },
        DockerCommand::Copy { source, dest, chown } => CommandView::Copy {
            source: source@,
            dest: dest@,
            chown: opt_view(chown),
        },
        DockerCommand::Entrypoint { command } => CommandView::Entrypoint {
            command: strings_view(command@),
        },
        DockerCommand::Env { key, value } => CommandView::Env { key: key@, value: value@ },
        DockerCommand::Expose { port, protocol } => CommandView::Expose {
            port,
            protocol: opt_view(protocol),
        },
        DockerCommand::Healthcheck { command, interval, timeout, start_period, retries } => {
            CommandView::Healthcheck {
                command: strings_view(command@),
                interval: opt_view(interval),
                timeout: opt_view(timeout),
                start_period: opt_view(start_period),
                retries,
            }
        },
        DockerCommand::Label { labels } => CommandView::Label { labels: pairs_view(labels@) },
        DockerCommand::Maintainer { name } => CommandView::Maintainer { name: name@ },
        DockerCommand::Onbuild { command } => CommandView::Onbuild {
            command: Box::new(cmd_view(*command)),
        },
        DockerCommand::Run { command } => CommandView::Run { command: command@ },
        DockerCommand::Shell { shell } => CommandView::Shell { shell: strings_view(shell@) },
        DockerCommand::StopSignal { signal } => CommandView::StopSignal { signal: signal@ },
        DockerCommand::User { user, group } => CommandView::User {
            user: user@,
            group: opt_view(group),
        },
        DockerCommand::Volume { paths } => CommandView::Volume { paths: strings_view(paths@) },
        DockerCommand::Workdir { path } => CommandView::Workdir { path: path@ },
    }
}

impl View for DockerCommand {
    type V = CommandView;

    open spec fn view(&self) -> CommandView {
        cmd_view(*self)
    }
}

/// The parsed build script: its base image and its directives in order.
pub struct DockerfileConfig {
    pub base_image: String,
    pub commands: Vec<DockerCommand>,
}

/// The mathematical form of a parsed build script.
pub struct ConfigView {
    pub base_image: Seq<char>,
    pub commands: Seq<CommandView>,
}

impl View for DockerfileConfig {
    type V = ConfigView;

    open spec fn view(&self) -> ConfigView {
        ConfigView {
            base_image: self.base_image@,
            commands: self.commands@.map_values(|c: DockerCommand| cmd_view(c)),
        }
    }
}

/// The text line of one directive, as rendering emits it.
pub open spec fn render_command(c: CommandView) -> Seq<char>
    decreases c,
{
    match c {
        CommandView::Add { sources, dest, chown } => match chown {
            Some(ch) => "ADD --chown="@ + ch + " "@ + plain_join(sources) + " "@ + dest,
            None => "ADD "@ + plain_join(sources) + " "@ + dest,
        },
        CommandView::Arg { name, default_value } => match default_value {
            Some(v) => "ARG "@ + name + "="@ + v,
            None => "ARG "@ + name,
        },
        CommandView::Cmd { command } => "CMD "@ + shell_join(command),
        CommandView::Copy { source, dest, chown } => match chown {
            Some(ch) => "COPY --chown="@ + ch + " "@ + source + " "@ + dest,
            None => "COPY "@ + source + " "@ + dest,
        },
        CommandView::Entrypoint { command } => "ENTRYPOINT "@ + shell_join(command),
        CommandView::Env { key, value } => "ENV "@ + key + "="@ + value,
        CommandView::Expose { port, protocol } => match protocol {
            Some(p) => "EXPOSE "@ + dec_str(port as int) + "/"@ + p,
            None => "EXPOSE "@ + dec_str(port as int),
        },
        CommandView::Healthcheck { command, interval, timeout, start_period, retries } => {
            let opts = hc_options(interval, timeout, start_period, retries);
            let opts_str = if opts.len() == 0 {
                Seq::<char>::empty()
            } else {
                " "@ + plain_join(opts)
            };
            "HEALTHCHECK"@ + opts_str + "  CMD "@ + shell_join(command)
        },
        CommandView::Label { labels } => "LABEL "@ + plain_join(
            labels.map_values(|p: (Seq<char>, Seq<char>)| p.0 + "=\""@ + p.1 + "\""@),
        ),
        CommandView::Maintainer { name } => "MAINTAINER "@ + name,
        CommandView::Onbuild { command } => "ONBUILD "@ + render_command(*command),
        CommandView::Run { command } => "RUN "@ + command,
        CommandView::Shell { shell } => "SHELL "@ + shell_join(shell),
        CommandView::StopSignal { signal } => "STOPSIGNAL "@ + signal,
        CommandView::User { user, group } => match group {
            Some(g) => "USER "@ + user + ":"@ + g,
            None => "USER "@ + user,
        },
        CommandView::Volume { paths } => "VOLUME "@ + shell_join(paths),
        CommandView::Workdir { path } => "WORKDIR "@ + path,
    }
}

/// The option words of a health check, in rendering order.
pub open spec fn hc_options(
    interval: Option<Seq<char>>,
    timeout: Option<Seq<char>>,
    start_period: Option<Seq<char>>,
    retries: Option<u32>,
) -> Seq<Seq<char>> {
    let a: Seq<Seq<char>> = match interval {
        Some(v) => seq!["--interval="@ + v],
        None => Seq::empty(),
    };
    let b: Seq<Seq<char>> = match timeout {
        Some(v) => seq!["--timeout="@ + v],
        None => Seq::empty(),
    };
    let c: Seq<Seq<char>> = match start_period {
        Some(v) => seq!["--start-period="@ + v],
        None => Seq::empty(),
    };
    let d: Seq<Seq<char>> = match retries {
        Some(v) => seq!["--retries="@ + dec_str(v as int)],
        None => Seq::empty(),
    };
    a + b + c + d
}

/// The whole rendered document: the base image first, then one line per
/// directive, in order.
pub open spec fn render_config(cfg: ConfigView) -> Seq<char> {
    "FROM "@ + cfg.base_image + "\n"@ + render_lines(cfg.commands)
}

/// The rendered directive lines, each ended by a newline.
pub open spec fn render_lines(cs: Seq<CommandView>) -> Seq<char>
    decreases cs.len(),
{
    if cs.len() == 0 {
        Seq::empty()
    } else {
        render_command(cs[0]) + "\n"@ + render_lines(cs.subrange(1, cs.len() as int))
    }
}

impl DockerCommand {
    /// Render this directive as one line of build-script text.
    pub fn to_command_line(&self) -> (r: String)
        ensures
            r@ == render_command(self@),
        decreases *self,
    {
        let mut out: Vec<char> = Vec::new();
        match self {
            DockerCommand::Add { sources, dest, chown } => {
                match chown {
                    Some(ch) => {
                        append_str(&mut out, "ADD --chown=");
                        append_string(&mut out, ch);
                        append_str(&mut out, " ");
                    },
                    None => {
                        append_str(&mut out, "ADD ");
                    },
                }
                let words = strings_to_chars(sources);
                let mut joined = exec_plain_join(&words);
                out.append(&mut joined);
                append_str(&mut out, " ");
                append_string(&mut out, dest);
            },
            DockerCommand::Arg { name, default_value } => {
                append_str(&mut out, "ARG ");
                append_string(&mut out, name);
                match default_value {
                    Some(v) => {
                        append_str(&mut out, "=");
                        append_string(&mut out, v);
                    },
                    None => {},
                }
            },
            DockerCommand::Cmd { command } => {
                append_str(&mut out, "CMD ");
                let joined = exec_shell_join(command);
                append_string(&mut out, &joined);
                proof {
                    lemma_deep_view_is_strings_view(*command);
                }
            },
            DockerCommand::Copy { source, dest, chown } => {
                match chown {
                    Some(ch) => {
                        append_str(&mut out, "COPY --chown=");
                        append_string(&mut out, ch);
                        append_str(&mut out, " ");
                    },
                    None => {
                        append_str(&mut out, "COPY ");
                    },
                }
                append_string(&mut out, source);
                append_str(&mut out, " ");
                append_string(&mut out, dest);
            },
            DockerCommand::Entrypoint { command } => {
                append_str(&mut out, "ENTRYPOINT ");
                let joined = exec_shell_join(command);
                append_string(&mut out, &joined);
                proof {
                    lemma_deep_view_is_strings_view(*command);
                }
            },
            DockerCommand::Env { key, value } => {
                append_str(&mut out, "ENV ");
                append_string(&mut out, key);
                append_str(&mut out, "=");
                append_string(&mut out, value);
            },
            DockerCommand::Expose { port, protocol } => {
                append_str(&mut out, "EXPOSE ");
                let mut digits = render_u64(*port as u64);
                out.append(&mut digits);
                match protocol {
                    Some(p) => {
                        append_str(&mut out, "/");
                        append_string(&mut out, p);
                    },
                    None => {},
                }
            },
            DockerCommand::Healthcheck { command, interval, timeout, start_period, retries } => {
                append_str(&mut out, "HEALTHCHECK");
                let mut opts: Vec<Vec<char>> = Vec::new();
                match interval {
                    Some(v) => {
                        let mut w = chars_of("--interval=");
                        let mut tail = chars_of(v.as_str());
                        w.append(&mut tail);
                        opts.push(w);
                    },
                    None => {},
                }
                match timeout {
                    Some(v) => {
                        let mut w = chars_of("--timeout=");
                        let mut tail = chars_of(v.as_str());
                        w.append(&mut tail);
                        opts.push(w);
                    },
                    None => {},
                }
                match start_period {
                    Some(v) => {
                        let mut w = chars_of("--start-period=");
                        let mut tail = chars_of(v.as_str());
                        w.append(&mut tail);
                        opts.push(w);
                    },
                    None => {},
                }
                match retries {
                    Some(v) => {
                        let mut w = chars_of("--retries=");
                        let mut tail = render_u64(*v as u64);
                        w.append(&mut tail);
                        opts.push(w);
                    },
                    None => {},
                }
                proof {
                    assert(opts@.map_values(|w: Vec<char>| w@) =~= hc_options(
                        opt_view(*interval),
                        opt_view(*timeout),
                        opt_view(*start_period),
                        *retries,
                    ));
                }
                if opts.len() > 0 {
                    append_str(&mut out, " ");
                    let mut joined = exec_plain_join(&opts);
                    out.append(&mut joined);
                }
                append_str(&mut out, "  CMD ");
                let joined = exec_shell_join(command);
                append_string(&mut out, &joined);
                proof {
                    lemma_deep_view_is_strings_view(*command);
                }
            },
            DockerCommand::Label { labels } => {
                append_str(&mut out, "LABEL ");
                let n = labels.len();
                let mut words: Vec<Vec<char>> = Vec::new();
                let mut i: usize = 0;
                while i < n
                    invariant
                        i <= n,
                        n == labels@.len(),
                        words@.len() == i,
                        forall|j: int|
                            0 <= j < i ==> (#[trigger] words@[j])@ == labels@[j].0@ + "=\""@
                                + labels@[j].1@ + "\""@,
                    decreases n - i,
                {
                    let mut w = chars_of(labels[i].0.as_str());
                    let mut mid = chars_of("=\"");
                    let mut val = chars_of(labels[i].1.as_str());
                    let mut close = chars_of("\"");
                    w.append(&mut mid);
                    w.append(&mut val);
                    w.append(&mut close);
                    words.push(w);
                    i = i + 1;
                }
                proof {
                    assert(words@.map_values(|w: Vec<char>| w@) =~~= pairs_view(
                        labels@,
                    ).map_values(|p: (Seq<char>, Seq<char>)| p.0 + "=\""@ + p.1 + "\""@));
                }
                let mut joined = exec_plain_join(&words);
                out.append(&mut joined);
            },
            DockerCommand::Maintainer { name } => {
                append_str(&mut out, "MAINTAINER ");
                append_string(&mut out, name);
            },
            DockerCommand::Onbuild { command } => {
                append_str(&mut out, "ONBUILD ");
                let inner = command.to_command_line();
                append_string(&mut out, &inner);
            },
            DockerCommand::Run { command } => {
                append_str(&mut out, "RUN ");
                append_string(&mut out, command);
            },
            DockerCommand::Shell { shell } => {
                append_str(&mut out, "SHELL ");
                let joined = exec_shell_join(shell);
                append_string(&mut out, &joined);
                proof {
                    lemma_deep_view_is_strings_view(*shell);
                }
            },
            DockerCommand::StopSignal { signal } => {
                append_str(&mut out, "STOPSIGNAL ");
                append_string(&mut out, signal);
            },
            DockerCommand::User { user, group } => {
                append_str(&mut out, "USER ");
                append_string(&mut out, user);
                match group {
                    Some(g) => {
                        append_str(&mut out, ":");
                        append_string(&mut out, g);
                    },
                    None => {},
                }
            },
            DockerCommand::Volume { paths } => {
                append_str(&mut out, "VOLUME ");
                let joined = exec_shell_join(paths);
                append_string(&mut out, &joined);
                proof {
                    lemma_deep_view_is_strings_view(*paths);
                }
            },
            DockerCommand::Workdir { path } => {
                append_str(&mut out, "WORKDIR ");
                append_string(&mut out, path);
            },
        }
        proof {
            assert(out@ =~= render_command(self@));
        }
        string_of(&out)
    }
}

impl DockerfileConfig {
    /// Render the whole document back to build-script text: the base image
    /// first, then one line per directive, in the original order.
    pub fn to_dockerfile_content(&self) -> (r: String)
        ensures
            r@ == render_config(self@),
    {
        let mut out: Vec<char> = Vec::new();
        append_str(&mut out, "FROM ");
        append_string(&mut out, &self.base_image);
        append_str(&mut out, "\n");
        let n = self.commands.len();
        let ghost cmds = self@.commands;
        let mut i: usize = 0;
        while i < n
            invariant
                i <= n,
                n == self.commands@.len(),
                cmds == self@.commands,
                cmds.len() == n,
                forall|j: int| 0 <= j < n ==> cmds[j] == cmd_view(#[trigger] self.commands@[j]),
                out@ == "FROM "@ + self@.base_image + "\n"@ + render_lines(
                    cmds.subrange(0, i as int),
                ),
            decreases n - i,
        {
            let line = self.commands[i].to_command_line();
            append_string(&mut out, &line);
            append_str(&mut out, "\n");
            i = i + 1;
            proof {
                lemma_render_lines_push(cmds.subrange(0, i - 1), cmds[i - 1]);
                assert(cmds.subrange(0, i - 1).push(cmds[i - 1]) =~= cmds.subrange(0, i as int));
                assert(out@ =~= "FROM "@ + self@.base_image + "\n"@ + render_lines(
                    cmds.subrange(0, i as int),
                ));
            }
        }
        proof {
            assert(cmds.subrange(0, n as int) =~= cmds);
        }
        string_of(&out)
    }
}

/// Rendering one more directive appends its line and a newline.
pub proof fn lemma_render_lines_push(cs: Seq<CommandView>, c: CommandView)
    ensures
        render_lines(cs.push(c)) == render_lines(cs) + render_command(c) + "\n"@,
    decreases cs.len(),
{
    if cs.len() == 0 {
        assert(cs.push(c)[0] == c);
        assert(cs.push(c).subrange(1, 1) =~= Seq::<CommandView>::empty());
        assert(render_lines(cs.push(c)) == render_command(c) + "\n"@ + render_lines(
            cs.push(c).subrange(1, 1),
        ));
        assert(render_lines(Seq::<CommandView>::empty()) == Seq::<char>::empty());
        assert(render_lines(cs.push(c)) =~= render_lines(cs) + render_command(c) + "\n"@);
    } else {
        let s = cs.push(c);
        assert(s[0] == cs[0]);
        assert(s.subrange(1, s.len() as int) =~= cs.subrange(1, cs.len() as int).push(c));
        lemma_render_lines_push(cs.subrange(1, cs.len() as int), c);
        assert(render_lines(s) == render_command(cs[0]) + "\n"@ + render_lines(
            s.subrange(1, s.len() as int),
        ));
        assert(render_lines(s.subrange(1, s.len() as int)) == render_lines(
            cs.subrange(1, cs.len() as int),
        ) + render_command(c) + "\n"@);
        assert(render_lines(cs) == render_command(cs[0]) + "\n"@ + render_lines(
            cs.subrange(1, cs.len() as int),
        ));
        assert(render_command(cs[0]) + "\n"@ + (render_lines(cs.subrange(1, cs.len() as int))
            + render_command(c) + "\n"@) =~= render_lines(cs) + render_command(c) + "\n"@);
        assert(render_lines(cs.push(c)) =~= render_lines(cs) + render_command(c) + "\n"@);
    }
}

/// The deep view of a vector of strings is the view of each string.
pub proof fn lemma_deep_view_is_strings_view(v: Vec<String>)
    ensures
        v.deep_view() == strings_view(v@),
{
    assert(v.deep_view() =~~= strings_view(v@));
}

/// Append a string slice's characters to a character vector.
pub fn append_str(out: &mut Vec<char>, s: &str)
    ensures
        final(out)@ == old(out)@ + s@,
{
    let mut v = chars_of(s);
    out.append(&mut v);
}

/// Append a string's characters to a character vector.
pub fn append_string(out: &mut Vec<char>, s: &String)
    ensures
        final(out)@ == old(out)@ + s@,
{
    let mut v = chars_of(s.as_str());
    out.append(&mut v);
}

/// Convert a vector of strings to their character vectors.
pub fn strings_to_chars(s: &Vec<String>) -> (r: Vec<Vec<char>>)
    ensures
        r@.map_values(|w: Vec<char>| w@) == strings_view(s@),
{
    let n = s.len();
    let mut r: Vec<Vec<char>> = Vec::new();
    let mut i: usize = 0;
    while i < n
        invariant
            i <= n,
            n == s@.len(),
            r@.len() == i,
            forall|j: int| 0 <= j < i ==> (#[trigger] r@[j])@ == s@[j]@,
        decreases n - i,
    {
        r.push(chars_of(s[i].as_str()));
        i = i + 1;
    }
    proof {
        assert(r@.map_values(|w: Vec<char>| w@) =~~= strings_view(s@));
    }
    r
}

} // verus!
