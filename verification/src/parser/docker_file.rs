//! The instruction parser for the imperative build script.
//!
//! Text is split into logical lines (comments skipped, backslash
//! continuations joined), each line is split into a keyword and its
//! arguments, and the keyword dispatches into one instruction constructor.
//! Every rule is specified by the spec functions here and the executable
//! parser is proved to follow them exactly.

use vstd::prelude::*;

use crate::config::docker_file::{
    CommandView, ConfigView, DockerCommand, DockerfileConfig, cmd_view, render_command,
};
use crate::error::DockerError;
use crate::text::{
    chars_of, eq_chars, split_all, split_all_vec, split_first, split_first_vec, split_ws,
    split_ws_vec, starts_with, starts_with_vec, string_of, subvec, trim, trim_char, trim_char_vec,
    trim_vec, upper, upper_vec, parse_unsigned, parse_u64_bounded,
};
use crate::words::{
    exec_json_string_array, exec_shell_split, json_string_array, plain_join, exec_plain_join,
    shell_split,
};

verus! {

/// What one parsed line does to the document under construction.
pub enum CommandEffect {
    /// The line names the base image.
    SetBase(Seq<char>),
    /// The line appends these instructions.
    Push(Seq<CommandView>),
    /// The line is accepted and contributes nothing.
    Nothing,
}

/// The document after one line's effect.
pub open spec fn apply_effect(cfg: ConfigView, e: CommandEffect) -> ConfigView {
    match e {
        CommandEffect::SetBase(b) => ConfigView { base_image: b, commands: cfg.commands },
        CommandEffect::Push(cs) => ConfigView {
            base_image: cfg.base_image,
            commands: cfg.commands + cs,
        },
        CommandEffect::Nothing => cfg,
    }
}

/// `--chown=` prefixes removed, repeatedly, from the front of `s`.
pub open spec fn strip_chown(s: Seq<char>) -> Seq<char>
    decreases s.len(),
{
    if starts_with(s, "--chown="@) && s.len() >= 8 {
        strip_chown(s.subrange(8, s.len() as int))
    } else {
        s
    }
}

/// The optional `--chown=<owner>` flag at the front of an argument string,
/// and what remains after it: when the string starts with `--chown=`, the
/// first word (stripped of every leading `--chown=`) is the owner and the
/// rest of the string follows; otherwise there is no owner.
pub open spec fn spec_parse_chown(args: Seq<char>) -> (Option<Seq<char>>, Seq<char>) {
    if starts_with(args, "--chown="@) {
        match split_first(args, ' ') {
            Some(p) => (Some(strip_chown(p.0)), p.1),
            None => (Some(strip_chown(args)), Seq::empty()),
        }
    } else {
        (None, args)
    }
}

/// Strip repeated `--chown=` prefixes.
fn strip_chown_vec(v: Vec<char>) -> (r: Vec<char>)
    ensures
        r@ == strip_chown(v@),
    decreases v@.len(),
{
    let pat = chars_of("--chown=");
    proof {
        reveal_strlit("--chown=");
    }
    if starts_with_vec(&v, &pat) {
        let rest = subvec(&v, 8, v.len());
        strip_chown_vec(rest)
    } else {
        v
    }
}

/// Split the optional `--chown=` flag from an argument string.
fn chown_vec(args: &Vec<char>) -> (r: (Option<Vec<char>>, Vec<char>))
    ensures
        ({
            let sp = spec_parse_chown(args@);
            match r.0 {
                Some(ch) => sp.0 == Some(ch@) && sp.1 == r.1@,
                None => sp.0 is None && sp.1 == r.1@,
            }
        }),
{
    let pat = chars_of("--chown=");
    proof {
        reveal_strlit("--chown=");
    }
    if starts_with_vec(args, &pat) {
        match split_first_vec(args, ' ') {
            Some(p) => (Some(strip_chown_vec(p.0)), p.1),
            None => {
                let whole = subvec(args, 0, args.len());
                proof {
                    assert(whole@ =~= args@);
                }
                (Some(strip_chown_vec(whole)), Vec::new())
            },
        }
    } else {
        let whole = subvec(args, 0, args.len());
        proof {
            assert(whole@ =~= args@);
        }
        (None, whole)
    }
}

/// The optional `--chown=<owner>` flag at the front of an argument string,
/// and what remains.
pub fn parse_chown_option(args: &str) -> (r: (Option<String>, String))
    ensures
        ({
            let sp = spec_parse_chown(args@);
            match r.0 {
                Some(ch) => sp.0 == Some(ch@) && sp.1 == r.1@,
                None => sp.0 is None && sp.1 == r.1@,
            }
        }),
{
    let v = chars_of(args);
    let (ch, rest) = chown_vec(&v);
    (
        match ch {
            Some(c) => Some(string_of(&c)),
            None => None,
        },
        string_of(&rest),
    )
}

/// The words of an argument string under the dual form: a JSON string array
/// when it starts with `[`, shell words otherwise.
pub open spec fn dual_words(args: Seq<char>) -> Result<Seq<Seq<char>>, Seq<char>> {
    if args.len() > 0 && args[0] == '[' {
        match json_string_array(args) {
            Ok(ws) => Ok(ws),
            Err(m) => Err("Invalid JSON array: "@ + m),
        }
    } else {
        match shell_split(args) {
            Some(ws) => Ok(ws),
            None => Err("missing closing quote"@),
        }
    }
}

/// Executable decoding matching [`dual_words`].
fn exec_dual_words(args: &Vec<char>) -> (r: Result<Vec<String>, String>)
    ensures
        match r {
            Ok(ws) => dual_words(args@) == Ok::<_, Seq<char>>(ws.deep_view()),
            Err(m) => dual_words(args@) == Err::<Seq<Seq<char>>, _>(m@),
        },
{
    let s = string_of(args);
    if args.len() > 0 && args[0] == '[' {
        match exec_json_string_array(s.as_str()) {
            Ok(ws) => Ok(ws),
            Err(m) => {
                let mut msg = String::new();
                msg.append("Invalid JSON array: ");
                msg.append(m.as_str());
                proof {
                    reveal_strlit("Invalid JSON array: ");
                    reveal_strlit("");
                }
                Err(msg)
            },
        }
    } else {
        match exec_shell_split(s.as_str()) {
            Ok(ws) => Ok(ws),
            Err(m) => Err(m),
        }
    }
}

/// The instructions contributed by the port tokens of one `EXPOSE` line:
/// each token is `port[/protocol]`, the port read as a decimal `u16` after
/// trimming; a token whose port is not a number fails the whole line, naming
/// the token's port text.
pub open spec fn expose_cmds(toks: Seq<Seq<char>>) -> Result<Seq<CommandView>, Seq<char>>
    decreases toks.len(),
{
    if toks.len() == 0 {
        Ok(Seq::empty())
    } else {
        let parts = split_all(toks[0], '/');
        match parse_unsigned(trim(parts[0]), 65535) {
            None => Err("Invalid port number: "@ + parts[0]),
            Some(p) => match expose_cmds(toks.subrange(1, toks.len() as int)) {
                Err(m) => Err(m),
                Ok(rest) => Ok(
                    seq![
                        CommandView::Expose {
                            port: p as u16,
                            protocol: if parts.len() >= 2 {
                                Some(trim(parts[1]))
                            } else {
                                None
                            },
                        }
                    ] + rest,
                ),
            },
        }
    }
}

/// Executable `EXPOSE` handling matching [`expose_cmds`].
fn exec_expose(toks: &Vec<Vec<char>>) -> (r: Result<Vec<DockerCommand>, DockerError>)
    ensures
        ({
            let sp = expose_cmds(toks@.map_values(|w: Vec<char>| w@));
            match r {
                Ok(cs) => sp == Ok::<_, Seq<char>>(
                    cs@.map_values(|c: DockerCommand| cmd_view(c)),
                ),
                Err(e) => sp is Err && e is DockerfileError && e.text() == sp->Err_0,
            }
        }),
{
    let ghost tokss = toks@.map_values(|w: Vec<char>| w@);
    let n = toks.len();
    let mut out: Vec<DockerCommand> = Vec::new();
    let mut i: usize = 0;
    proof {
        assert(tokss.subrange(0, n as int) =~= tokss);
        if expose_cmds(tokss) is Ok {
            assert(out@.map_values(|c: DockerCommand| cmd_view(c)) + expose_cmds(tokss)->Ok_0
                =~= expose_cmds(tokss)->Ok_0);
        }
    }
    while i < n
        invariant
            i <= n,
            n == toks@.len(),
            tokss == toks@.map_values(|w: Vec<char>| w@),
            expose_cmds(tokss) == (match expose_cmds(tokss.subrange(i as int, n as int)) {
                Ok(rest) => Ok::<Seq<CommandView>, Seq<char>>(
                    out@.map_values(|c: DockerCommand| cmd_view(c)) + rest,
                ),
                Err(m) => Err(m),
            }),
        decreases n - i,
    {
        let ghost suffix = tokss.subrange(i as int, n as int);
        let ghost suffix_new = tokss.subrange(i + 1, n as int);
        proof {
            assert(suffix[0] == tokss[i as int]);
            assert(tokss[i as int] == toks@[i as int]@);
            assert(suffix.subrange(1, suffix.len() as int) =~= suffix_new);
        }
        let parts = split_all_vec(&toks[i], '/');
        let ghost parts_spec = split_all(tokss[i as int], '/');
        proof {
            assert(parts@.map_values(|p: Vec<char>| p@)[0] == parts_spec[0]);
            if parts@.len() >= 2 {
                assert(parts@.map_values(|p: Vec<char>| p@)[1] == parts_spec[1]);
            }
        }
        let port_text = trim_vec(&parts[0]);
        match parse_u64_bounded(&port_text, 65535) {
            None => {
                let mut msg = String::new();
                msg.append("Invalid port number: ");
                msg.append(string_of(&parts[0]).as_str());
                proof {
                    reveal_strlit("Invalid port number: ");
                    reveal_strlit("");
                }
                return Err(DockerError::DockerfileError(msg));
            },
            Some(p) => {
                let protocol: Option<String> = if parts.len() >= 2 {
                    Some(string_of(&trim_vec(&parts[1])))
                } else {
                    None
                };
                let ghost old_out = out@;
                let ghost ev = CommandView::Expose {
                    port: p as u16,
                    protocol: if parts_spec.len() >= 2 {
                        Some(trim(parts_spec[1]))
                    } else {
                        None
                    },
                };
                out.push(DockerCommand::Expose { port: p as u16, protocol });
                i = i + 1;
                proof {
                    assert(cmd_view(out@.last()) == ev);
                    assert(out@.map_values(|c: DockerCommand| cmd_view(c)) =~= old_out.map_values(
                        |c: DockerCommand| cmd_view(c),
                    ).push(ev));
                    assert(expose_cmds(suffix) == (match expose_cmds(suffix_new) {
                        Err(m) => Err::<Seq<CommandView>, Seq<char>>(m),
                        Ok(rest) => Ok(seq![ev] + rest),
                    }));
                    if expose_cmds(suffix_new) is Ok {
                        let rest = expose_cmds(suffix_new)->Ok_0;
                        assert(old_out.map_values(|c: DockerCommand| cmd_view(c)) + (seq![ev]
                            + rest) =~= out@.map_values(|c: DockerCommand| cmd_view(c)) + rest);
                    }
                }
            },
        }
    }
    proof {
        assert(tokss.subrange(n as int, n as int) =~= Seq::<Seq<char>>::empty());
        assert(expose_cmds(Seq::<Seq<char>>::empty()) == Ok::<_, Seq<char>>(
            Seq::<CommandView>::empty(),
        ));
        assert(out@.map_values(|c: DockerCommand| cmd_view(c)) + Seq::<CommandView>::empty()
            =~= out@.map_values(|c: DockerCommand| cmd_view(c)));
    }
    Ok(out)
}


/// The state gathered by scanning a `HEALTHCHECK` line's words: the options
/// seen before `CMD`, and the words after it.
pub struct HcScan {
    pub interval: Option<Seq<char>>,
    pub timeout: Option<Seq<char>>,
    pub start_period: Option<Seq<char>>,
    pub retries: Option<u32>,
    pub cmd: Seq<Seq<char>>,
}

/// Scan a `HEALTHCHECK` line's words.  Words are consumed until `CMD`; a
/// `--interval`, `--timeout` or `--start-period` flag takes its value after
/// `=` or from the next word; `--retries` takes a decimal `u32` the same
/// way; any other `--` flag is an error naming the flag; a word that is no
/// flag is ignored; a missing `CMD` is an error.
pub open spec fn hc_scan(
    words: Seq<Seq<char>>,
    interval: Option<Seq<char>>,
    timeout: Option<Seq<char>>,
    start_period: Option<Seq<char>>,
    retries: Option<u32>,
) -> Result<HcScan, Seq<char>>
    decreases words.len(),
{
    if words.len() == 0 {
        Err("HEALTHCHECK must include CMD"@)
    } else {
        let w = words[0];
        let rest = words.subrange(1, words.len() as int);
        if w == "CMD"@ {
            Ok(HcScan { interval, timeout, start_period, retries, cmd: rest })
        } else if starts_with(w, "--"@) {
            let fp = split_first(w, '=');
            let flag = match fp {
                Some(p) => p.0,
                None => w,
            };
            if flag == "--interval"@ || flag == "--timeout"@ || flag == "--start-period"@ {
                match fp {
                    Some(p) => if flag == "--interval"@ {
                        hc_scan(rest, Some(p.1), timeout, start_period, retries)
                    } else if flag == "--timeout"@ {
                        hc_scan(rest, interval, Some(p.1), start_period, retries)
                    } else {
                        hc_scan(rest, interval, timeout, Some(p.1), retries)
                    },
                    None => if rest.len() > 0 {
                        let v = rest[0];
                        let rest2 = rest.subrange(1, rest.len() as int);
                        if flag == "--interval"@ {
                            hc_scan(rest2, Some(v), timeout, start_period, retries)
                        } else if flag == "--timeout"@ {
                            hc_scan(rest2, interval, Some(v), start_period, retries)
                        } else {
                            hc_scan(rest2, interval, timeout, Some(v), retries)
                        }
                    } else {
                        Err("Missing value for "@ + flag + " flag"@)
                    },
                }
            } else if flag == "--retries"@ {
                match fp {
                    Some(p) => match parse_unsigned(p.1, 4294967295) {
                        Some(v) => hc_scan(rest, interval, timeout, start_period, Some(v as u32)),
                        None => Err("Invalid value for --retries flag"@),
                    },
                    None => if rest.len() > 0 && parse_unsigned(rest[0], 4294967295) is Some {
                        hc_scan(
                            rest.subrange(1, rest.len() as int),
                            interval,
                            timeout,
                            start_period,
                            Some(parse_unsigned(rest[0], 4294967295)->Some_0 as u32),
                        )
                    } else {
                        Err("Invalid value for --retries flag"@)
                    },
                }
            } else {
                Err("Invalid HEALTHCHECK flag: "@ + flag)
            }
        } else {
            hc_scan(rest, interval, timeout, start_period, retries)
        }
    }
}

/// The instruction contributed by a `HEALTHCHECK` line's words, if any: the
/// probe command is the shell splitting of the plainly re-joined words after
/// `CMD`; when that splitting fails or is empty, the line contributes
/// nothing.
pub open spec fn spec_healthcheck_words(words: Seq<Seq<char>>) -> Result<
    Option<CommandView>,
    Seq<char>,
> {
    match hc_scan(words, None, None, None, None) {
        Err(m) => Err(m),
        Ok(hc) => {
            let command = match shell_split(plain_join(hc.cmd)) {
                Some(c) => c,
                None => Seq::empty(),
            };
            if command.len() == 0 {
                Ok(None)
            } else {
                Ok(
                    Some(
                        CommandView::Healthcheck {
                            command,
                            interval: hc.interval,
                            timeout: hc.timeout,
                            start_period: hc.start_period,
                            retries: hc.retries,
                        },
                    ),
                )
            }
        },
    }
}

/// The view of an optional string value.
pub open spec fn opt_string_view(s: Option<String>) -> Option<Seq<char>> {
    match s {
        Some(x) => Some(x@),
        None => None,
    }
}

/// Executable `HEALTHCHECK` handling matching [`spec_healthcheck_words`].
fn exec_healthcheck(words: &Vec<Vec<char>>) -> (r: Result<Option<DockerCommand>, DockerError>)
    ensures
        ({
            let sp = spec_healthcheck_words(words@.map_values(|w: Vec<char>| w@));
            match r {
                Ok(Some(c)) => sp == Ok::<_, Seq<char>>(Some(cmd_view(c))),
                Ok(None) => sp == Ok::<Option<CommandView>, Seq<char>>(None),
                Err(e) => sp is Err && e is DockerfileError && e.text() == sp->Err_0,
            }
        }),
{
    let ghost wss = words@.map_values(|w: Vec<char>| w@);
    let n = words.len();
    let mut interval: Option<String> = None;
    let mut timeout: Option<String> = None;
    let mut start_period: Option<String> = None;
    let mut retries: Option<u32> = None;
    let mut k: usize = 0;
    let mut cmd_at: Option<usize> = None;
    proof {
        assert(wss.subrange(0, n as int) =~= wss);
    }
    while k < n && cmd_at.is_none()
        invariant
            k <= n,
            n == words@.len(),
            wss == words@.map_values(|w: Vec<char>| w@),
            match cmd_at {
                Some(at) => at < n && hc_scan(wss, None, None, None, None)
                    == Ok::<HcScan, Seq<char>>(
                    HcScan {
                        interval: opt_string_view(interval),
                        timeout: opt_string_view(timeout),
                        start_period: opt_string_view(start_period),
                        retries,
                        cmd: wss.subrange(at + 1, n as int),
                    },
                ),
                None => hc_scan(wss, None, None, None, None) == hc_scan(
                    wss.subrange(k as int, n as int),
                    opt_string_view(interval),
                    opt_string_view(timeout),
                    opt_string_view(start_period),
                    retries,
                ),
            },
        decreases n - k,
    {
        let ghost suffix = wss.subrange(k as int, n as int);
        proof {
            assert(suffix[0] == wss[k as int]);
            assert(wss[k as int] == words@[k as int]@);
            assert(suffix.subrange(1, suffix.len() as int) =~= wss.subrange(k + 1, n as int));
        }
        let w = &words[k];
        let cmd_lit = chars_of("CMD");
        proof {
            reveal_strlit("CMD");
        }
        if eq_chars(w, &cmd_lit) {
            cmd_at = Some(k);
            k = k + 1;
        } else {
            let dd = chars_of("--");
            proof {
                reveal_strlit("--");
            }
            if starts_with_vec(w, &dd) {
                let fp = split_first_vec(w, '=');
                let flag: Vec<char> = match &fp {
                    Some(p) => subvec(&p.0, 0, p.0.len()),
                    None => subvec(w, 0, w.len()),
                };
                proof {
                    if fp is Some {
                        assert(flag@ =~= split_first(wss[k as int], '=')->Some_0.0);
                    } else {
                        assert(flag@ =~= wss[k as int]);
                    }
                }
                let lit_i = chars_of("--interval");
                let lit_t = chars_of("--timeout");
                let lit_sp = chars_of("--start-period");
                let lit_r = chars_of("--retries");
                proof {
                    reveal_strlit("--interval");
                    reveal_strlit("--timeout");
                    reveal_strlit("--start-period");
                    reveal_strlit("--retries");
                }
                let is_i = eq_chars(&flag, &lit_i);
                let is_t = eq_chars(&flag, &lit_t);
                let is_sp = eq_chars(&flag, &lit_sp);
                if is_i || is_t || is_sp {
                    let value: Option<String> = match &fp {
                        Some(p) => Some(string_of(&p.1)),
                        None => {
                            if k + 1 < n {
                                Some(string_of(&words[k + 1]))
                            } else {
                                None
                            }
                        },
                    };
                    match value {
                        None => {
                            let mut msg = String::new();
                            msg.append("Missing value for ");
                            msg.append(string_of(&flag).as_str());
                            msg.append(" flag");
                            proof {
                                reveal_strlit("Missing value for ");
                                reveal_strlit(" flag");
                                reveal_strlit("");
                            }
                            return Err(DockerError::DockerfileError(msg));
                        },
                        Some(v) => {
                            if is_i {
                                interval = Some(v);
                            } else if is_t {
                                timeout = Some(v);
                            } else {
                                start_period = Some(v);
                            }
                            let step: usize = if fp.is_some() {
                                1
                            } else {
                                2
                            };
                            k = k + step;
                            proof {
                                if step == 2 {
                                    assert(wss.subrange(k - 1, n as int)[0] == wss[k - 1]);
                                    assert(wss.subrange(k - 1, n as int) =~= suffix.subrange(
                                        1,
                                        suffix.len() as int,
                                    ));
                                    assert(suffix.subrange(1, suffix.len() as int).subrange(
                                        1,
                                        suffix.subrange(1, suffix.len() as int).len() as int,
                                    ) =~= wss.subrange(k as int, n as int));
                                }
                            }
                        },
                    }
                } else if eq_chars(&flag, &lit_r) {
                    let parsed: Option<u32> = match &fp {
                        Some(p) => match parse_u64_bounded(&p.1, 4294967295) {
                            Some(v) => Some(v as u32),
                            None => None,
                        },
                        None => {
                            if k + 1 < n {
                                match parse_u64_bounded(&words[k + 1], 4294967295) {
                                    Some(v) => Some(v as u32),
                                    None => None,
                                }
                            } else {
                                None
                            }
                        },
                    };
                    match parsed {
                        None => {
                            let mut msg = String::new();
                            msg.append("Invalid value for --retries flag");
                            proof {
                                reveal_strlit("Invalid value for --retries flag");
                                reveal_strlit("");
                            }
                            return Err(DockerError::DockerfileError(msg));
                        },
                        Some(v) => {
                            retries = Some(v);
                            let step: usize = if fp.is_some() {
                                1
                            } else {
                                2
                            };
                            k = k + step;
                            proof {
                                if step == 2 {
                                    assert(wss.subrange(k - 1, n as int)[0] == wss[k - 1]);
                                    assert(wss.subrange(k - 1, n as int) =~= suffix.subrange(
                                        1,
                                        suffix.len() as int,
                                    ));
                                    assert(suffix.subrange(1, suffix.len() as int).subrange(
                                        1,
                                        suffix.subrange(1, suffix.len() as int).len() as int,
                                    ) =~= wss.subrange(k as int, n as int));
                                }
                            }
                        },
                    }
                } else {
                    let mut msg = String::new();
                    msg.append("Invalid HEALTHCHECK flag: ");
                    msg.append(string_of(&flag).as_str());
                    proof {
                        reveal_strlit("Invalid HEALTHCHECK flag: ");
                        reveal_strlit("");
                    }
                    return Err(DockerError::DockerfileError(msg));
                }
            } else {
                k = k + 1;
            }
        }
    }
    match cmd_at {
        None => {
            proof {
                assert(wss.subrange(n as int, n as int) =~= Seq::<Seq<char>>::empty());
            }
            let mut msg = String::new();
            msg.append("HEALTHCHECK must include CMD");
            proof {
                reveal_strlit("HEALTHCHECK must include CMD");
                reveal_strlit("");
            }
            Err(DockerError::DockerfileError(msg))
        },
        Some(at) => {
            let mut cmd_words: Vec<Vec<char>> = Vec::new();
            let mut j: usize = at + 1;
            while j < n
                invariant
                    at + 1 <= j <= n,
                    n == words@.len(),
                    wss == words@.map_values(|w: Vec<char>| w@),
                    cmd_words@.len() == j - at - 1,
                    forall|q: int|
                        0 <= q < cmd_words@.len() ==> (#[trigger] cmd_words@[q])@ == wss[q + at
                            + 1],
                decreases n - j,
            {
                cmd_words.push(subvec(&words[j], 0, words[j].len()));
                j = j + 1;
            }
            proof {
                assert(cmd_words@.map_values(|w: Vec<char>| w@) =~~= wss.subrange(
                    at + 1,
                    n as int,
                ));
            }
            let joined = exec_plain_join(&cmd_words);
            let joined_s = string_of(&joined);
            match exec_shell_split(joined_s.as_str()) {
                Err(_) => Ok(None),
                Ok(command) => {
                    if command.len() == 0 {
                        Ok(None)
                    } else {
                        proof {
                            crate::config::docker_file::lemma_deep_view_is_strings_view(command);
                        }
                        Ok(
                            Some(
                                DockerCommand::Healthcheck {
                                    command,
                                    interval,
                                    timeout,
                                    start_period,
                                    retries,
                                },
                            ),
                        )
                    }
                },
            }
        },
    }
}

/// One pair bound into a label list: the first entry with the same key is
/// replaced (the last value wins), a new key is appended.
pub open spec fn upsert_pair(
    acc: Seq<(Seq<char>, Seq<char>)>,
    k: Seq<char>,
    v: Seq<char>,
) -> Seq<(Seq<char>, Seq<char>)>
    decreases acc.len(),
{
    if acc.len() == 0 {
        seq![(k, v)]
    } else if acc[0].0 == k {
        seq![(k, v)] + acc.subrange(1, acc.len() as int)
    } else {
        seq![acc[0]] + upsert_pair(acc.subrange(1, acc.len() as int), k, v)
    }
}

/// Binding a key no entry holds appends it.
proof fn lemma_upsert_absent(acc: Seq<(Seq<char>, Seq<char>)>, k: Seq<char>, v: Seq<char>)
    requires
        forall|j: int| 0 <= j < acc.len() ==> (#[trigger] acc[j]).0 != k,
    ensures
        upsert_pair(acc, k, v) == acc.push((k, v)),
    decreases acc.len(),
{
    if acc.len() == 0 {
        assert(upsert_pair(acc, k, v) =~= acc.push((k, v)));
    } else {
        let rest = acc.subrange(1, acc.len() as int);
        assert(forall|j: int| 0 <= j < rest.len() ==> (#[trigger] rest[j]) == acc[j + 1]);
        lemma_upsert_absent(rest, k, v);
        assert(upsert_pair(acc, k, v) =~= acc.push((k, v)));
    }
}

/// Binding a key whose first entry stands at `idx` replaces that entry's
/// value.
proof fn lemma_upsert_found(
    acc: Seq<(Seq<char>, Seq<char>)>,
    k: Seq<char>,
    v: Seq<char>,
    idx: int,
)
    requires
        0 <= idx < acc.len(),
        acc[idx].0 == k,
        forall|j: int| 0 <= j < idx ==> (#[trigger] acc[j]).0 != k,
    ensures
        upsert_pair(acc, k, v) == acc.update(idx, (k, v)),
    decreases acc.len(),
{
    if idx == 0 {
        assert(upsert_pair(acc, k, v) =~= acc.update(0, (k, v)));
    } else {
        let rest = acc.subrange(1, acc.len() as int);
        assert(forall|j: int| 0 <= j < rest.len() ==> (#[trigger] rest[j]) == acc[j + 1]);
        lemma_upsert_found(rest, k, v, idx - 1);
        assert(upsert_pair(acc, k, v) =~= acc.update(idx, (k, v)));
    }
}

/// Bind one label pair, the last value winning.
fn upsert_label(acc: &mut Vec<(String, String)>, k: String, v: String)
    ensures
        crate::config::docker_file::pairs_view(final(acc)@) == upsert_pair(
            crate::config::docker_file::pairs_view(old(acc)@),
            k@,
            v@,
        ),
{
    let ghost pre = crate::config::docker_file::pairs_view(acc@);
    let n = acc.len();
    let mut i: usize = 0;
    while i < n
        invariant
            i <= n,
            n == acc@.len(),
            acc@ == old(acc)@,
            pre == crate::config::docker_file::pairs_view(acc@),
            forall|j: int| 0 <= j < i ==> (#[trigger] pre[j]).0 != k@,
        decreases n - i,
    {
        proof {
            assert(pre[i as int] == (acc@[i as int].0@, acc@[i as int].1@));
        }
        if crate::config::env_vars::str_eq(acc[i].0.as_str(), k.as_str()) {
            acc.set(i, (k, v));
            proof {
                lemma_upsert_found(pre, k@, v@, i as int);
                assert(crate::config::docker_file::pairs_view(acc@) =~= pre.update(
                    i as int,
                    (k@, v@),
                ));
            }
            return ;
        }
        i = i + 1;
    }
    acc.push((k, v));
    proof {
        lemma_upsert_absent(pre, k@, v@);
        assert(crate::config::docker_file::pairs_view(acc@) =~= pre.push((k@, v@)));
    }
}

/// One step of the `LABEL` scanner: characters accumulate into the pending
/// value; an unquoted `=` before any key fixes the key (trimmed); an
/// unquoted space after a key closes the pair (quotes stripped from both)
/// when the value is non-empty; double quotes toggle quoting and are
/// dropped; the final pair is kept when both parts are non-empty.
pub open spec fn label_scan(
    s: Seq<char>,
    i: int,
    inq: bool,
    key: Seq<char>,
    value: Seq<char>,
    acc: Seq<(Seq<char>, Seq<char>)>,
) -> Seq<(Seq<char>, Seq<char>)>
    recommends
        0 <= i <= s.len(),
    decreases s.len() - i when 0 <= i <= s.len()
{
    if i >= s.len() {
        if key.len() > 0 && value.len() > 0 {
            upsert_pair(acc, trim_char(key, '"'), trim_char(value, '"'))
        } else {
            acc
        }
    } else {
        let c = s[i];
        if c == '"' {
            label_scan(s, i + 1, !inq, key, value, acc)
        } else if c == '=' && !inq && key.len() == 0 {
            label_scan(s, i + 1, inq, trim(value), Seq::empty(), acc)
        } else if c == ' ' && !inq && key.len() > 0 {
            if value.len() > 0 {
                label_scan(
                    s,
                    i + 1,
                    inq,
                    Seq::empty(),
                    Seq::empty(),
                    upsert_pair(acc, trim_char(key, '"'), trim_char(value, '"')),
                )
            } else {
                label_scan(s, i + 1, inq, key, value, acc)
            }
        } else {
            label_scan(s, i + 1, inq, key, value.push(c), acc)
        }
    }
}

/// The label pairs of a `LABEL` line's arguments.
pub open spec fn label_pairs(args: Seq<char>) -> Seq<(Seq<char>, Seq<char>)> {
    label_scan(args, 0, false, Seq::empty(), Seq::empty(), Seq::empty())
}

/// Executable `LABEL` scanning matching [`label_pairs`].
fn exec_label(args: &Vec<char>) -> (r: Vec<(String, String)>)
    ensures
        crate::config::docker_file::pairs_view(r@) == label_pairs(args@),
{
    let n = args.len();
    let mut inq: bool = false;
    let mut key: Vec<char> = Vec::new();
    let mut value: Vec<char> = Vec::new();
    let mut acc: Vec<(String, String)> = Vec::new();
    let mut i: usize = 0;
    proof {
        assert(crate::config::docker_file::pairs_view(acc@) =~= Seq::<(
            Seq<char>,
            Seq<char>,
        )>::empty());
    }
    while i < n
        invariant
            i <= n,
            n == args@.len(),
            label_pairs(args@) == label_scan(
                args@,
                i as int,
                inq,
                key@,
                value@,
                crate::config::docker_file::pairs_view(acc@),
            ),
        decreases n - i,
    {
        let c = args[i];
        if c == '"' {
            inq = !inq;
        } else if c == '=' && !inq && key.len() == 0 {
            key = trim_vec(&value);
            value = Vec::new();
        } else if c == ' ' && !inq && key.len() > 0 {
            if value.len() > 0 {
                upsert_label(
                    &mut acc,
                    string_of(&trim_char_vec(&key, '"')),
                    string_of(&trim_char_vec(&value, '"')),
                );
                key = Vec::new();
                value = Vec::new();
            }
        } else {
            value.push(c);
        }
        i = i + 1;
    }
    if key.len() > 0 && value.len() > 0 {
        upsert_label(
            &mut acc,
            string_of(&trim_char_vec(&key, '"')),
            string_of(&trim_char_vec(&value, '"')),
        );
    }
    acc
}


/// What one logical line means.  The line is split at its first space into
/// a keyword (upper-cased) and arguments (trimmed); the keyword dispatches
/// into one instruction constructor; a line without a space, and an unknown
/// keyword, are errors.
pub open spec fn spec_parse_command(line: Seq<char>) -> Result<CommandEffect, Seq<char>>
    decreases line.len(),
    via spec_parse_command_dec
{
    match split_first(line, ' ') {
        None => Err("Invalid command syntax"@),
        Some(p) => {
            let command = upper(p.0);
            let args = trim(p.1);
            if command == "FROM"@ {
                Ok(CommandEffect::SetBase(args))
            } else if command == "COPY"@ {
                if split_ws(args).len() < 2 {
                    Err("COPY requires source and destination"@)
                } else {
                    let cp = spec_parse_chown(args);
                    let parts = split_ws(cp.1);
                    if parts.len() < 2 {
                        Err("COPY requires source and destination"@)
                    } else {
                        Ok(
                            CommandEffect::Push(
                                seq![
                                    CommandView::Copy {
                                        source: parts[0],
                                        dest: parts[1],
                                        chown: cp.0,
                                    }
                                ],
                            ),
                        )
                    }
                }
            } else if command == "EXPOSE"@ {
                match expose_cmds(split_ws(args)) {
                    Ok(cs) => Ok(CommandEffect::Push(cs)),
                    Err(m) => Err(m),
                }
            } else if command == "ONBUILD"@ {
                if args.len() == 0 {
                    Err("ONBUILD requires one argument"@)
                } else {
                    match spec_parse_command(args) {
                        Err(m) => Err(m),
                        Ok(eff) => match eff {
                            CommandEffect::Push(cs) => if cs.len() > 0 {
                                Ok(
                                    CommandEffect::Push(
                                        seq![
                                            CommandView::Onbuild {
                                                command: Box::new(cs.last()),
                                            }
                                        ],
                                    ),
                                )
                            } else {
                                Err("Invalid ONBUILD command"@)
                            },
                            _ => Err("Invalid ONBUILD command"@),
                        },
                    }
                }
            } else if command == "ADD"@ {
                let cp = spec_parse_chown(args);
                let decoded: Result<Seq<Seq<char>>, Seq<char>> = if args.len() > 0 && args[0]
                    == '[' {
                    match json_string_array(args) {
                        Ok(ws) => Ok(ws),
                        Err(m) => Err("Invalid JSON array: "@ + m),
                    }
                } else {
                    match shell_split(cp.1) {
                        Some(ws) => Ok(ws),
                        None => Err("missing closing quote"@),
                    }
                };
                match decoded {
                    Err(m) => Err(m),
                    Ok(list) => if list.len() >= 2 {
                        Ok(
                            CommandEffect::Push(
                                seq![
                                    CommandView::Add {
                                        sources: list.subrange(0, list.len() - 1),
                                        dest: list.last(),
                                        chown: cp.0,
                                    }
                                ],
                            ),
                        )
                    } else {
                        Err("ADD requires at least one source and destination"@)
                    },
                }
            } else if command == "ARG"@ {
                let parts = split_all(args, '=');
                Ok(
                    CommandEffect::Push(
                        seq![
                            CommandView::Arg {
                                name: trim(parts[0]),
                                default_value: if parts.len() >= 2 {
                                    Some(trim(parts[1]))
                                } else {
                                    None
                                },
                            }
                        ],
                    ),
                )
            } else if command == "CMD"@ {
                match dual_words(args) {
                    Ok(ws) => Ok(CommandEffect::Push(seq![CommandView::Cmd { command: ws }])),
                    Err(m) => Err(m),
                }
            } else if command == "ENTRYPOINT"@ {
                match dual_words(args) {
                    Ok(ws) => Ok(
                        CommandEffect::Push(seq![CommandView::Entrypoint { command: ws }]),
                    ),
                    Err(m) => Err(m),
                }
            } else if command == "ENV"@ {
                match split_first(args, '=') {
                    Some(kv) => Ok(
                        CommandEffect::Push(
                            seq![CommandView::Env { key: trim(kv.0), value: trim(kv.1) }],
                        ),
                    ),
                    None => Ok(CommandEffect::Nothing),
                }
            } else if command == "HEALTHCHECK"@ {
                if args == "NONE"@ {
                    Ok(CommandEffect::Nothing)
                } else {
                    match spec_healthcheck_words(split_ws(args)) {
                        Err(m) => Err(m),
                        Ok(None) => Ok(CommandEffect::Nothing),
                        Ok(Some(c)) => Ok(CommandEffect::Push(seq![c])),
                    }
                }
            } else if command == "LABEL"@ {
                Ok(CommandEffect::Push(seq![CommandView::Label { labels: label_pairs(args) }]))
            } else if command == "MAINTAINER"@ {
                Ok(CommandEffect::Push(seq![CommandView::Maintainer { name: args }]))
            } else if command == "RUN"@ {
                Ok(CommandEffect::Push(seq![CommandView::Run { command: args }]))
            } else if command == "SHELL"@ {
                match dual_words(args) {
                    Ok(ws) => Ok(CommandEffect::Push(seq![CommandView::Shell { shell: ws }])),
                    Err(m) => Err(m),
                }
            } else if command == "STOPSIGNAL"@ {
                Ok(CommandEffect::Push(seq![CommandView::StopSignal { signal: args }]))
            } else if command == "USER"@ {
                let parts = split_all(args, ':');
                Ok(
                    CommandEffect::Push(
                        seq![
                            CommandView::User {
                                user: parts[0],
                                group: if parts.len() >= 2 {
                                    Some(parts[1])
                                } else {
                                    None
                                },
                            }
                        ],
                    ),
                )
            } else if command == "VOLUME"@ {
                match dual_words(args) {
                    Ok(ws) => Ok(CommandEffect::Push(seq![CommandView::Volume { paths: ws }])),
                    Err(m) => Err(m),
                }
            } else if command == "WORKDIR"@ {
                Ok(CommandEffect::Push(seq![CommandView::Workdir { path: args }]))
            } else {
                Err("Unknown command: "@ + command)
            }
        },
    }
}

#[via_fn]
proof fn spec_parse_command_dec(line: Seq<char>) {
    crate::text::lemma_find_at(line, ' ', 0);
    match split_first(line, ' ') {
        Some(p) => {
            crate::text::lemma_trim_len(p.1);
        },
        None => {},
    }
}

/// What holds of one `parse_command` call: on a line the rules accept, the
/// effect is applied to the document; on a rejected line, the error carries
/// the specified message (and the document may hold a partial effect, which
/// the document parser then discards).
pub open spec fn parse_command_post(
    line: Seq<char>,
    old_cfg: ConfigView,
    new_cfg: ConfigView,
    r: Result<(), DockerError>,
) -> bool {
    match spec_parse_command(line) {
        Ok(e) => r is Ok && new_cfg == apply_effect(old_cfg, e),
        Err(m) => r is Err && (r->Err_0) is DockerfileError && (r->Err_0).text() == m,
    }
}

/// Parse one logical line into the document under construction.
fn parse_command_vec(config: &mut DockerfileConfig, line: &Vec<char>) -> (r: Result<
    (),
    DockerError,
>)
    ensures
        parse_command_post(line@, old(config)@, final(config)@, r),
    decreases line@.len(),
{
    let p = match split_first_vec(line, ' ') {
        None => {
            let mut msg = String::new();
            msg.append("Invalid command syntax");
            proof {
                reveal_strlit("Invalid command syntax");
                reveal_strlit("");
            }
            return Err(DockerError::DockerfileError(msg));
        },
        Some(p) => p,
    };
    let upper_v = upper_vec(&p.0);
    let args = trim_vec(&p.1);
    let ghost args_spec = trim(p.1@);
    let ghost old_cfg = config@;
    if eq_chars(&upper_v, &chars_of("FROM")) {
        config.base_image = string_of(&args);
        proof {
            assert(config@.commands =~= old_cfg.commands);
        }
        Ok(())
    } else if eq_chars(&upper_v, &chars_of("COPY")) {
        let all_parts = split_ws_vec(&args);
        if all_parts.len() < 2 {
            let mut msg = String::new();
            msg.append("COPY requires source and destination");
            proof {
                reveal_strlit("COPY requires source and destination");
                reveal_strlit("");
            }
            return Err(DockerError::DockerfileError(msg));
        }
        let (chown_v, rest) = chown_vec(&args);
        let parts = split_ws_vec(&rest);
        if parts.len() < 2 {
            let mut msg = String::new();
            msg.append("COPY requires source and destination");
            proof {
                reveal_strlit("COPY requires source and destination");
                reveal_strlit("");
            }
            return Err(DockerError::DockerfileError(msg));
        }
        let ghost parts_spec = split_ws(spec_parse_chown(args_spec).1);
        proof {
            assert(parts@.map_values(|w: Vec<char>| w@)[0] == parts_spec[0]);
            assert(parts@.map_values(|w: Vec<char>| w@)[1] == parts_spec[1]);
        }
        let chown: Option<String> = match chown_v {
            Some(c) => Some(string_of(&c)),
            None => None,
        };
        let cmd = DockerCommand::Copy {
            source: string_of(&parts[0]),
            dest: string_of(&parts[1]),
            chown,
        };
        push_one(config, cmd);
        Ok(())
    } else if eq_chars(&upper_v, &chars_of("EXPOSE")) {
        let toks = split_ws_vec(&args);
        match exec_expose(&toks) {
            Err(e) => Err(e),
            Ok(mut cs) => {
                let ghost views = cs@.map_values(|c: DockerCommand| cmd_view(c));
                let ghost pre = config.commands@;
                config.commands.append(&mut cs);
                proof {
                    assert(config@.commands =~= old_cfg.commands + views);
                }
                Ok(())
            },
        }
    } else if eq_chars(&upper_v, &chars_of("ONBUILD")) {
        if args.len() == 0 {
            let mut msg = String::new();
            msg.append("ONBUILD requires one argument");
            proof {
                reveal_strlit("ONBUILD requires one argument");
                reveal_strlit("");
            }
            return Err(DockerError::DockerfileError(msg));
        }
        let mut inner_cfg = DockerfileConfig { base_image: String::new(), commands: Vec::new() };
        proof {
            assert(inner_cfg@.commands =~= Seq::<CommandView>::empty());
            crate::text::lemma_find_at(line@, ' ', 0);
            crate::text::lemma_trim_len(p.1@);
        }
        match parse_command_vec(&mut inner_cfg, &args) {
            Err(e) => {
                return Err(e);
            },
            Ok(()) => {},
        }
        match inner_cfg.commands.pop() {
            Some(cmd) => {
                let ghost inner_view = cmd_view(cmd);
                let wrapped = DockerCommand::Onbuild { command: Box::new(cmd) };
                proof {
                    let eff = spec_parse_command(args_spec)->Ok_0;
                    let cs = eff->Push_0;
                    assert(inner_view == cs.last());
                }
                push_one(config, wrapped);
                Ok(())
            },
            None => {
                proof {
                    match spec_parse_command(args_spec) {
                        Ok(eff) => {
                            match eff {
                                CommandEffect::Push(cs) => {
                                    assert(cs.len() == 0);
                                },
                                _ => {},
                            }
                        },
                        Err(_) => {},
                    }
                }
                let mut msg = String::new();
                msg.append("Invalid ONBUILD command");
                proof {
                    reveal_strlit("Invalid ONBUILD command");
                    reveal_strlit("");
                }
                Err(DockerError::DockerfileError(msg))
            },
        }
    } else if eq_chars(&upper_v, &chars_of("ADD")) {
        let (chown_v, rest) = chown_vec(&args);
        let decoded: Result<Vec<String>, String> = if args.len() > 0 && args[0] == '[' {
            match exec_json_string_array(string_of(&args).as_str()) {
                Ok(ws) => Ok(ws),
                Err(m) => {
                    let mut msg = String::new();
                    msg.append("Invalid JSON array: ");
                    msg.append(m.as_str());
                    proof {
                        reveal_strlit("Invalid JSON array: ");
                        reveal_strlit("");
                    }
                    Err(msg)
                },
            }
        } else {
            match exec_shell_split(string_of(&rest).as_str()) {
                Ok(ws) => Ok(ws),
                Err(m) => Err(m),
            }
        };
        match decoded {
            Err(m) => Err(DockerError::DockerfileError(m)),
            Ok(list) => {
                if list.len() >= 2 {
                    proof {
                        crate::config::docker_file::lemma_deep_view_is_strings_view(list);
                    }
                    let dest = string_of_string(&list[list.len() - 1]);
                    let mut sources: Vec<String> = Vec::new();
                    let m = list.len() - 1;
                    let mut i: usize = 0;
                    while i < m
                        invariant
                            i <= m,
                            m == list@.len() - 1,
                            sources@.len() == i,
                            forall|j: int| 0 <= j < i ==> (#[trigger] sources@[j])@ == list@[j]@,
                        decreases m - i,
                    {
                        sources.push(string_of_string(&list[i]));
                        i = i + 1;
                    }
                    proof {
                        assert(crate::config::docker_file::strings_view(sources@)
                            =~~= crate::config::docker_file::strings_view(list@).subrange(
                            0,
                            list@.len() - 1,
                        ));
                    }
                    let chown: Option<String> = match chown_v {
                        Some(c) => Some(string_of(&c)),
                        None => None,
                    };
                    let cmd = DockerCommand::Add { sources, dest, chown };
                    push_one(config, cmd);
                    Ok(())
                } else {
                    let mut msg = String::new();
                    msg.append("ADD requires at least one source and destination");
                    proof {
                        reveal_strlit("ADD requires at least one source and destination");
                        reveal_strlit("");
                    }
                    Err(DockerError::DockerfileError(msg))
                }
            },
        }
    } else if eq_chars(&upper_v, &chars_of("ARG")) {
        let parts = split_all_vec(&args, '=');
        let ghost parts_spec = split_all(args_spec, '=');
        proof {
            assert(parts@.map_values(|w: Vec<char>| w@)[0] == parts_spec[0]);
            if parts@.len() >= 2 {
                assert(parts@.map_values(|w: Vec<char>| w@)[1] == parts_spec[1]);
            }
        }
        let default_value: Option<String> = if parts.len() >= 2 {
            Some(string_of(&trim_vec(&parts[1])))
        } else {
            None
        };
        let cmd = DockerCommand::Arg { name: string_of(&trim_vec(&parts[0])), default_value };
        push_one(config, cmd);
        Ok(())
    } else if eq_chars(&upper_v, &chars_of("CMD")) {
        match exec_dual_words(&args) {
            Err(m) => Err(DockerError::DockerfileError(m)),
            Ok(ws) => {
                proof {
                    crate::config::docker_file::lemma_deep_view_is_strings_view(ws);
                }
                push_one(config, DockerCommand::Cmd { command: ws });
                Ok(())
            },
        }
    } else if eq_chars(&upper_v, &chars_of("ENTRYPOINT")) {
        match exec_dual_words(&args) {
            Err(m) => Err(DockerError::DockerfileError(m)),
            Ok(ws) => {
                proof {
                    crate::config::docker_file::lemma_deep_view_is_strings_view(ws);
                }
                push_one(config, DockerCommand::Entrypoint { command: ws });
                Ok(())
            },
        }
    } else if eq_chars(&upper_v, &chars_of("ENV")) {
        match split_first_vec(&args, '=') {
            Some(kv) => {
                let cmd = DockerCommand::Env {
                    key: string_of(&trim_vec(&kv.0)),
                    value: string_of(&trim_vec(&kv.1)),
                };
                push_one(config, cmd);
                Ok(())
            },
            None => Ok(()),
        }
    } else if eq_chars(&upper_v, &chars_of("HEALTHCHECK")) {
        if eq_chars(&args, &chars_of("NONE")) {
            proof {
                reveal_strlit("NONE");
            }
            return Ok(());
        }
        let toks = split_ws_vec(&args);
        match exec_healthcheck(&toks) {
            Err(e) => Err(e),
            Ok(None) => Ok(()),
            Ok(Some(cmd)) => {
                push_one(config, cmd);
                Ok(())
            },
        }
    } else if eq_chars(&upper_v, &chars_of("LABEL")) {
        let labels = exec_label(&args);
        push_one(config, DockerCommand::Label { labels });
        Ok(())
    } else if eq_chars(&upper_v, &chars_of("MAINTAINER")) {
        push_one(config, DockerCommand::Maintainer { name: string_of(&args) });
        Ok(())
    } else if eq_chars(&upper_v, &chars_of("RUN")) {
        push_one(config, DockerCommand::Run { command: string_of(&args) });
        Ok(())
    } else if eq_chars(&upper_v, &chars_of("SHELL")) {
        match exec_dual_words(&args) {
            Err(m) => Err(DockerError::DockerfileError(m)),
            Ok(ws) => {
                proof {
                    crate::config::docker_file::lemma_deep_view_is_strings_view(ws);
                }
                push_one(config, DockerCommand::Shell { shell: ws });
                Ok(())
            },
        }
    } else if eq_chars(&upper_v, &chars_of("STOPSIGNAL")) {
        push_one(config, DockerCommand::StopSignal { signal: string_of(&args) });
        Ok(())
    } else if eq_chars(&upper_v, &chars_of("USER")) {
        let parts = split_all_vec(&args, ':');
        let ghost parts_spec = split_all(args_spec, ':');
        proof {
            assert(parts@.map_values(|w: Vec<char>| w@)[0] == parts_spec[0]);
            if parts@.len() >= 2 {
                assert(parts@.map_values(|w: Vec<char>| w@)[1] == parts_spec[1]);
            }
        }
        let group: Option<String> = if parts.len() >= 2 {
            Some(string_of(&parts[1]))
        } else {
            None
        };
        let cmd = DockerCommand::User { user: string_of(&parts[0]), group };
        push_one(config, cmd);
        Ok(())
    } else if eq_chars(&upper_v, &chars_of("VOLUME")) {
        match exec_dual_words(&args) {
            Err(m) => Err(DockerError::DockerfileError(m)),
            Ok(ws) => {
                proof {
                    crate::config::docker_file::lemma_deep_view_is_strings_view(ws);
                }
                push_one(config, DockerCommand::Volume { paths: ws });
                Ok(())
            },
        }
    } else if eq_chars(&upper_v, &chars_of("WORKDIR")) {
        push_one(config, DockerCommand::Workdir { path: string_of(&args) });
        Ok(())
    } else {
        let mut msg = String::new();
        msg.append("Unknown command: ");
        msg.append(string_of(&upper_v).as_str());
        proof {
            reveal_strlit("Unknown command: ");
            reveal_strlit("");
        }
        Err(DockerError::DockerfileError(msg))
    }
}

/// Clone one string.
fn string_of_string(s: &String) -> (r: String)
    ensures
        r@ == s@,
        r == *s,
{
    crate::config::env_vars::clone_string(s)
}

/// Append one instruction to the document.
pub(crate) fn push_one(config: &mut DockerfileConfig, cmd: DockerCommand)
    ensures
        final(config).base_image == old(config).base_image,
        final(config)@.base_image == old(config)@.base_image,
        final(config)@.commands == old(config)@.commands + seq![cmd_view(cmd)],
{
    let ghost pre = config@.commands;
    config.commands.push(cmd);
    proof {
        assert(config@.commands =~= pre + seq![cmd_view(cmd)]);
    }
}

/// What parsing a whole document means, from logical lines.  Blank lines
/// and `#` comments are skipped; a line ending in a backslash joins the
/// pending logical line (backslash replaced by one space); other lines close
/// and parse the pending line, or parse alone; a pending line left at the
/// end is dropped.
pub open spec fn spec_parse_lines(
    lines: Seq<Seq<char>>,
    i: int,
    pending: Seq<char>,
    cfg: ConfigView,
) -> Result<ConfigView, Seq<char>>
    recommends
        0 <= i <= lines.len(),
    decreases lines.len() - i when 0 <= i <= lines.len()
{
    if i >= lines.len() {
        Ok(cfg)
    } else {
        let t = trim(lines[i]);
        if t.len() == 0 || t[0] == '#' {
            spec_parse_lines(lines, i + 1, pending, cfg)
        } else if t.last() == '\\' {
            spec_parse_lines(lines, i + 1, pending + t.subrange(0, t.len() - 1) + " "@, cfg)
        } else if pending.len() > 0 {
            match spec_parse_command(pending + t) {
                Err(m) => Err(m),
                Ok(e) => spec_parse_lines(lines, i + 1, Seq::empty(), apply_effect(cfg, e)),
            }
        } else {
            match spec_parse_command(t) {
                Err(m) => Err(m),
                Ok(e) => spec_parse_lines(lines, i + 1, pending, apply_effect(cfg, e)),
            }
        }
    }
}

/// What parsing a whole document's text means.
pub open spec fn spec_parse(content: Seq<char>) -> Result<ConfigView, Seq<char>> {
    spec_parse_lines(
        split_all(content, '\n'),
        0,
        Seq::empty(),
        ConfigView { base_image: Seq::empty(), commands: Seq::empty() },
    )
}

/// Parse a build script.
///
/// Lines are trimmed; blank lines and `#` comments are skipped; a trailing
/// backslash joins physical lines into one logical line; each logical line
/// is dispatched on its keyword.  The first rejected line aborts the whole
/// parse with its message.
pub fn parse(content: &str) -> (r: Result<DockerfileConfig, DockerError>)
    ensures
        match spec_parse(content@) {
            Ok(cfg) => r is Ok && (r->Ok_0)@ == cfg,
            Err(m) => r is Err && (r->Err_0) is DockerfileError && (r->Err_0).text() == m,
        },
{
    let v = chars_of(content);
    let lines = split_all_vec(&v, '\n');
    let ghost lines_spec = split_all(content@, '\n');
    let mut config = DockerfileConfig { base_image: String::new(), commands: Vec::new() };
    let mut pending: Vec<char> = Vec::new();
    let n = lines.len();
    let mut i: usize = 0;
    proof {
        assert(config@.commands =~= Seq::<CommandView>::empty());
        assert(config@ == ConfigView {
            base_image: Seq::<char>::empty(),
            commands: Seq::<CommandView>::empty(),
        });
    }
    while i < n
        invariant
            i <= n,
            n == lines@.len(),
            lines@.map_values(|p: Vec<char>| p@) == lines_spec,
            spec_parse(content@) == spec_parse_lines(lines_spec, i as int, pending@, config@),
        decreases n - i,
    {
        proof {
            assert(lines@.map_values(|p: Vec<char>| p@)[i as int] == lines_spec[i as int]);
        }
        let t = trim_vec(&lines[i]);
        if t.len() == 0 || t[0] == '#' {
        } else if t[t.len() - 1] == '\\' {
            let ghost old_pending_view = pending@;
            let mut stripped = subvec(&t, 0, t.len() - 1);
            pending.append(&mut stripped);
            pending.push(' ');
            proof {
                reveal_strlit(" ");
                assert(pending@ =~= old_pending_view + t@.subrange(0, t@.len() - 1) + " "@);
            }
        } else if pending.len() > 0 {
            let mut full = subvec(&pending, 0, pending.len());
            let mut tcopy = subvec(&t, 0, t.len());
            full.append(&mut tcopy);
            proof {
                assert(full@ =~= pending@ + t@);
            }
            match parse_command_vec(&mut config, &full) {
                Err(e) => {
                    return Err(e);
                },
                Ok(()) => {},
            }
            pending = Vec::new();
        } else {
            match parse_command_vec(&mut config, &t) {
                Err(e) => {
                    return Err(e);
                },
                Ok(()) => {},
            }
        }
        i = i + 1;
    }
    Ok(config)
}



/// An argument a rendered line carries back unchanged: non-empty text that
/// neither starts nor ends with whitespace.
pub open spec fn raw_arg_ok(a: Seq<char>) -> bool {
    a.len() > 0 && !crate::text::is_space(a[0]) && !crate::text::is_space(a.last())
}

/// The instructions whose rendered line re-parses to exactly the
/// instruction.  These are the forms whose arguments the renderer writes as
/// raw text: `RUN`, `MAINTAINER`, `STOPSIGNAL`, `WORKDIR` (one trimmed
/// argument), `ENV` and `ARG` (`=`-free parts), `USER` (`:`-free parts) and
/// `EXPOSE` (a decimal port with an optional whitespace- and slash-free
/// protocol).  The shell-quoted forms, `COPY`'s word re-splitting, `LABEL`'s
/// scanner and `ONBUILD` are not covered by this law.
pub open spec fn line_round_trips(c: CommandView) -> bool {
    match c {
        CommandView::Run { command } => raw_arg_ok(command),
        CommandView::Maintainer { name } => raw_arg_ok(name),
        CommandView::StopSignal { signal } => raw_arg_ok(signal),
        CommandView::Workdir { path } => raw_arg_ok(path),
        CommandView::Env { key, value } => crate::text::trimmed(key) && crate::text::trimmed(
            value,
        ) && (forall|k: int| 0 <= k < key.len() ==> key[k] != '='),
        CommandView::Arg { name, default_value } => crate::text::trimmed(name) && (forall|k: int|
            0 <= k < name.len() ==> name[k] != '=') && (match default_value {
            Some(v) => crate::text::trimmed(v) && (forall|k: int|
                0 <= k < v.len() ==> v[k] != '='),
            None => true,
        }),
        CommandView::User { user, group } => crate::text::trimmed(user) && (forall|k: int|
            0 <= k < user.len() ==> user[k] != ':') && (match group {
            Some(g) => crate::text::trimmed(g) && (forall|k: int| 0 <= k < g.len() ==> g[k] != ':'),
            None => true,
        }),
        CommandView::Expose { port, protocol } => match protocol {
            Some(p) => forall|k: int|
                0 <= k < p.len() ==> !crate::text::is_space(#[trigger] p[k]) && p[k] != '/',
            None => true,
        },
        _ => false,
    }
}

proof fn lemma_rt_run(c: CommandView)
    requires
        line_round_trips(c),
        c matches CommandView::Run { command },
    ensures
        spec_parse_command(render_command(c)) == Ok::<CommandEffect, Seq<char>>(
            CommandEffect::Push(seq![c]),
        ),
{
    reveal_strlit("FROM");
    reveal_strlit("COPY");
    reveal_strlit("EXPOSE");
    reveal_strlit("ONBUILD");
    reveal_strlit("ADD");
    reveal_strlit("ARG");
    reveal_strlit("CMD");
    reveal_strlit("ENTRYPOINT");
    reveal_strlit("ENV");
    reveal_strlit("HEALTHCHECK");
    reveal_strlit("LABEL");
    reveal_strlit("MAINTAINER");
    reveal_strlit("RUN");
    reveal_strlit("SHELL");
    reveal_strlit("STOPSIGNAL");
    reveal_strlit("USER");
    reveal_strlit("VOLUME");
    reveal_strlit("WORKDIR");
    reveal_strlit("RUN ");
    reveal_strlit("MAINTAINER ");
    reveal_strlit("STOPSIGNAL ");
    reveal_strlit("WORKDIR ");
    reveal_strlit("ENV ");
    reveal_strlit("ARG ");
    reveal_strlit("USER ");
    reveal_strlit("EXPOSE ");
    reveal_strlit("=");
    reveal_strlit(":");
    reveal_strlit("/");
    let line = render_command(c);
    match c {
        CommandView::Run { command } => {
            assert(line == "RUN"@ + seq![' '] + command) by {
                assert(line =~= "RUN"@ + seq![' '] + command);
            }
            crate::text::lemma_split_at_sep(line, "RUN"@, command, ' ');
            assert(upper("RUN"@) =~= "RUN"@);
            crate::text::lemma_trim_id(command);
        
        },
        _ => {
            assert(false);
        },
    }
}

proof fn lemma_rt_maintainer(c: CommandView)
    requires
        line_round_trips(c),
        c matches CommandView::Maintainer { name },
    ensures
        spec_parse_command(render_command(c)) == Ok::<CommandEffect, Seq<char>>(
            CommandEffect::Push(seq![c]),
        ),
{
    reveal_strlit("FROM");
    reveal_strlit("COPY");
    reveal_strlit("EXPOSE");
    reveal_strlit("ONBUILD");
    reveal_strlit("ADD");
    reveal_strlit("ARG");
    reveal_strlit("CMD");
    reveal_strlit("ENTRYPOINT");
    reveal_strlit("ENV");
    reveal_strlit("HEALTHCHECK");
    reveal_strlit("LABEL");
    reveal_strlit("MAINTAINER");
    reveal_strlit("RUN");
    reveal_strlit("SHELL");
    reveal_strlit("STOPSIGNAL");
    reveal_strlit("USER");
    reveal_strlit("VOLUME");
    reveal_strlit("WORKDIR");
    reveal_strlit("RUN ");
    reveal_strlit("MAINTAINER ");
    reveal_strlit("STOPSIGNAL ");
    reveal_strlit("WORKDIR ");
    reveal_strlit("ENV ");
    reveal_strlit("ARG ");
    reveal_strlit("USER ");
    reveal_strlit("EXPOSE ");
    reveal_strlit("=");
    reveal_strlit(":");
    reveal_strlit("/");
    let line = render_command(c);
    match c {
        CommandView::Maintainer { name } => {
            assert(line == "MAINTAINER"@ + seq![' '] + name) by {
                assert(line =~= "MAINTAINER"@ + seq![' '] + name);
            }
            crate::text::lemma_split_at_sep(line, "MAINTAINER"@, name, ' ');
            assert(upper("MAINTAINER"@) =~= "MAINTAINER"@);
            crate::text::lemma_trim_id(name);
        
        },
        _ => {
            assert(false);
        },
    }
}

proof fn lemma_rt_stopsignal(c: CommandView)
    requires
        line_round_trips(c),
        c matches CommandView::StopSignal { signal },
    ensures
        spec_parse_command(render_command(c)) == Ok::<CommandEffect, Seq<char>>(
            CommandEffect::Push(seq![c]),
        ),
{
    reveal_strlit("FROM");
    reveal_strlit("COPY");
    reveal_strlit("EXPOSE");
    reveal_strlit("ONBUILD");
    reveal_strlit("ADD");
    reveal_strlit("ARG");
    reveal_strlit("CMD");
    reveal_strlit("ENTRYPOINT");
    reveal_strlit("ENV");
    reveal_strlit("HEALTHCHECK");
    reveal_strlit("LABEL");
    reveal_strlit("MAINTAINER");
    reveal_strlit("RUN");
    reveal_strlit("SHELL");
    reveal_strlit("STOPSIGNAL");
    reveal_strlit("USER");
    reveal_strlit("VOLUME");
    reveal_strlit("WORKDIR");
    reveal_strlit("RUN ");
    reveal_strlit("MAINTAINER ");
    reveal_strlit("STOPSIGNAL ");
    reveal_strlit("WORKDIR ");
    reveal_strlit("ENV ");
    reveal_strlit("ARG ");
    reveal_strlit("USER ");
    reveal_strlit("EXPOSE ");
    reveal_strlit("=");
    reveal_strlit(":");
    reveal_strlit("/");
    let line = render_command(c);
    match c {
        CommandView::StopSignal { signal } => {
            assert(line == "STOPSIGNAL"@ + seq![' '] + signal) by {
                assert(line =~= "STOPSIGNAL"@ + seq![' '] + signal);
            }
            crate::text::lemma_split_at_sep(line, "STOPSIGNAL"@, signal, ' ');
            assert(upper("STOPSIGNAL"@) =~= "STOPSIGNAL"@);
            crate::text::lemma_trim_id(signal);
        
        },
        _ => {
            assert(false);
        },
    }
}

proof fn lemma_rt_workdir(c: CommandView)
    requires
        line_round_trips(c),
        c matches CommandView::Workdir { path },
    ensures
        spec_parse_command(render_command(c)) == Ok::<CommandEffect, Seq<char>>(
            CommandEffect::Push(seq![c]),
        ),
{
    reveal_strlit("FROM");
    reveal_strlit("COPY");
    reveal_strlit("EXPOSE");
    reveal_strlit("ONBUILD");
    reveal_strlit("ADD");
    reveal_strlit("ARG");
    reveal_strlit("CMD");
    reveal_strlit("ENTRYPOINT");
    reveal_strlit("ENV");
    reveal_strlit("HEALTHCHECK");
    reveal_strlit("LABEL");
    reveal_strlit("MAINTAINER");
    reveal_strlit("RUN");
    reveal_strlit("SHELL");
    reveal_strlit("STOPSIGNAL");
    reveal_strlit("USER");
    reveal_strlit("VOLUME");
    reveal_strlit("WORKDIR");
    reveal_strlit("RUN ");
    reveal_strlit("MAINTAINER ");
    reveal_strlit("STOPSIGNAL ");
    reveal_strlit("WORKDIR ");
    reveal_strlit("ENV ");
    reveal_strlit("ARG ");
    reveal_strlit("USER ");
    reveal_strlit("EXPOSE ");
    reveal_strlit("=");
    reveal_strlit(":");
    reveal_strlit("/");
    let line = render_command(c);
    match c {
        CommandView::Workdir { path } => {
            assert(line == "WORKDIR"@ + seq![' '] + path) by {
                assert(line =~= "WORKDIR"@ + seq![' '] + path);
            }
            crate::text::lemma_split_at_sep(line, "WORKDIR"@, path, ' ');
            assert(upper("WORKDIR"@) =~= "WORKDIR"@);
            crate::text::lemma_trim_id(path);
        
        },
        _ => {
            assert(false);
        },
    }
}

proof fn lemma_rt_env(c: CommandView)
    requires
        line_round_trips(c),
        c matches CommandView::Env { key, value },
    ensures
        spec_parse_command(render_command(c)) == Ok::<CommandEffect, Seq<char>>(
            CommandEffect::Push(seq![c]),
        ),
{
    reveal_strlit("FROM");
    reveal_strlit("COPY");
    reveal_strlit("EXPOSE");
    reveal_strlit("ONBUILD");
    reveal_strlit("ADD");
    reveal_strlit("ARG");
    reveal_strlit("CMD");
    reveal_strlit("ENTRYPOINT");
    reveal_strlit("ENV");
    reveal_strlit("HEALTHCHECK");
    reveal_strlit("LABEL");
    reveal_strlit("MAINTAINER");
    reveal_strlit("RUN");
    reveal_strlit("SHELL");
    reveal_strlit("STOPSIGNAL");
    reveal_strlit("USER");
    reveal_strlit("VOLUME");
    reveal_strlit("WORKDIR");
    reveal_strlit("RUN ");
    reveal_strlit("MAINTAINER ");
    reveal_strlit("STOPSIGNAL ");
    reveal_strlit("WORKDIR ");
    reveal_strlit("ENV ");
    reveal_strlit("ARG ");
    reveal_strlit("USER ");
    reveal_strlit("EXPOSE ");
    reveal_strlit("=");
    reveal_strlit(":");
    reveal_strlit("/");
    let line = render_command(c);
    match c {
        CommandView::Env { key, value } => {
            let args = key + "="@ + value;
            assert(line == "ENV"@ + seq![' '] + args) by {
                assert(line =~= "ENV"@ + seq![' '] + args);
            }
            crate::text::lemma_split_at_sep(line, "ENV"@, args, ' ');
            assert(upper("ENV"@) =~= "ENV"@);
            assert(crate::text::trimmed(args)) by {
                assert(!crate::text::is_space('='));
                if key.len() > 0 {
                    assert(args[0] == key[0]);
                } else {
                    assert(args[0] == '=');
                }
                if value.len() > 0 {
                    assert(args.last() == value.last());
                } else {
                    assert(args.last() == '=');
                }
            }
            crate::text::lemma_trim_id(args);
            assert(args == key + seq!['='] + value) by {
                assert(args =~= key + seq!['='] + value);
            }
            crate::text::lemma_split_at_sep(args, key, value, '=');
            crate::text::lemma_trim_id(key);
            crate::text::lemma_trim_id(value);
        
        },
        _ => {
            assert(false);
        },
    }
}

#[verifier::rlimit(100)]
proof fn lemma_rt_arg(c: CommandView)
    requires
        line_round_trips(c),
        c matches CommandView::Arg { name, default_value },
    ensures
        spec_parse_command(render_command(c)) == Ok::<CommandEffect, Seq<char>>(
            CommandEffect::Push(seq![c]),
        ),
{
    reveal_strlit("FROM");
    reveal_strlit("COPY");
    reveal_strlit("EXPOSE");
    reveal_strlit("ONBUILD");
    reveal_strlit("ADD");
    reveal_strlit("ARG");
    reveal_strlit("CMD");
    reveal_strlit("ENTRYPOINT");
    reveal_strlit("ENV");
    reveal_strlit("HEALTHCHECK");
    reveal_strlit("LABEL");
    reveal_strlit("MAINTAINER");
    reveal_strlit("RUN");
    reveal_strlit("SHELL");
    reveal_strlit("STOPSIGNAL");
    reveal_strlit("USER");
    reveal_strlit("VOLUME");
    reveal_strlit("WORKDIR");
    reveal_strlit("RUN ");
    reveal_strlit("MAINTAINER ");
    reveal_strlit("STOPSIGNAL ");
    reveal_strlit("WORKDIR ");
    reveal_strlit("ENV ");
    reveal_strlit("ARG ");
    reveal_strlit("USER ");
    reveal_strlit("EXPOSE ");
    reveal_strlit("=");
    reveal_strlit(":");
    reveal_strlit("/");
    let line = render_command(c);
    match c {
        CommandView::Arg { name, default_value } => {
            match default_value {
                None => {
                    assert(line == "ARG"@ + seq![' '] + name) by {
                        assert(line =~= "ARG"@ + seq![' '] + name);
                    }
                    crate::text::lemma_split_at_sep(line, "ARG"@, name, ' ');
                    assert(upper("ARG"@) =~= "ARG"@);
                    crate::text::lemma_trim_id(name);
                    crate::text::lemma_split_all_nosep(name, '=');
                    let parts = split_all(name, '=');
                    assert(parts.len() == 1);
                    assert(trim(parts[0]) == name);
                    assert("ARG"@[1] == 'R' && "ADD"@[1] == 'D');
                    assert(upper("ARG"@) != "ADD"@);
                    assert(spec_parse_command(line) == Ok::<CommandEffect, Seq<char>>(
                        CommandEffect::Push(
                            seq![CommandView::Arg { name, default_value: None }],
                        ),
                    ));
                },
                Some(v) => {
                    let args = name + "="@ + v;
                    assert(line == "ARG"@ + seq![' '] + args) by {
                        assert(line =~= "ARG"@ + seq![' '] + args);
                    }
                    crate::text::lemma_split_at_sep(line, "ARG"@, args, ' ');
                    assert(upper("ARG"@) =~= "ARG"@);
                    assert(crate::text::trimmed(args)) by {
                        assert(!crate::text::is_space('='));
                        if name.len() > 0 {
                            assert(args[0] == name[0]);
                        } else {
                            assert(args[0] == '=');
                        }
                        if v.len() > 0 {
                            assert(args.last() == v.last());
                        } else {
                            assert(args.last() == '=');
                        }
                    }
                    crate::text::lemma_trim_id(args);
                    assert(args == name + seq!['='] + v) by {
                        assert(args =~= name + seq!['='] + v);
                    }
                    crate::text::lemma_split_all_two(args, name, v, '=');
                    crate::text::lemma_trim_id(name);
                    crate::text::lemma_trim_id(v);
                    assert("ARG"@[1] == 'R' && "ADD"@[1] == 'D');
                    assert(upper("ARG"@) != "ADD"@);
                    let parts = split_all(args, '=');
                    assert(parts == seq![name, v]);
                    assert(trim(parts[0]) == name && trim(parts[1]) == v);
                    assert(spec_parse_command(line) == Ok::<CommandEffect, Seq<char>>(
                        CommandEffect::Push(
                            seq![CommandView::Arg { name, default_value: Some(v) }],
                        ),
                    ));
                },
            }
        },
        _ => {
            assert(false);
        },
    }
}

proof fn lemma_rt_user(c: CommandView)
    requires
        line_round_trips(c),
        c matches CommandView::User { user, group },
    ensures
        spec_parse_command(render_command(c)) == Ok::<CommandEffect, Seq<char>>(
            CommandEffect::Push(seq![c]),
        ),
{
    reveal_strlit("FROM");
    reveal_strlit("COPY");
    reveal_strlit("EXPOSE");
    reveal_strlit("ONBUILD");
    reveal_strlit("ADD");
    reveal_strlit("ARG");
    reveal_strlit("CMD");
    reveal_strlit("ENTRYPOINT");
    reveal_strlit("ENV");
    reveal_strlit("HEALTHCHECK");
    reveal_strlit("LABEL");
    reveal_strlit("MAINTAINER");
    reveal_strlit("RUN");
    reveal_strlit("SHELL");
    reveal_strlit("STOPSIGNAL");
    reveal_strlit("USER");
    reveal_strlit("VOLUME");
    reveal_strlit("WORKDIR");
    reveal_strlit("RUN ");
    reveal_strlit("MAINTAINER ");
    reveal_strlit("STOPSIGNAL ");
    reveal_strlit("WORKDIR ");
    reveal_strlit("ENV ");
    reveal_strlit("ARG ");
    reveal_strlit("USER ");
    reveal_strlit("EXPOSE ");
    reveal_strlit("=");
    reveal_strlit(":");
    reveal_strlit("/");
    let line = render_command(c);
    match c {
        CommandView::User { user, group } => {
            match group {
                None => {
                    assert(line == "USER"@ + seq![' '] + user) by {
                        assert(line =~= "USER"@ + seq![' '] + user);
                    }
                    crate::text::lemma_split_at_sep(line, "USER"@, user, ' ');
                    assert(upper("USER"@) =~= "USER"@);
                    crate::text::lemma_trim_id(user);
                    crate::text::lemma_split_all_nosep(user, ':');
                },
                Some(g) => {
                    let args = user + ":"@ + g;
                    assert(line == "USER"@ + seq![' '] + args) by {
                        assert(line =~= "USER"@ + seq![' '] + args);
                    }
                    crate::text::lemma_split_at_sep(line, "USER"@, args, ' ');
                    assert(upper("USER"@) =~= "USER"@);
                    assert(crate::text::trimmed(args)) by {
                        assert(!crate::text::is_space(':'));
                        if user.len() > 0 {
                            assert(args[0] == user[0]);
                        } else {
                            assert(args[0] == ':');
                        }
                        if g.len() > 0 {
                            assert(args.last() == g.last());
                        } else {
                            assert(args.last() == ':');
                        }
                    }
                    crate::text::lemma_trim_id(args);
                    assert(args == user + seq![':'] + g) by {
                        assert(args =~= user + seq![':'] + g);
                    }
                    crate::text::lemma_split_all_two(args, user, g, ':');
                },
            }
        
        },
        _ => {
            assert(false);
        },
    }
}

proof fn lemma_rt_expose(c: CommandView)
    requires
        line_round_trips(c),
        c matches CommandView::Expose { port, protocol },
    ensures
        spec_parse_command(render_command(c)) == Ok::<CommandEffect, Seq<char>>(
            CommandEffect::Push(seq![c]),
        ),
{
    reveal_strlit("FROM");
    reveal_strlit("COPY");
    reveal_strlit("EXPOSE");
    reveal_strlit("ONBUILD");
    reveal_strlit("ADD");
    reveal_strlit("ARG");
    reveal_strlit("CMD");
    reveal_strlit("ENTRYPOINT");
    reveal_strlit("ENV");
    reveal_strlit("HEALTHCHECK");
    reveal_strlit("LABEL");
    reveal_strlit("MAINTAINER");
    reveal_strlit("RUN");
    reveal_strlit("SHELL");
    reveal_strlit("STOPSIGNAL");
    reveal_strlit("USER");
    reveal_strlit("VOLUME");
    reveal_strlit("WORKDIR");
    reveal_strlit("RUN ");
    reveal_strlit("MAINTAINER ");
    reveal_strlit("STOPSIGNAL ");
    reveal_strlit("WORKDIR ");
    reveal_strlit("ENV ");
    reveal_strlit("ARG ");
    reveal_strlit("USER ");
    reveal_strlit("EXPOSE ");
    reveal_strlit("=");
    reveal_strlit(":");
    reveal_strlit("/");
    let line = render_command(c);
    match c {
        CommandView::Expose { port, protocol } => {
            crate::text::lemma_dec_str_digits(port as int);
            let dec = crate::text::dec_str(port as int);
            assert(forall|k: int|
                0 <= k < dec.len() ==> !crate::text::is_space(#[trigger] dec[k]) && dec[k] != '/'
                    && dec[k] != '+') by {
                assert forall|k: int| 0 <= k < dec.len() implies !crate::text::is_space(
                    #[trigger] dec[k],
                ) && dec[k] != '/' && dec[k] != '+' by {
                    assert(crate::text::is_digit(dec[k]));
                }
            }
            match protocol {
                None => {
                    assert(line == "EXPOSE"@ + seq![' '] + dec) by {
                        assert(line =~= "EXPOSE"@ + seq![' '] + dec);
                    }
                    crate::text::lemma_split_at_sep(line, "EXPOSE"@, dec, ' ');
                    assert(upper("EXPOSE"@) =~= "EXPOSE"@);
                    crate::text::lemma_trim_id(dec);
                    crate::text::lemma_split_ws_single(dec);
                    crate::text::lemma_split_all_nosep(dec, '/');
                    let toks = split_ws(dec);
                    assert(toks == seq![dec]);
                    assert(split_all(toks[0], '/') == seq![dec]);
                    assert(parse_unsigned(dec, 65535) == Some(port as int)) by {
                        assert(dec[0] != '+');
                        assert(crate::text::parse_digits(dec, 65535) == Some(port as int));
                    }
                    assert(toks.subrange(1, 1) =~= Seq::<Seq<char>>::empty());
                    assert(expose_cmds(toks) == Ok::<_, Seq<char>>(
                        seq![CommandView::Expose { port, protocol: None }],
                    )) by {
                        assert(expose_cmds(Seq::<Seq<char>>::empty()) == Ok::<_, Seq<char>>(
                            Seq::<CommandView>::empty(),
                        ));
                        assert(seq![CommandView::Expose { port, protocol: None }]
                            + Seq::<CommandView>::empty() =~= seq![
                            CommandView::Expose { port, protocol: None },
                        ]);
                    }
                },
                Some(p) => {
                    let args = dec + "/"@ + p;
                    assert(line == "EXPOSE"@ + seq![' '] + args) by {
                        assert(line =~= "EXPOSE"@ + seq![' '] + args);
                    }
                    crate::text::lemma_split_at_sep(line, "EXPOSE"@, args, ' ');
                    assert(upper("EXPOSE"@) =~= "EXPOSE"@);
                    assert(forall|k: int|
                        0 <= k < args.len() ==> !crate::text::is_space(#[trigger] args[k])) by {
                        assert(!crate::text::is_space('/'));
                        assert forall|k: int| 0 <= k < args.len() implies !crate::text::is_space(
                            #[trigger] args[k],
                        ) by {
                            if k < dec.len() {
                                assert(args[k] == dec[k]);
                            } else if k == dec.len() {
                                assert(args[k] == '/');
                            } else {
                                assert(args[k] == p[k - dec.len() - 1]);
                            }
                        }
                    }
                    crate::text::lemma_trim_id(args);
                    crate::text::lemma_split_ws_single(args);
                    assert(args == dec + seq!['/'] + p) by {
                        assert(args =~= dec + seq!['/'] + p);
                    }
                    crate::text::lemma_split_all_two(args, dec, p, '/');
                    let toks = split_ws(args);
                    assert(toks == seq![args]);
                    assert(split_all(toks[0], '/') == seq![dec, p]);
                    crate::text::lemma_trim_id(dec);
                    crate::text::lemma_trim_id(p);
                    assert(parse_unsigned(dec, 65535) == Some(port as int)) by {
                        assert(dec[0] != '+');
                        assert(crate::text::parse_digits(dec, 65535) == Some(port as int));
                    }
                    assert(toks.subrange(1, 1) =~= Seq::<Seq<char>>::empty());
                    assert(expose_cmds(toks) == Ok::<_, Seq<char>>(
                        seq![CommandView::Expose { port, protocol: Some(p) }],
                    )) by {
                        assert(expose_cmds(Seq::<Seq<char>>::empty()) == Ok::<_, Seq<char>>(
                            Seq::<CommandView>::empty(),
                        ));
                        assert(seq![CommandView::Expose { port, protocol: Some(p) }]
                            + Seq::<CommandView>::empty() =~= seq![
                            CommandView::Expose { port, protocol: Some(p) },
                        ]);
                    }
                },
            }
        
        },
        _ => {
            assert(false);
        },
    }
}

/// Rendering one covered instruction and parsing the line back yields
/// exactly that instruction — one line's worth of the parse/render round
/// trip.
pub proof fn lemma_line_round_trip(c: CommandView)
    requires
        line_round_trips(c),
    ensures
        spec_parse_command(render_command(c)) == Ok::<CommandEffect, Seq<char>>(
            CommandEffect::Push(seq![c]),
        ),
{
    match c {
        CommandView::Run { .. } => lemma_rt_run(c),
        CommandView::Maintainer { .. } => lemma_rt_maintainer(c),
        CommandView::StopSignal { .. } => lemma_rt_stopsignal(c),
        CommandView::Workdir { .. } => lemma_rt_workdir(c),
        CommandView::Env { .. } => lemma_rt_env(c),
        CommandView::Arg { .. } => lemma_rt_arg(c),
        CommandView::User { .. } => lemma_rt_user(c),
        CommandView::Expose { .. } => lemma_rt_expose(c),
        _ => {
            assert(false);
        },
    }
}

impl DockerfileConfig {
    /// Parse a build script into a typed document.
    ///
    /// A missing `FROM` leaves the base image empty rather than failing.
    pub fn parse(content: &str) -> (r: Result<DockerfileConfig, DockerError>)
        ensures
            match spec_parse(content@) {
                Ok(cfg) => r is Ok && (r->Ok_0)@ == cfg,
                Err(m) => r is Err && (r->Err_0) is DockerfileError && (r->Err_0).text() == m,
            },
    {
        parse(content)
    }
}

} // verus!
