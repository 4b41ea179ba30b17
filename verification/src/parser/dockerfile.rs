//! A reduced line parser for build scripts: only the directives a quick
//! deployment needs, every unknown or malformed line silently skipped.

use vstd::prelude::*;

use crate::config::docker_file::{CommandView, ConfigView, DockerCommand, DockerfileConfig, cmd_view};
use crate::error::DockerError;
use crate::text::{
    chars_of, eq_chars, split_all, split_all_vec, split_first, split_first_vec, string_of, subvec,
    trim, trim_vec, upper, upper_vec, parse_unsigned, parse_u64_bounded,
};

verus! {

/// What one line means to the reduced parser.  The line splits at its first
/// space; a line without one is skipped.  `FROM` sets the base image; `RUN`
/// and `USER` keep the raw rest as a shell command; `COPY` takes exactly a
/// source and a destination split on single spaces, else is skipped;
/// `EXPOSE` takes one decimal port, else is skipped; anything else is
/// skipped.
pub open spec fn simple_line_effect(line: Seq<char>) -> crate::parser::docker_file::CommandEffect {
    match split_first(line, ' ') {
        None => crate::parser::docker_file::CommandEffect::Nothing,
        Some(p) => {
            let command = upper(p.0);
            let rest = p.1;
            if command == "FROM"@ {
                crate::parser::docker_file::CommandEffect::SetBase(rest)
            } else if command == "RUN"@ || command == "USER"@ {
                crate::parser::docker_file::CommandEffect::Push(
                    seq![CommandView::Run { command: rest }],
                )
            } else if command == "COPY"@ {
                let parts = split_all(rest, ' ');
                if parts.len() == 2 {
                    crate::parser::docker_file::CommandEffect::Push(
                        seq![
                            CommandView::Copy { source: parts[0], dest: parts[1], chown: None }
                        ],
                    )
                } else {
                    crate::parser::docker_file::CommandEffect::Nothing
                }
            } else if command == "EXPOSE"@ {
                match parse_unsigned(rest, 65535) {
                    Some(port) => crate::parser::docker_file::CommandEffect::Push(
                        seq![CommandView::Expose { port: port as u16, protocol: None }],
                    ),
                    None => crate::parser::docker_file::CommandEffect::Nothing,
                }
            } else {
                crate::parser::docker_file::CommandEffect::Nothing
            }
        },
    }
}

/// The reduced parse of a whole document's logical lines.
pub open spec fn simple_parse_lines(
    lines: Seq<Seq<char>>,
    i: int,
    pending: Seq<char>,
    cfg: ConfigView,
) -> ConfigView
    recommends
        0 <= i <= lines.len(),
    decreases lines.len() - i when 0 <= i <= lines.len()
{
    if i >= lines.len() {
        cfg
    } else {
        let t = trim(lines[i]);
        if t.len() == 0 || t[0] == '#' {
            simple_parse_lines(lines, i + 1, pending, cfg)
        } else if t.last() == '\\' {
            simple_parse_lines(lines, i + 1, pending + t.subrange(0, t.len() - 1) + " "@, cfg)
        } else if pending.len() > 0 {
            simple_parse_lines(
                lines,
                i + 1,
                Seq::empty(),
                crate::parser::docker_file::apply_effect(cfg, simple_line_effect(pending + t)),
            )
        } else {
            simple_parse_lines(
                lines,
                i + 1,
                pending,
                crate::parser::docker_file::apply_effect(cfg, simple_line_effect(t)),
            )
        }
    }
}

/// The reduced parse of a whole document's text.
pub open spec fn simple_parse(content: Seq<char>) -> ConfigView {
    simple_parse_lines(
        split_all(content, '\n'),
        0,
        Seq::empty(),
        ConfigView { base_image: Seq::empty(), commands: Seq::empty() },
    )
}

/// The reduced build-script parser.
pub struct DockerfileParser;

impl DockerfileParser {
    /// Parse a build script, keeping only the reduced directive set and
    /// skipping anything malformed; this parser never fails.
    pub fn parse(content: &str) -> (r: Result<DockerfileConfig, DockerError>)
        ensures
            r is Ok && (r->Ok_0)@ == simple_parse(content@),
    {
        let v = chars_of(content);
        let lines = split_all_vec(&v, '\n');
        let ghost lines_spec = split_all(content@, '\n');
        let mut config = DockerfileConfig { base_image: String::new(), commands: Vec::new() };
        let mut pending: Vec<char> = Vec::new();
        let n = lines.len();
        let mut i: usize = 0;
        proof {
            assert(config@.commands =~= Seq::<CommandView>::empty());
            assert(config@ == ConfigView {
                base_image: Seq::<char>::empty(),
                commands: Seq::<CommandView>::empty(),
            });
        }
        while i < n
            invariant
                i <= n,
                n == lines@.len(),
                lines@.map_values(|p: Vec<char>| p@) == lines_spec,
                simple_parse(content@) == simple_parse_lines(
                    lines_spec,
                    i as int,
                    pending@,
                    config@,
                ),
            decreases n - i,
        {
            proof {
                assert(lines@.map_values(|p: Vec<char>| p@)[i as int] == lines_spec[i as int]);
            }
            let t = trim_vec(&lines[i]);
            if t.len() == 0 || t[0] == '#' {
            } else if t[t.len() - 1] == '\\' {
                let ghost old_pending_view = pending@;
                let mut stripped = subvec(&t, 0, t.len() - 1);
                pending.append(&mut stripped);
                pending.push(' ');
                proof {
                    reveal_strlit(" ");
                    assert(pending@ =~= old_pending_view + t@.subrange(0, t@.len() - 1) + " "@);
                }
            } else if pending.len() > 0 {
                let mut full = subvec(&pending, 0, pending.len());
                let mut tcopy = subvec(&t, 0, t.len());
                full.append(&mut tcopy);
                proof {
                    assert(full@ =~= pending@ + t@);
                }
                Self::parse_command(&mut config, &full);
                pending = Vec::new();
            } else {
                Self::parse_command(&mut config, &t);
            }
            i = i + 1;
        }
        Ok(config)
    }

    /// Apply one line's reduced effect to the document.
    pub fn parse_command(config: &mut DockerfileConfig, line: &Vec<char>)
        ensures
            final(config)@ == crate::parser::docker_file::apply_effect(
                old(config)@,
                simple_line_effect(line@),
            ),
    {
        let ghost old_cfg = config@;
        let p = match split_first_vec(line, ' ') {
            None => {
                return ;
            },
            Some(p) => p,
        };
        let upper_v = upper_vec(&p.0);
        if eq_chars(&upper_v, &chars_of("FROM")) {
            config.base_image = string_of(&p.1);
            proof {
                assert(config@.commands =~= old_cfg.commands);
            }
        } else if eq_chars(&upper_v, &chars_of("RUN")) || eq_chars(&upper_v, &chars_of("USER")) {
            let cmd = DockerCommand::Run { command: string_of(&p.1) };
            crate::parser::docker_file::push_one(config, cmd);
        } else if eq_chars(&upper_v, &chars_of("COPY")) {
            let parts = split_all_vec(&p.1, ' ');
            let ghost parts_spec = split_all(p.1@, ' ');
            if parts.len() == 2 {
                proof {
                    assert(parts@.map_values(|w: Vec<char>| w@)[0] == parts_spec[0]);
                    assert(parts@.map_values(|w: Vec<char>| w@)[1] == parts_spec[1]);
                }
                let cmd = DockerCommand::Copy {
                    source: string_of(&parts[0]),
                    dest: string_of(&parts[1]),
                    chown: None,
                };
                crate::parser::docker_file::push_one(config, cmd);
            }
        } else if eq_chars(&upper_v, &chars_of("EXPOSE")) {
            match parse_u64_bounded(&p.1, 65535) {
                Some(port) => {
                    let cmd = DockerCommand::Expose { port: port as u16, protocol: None };
                    crate::parser::docker_file::push_one(config, cmd);
                },
                None => {},
            }
        }
    }
}

} // verus!
