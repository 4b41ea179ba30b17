//! Parsing of memory-size strings such as `"512M"` or `"1G"`.
//!
//! Enforcing resource limits against a live machine is an outside concern;
//! what the core owns is the translation of a size string into bytes.

use vstd::prelude::*;

use crate::error::DockerError;
use crate::text::{chars_of, parse_signed_i64, parse_i64_vec, string_of, subvec, up_char};

verus! {

/// The mathematical value in bytes of a memory-size string: a decimal
/// magnitude followed by one unit letter (`K`, `M` or `G`, either case).
/// `None` when the magnitude is not an integer or the unit is not known;
/// fractional and non-numeric magnitudes are rejected.
pub open spec fn memory_value(s: Seq<char>) -> Option<int>
    recommends
        s.len() > 0,
{
    let num = s.subrange(0, s.len() - 1);
    let unit = up_char(s[s.len() - 1]);
    match parse_signed_i64(num) {
        None => None,
        Some(b) => if unit == 'K' {
            Some(b * 1024)
        } else if unit == 'M' {
            Some(b * 1048576)
        } else if unit == 'G' {
            Some(b * 1073741824)
        } else {
            None
        },
    }
}

/// Whether the magnitude (everything but the unit letter) fails to parse.
pub open spec fn memory_num_err(s: Seq<char>) -> bool
    recommends
        s.len() > 0,
{
    parse_signed_i64(s.subrange(0, s.len() - 1)) is None
}

/// Parse a memory string like `"1G"` or `"512M"` into bytes.
///
/// On a bad magnitude the error names the whole string; on a bad unit it
/// names the unit letter.
pub fn parse_memory_string(memory: &str) -> (r: Result<i64, DockerError>)
    requires
        memory@.len() > 0,
        match memory_value(memory@) {
            Some(v) => -0x8000000000000000 <= v <= 0x7fffffffffffffff,
            None => true,
        },
    ensures
        match r {
            Ok(v) => memory_value(memory@) == Some(v as int),
            Err(e) => memory_value(memory@) is None && e is InvalidResourceLimit && e.text() == (
            if memory_num_err(memory@) {
                "Invalid memory value: "@ + memory@
            } else {
                "Invalid memory unit: "@ + memory@.subrange(
                    memory@.len() - 1,
                    memory@.len() as int,
                )
            }),
        },
{
    let v = chars_of(memory);
    let num = subvec(&v, 0, v.len() - 1);
    let unit = subvec(&v, v.len() - 1, v.len());
    match parse_i64_vec(&num) {
        None => {
            let mut msg = String::new();
            msg.append("Invalid memory value: ");
            msg.append(memory);
            proof {
                reveal_strlit("Invalid memory value: ");
                reveal_strlit("");
            }
            Err(DockerError::InvalidResourceLimit(msg))
        },
        Some(base) => {
            let u = unit[0];
            let uv = u as u32;
            let up: char = if 97 <= uv && uv <= 122 {
                ((uv - 32) as u8) as char
            } else {
                u
            };
            assert(up == up_char(memory@[memory@.len() - 1]));
            if up == 'K' {
                Ok(base * 1024)
            } else if up == 'M' {
                Ok(base * 1048576)
            } else if up == 'G' {
                Ok(base * 1073741824)
            } else {
                let mut msg = String::new();
                msg.append("Invalid memory unit: ");
                msg.append(string_of(&unit).as_str());
                proof {
                    reveal_strlit("Invalid memory unit: ");
                    reveal_strlit("");
                }
                Err(DockerError::InvalidResourceLimit(msg))
            }
        },
    }
}

/// Resource expectations a service declares.  The processor-count limit is
/// kept as its raw text (it may be fractional); turning it into a runtime
/// value is the deployment collaborator's work.
pub struct SystemRequirements {
    pub min_memory_gb: u64,
    pub min_disk_gb: u64,
    pub min_bandwidth_mbps: u64,
    pub required_ports: Vec<u16>,
    pub data_directory: String,
    pub cpu_limit: Option<String>,
    pub memory_limit: Option<String>,
    pub memory_swap: Option<String>,
    pub memory_reservation: Option<String>,
    pub cpu_shares: Option<i64>,
    pub cpuset_cpus: Option<String>,
}

/// The mathematical form of the resource expectations.
pub struct SystemRequirementsView {
    pub min_memory_gb: u64,
    pub min_disk_gb: u64,
    pub min_bandwidth_mbps: u64,
    pub required_ports: Seq<u16>,
    pub data_directory: Seq<char>,
    pub cpu_limit: Option<Seq<char>>,
    pub memory_limit: Option<Seq<char>>,
    pub memory_swap: Option<Seq<char>>,
    pub memory_reservation: Option<Seq<char>>,
    pub cpu_shares: Option<i64>,
    pub cpuset_cpus: Option<Seq<char>>,
}

impl View for SystemRequirements {
    type V = SystemRequirementsView;

    open spec fn view(&self) -> SystemRequirementsView {
        SystemRequirementsView {
            min_memory_gb: self.min_memory_gb,
            min_disk_gb: self.min_disk_gb,
            min_bandwidth_mbps: self.min_bandwidth_mbps,
            required_ports: self.required_ports@,
            data_directory: self.data_directory@,
            cpu_limit: crate::config::volume::opt_str_view(self.cpu_limit),
            memory_limit: crate::config::volume::opt_str_view(self.memory_limit),
            memory_swap: crate::config::volume::opt_str_view(self.memory_swap),
            memory_reservation: crate::config::volume::opt_str_view(self.memory_reservation),
            cpu_shares: self.cpu_shares,
            cpuset_cpus: crate::config::volume::opt_str_view(self.cpuset_cpus),
        }
    }
}

} // verus!
