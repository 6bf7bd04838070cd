//! The resolved (operating system, architecture) pair of a machine, and
//! platform patterns that match against it.  A pattern leaves either axis
//! unset to match any value of that axis.

use vstd::prelude::*;
use crate::strutil::{push_char, str_eq};
use vstd::string::StringExecFns;

verus! {

/// An operating system known to the configuration schema.
#[allow(non_camel_case_types)]
#[derive(Debug, Clone, Copy, PartialEq, Eq, Structural)]
pub enum OS {
    macos,
    linux,
    unknown,
}

/// A processor architecture known to the configuration schema.
#[allow(non_camel_case_types)]
#[derive(Debug, Clone, Copy, PartialEq, Eq, Structural)]
pub enum ARCH {
    x86_64,
    aarch64,
    unknown,
}

/// A platform pattern, or — with both axes set — a concrete platform.
#[derive(Debug, Clone, Copy, PartialEq)]
pub struct Platform {
    /// The operating-system axis; unset matches any.
    pub os: Option<OS>,
    /// The architecture axis; unset matches any.
    pub arch: Option<ARCH>,
}

impl OS {
    /// The name of this operating system.
    pub open spec fn spec_str(&self) -> Seq<char> {
        match self {
            OS::linux => "linux"@,
            OS::macos => "macos"@,
            OS::unknown => "unknown"@,
        }
    }

    /// The name of this operating system.
    pub fn as_str(&self) -> (r: &'static str)
        ensures
            r@ == self.spec_str(),
    {
        match self {
            OS::linux => "linux",
            OS::macos => "macos",
            OS::unknown => "unknown",
        }
    }

    /// The operating system a name denotes; unrecognized names map to
    /// `unknown`.
    pub open spec fn spec_of_name(name: Seq<char>) -> OS {
        if name == "linux"@ {
            OS::linux
        } else if name == "macos"@ {
            OS::macos
        } else {
            OS::unknown
        }
    }

    /// The operating system a name denotes.
    pub fn of_name(name: &str) -> (r: OS)
        ensures
            r == OS::spec_of_name(name@),
    {
        if str_eq(name, "linux") {
            OS::linux
        } else if str_eq(name, "macos") {
            OS::macos
        } else {
            OS::unknown
        }
    }
}

impl ARCH {
    /// The name of this architecture.
    pub open spec fn spec_str(&self) -> Seq<char> {
        match self {
            ARCH::x86_64 => "x86_64"@,
            ARCH::aarch64 => "aarch64"@,
            ARCH::unknown => "unknown"@,
        }
    }

    /// The name of this architecture.
    pub fn as_str(&self) -> (r: &'static str)
        ensures
            r@ == self.spec_str(),
    {
        match self {
            ARCH::x86_64 => "x86_64",
            ARCH::aarch64 => "aarch64",
            ARCH::unknown => "unknown",
        }
    }

    /// The architecture a name denotes; unrecognized names map to
    /// `unknown`.
    pub open spec fn spec_of_name(name: Seq<char>) -> ARCH {
        if name == "x86_64"@ {
            ARCH::x86_64
        } else if name == "aarch64"@ {
            ARCH::aarch64
        } else {
            ARCH::unknown
        }
    }

    /// The architecture a name denotes.
    pub fn of_name(name: &str) -> (r: ARCH)
        ensures
            r == ARCH::spec_of_name(name@),
    {
        if str_eq(name, "x86_64") {
            ARCH::x86_64
        } else if str_eq(name, "aarch64") {
            ARCH::aarch64
        } else {
            ARCH::unknown
        }
    }
}

impl Platform {
    /// The concrete platform that a pair of names (as the runtime reports
    /// them) denotes; both axes are always set.
    pub fn resolve(os_name: &str, arch_name: &str) -> (r: Platform)
        ensures
            r.os == Some(OS::spec_of_name(os_name@)),
            r.arch == Some(ARCH::spec_of_name(arch_name@)),
    {
        Platform { os: Some(OS::of_name(os_name)), arch: Some(ARCH::of_name(arch_name)) }
    }

    /// The textual tag of this pattern: the operating-system name
    /// (`unknown` when unset), then `-` and the architecture name when the
    /// architecture is set.
    pub open spec fn spec_tag(&self) -> Seq<char> {
        (match self.os {
            Some(os) => os.spec_str(),
            None => "unknown"@,
        }) + (match self.arch {
            Some(arch) => seq!['-'] + arch.spec_str(),
            None => Seq::empty(),
        })
    }

    /// Render the textual tag of this pattern.
    pub fn as_tag(&self) -> (r: String)
        ensures
            r@ == self.spec_tag(),
    {
        let mut tag = String::new();
        match self.os {
            Some(os) => tag.append(os.as_str()),
            None => tag.append("unknown"),
        }
        match self.arch {
            Some(arch) => {
                push_char(&mut tag, '-');
                tag.append(arch.as_str());
            },
            None => {
                proof {
                    assert(tag@ + Seq::<char>::empty() =~= tag@);
                }
            },
        }
        tag
    }

    /// Whether this pattern matches the given concrete platform: each set
    /// axis must agree, an unset axis always matches.
    pub open spec fn spec_matches(&self, current: Platform) -> bool {
        (self.os is None || self.os == current.os) && (self.arch is None || self.arch
            == current.arch)
    }

    /// Whether this pattern matches the given concrete platform.
    pub fn contains_current(&self, current: &Platform) -> (r: bool)
        ensures
            r == self.spec_matches(*current),
    {
        let os_ok = match (self.os, current.os) {
            (Option::None, _) => true,
            (Option::Some(a), Option::Some(b)) => a == b,
            (Option::Some(_), Option::None) => false,
        };
        let arch_ok = match (self.arch, current.arch) {
            (Option::None, _) => true,
            (Option::Some(a), Option::Some(b)) => a == b,
            (Option::Some(_), Option::None) => false,
        };
        os_ok && arch_ok
    }
}

} // verus!
