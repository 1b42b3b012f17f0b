//! Operating systems and processor architectures as recipes see them.

use crate::text::{chars_eq, to_chars};
use crate::version::{ascii_lower, spec_ascii_lower};
use vstd::prelude::*;

verus! {

/// An operating system.
#[derive(Debug, Clone, Copy, PartialEq, Eq, Structural)]
pub enum OS {
    Linux,
    MacOS,
    Windows,
}

/// A processor architecture.
#[derive(Debug, Clone, Copy, PartialEq, Eq, Structural)]
pub enum Arch {
    X86_64,
    Aarch64,
    I686,
}

/// The name of an operating system.
pub open spec fn spec_os_name(os: OS) -> Seq<char> {
    match os {
        OS::Linux => "linux"@,
        OS::MacOS => "macos"@,
        OS::Windows => "windows"@,
    }
}

/// The operating system that a name denotes, in any ASCII case.
pub open spec fn spec_parse_os(s: Seq<char>) -> Option<OS> {
    let l = spec_ascii_lower(s);
    if l == "linux"@ {
        Some(OS::Linux)
    } else if l == "macos"@ || l == "darwin"@ {
        Some(OS::MacOS)
    } else if l == "windows"@ {
        Some(OS::Windows)
    } else {
        None
    }
}

/// The name of an architecture.
pub open spec fn spec_arch_name(a: Arch) -> Seq<char> {
    match a {
        Arch::X86_64 => "x86_64"@,
        Arch::Aarch64 => "aarch64"@,
        Arch::I686 => "i686"@,
    }
}

/// The architecture that a name denotes, in any ASCII case.
pub open spec fn spec_parse_arch(s: Seq<char>) -> Option<Arch> {
    let l = spec_ascii_lower(s);
    if l == "x86_64"@ || l == "amd64"@ {
        Some(Arch::X86_64)
    } else if l == "aarch64"@ || l == "arm64"@ {
        Some(Arch::Aarch64)
    } else if l == "i686"@ || l == "x86"@ {
        Some(Arch::I686)
    } else {
        None
    }
}

impl OS {
    /// The name of the operating system.
    pub fn name(&self) -> (r: &'static str)
        ensures
            r@ == spec_os_name(*self),
    {
        match self {
            OS::Linux => "linux",
            OS::MacOS => "macos",
            OS::Windows => "windows",
        }
    }

    /// Reads the name of an operating system; an unknown name is refused.
    pub fn parse(s: &str) -> (r: Option<OS>)
        ensures
            r == spec_parse_os(s@),
    {
        let l = ascii_lower(&to_chars(s));
        if chars_eq(&l, &to_chars("linux")) {
            Some(OS::Linux)
        } else if chars_eq(&l, &to_chars("macos")) || chars_eq(&l, &to_chars("darwin")) {
            Some(OS::MacOS)
        } else if chars_eq(&l, &to_chars("windows")) {
            Some(OS::Windows)
        } else {
            None
        }
    }

    /// The operating system of a host that calls itself `name`; a host
    /// with an unknown name counts as Linux.
    pub fn of_host(name: &str) -> (r: OS)
        ensures
            r == match spec_parse_os(name@) {
                Some(os) => os,
                None => OS::Linux,
            },
    {
        match OS::parse(name) {
            Some(os) => os,
            None => OS::Linux,
        }
    }
}

impl Arch {
    /// The name of the architecture.
    pub fn name(&self) -> (r: &'static str)
        ensures
            r@ == spec_arch_name(*self),
    {
        match self {
            Arch::X86_64 => "x86_64",
            Arch::Aarch64 => "aarch64",
            Arch::I686 => "i686",
        }
    }

    /// Reads the name of an architecture; an unknown name is refused.
    pub fn parse(s: &str) -> (r: Option<Arch>)
        ensures
            r == spec_parse_arch(s@),
    {
        let l = ascii_lower(&to_chars(s));
        if chars_eq(&l, &to_chars("x86_64")) || chars_eq(&l, &to_chars("amd64")) {
            Some(Arch::X86_64)
        } else if chars_eq(&l, &to_chars("aarch64")) || chars_eq(&l, &to_chars("arm64")) {
            Some(Arch::Aarch64)
        } else if chars_eq(&l, &to_chars("i686")) || chars_eq(&l, &to_chars("x86")) {
            Some(Arch::I686)
        } else {
            None
        }
    }

    /// The architecture of a host that calls its processor `name`; a host
    /// with an unknown processor counts as x86-64.
    pub fn of_host(name: &str) -> (r: Arch)
        ensures
            r == match spec_parse_arch(name@) {
                Some(a) => a,
                None => Arch::X86_64,
            },
    {
        match Arch::parse(name) {
            Some(a) => a,
            None => Arch::X86_64,
        }
    }
}

} // verus!
