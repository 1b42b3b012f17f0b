//! The commands of the command line, and what is decided about them
//! before anything is done.

use crate::config::{Config, ConfigView};
use crate::text::strings_view;
use vstd::prelude::*;

verus! {

/// The command line.
#[derive(Debug, Clone)]
pub struct Cli {
    pub verbose: bool,
    pub debug: bool,
    pub quiet: bool,
    pub force: bool,
    pub command: Commands,
}

/// The commands.
#[derive(Debug, Clone)]
pub enum Commands {
    Version,
    Repo { command: RepoCommands },
    Package { command: PackageCommands },
    Cave { command: CaveCommands },
    Disk { command: DiskCommands },
    Devel { command: DevelCommands },
}

/// The commands on workspaces.
#[derive(Debug, Clone)]
pub enum CaveCommands {
    Init,
    Info,
    Add { args: Vec<String> },
    Rem { args: Vec<String> },
    Resolve { variant: Option<String> },
    Build { variant: Option<String> },
    Run { variant: Option<String>, command: Vec<String> },
}

/// The commands on repositories.
#[derive(Debug, Clone)]
pub enum RepoCommands {
    Add { path: String },
    Sync { name: Option<String> },
    List { name: Option<String> },
}

/// The commands on packages.
#[derive(Debug, Clone)]
pub enum PackageCommands {
    Sync { selector: Option<String> },
    List { selector: Option<String>, all: bool },
    Info { selector: String },
    Resolve { queries: Vec<String> },
}

/// The commands on the directories of the installation.
#[derive(Debug, Clone)]
pub enum DiskCommands {
    Info,
    Clean {
        meta: bool,
        pilocals: bool,
        packages: bool,
        downloads: bool,
        config: bool,
        state: bool,
        confirm: bool,
    },
    Uninstall { confirm: bool },
}

/// The commands for recipe authors.
#[derive(Debug, Clone)]
pub enum DevelCommands {
    Test { filename: String, pkg: Option<String> },
}

/// The commands that only read: they may run inside an entered workspace.
pub open spec fn spec_reads_only(c: Commands) -> bool {
    match c {
        Commands::Version => true,
        Commands::Repo { command } => command is List,
        Commands::Package { command } => command is List || command is Info || command is Resolve,
        Commands::Cave { command } => command is Info,
        _ => false,
    }
}

/// Whether a command may run: outside a workspace every command, inside
/// an entered workspace only those that write nothing.
pub open spec fn spec_allowed(inside_cave: bool, c: Commands) -> bool {
    !inside_cave || spec_reads_only(c)
}

/// Decides whether a command may run; `inside_cave` tells whether the
/// environment advertises an entered workspace.
pub fn is_command_allowed(inside_cave: bool, command: &Commands) -> (r: bool)
    ensures
        r == spec_allowed(inside_cave, *command),
{
    if !inside_cave {
        return true;
    }
    match command {
        Commands::Version => true,
        Commands::Repo { command } => matches!(command, RepoCommands::List { .. }),
        Commands::Package { command } => matches!(
            command,
            PackageCommands::List { .. } | PackageCommands::Info { .. } | PackageCommands::Resolve { .. }
        ),
        Commands::Cave { command } => matches!(command, CaveCommands::Info),
        _ => false,
    }
}

/// How much is logged.
#[derive(Debug, Clone, Copy, PartialEq, Eq, Structural)]
pub enum LogLevel {
    Error,
    Info,
    Debug,
    Trace,
}

/// The log level that the switches ask for: debug before verbose before
/// quiet.
pub fn log_level(quiet: bool, verbose: bool, debug: bool) -> (r: LogLevel)
    ensures
        r == if debug {
            LogLevel::Trace
        } else if verbose {
            LogLevel::Debug
        } else if quiet {
            LogLevel::Error
        } else {
            LogLevel::Info
        },
{
    if debug {
        LogLevel::Trace
    } else if verbose {
        LogLevel::Debug
    } else if quiet {
        LogLevel::Error
    } else {
        LogLevel::Info
    }
}

/// What a cleaning command leads to.
#[derive(Debug, Clone)]
pub enum CleanPlan {
    /// No directory was chosen: explain the switches.
    Explain,
    /// The configuration or the state was chosen without confirmation.
    NeedsConfirmation,
    /// Remove these directories, in order.
    Remove(Vec<String>),
}

/// The directories that a cleaning command removes, in order.
pub open spec fn spec_clean_dirs(
    c: ConfigView,
    meta: bool,
    pilocals: bool,
    packages: bool,
    downloads: bool,
    config: bool,
    state: bool,
) -> Seq<Seq<char>> {
    (if meta {
        seq![c.cache_meta_dir]
    } else {
        Seq::<Seq<char>>::empty()
    }) + (if pilocals {
        seq![c.cache_pilocals_dir]
    } else {
        Seq::<Seq<char>>::empty()
    }) + (if packages {
        seq![c.cache_packages_dir]
    } else {
        Seq::<Seq<char>>::empty()
    }) + (if downloads {
        seq![c.cache_download_dir]
    } else {
        Seq::<Seq<char>>::empty()
    }) + (if config {
        seq![c.config_dir]
    } else {
        Seq::<Seq<char>>::empty()
    }) + (if state {
        seq![c.state_dir]
    } else {
        Seq::<Seq<char>>::empty()
    })
}

/// Plans a cleaning command: without any choice it only explains; the
/// configuration and the state are removed only when confirmed.
pub fn clean_plan(
    cfg: &Config,
    meta: bool,
    pilocals: bool,
    packages: bool,
    downloads: bool,
    config: bool,
    state: bool,
    confirm: bool,
) -> (r: CleanPlan)
    ensures
        match r {
            CleanPlan::Explain => !meta && !pilocals && !packages && !downloads && !config
                && !state,
            CleanPlan::NeedsConfirmation => (meta || pilocals || packages || downloads || config
                || state) && (config || state) && !confirm,
            CleanPlan::Remove(dirs) => (meta || pilocals || packages || downloads || config
                || state) && ((config || state) ==> confirm) && strings_view(dirs@)
                == spec_clean_dirs(cfg@, meta, pilocals, packages, downloads, config, state),
        },
{
    if !meta && !pilocals && !packages && !downloads && !config && !state {
        return CleanPlan::Explain;
    }
    if (config || state) && !confirm {
        return CleanPlan::NeedsConfirmation;
    }
    let mut dirs: Vec<String> = Vec::new();
    if meta {
        dirs.push(cfg.cache_meta_dir.clone());
    }
    if pilocals {
        dirs.push(cfg.cache_pilocals_dir.clone());
    }
    if packages {
        dirs.push(cfg.cache_packages_dir.clone());
    }
    if downloads {
        dirs.push(cfg.cache_download_dir.clone());
    }
    if config {
        dirs.push(cfg.config_dir.clone());
    }
    if state {
        dirs.push(cfg.state_dir.clone());
    }
    assert(strings_view(dirs@) =~= spec_clean_dirs(
        cfg@,
        meta,
        pilocals,
        packages,
        downloads,
        config,
        state,
    ));
    CleanPlan::Remove(dirs)
}

/// The directories that uninstalling removes: configuration, cache and
/// state; nothing without confirmation.
pub fn uninstall_plan(cfg: &Config, confirm: bool) -> (r: Option<Vec<String>>)
    ensures
        r.is_some() == confirm,
        confirm ==> strings_view(r.unwrap()@) == seq![
            cfg@.config_dir,
            cfg@.cache_dir,
            cfg@.state_dir,
        ],
{
    if !confirm {
        return None;
    }
    let mut dirs: Vec<String> = Vec::new();
    dirs.push(cfg.config_dir.clone());
    dirs.push(cfg.cache_dir.clone());
    dirs.push(cfg.state_dir.clone());
    assert(strings_view(dirs@) =~= seq![cfg@.config_dir, cfg@.cache_dir, cfg@.state_dir]);
    Some(dirs)
}

} // verus!
