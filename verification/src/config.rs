//! User configuration values.
//!
//! Reading and parsing the configuration file is a process-level concern; the
//! values that arrive from it live here, with the rules they must satisfy.

use vstd::prelude::*;

use crate::syntax::Syntax;

verus! {

/// How to launch a language server: the program name followed by its
/// arguments. Never empty.
pub struct LanguageServerConfig {
    command: Vec<String>,
}

impl View for LanguageServerConfig {
    type V = Seq<String>;

    closed spec fn view(&self) -> Seq<String> {
        self.command@
    }
}

impl LanguageServerConfig {
    /// Builds a launch command; a command without at least a program name is
    /// rejected.
    pub fn new(command: Vec<String>) -> (r: Option<LanguageServerConfig>)
        ensures
            command@.len() == 0 ==> r is None,
            command@.len() > 0 ==> r is Some && r->Some_0@ == command@,
    {
        if command.is_empty() {
            None
        } else {
            Some(LanguageServerConfig { command })
        }
    }

    /// The program name and the arguments that follow it.
    pub fn command(&self) -> (r: (&String, &[String]))
        requires
            self@.len() >= 1,
        ensures
            *r.0 == self@[0],
            r.1@ == self@.subrange(1, self@.len() as int),
    {
        let program = &self.command[0];
        let args = vstd::slice::slice_subrange(self.command.as_slice(), 1, self.command.len());
        (program, args)
    }
}

/// The launch command configured for a syntax, if any: the first entry for
/// that syntax decides.
pub open spec fn spec_server_for(
    entries: Seq<(Syntax, LanguageServerConfig)>,
    syntax: Syntax,
) -> Option<LanguageServerConfig>
    decreases entries.len(),
{
    if entries.len() == 0 {
        None
    } else if entries[0].0 == syntax {
        Some(entries[0].1)
    } else {
        spec_server_for(entries.drop_first(), syntax)
    }
}

/// Configuration supplied by the user: the language servers configured per
/// syntax.
pub struct Config {
    pub language_server_config: Vec<(Syntax, LanguageServerConfig)>,
}

impl Config {
    /// The launch command configured for a syntax, if any.
    #[verifier::loop_isolation(false)]
    pub fn language_server(&self, syntax: Syntax) -> (r: Option<&LanguageServerConfig>)
        ensures
            match r {
                Some(c) => spec_server_for(self.language_server_config@, syntax) == Some(*c),
                None => spec_server_for(self.language_server_config@, syntax) is None,
            },
    {
        let ghost entries = self.language_server_config@;
        let mut i: usize = 0;
        proof {
            assert(entries.skip(0) =~= entries);
        }
        while i < self.language_server_config.len()
            invariant
                i <= entries.len(),
                spec_server_for(entries, syntax) == spec_server_for(entries.skip(i as int), syntax),
            decreases entries.len() - i,
        {
            proof {
                assert(entries.skip(i as int).len() > 0);
                assert(entries.skip(i as int)[0] == entries[i as int]);
                assert(entries.skip(i as int).drop_first() =~= entries.skip(i as int + 1));
            }
            let entry = &self.language_server_config[i];
            if entry.0 == syntax {
                return Some(&entry.1);
            }
            i = i + 1;
        }
        proof {
            assert(entries.skip(entries.len() as int) =~= Seq::<(
                Syntax,
                LanguageServerConfig,
            )>::empty());
        }
        None
    }
}

impl Default for Config {
    /// A configuration with no language servers.
    fn default() -> (r: Config)
        ensures
            r.language_server_config@.len() == 0,
    {
        Config { language_server_config: Vec::new() }
    }
}

} // verus!
