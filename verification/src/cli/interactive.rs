//! The interactive mode: one line at a time, `in`, `out`, `load`, `save`
//! or `exit`.
use vstd::prelude::*;
use crate::text::{split_by, join_with, views, string_views, chars_of, split_chars, string_of, strings_from, str_is, lemma_split_nonempty};
use crate::lang::{check_programs, checked_all, program_views};
use crate::lang::error::PError;
use crate::lang::check::resolve::rv;
use crate::lang::structure::SysDCSystem;
use crate::lang::structure::unchecked::SystemV;
use crate::lang::token::max_text_len;
use crate::plugin::{PluginManager, PluginError, PluginErrorV, OutPlugin, InPlugin, first_out};
use crate::plugin::input::{DebugPlugin as InDebug, FilesPlugin};
use crate::plugin::output::{DebugPlugin as OutDebug, JSONPlugin};

verus! {

/// Why a line could not be run.
#[derive(Debug, PartialEq, Eq)]
pub enum CommandError {
    NotFound(String),
    Syntax,
    SystemIsNotSetted,
}

/// The model of a command error.
pub enum CommandErrorV {
    NotFound(Seq<char>),
    Syntax,
    SystemIsNotSetted,
}

impl View for CommandError {
    type V = CommandErrorV;

    open spec fn view(&self) -> CommandErrorV {
        match self {
            CommandError::NotFound(c) => CommandErrorV::NotFound(c@),
            CommandError::Syntax => CommandErrorV::Syntax,
            CommandError::SystemIsNotSetted => CommandErrorV::SystemIsNotSetted,
        }
    }
}

/// What a command error says to the user.
pub open spec fn command_error_message(e: CommandErrorV) -> Seq<char> {
    match e {
        CommandErrorV::NotFound(c) => "Command \""@ + c + "\" is not found"@,
        CommandErrorV::Syntax => "Usage: in/out/load/save <name> <args>"@,
        CommandErrorV::SystemIsNotSetted => "Must run \"in\" command before run command"@,
    }
}

impl CommandError {
    /// What the error says to the user.
    pub fn message(&self) -> (r: String)
        ensures
            r@ == command_error_message(self@),
    {
        match self {
            CommandError::NotFound(c) => {
                let mut s = String::from_str("Command \"");
                s.append(c.as_str());
                s.append("\" is not found");
                s
            },
            CommandError::Syntax => String::from_str("Usage: in/out/load/save <name> <args>"),
            CommandError::SystemIsNotSetted => String::from_str("Must run \"in\" command before run command"),
        }
    }
}

/// The words of a line: the command, its name (empty when missing) and the
/// rest; nothing for an empty line.
pub open spec fn input_words(text: Seq<char>) -> Option<(Seq<char>, Seq<char>, Seq<Seq<char>>)> {
    let p = split_by(text, ' ');
    if p.len() <= 1 {
        if p[0].len() == 0 {
            None
        } else {
            Some((p[0], Seq::<char>::empty(), Seq::<Seq<char>>::empty()))
        }
    } else if p.len() == 2 {
        Some((p[0], p[1], Seq::<Seq<char>>::empty()))
    } else {
        Some((p[0], p[1], p.subrange(2, p.len() as int)))
    }
}

/// What a line asks for.
#[derive(Debug, PartialEq, Eq)]
pub enum Request {
    Exit,
    In(String, Vec<String>),
    Out(String, Vec<String>),
    Load(String),
    Save(String),
}

/// The model of a request.
pub enum RequestV {
    Exit,
    In(Seq<char>, Seq<Seq<char>>),
    Out(Seq<char>, Seq<Seq<char>>),
    Load(Seq<char>),
    Save(Seq<char>),
}

impl View for Request {
    type V = RequestV;

    open spec fn view(&self) -> RequestV {
        match self {
            Request::Exit => RequestV::Exit,
            Request::In(n, a) => RequestV::In(n@, string_views(a@)),
            Request::Out(n, a) => RequestV::Out(n@, string_views(a@)),
            Request::Load(p) => RequestV::Load(p@),
            Request::Save(p) => RequestV::Save(p@),
        }
    }
}

/// What the line `text` asks for, or why it asks for nothing.
pub open spec fn request_for(text: Seq<char>) -> Result<RequestV, CommandErrorV> {
    match input_words(text) {
        None => Err(CommandErrorV::Syntax),
        Some((c, s, a)) => if c == "exit"@ {
            Ok(RequestV::Exit)
        } else if c == "in"@ {
            Ok(RequestV::In(s, a))
        } else if c == "out"@ {
            Ok(RequestV::Out(s, a))
        } else if c == "load"@ {
            Ok(RequestV::Load(s))
        } else if c == "save"@ {
            Ok(RequestV::Save(s))
        } else {
            Err(CommandErrorV::NotFound(c))
        },
    }
}

/// The model of an outcome.
pub open spec fn request_view(r: Result<Request, CommandError>) -> Result<RequestV, CommandErrorV> {
    match r {
        Ok(q) => Ok(q@),
        Err(e) => Err(e@),
    }
}

/// The interactive mode: the system loaded last, and the plugins to load
/// and write systems with.
pub struct InteractiveCmd {
    system: Option<SysDCSystem>,
    plugin_manager: PluginManager,
}

impl InteractiveCmd {
    /// The system loaded last, if any.
    pub closed spec fn system(&self) -> Option<SystemV> {
        match self.system {
            Some(s) => Some(s@),
            None => None,
        }
    }

    /// The plugins.
    pub closed spec fn plugins(&self) -> (Seq<InPlugin>, Seq<OutPlugin>) {
        self.plugin_manager@
    }

    /// The mode before any line: no system, the default plugins.
    pub fn new() -> (r: InteractiveCmd)
        ensures
            r.system() is None,
            r.plugins().0 == seq![InPlugin::Debug(InDebug), InPlugin::Files(FilesPlugin)],
            r.plugins().1 == seq![OutPlugin::Debug(OutDebug), OutPlugin::Json(JSONPlugin)],
    {
        InteractiveCmd { system: None, plugin_manager: PluginManager::new() }
    }

    /// The plugins to load and write systems with.
    pub fn plugin_manager(&self) -> (r: &PluginManager)
        ensures
            r@ == self.plugins(),
    {
        &self.plugin_manager
    }

    /// Splits a line into the command, its name and the rest.
    pub fn parse_input(text: String) -> (r: Result<(String, String, Vec<String>), CommandError>)
        ensures
            match input_words(text@) {
                None => r matches Err(e) && e@ == CommandErrorV::Syntax,
                Some((c, s, a)) => r matches Ok((rc, rs, ra)) && rc@ == c && rs@ == s && string_views(ra@) == a,
            },
    {
        let chars = chars_of(text.as_str());
        let parts = split_chars(&chars, ' ');
        proof {
            lemma_split_nonempty(chars@, ' ');
        }
        if parts.len() == 1 {
            if parts[0].len() == 0 {
                return Err(CommandError::Syntax);
            }
            return Ok((string_of(&parts[0]), String::new(), Vec::new()));
        }
        let cmd = string_of(&parts[0]);
        let sub = string_of(&parts[1]);
        let args = strings_from(&parts, 2);
        proof {
            if parts@.len() == 2 {
                assert(views(parts@).subrange(2, 2) =~= Seq::<Seq<char>>::empty());
            }
        }
        Ok((cmd, sub, args))
    }

    /// What the line `text` asks for.
    pub fn request_of(text: String) -> (r: Result<Request, CommandError>)
        ensures
            request_view(r) == request_for(text@),
    {
        let (cmd, sub, args) = InteractiveCmd::parse_input(text)?;
        if str_is(cmd.as_str(), "exit") {
            Ok(Request::Exit)
        } else if str_is(cmd.as_str(), "in") {
            Ok(Request::In(sub, args))
        } else if str_is(cmd.as_str(), "out") {
            Ok(Request::Out(sub, args))
        } else if str_is(cmd.as_str(), "load") {
            Ok(Request::Load(sub))
        } else if str_is(cmd.as_str(), "save") {
            Ok(Request::Save(sub))
        } else {
            Err(CommandError::NotFound(cmd))
        }
    }

    /// Parses and checks the programs an input plugin gave; the system they
    /// make becomes the loaded one. On a failure the loaded system stays.
    pub fn load_programs(&mut self, programs: &Vec<(String, String)>) -> (r: Result<(), PError>)
        requires
            forall|k: int| 0 <= k < programs@.len() ==> (#[trigger] programs@[k]).1@.len() <= max_text_len(),
        ensures
            final(self).plugins() == old(self).plugins(),
            match checked_all(program_views(programs@)) {
                Ok(s) => r is Ok && final(self).system() == Some(s),
                Err(e) => r matches Err(re) && re@ == e && final(self).system() == old(self).system(),
            },
    {
        let system = check_programs(programs)?;
        self.system = Some(system);
        Ok(())
    }

    /// Makes `system` the loaded one.
    pub fn set_system(&mut self, system: SysDCSystem)
        ensures
            final(self).plugins() == old(self).plugins(),
            final(self).system() == Some(system@),
    {
        self.system = Some(system);
    }

    /// The output plugin named `name` and the system it is to write; the
    /// plugin is looked for first.
    pub fn select_out(&self, name: &String) -> (r: Result<(&OutPlugin, &SysDCSystem), InteractiveError>)
        ensures
            match first_out(self.plugins().1, 0, name@) {
                None => r matches Err(InteractiveError::Plugin(e)) && e@ == PluginErrorV::NotFound(name@),
                Some(p) => match self.system() {
                    None => r matches Err(InteractiveError::Command(e)) && e@ == CommandErrorV::SystemIsNotSetted,
                    Some(s) => r matches Ok((rp, rs)) && *rp == p && rs@ == s,
                },
            },
    {
        let plugin = match self.plugin_manager.get_type_out(name) {
            Ok(p) => p,
            Err(e) => return Err(InteractiveError::Plugin(e)),
        };
        match &self.system {
            Some(s) => Ok((plugin, s)),
            None => Err(InteractiveError::Command(CommandError::SystemIsNotSetted)),
        }
    }

    /// The system to save, if one is loaded.
    pub fn system_to_save(&self) -> (r: Result<&SysDCSystem, CommandError>)
        ensures
            match self.system() {
                None => r matches Err(e) && e@ == CommandErrorV::SystemIsNotSetted,
                Some(s) => r matches Ok(rs) && rs@ == s,
            },
    {
        match &self.system {
            Some(s) => Ok(s),
            None => Err(CommandError::SystemIsNotSetted),
        }
    }
}

/// The words of a line put back together with single spaces give the line
/// again; an empty line has no words.
pub proof fn lemma_input_words_rejoin(text: Seq<char>)
    ensures
        input_words(text) is None <==> text.len() == 0,
        input_words(text) matches Some((c, s, a)) ==> (if split_by(text, ' ').len() == 1 {
            c == text && s.len() == 0 && a.len() == 0
        } else {
            join_with(seq![c, s] + a, ' ') == text
        }),
{
    lemma_split_nonempty(text, ' ');
    crate::text::lemma_join_split(text, ' ');
    let p = split_by(text, ' ');
    if p.len() == 1 {
        assert(join_with(p, ' ') == p[0]) by {
            assert(p.drop_last() =~= Seq::<Seq<char>>::empty());
        }
    } else if p.len() == 2 {
        assert(seq![p[0], p[1]] + Seq::<Seq<char>>::empty() =~= p);
    } else {
        assert(seq![p[0], p[1]] + p.subrange(2, p.len() as int) =~= p);
    }
}

/// Why a request of the interactive mode failed.
#[derive(Debug)]
pub enum InteractiveError {
    Command(CommandError),
    Plugin(PluginError),
    Parse(PError),
}

} // verus!
