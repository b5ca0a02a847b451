//! Shell commands as the shell lists them.

use vstd::prelude::*;

verus! {

/// A command of the shell: its name, how it is used, what it does, and
/// whether it is built into the shell or stands for another command.
#[derive(Debug)]
pub struct ShellCmd {
    name: String,
    usage: String,
    description: String,
    builtin: bool,
    alias: bool,
}

/// The mathematical value of a [`ShellCmd`].
pub ghost struct ShellCmdView {
    pub name: Seq<char>,
    pub usage: Seq<char>,
    pub description: Seq<char>,
    pub builtin: bool,
    pub alias: bool,
}

impl View for ShellCmd {
    type V = ShellCmdView;

    closed spec fn view(&self) -> ShellCmdView {
        ShellCmdView {
            name: self.name@,
            usage: self.usage@,
            description: self.description@,
            builtin: self.builtin,
            alias: self.alias,
        }
    }
}

impl ShellCmd {
    /// A command that is neither a builtin nor an alias.
    pub fn new(name: String, usage: String, description: String) -> (cmd: Self)
        ensures
            cmd@ == (ShellCmdView {
                name: name@,
                usage: usage@,
                description: description@,
                builtin: false,
                alias: false,
            }),
    {
        Self { name, usage, description, builtin: false, alias: false }
    }

    /// Mark the command as being a builtin.
    pub fn builtin(&mut self) -> (cmd: &mut Self)
        ensures
            cmd@ == (ShellCmdView { builtin: true, ..old(self)@ }),
            final(self)@ == final(cmd)@,
    {
        self.builtin = true;
        self
    }

    /// Mark the command as being an alias.
    pub fn alias(&mut self) -> (cmd: &mut Self)
        ensures
            cmd@ == (ShellCmdView { alias: true, ..old(self)@ }),
            final(self)@ == final(cmd)@,
    {
        self.alias = true;
        self
    }

    /// Whether the command is built into the shell.
    pub fn is_builtin(&self) -> (b: bool)
        ensures
            b == self@.builtin,
    {
        self.builtin
    }

    /// Whether the command stands for another command.
    pub fn is_alias(&self) -> (b: bool)
        ensures
            b == self@.alias,
    {
        self.alias
    }
}

} // verus!
