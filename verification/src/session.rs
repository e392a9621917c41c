use vstd::prelude::*;

verus! {

/// The two input modes of a play/edit session: direct grid interaction, and
/// typing a command at the bottom of the screen.
#[derive(Debug, PartialEq, Eq, Structural, Clone, Copy)]
pub enum Mode {
    Normal,
    Command,
}

/// What a mode switch asks the surrounding terminal code to do.
#[derive(Debug, PartialEq, Eq, Structural, Clone, Copy)]
pub enum ModeSwitchEffect {
    /// leaving command mode: clear the command line
    ClearCommandLine,
    /// entering command mode: open the prompt at the bottom of the screen
    OpenCommandPrompt,
    /// any other switch changes nothing on screen
    NoScreenChange,
}

/// Relies on String::push: the string grows by exactly the pushed character.
#[verifier::external_body]
fn string_push(s: &mut String, c: char)
    ensures
        final(s)@ == old(s)@.push(c),
{
    s.push(c)
}

/// Relies on String::pop: the last character is removed and returned, or the
/// string was empty and stays so.
#[verifier::external_body]
fn string_pop(s: &mut String) -> (r: Option<char>)
    ensures
        old(s)@.len() == 0 ==> final(s)@ == old(s)@ && r is None,
        old(s)@.len() > 0 ==> final(s)@ == old(s)@.drop_last() && r == Some(
            old(s)@[old(s)@.len() - 1],
        ),
{
    s.pop()
}

/// The top-level session state: the current input mode and the command text
/// typed so far.
pub struct Sudokube {
    pub mode: Mode,
    pub command_input: String,
}

impl Sudokube {
    /// A fresh session: normal mode, nothing typed.
    pub fn new() -> (s: Self)
        ensures
            s.mode == Mode::Normal,
            s.command_input@ == Seq::<char>::empty(),
    {
        Sudokube { mode: Mode::Normal, command_input: String::new() }
    }

    /// Switch the input mode. Leaving command mode discards the typed command
    /// and asks for the command line to be cleared; entering it asks for the
    /// prompt to be opened; any other switch changes nothing on screen.
    pub fn switch_mode(&mut self, mode: Mode) -> (effect: ModeSwitchEffect)
        ensures
            final(self).mode == mode,
            effect == (if old(self).mode == Mode::Command && mode == Mode::Normal {
                ModeSwitchEffect::ClearCommandLine
            } else if old(self).mode == Mode::Normal && mode == Mode::Command {
                ModeSwitchEffect::OpenCommandPrompt
            } else {
                ModeSwitchEffect::NoScreenChange
            }),
            final(self).command_input@ == (if old(self).mode == Mode::Command && mode
                == Mode::Normal {
                Seq::<char>::empty()
            } else {
                old(self).command_input@
            }),
    {
        let effect = if matches!(self.mode, Mode::Command) && matches!(mode, Mode::Normal) {
            self.command_input = String::new();
            ModeSwitchEffect::ClearCommandLine
        } else if matches!(self.mode, Mode::Normal) && matches!(mode, Mode::Command) {
            ModeSwitchEffect::OpenCommandPrompt
        } else {
            ModeSwitchEffect::NoScreenChange
        };
        self.mode = mode;
        effect
    }

    /// Append one typed character to the command text.
    pub fn command_input(&mut self, c: char)
        ensures
            final(self).mode == old(self).mode,
            final(self).command_input@ == old(self).command_input@.push(c),
    {
        string_push(&mut self.command_input, c);
    }

    /// Delete the last typed character; reports whether there was one, so the
    /// surrounding terminal code knows whether to erase a screen cell.
    pub fn command_backspace(&mut self) -> (deleted: bool)
        ensures
            final(self).mode == old(self).mode,
            old(self).command_input@.len() == 0 ==> !deleted && final(self).command_input@ == old(
                self,
            ).command_input@,
            old(self).command_input@.len() > 0 ==> deleted && final(self).command_input@ == old(
                self,
            ).command_input@.drop_last(),
    {
        let r = string_pop(&mut self.command_input);
        match r {
            Some(_) => true,
            None => false,
        }
    }
}

} // verus!
