use vstd::prelude::*;

verus! {

/// The device half of an input: a keyboard key or a mouse button, by its code.
#[derive(PartialEq, Eq, Structural, Clone, Copy, Debug, Hash)]
pub enum InputKind {
    Key(i32),
    Mouse(i32),
}

/// What happened to the key or button.
#[derive(PartialEq, Eq, Structural, Clone, Copy, Debug, Hash)]
pub enum Action {
    Release,
    Press,
    Repeat,
}

/// A raw input event.
pub type Input = (InputKind, Action);

/// What an input, or a click on a menu button, asks the game to do.
/// Movement and turning amounts are signed contributions in millionths of a unit
/// (of a radian) per second; menu commands name a chain and a menu by index.
#[derive(PartialEq, Eq, Structural, Clone, Copy, Debug)]
pub enum Command {
    Quit,
    ToggleWireframe,
    RotatePlayerTank(i64),
    MovePlayerTank(i64),
    Fire,
    PauseGame,
    UnPauseGame,
    ToggleMenu(usize, usize),
    AppendToMenuChain(usize, usize),
    MenuChainRollback(usize),
    ToggleFullScreen,
    ToggleCollisionVolumes,
    ToggleBlur,
    SpawnEnemy,
    StartPlaying,
    ReturnToMainMenu,
}

/// The command bound to `input` in a list of bindings, the latest binding winning.
pub open spec fn lookup(entries: Seq<(Input, Command)>, input: Input) -> Option<Command>
    decreases entries.len(),
{
    if entries.len() == 0 {
        None
    } else if entries.last().0 == input {
        Some(entries.last().1)
    } else {
        lookup(entries.drop_last(), input)
    }
}

/// A table from inputs to commands.
pub struct Bindings {
    entries: Vec<(Input, Command)>,
}

impl View for Bindings {
    type V = Map<Input, Command>;

    closed spec fn view(&self) -> Map<Input, Command> {
        Map::new(|i: Input| lookup(self.entries@, i) is Some, |i: Input| lookup(self.entries@, i).unwrap())
    }
}

impl Bindings {
    /// A table that binds nothing.
    pub fn new() -> (r: Self)
        ensures
            r@ == Map::<Input, Command>::empty(),
    {
        let r = Bindings { entries: Vec::new() };
        proof {
            assert(r@ =~= Map::<Input, Command>::empty());
        }
        r
    }

    /// Binds `input` to `command`, replacing any earlier binding of `input`.
    pub fn bind(&mut self, input: Input, command: Command)
        ensures
            final(self)@ == old(self)@.insert(input, command),
    {
        self.entries.push((input, command));
        proof {
            assert(self.entries@.drop_last() =~= old(self).entries@);
            assert(self@ =~= old(self)@.insert(input, command));
        }
    }

    /// The command bound to `input`, if any.
    pub fn get(&self, input: &Input) -> (r: Option<Command>)
        ensures
            r == (if self@.contains_key(*input) {
                Some(self@[*input])
            } else {
                None
            }),
    {
        let n = self.entries.len();
        let mut i: usize = n;
        proof {
            assert(self.entries@.subrange(0, n as int) =~= self.entries@);
        }
        while i > 0
            invariant
                n == self.entries@.len(),
                0 <= i <= n,
                lookup(self.entries@, *input) == lookup(self.entries@.subrange(0, i as int), *input),
            decreases i,
        {
            let e = self.entries[i - 1];
            proof {
                let s = self.entries@.subrange(0, i as int);
                assert(s.drop_last() =~= self.entries@.subrange(0, i - 1));
            }
            if e.0.0 == input.0 && e.0.1 == input.1 {
                return Some(e.1);
            }
            i = i - 1;
        }
        None
    }

    /// A copy of this table.
    pub fn duplicate(&self) -> (r: Bindings)
        ensures
            r@ == self@,
    {
        let mut entries: Vec<(Input, Command)> = Vec::new();
        let n = self.entries.len();
        let mut i: usize = 0;
        while i < n
            invariant
                n == self.entries@.len(),
                0 <= i <= n,
                entries@ == self.entries@.subrange(0, i as int),
            decreases n - i,
        {
            entries.push(self.entries[i]);
            i = i + 1;
            proof {
                assert(entries@ =~= self.entries@.subrange(0, i as int));
            }
        }
        proof {
            assert(entries@ =~= self.entries@);
        }
        Bindings { entries }
    }
}

/// Looks `input` up in `bindings` and appends the bound command, if any, to the
/// frame's command buffer.
pub fn submit_input_command(input: &Input, command_buffer: &mut Vec<Command>, bindings: &Bindings)
    ensures
        final(command_buffer)@ == (if bindings@.contains_key(*input) {
            old(command_buffer)@.push(bindings@[*input])
        } else {
            old(command_buffer)@
        }),
{
    if let Some(command) = bindings.get(input) {
        command_buffer.push(command);
    }
}

} // verus!
