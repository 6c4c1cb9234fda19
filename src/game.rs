use vstd::prelude::*;
use crate::entity::{Brain, fresh_tank};
use crate::input::{Bindings, Command, Input};
use crate::slot_store::{first_free, inserted};
use crate::ui::{UIState, appended_flags, rolled_back_flags};
use crate::world::{
    World, player_fire_intent, player_halted, player_moved, player_turned, round_player,
};

verus! {

/// Which mode the game is in; it decides what is simulated and which bindings apply.
#[derive(PartialEq, Eq, Structural, Clone, Copy, Debug, Hash)]
pub enum GameStateKind {
    Playing,
    MainMenu,
    Paused,
}

/// The post-processing effect applied to the rendered frame.
#[derive(PartialEq, Eq, Structural, Clone, Copy, Debug)]
pub enum ImageEffect {
    Blur,
    Plain,
}

/// The bindings listed for `kind` from position `i` on: the first entry for `kind`
/// wins, and a kind with no entry binds nothing.
pub open spec fn bindings_from(maps: Seq<(GameStateKind, Bindings)>, kind: GameStateKind, i: int) -> Map<Input, Command>
    decreases maps.len() - i,
{
    if i < 0 || i >= maps.len() {
        Map::empty()
    } else if maps[i].0 == kind {
        maps[i].1@
    } else {
        bindings_from(maps, kind, i + 1)
    }
}

/// The current mode and one binding table per mode.
pub struct GameState {
    pub kind: GameStateKind,
    pub input_maps: Vec<(GameStateKind, Bindings)>,
}

impl GameState {
    pub fn new(kind: GameStateKind, input_maps: Vec<(GameStateKind, Bindings)>) -> (r: Self)
        ensures
            r.kind == kind,
            forall|k: GameStateKind| #[trigger] r.bindings_for(k) == bindings_from(input_maps@, k, 0),
    {
        GameState { kind, input_maps }
    }

    /// The bindings that apply in mode `kind`.
    pub open spec fn bindings_for(&self, kind: GameStateKind) -> Map<Input, Command> {
        bindings_from(self.input_maps@, kind, 0)
    }

    /// A copy of the bindings of the current mode; bindings of other modes never apply.
    pub fn get_input_map(&self) -> (r: Bindings)
        ensures
            r@ == self.bindings_for(self.kind),
    {
        let n = self.input_maps.len();
        let mut i: usize = 0;
        while i < n
            invariant
                n == self.input_maps@.len(),
                0 <= i <= n,
                bindings_from(self.input_maps@, self.kind, 0) == bindings_from(self.input_maps@, self.kind, i as int),
            decreases n - i,
        {
            if self.input_maps[i].0 == self.kind {
                return self.input_maps[i].1.duplicate();
            }
            i = i + 1;
        }
        Bindings::new()
    }
}

/// Work for the collaborators outside the simulation that a command asks for.
#[derive(PartialEq, Eq, Structural, Clone, Copy, Debug)]
pub enum Effect {
    /// Close the window.
    Quit,
    ToggleWireframe,
    ToggleCollisionVolumes,
    ToggleFullScreen,
    /// Render the 3D scene afresh this frame instead of reusing the last snapshot.
    RefreshSnapshot,
    /// Lower the music while paused.
    DuckMusic,
    /// Bring the music back to its normal volume.
    RestoreMusic,
    StartMusic,
    StopMusic,
}

/// The mode after `cmd` in mode `kind`.
pub open spec fn next_kind(kind: GameStateKind, cmd: Command) -> GameStateKind {
    match cmd {
        Command::PauseGame => GameStateKind::Paused,
        Command::UnPauseGame => GameStateKind::Playing,
        Command::StartPlaying => GameStateKind::Playing,
        Command::ReturnToMainMenu => GameStateKind::MainMenu,
        _ => kind,
    }
}

/// The image effect after `cmd`.
pub open spec fn next_image_effect(effect: ImageEffect, cmd: Command) -> ImageEffect {
    match cmd {
        Command::ToggleBlur => match effect {
            ImageEffect::Blur => ImageEffect::Plain,
            ImageEffect::Plain => ImageEffect::Blur,
        },
        Command::PauseGame => ImageEffect::Blur,
        Command::UnPauseGame | Command::StartPlaying | Command::ReturnToMainMenu => ImageEffect::Plain,
        _ => effect,
    }
}

/// The collaborator work that `cmd` asks for, in order.
pub open spec fn command_effects(cmd: Command) -> Seq<Effect> {
    match cmd {
        Command::Quit => seq![Effect::Quit],
        Command::ToggleWireframe => seq![Effect::ToggleWireframe],
        Command::ToggleCollisionVolumes => seq![Effect::ToggleCollisionVolumes],
        Command::ToggleFullScreen => seq![Effect::RefreshSnapshot, Effect::ToggleFullScreen],
        Command::PauseGame => seq![Effect::RefreshSnapshot, Effect::DuckMusic],
        Command::UnPauseGame => seq![Effect::RestoreMusic],
        Command::StartPlaying => seq![Effect::StartMusic],
        Command::ReturnToMainMenu => seq![Effect::RefreshSnapshot, Effect::StopMusic],
        _ => Seq::empty(),
    }
}

/// Flags and chains after toggling `menu` on `chain`.
pub open spec fn toggled(flags: Seq<bool>, chains: Seq<Seq<usize>>, chain: usize, menu: usize) -> (Seq<bool>, Seq<Seq<usize>>) {
    if flags[menu as int] {
        (rolled_back_flags(flags, chains[chain as int]), chains.update(chain as int, popped(chains[chain as int])))
    } else {
        (appended_flags(flags, chains[chain as int], menu), chains.update(chain as int, chains[chain as int].push(menu)))
    }
}

/// A chain without its top menu; an empty chain stays empty.
pub open spec fn popped(c: Seq<usize>) -> Seq<usize> {
    if c.len() > 0 {
        c.drop_last()
    } else {
        c
    }
}

/// The whole game: the arena, the mode and its bindings, the menus, and the image
/// effect. `P` and `Q` are the poses of tanks and shells, which only the integrator
/// and the renderer read.
pub struct Game<P, Q> {
    pub world: World<P, Q>,
    pub state: GameState,
    pub ui: UIState,
    pub image_effect: ImageEffect,
    pub player_spawn: P,
    pub enemy_spawn: P,
    /// The chain that holds the main, pause and settings menus.
    pub main_chain: usize,
    pub main_menu: usize,
    pub pause_menu: usize,
}

impl<P: Copy, Q> Game<P, Q> {
    pub open spec fn wf(&self) -> bool {
        &&& self.world.wf()
        &&& self.ui.wf()
        &&& self.main_chain < self.ui.chains().len()
        &&& self.main_menu < self.ui.flags().len()
        &&& self.pause_menu < self.ui.flags().len()
    }

    /// A game in the main menu, with an empty arena.
    pub fn new(
        state: GameState,
        ui: UIState,
        player_spawn: P,
        enemy_spawn: P,
        main_chain: usize,
        main_menu: usize,
        pause_menu: usize,
    ) -> (r: Self)
        requires
            ui.wf(),
            main_chain < ui.chains().len(),
            main_menu < ui.flags().len(),
            pause_menu < ui.flags().len(),
        ensures
            r.wf(),
            r.world.tanks@.len() == 0,
            r.world.shells@.len() == 0,
            r.world.elapsed_time == 0,
            r.state == state,
            r.ui == ui,
            r.image_effect == ImageEffect::Plain,
            r.world.player is None,
            r.player_spawn == player_spawn,
            r.enemy_spawn == enemy_spawn,
            r.main_chain == main_chain,
            r.main_menu == main_menu,
            r.pause_menu == pause_menu,
    {
        Game {
            world: World::new(),
            state,
            ui,
            image_effect: ImageEffect::Plain,
            player_spawn,
            enemy_spawn,
            main_chain,
            main_menu,
            pause_menu,
        }
    }

    fn toggle_checked(&mut self, chain: usize, menu: usize)
        requires
            old(self).wf(),
        ensures
            final(self).wf(),
            final(self).world == old(self).world,
            final(self).state == old(self).state,
            final(self).image_effect == old(self).image_effect,
            final(self).main_chain == old(self).main_chain,
            final(self).main_menu == old(self).main_menu,
            final(self).pause_menu == old(self).pause_menu,
            final(self).player_spawn == old(self).player_spawn,
            final(self).enemy_spawn == old(self).enemy_spawn,
            chain < old(self).ui.chains().len() && menu < old(self).ui.flags().len() ==> (
            final(self).ui.flags(), final(self).ui.chains()) == toggled(
                old(self).ui.flags(),
                old(self).ui.chains(),
                chain,
                menu,
            ),
            !(chain < old(self).ui.chains().len() && menu < old(self).ui.flags().len())
                ==> final(self).ui == old(self).ui,
    {
        if chain < self.ui.chain_count() && menu < self.ui.menu_count() {
            self.ui.toggle_menu(chain, menu);
        }
    }

    /// Applies one command from the frame's buffer and returns the collaborator work it
    /// asks for. Menu commands naming a chain or menu that does not exist are dropped.
    pub fn process_command(&mut self, cmd: Command) -> (effects: Vec<Effect>)
        requires
            old(self).wf(),
            old(self).world.tanks@.len() < usize::MAX - 1,
        ensures
            final(self).wf(),
            effects@ == command_effects(cmd),
            final(self).state.kind == next_kind(old(self).state.kind, cmd),
            final(self).image_effect == next_image_effect(old(self).image_effect, cmd),
            final(self).main_chain == old(self).main_chain,
            final(self).main_menu == old(self).main_menu,
            final(self).pause_menu == old(self).pause_menu,
            match cmd {
                Command::MovePlayerTank(d) => {
                    &&& final(self).world.tanks@ == player_moved(old(self).world.tanks@, old(self).world.player, d)
                    &&& final(self).world.shells@ == old(self).world.shells@
                    &&& final(self).world.elapsed_time == old(self).world.elapsed_time
                },
                Command::RotatePlayerTank(d) => {
                    &&& final(self).world.tanks@ == player_turned(old(self).world.tanks@, old(self).world.player, d)
                    &&& final(self).world.shells@ == old(self).world.shells@
                    &&& final(self).world.elapsed_time == old(self).world.elapsed_time
                },
                Command::Fire => {
                    &&& final(self).world.tanks@ == player_fire_intent(old(self).world.tanks@, old(self).world.player)
                    &&& final(self).world.shells@ == old(self).world.shells@
                    &&& final(self).world.elapsed_time == old(self).world.elapsed_time
                },
                Command::PauseGame => {
                    &&& final(self).world.tanks@ == player_halted(old(self).world.tanks@, old(self).world.player)
                    &&& final(self).world.shells@ == old(self).world.shells@
                    &&& final(self).world.elapsed_time == old(self).world.elapsed_time
                    &&& (final(self).ui.flags(), final(self).ui.chains()) == toggled(
                        old(self).ui.flags(),
                        old(self).ui.chains(),
                        old(self).main_chain,
                        old(self).pause_menu,
                    )
                },
                Command::UnPauseGame => {
                    &&& final(self).world == old(self).world
                    &&& (final(self).ui.flags(), final(self).ui.chains()) == toggled(
                        old(self).ui.flags(),
                        old(self).ui.chains(),
                        old(self).main_chain,
                        old(self).pause_menu,
                    )
                },
                Command::SpawnEnemy => {
                    &&& final(self).world.tanks@ == inserted(
                        old(self).world.tanks@,
                        fresh_tank(old(self).enemy_spawn, Brain::DumbAI),
                    )
                    &&& final(self).world.shells@ == old(self).world.shells@
                    &&& final(self).world.elapsed_time == old(self).world.elapsed_time
                },
                Command::StartPlaying => {
                    &&& final(self).world.elapsed_time == 0
                    &&& final(self).world.player == Some(first_free(old(self).world.tanks@) as usize)
                    &&& final(self).world.tanks@ == inserted(
                        inserted(old(self).world.tanks@, round_player(old(self).player_spawn)),
                        fresh_tank(old(self).enemy_spawn, Brain::DumbAI),
                    )
                    &&& final(self).world.shells@ == old(self).world.shells@
                    &&& forall|m: int| 0 <= m < final(self).ui.flags().len() ==> !#[trigger] final(self).ui.flags()[m]
                },
                Command::ReturnToMainMenu => {
                    &&& final(self).world.tanks@.len() == 0
                    &&& final(self).world.shells@.len() == 0
                    &&& final(self).world.player is None
                    &&& final(self).ui.flags()[old(self).main_menu as int]
                },
                Command::ToggleMenu(chain, menu) => {
                    &&& final(self).world == old(self).world
                    &&& chain < old(self).ui.chains().len() && menu < old(self).ui.flags().len() ==> (
                    final(self).ui.flags(), final(self).ui.chains()) == toggled(
                        old(self).ui.flags(),
                        old(self).ui.chains(),
                        chain,
                        menu,
                    )
                    &&& !(chain < old(self).ui.chains().len() && menu < old(self).ui.flags().len())
                        ==> final(self).ui == old(self).ui
                },
                Command::AppendToMenuChain(chain, menu) => {
                    &&& final(self).world == old(self).world
                    &&& chain < old(self).ui.chains().len() && menu < old(self).ui.flags().len() ==> {
                        &&& final(self).ui.flags() == appended_flags(
                            old(self).ui.flags(),
                            old(self).ui.chains()[chain as int],
                            menu,
                        )
                        &&& final(self).ui.chains() == old(self).ui.chains().update(
                            chain as int,
                            old(self).ui.chains()[chain as int].push(menu),
                        )
                    }
                    &&& !(chain < old(self).ui.chains().len() && menu < old(self).ui.flags().len())
                        ==> final(self).ui == old(self).ui
                },
                Command::MenuChainRollback(chain) => {
                    &&& final(self).world == old(self).world
                    &&& chain < old(self).ui.chains().len() ==> {
                        &&& final(self).ui.flags() == rolled_back_flags(
                            old(self).ui.flags(),
                            old(self).ui.chains()[chain as int],
                        )
                        &&& final(self).ui.chains() == old(self).ui.chains().update(
                            chain as int,
                            popped(old(self).ui.chains()[chain as int]),
                        )
                    }
                    &&& !(chain < old(self).ui.chains().len()) ==> final(self).ui == old(self).ui
                },
                _ => {
                    &&& final(self).world == old(self).world
                    &&& final(self).ui == old(self).ui
                },
            },
    {
        let mut effects: Vec<Effect> = Vec::new();
        match cmd {
            Command::Quit => {
                effects.push(Effect::Quit);
            },
            Command::ToggleWireframe => {
                effects.push(Effect::ToggleWireframe);
            },
            Command::ToggleCollisionVolumes => {
                effects.push(Effect::ToggleCollisionVolumes);
            },
            Command::ToggleBlur => {
                self.image_effect = match self.image_effect {
                    ImageEffect::Blur => ImageEffect::Plain,
                    ImageEffect::Plain => ImageEffect::Blur,
                };
            },
            Command::ToggleFullScreen => {
                effects.push(Effect::RefreshSnapshot);
                effects.push(Effect::ToggleFullScreen);
            },
            Command::ToggleMenu(chain, menu) => {
                self.toggle_checked(chain, menu);
            },
            Command::MovePlayerTank(d) => {
                self.world.move_player(d);
            },
            Command::RotatePlayerTank(d) => {
                self.world.rotate_player(d);
            },
            Command::PauseGame => {
                effects.push(Effect::RefreshSnapshot);
                self.world.halt_player();
                let (chain, menu) = (self.main_chain, self.pause_menu);
                self.toggle_checked(chain, menu);
                self.state.kind = GameStateKind::Paused;
                self.image_effect = ImageEffect::Blur;
                effects.push(Effect::DuckMusic);
            },
            Command::UnPauseGame => {
                let (chain, menu) = (self.main_chain, self.pause_menu);
                self.toggle_checked(chain, menu);
                self.state.kind = GameStateKind::Playing;
                self.image_effect = ImageEffect::Plain;
                effects.push(Effect::RestoreMusic);
            },
            Command::Fire => {
                self.world.set_player_firing();
            },
            Command::SpawnEnemy => {
                let pose = self.enemy_spawn;
                let _id = self.world.spawn_tank(pose, Brain::DumbAI);
            },
            Command::StartPlaying => {
                self.ui.reset();
                self.state.kind = GameStateKind::Playing;
                self.image_effect = ImageEffect::Plain;
                let (player_pose, enemy_pose) = (self.player_spawn, self.enemy_spawn);
                let _id = self.world.start_round(player_pose, enemy_pose);
                effects.push(Effect::StartMusic);
            },
            Command::ReturnToMainMenu => {
                effects.push(Effect::RefreshSnapshot);
                self.world.clear();
                self.ui.reset();
                let (chain, menu) = (self.main_chain, self.main_menu);
                self.toggle_checked(chain, menu);
                self.state.kind = GameStateKind::MainMenu;
                self.image_effect = ImageEffect::Plain;
                effects.push(Effect::StopMusic);
            },
            Command::AppendToMenuChain(chain, menu) => {
                if chain < self.ui.chain_count() && menu < self.ui.menu_count() {
                    self.ui.append_to_chain(chain, menu);
                }
            },
            Command::MenuChainRollback(chain) => {
                if chain < self.ui.chain_count() {
                    self.ui.rollback_chain(chain);
                }
            },
        }
        proof {
            assert(effects@ =~= command_effects(cmd));
        }
        effects
    }

    /// Whether the title text is on screen: in the main menu and while paused.
    pub fn title_shown(&self) -> (r: bool)
        ensures
            r == (self.state.kind != GameStateKind::Playing),
    {
        self.state.kind != GameStateKind::Playing
    }

    /// Advances the clock by `dt` microseconds while playing; in the menus and while
    /// paused time stands still.
    pub fn tick(&mut self, dt: i64)
        requires
            old(self).wf(),
            dt >= 0,
        ensures
            final(self).wf(),
            final(self).state == old(self).state,
            final(self).world.tanks@ == old(self).world.tanks@,
            final(self).world.shells@ == old(self).world.shells@,
            final(self).world.player == old(self).world.player,
            old(self).state.kind != GameStateKind::Playing ==> final(self).world.elapsed_time
                == old(self).world.elapsed_time,
            old(self).state.kind == GameStateKind::Playing ==> final(self).world.elapsed_time == if old(
                self,
            ).world.elapsed_time + dt <= i64::MAX {
                old(self).world.elapsed_time + dt
            } else {
                i64::MAX as int
            },
    {
        if self.state.kind == GameStateKind::Playing {
            self.world.advance_clock(dt);
        }
    }
}

} // verus!
