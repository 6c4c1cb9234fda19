use vstd::prelude::*;
use crate::input::Command;

verus! {

/// A menu's navigation state: whether it is on screen. Its buttons and their layout
/// belong to the renderer, which shows a menu exactly while it is active.
#[derive(PartialEq, Eq, Structural, Clone, Copy, Debug)]
pub struct Menu {
    active: bool,
}

impl Menu {
    /// A hidden menu.
    pub fn new() -> (r: Self)
        ensures
            !r.active(),
    {
        Menu { active: false }
    }

    pub closed spec fn active(&self) -> bool {
        self.active
    }

    pub fn is_active(&self) -> (r: bool)
        ensures
            r == self.active(),
    {
        self.active
    }

    pub fn show(&mut self)
        ensures
            final(self).active(),
    {
        self.active = true;
    }

    pub fn conceal(&mut self)
        ensures
            !final(self).active(),
    {
        self.active = false;
    }

    pub fn toggle(&mut self)
        ensures
            final(self).active() == !old(self).active(),
    {
        self.active = !self.active;
    }
}

/// The active flags after `append(chain, menu)` on chains `c`: the chain's top menu,
/// if any, is hidden, then `menu` is shown.
pub open spec fn appended_flags(active: Seq<bool>, chain: Seq<usize>, menu: usize) -> Seq<bool> {
    let hidden = if chain.len() > 0 {
        active.update(chain.last() as int, false)
    } else {
        active
    };
    hidden.update(menu as int, true)
}

/// The active flags after `rollback` on a chain: its top menu is hidden and the menu
/// below it, if any, shown again.
pub open spec fn rolled_back_flags(active: Seq<bool>, chain: Seq<usize>) -> Seq<bool> {
    if chain.len() == 0 {
        active
    } else {
        let hidden = active.update(chain.last() as int, false);
        let rest = chain.drop_last();
        if rest.len() > 0 {
            hidden.update(rest.last() as int, true)
        } else {
            hidden
        }
    }
}

/// Navigation state of the menus: any number of independent chains, each a stack of
/// menu indices whose top is the menu that chain shows.
pub struct UIState {
    menu_chains: Vec<Vec<usize>>,
    menus: Vec<Menu>,
}

impl UIState {
    /// The chains, each as the sequence of its menu indices, bottom first.
    pub closed spec fn chains(&self) -> Seq<Seq<usize>> {
        self.menu_chains@.map_values(|c: Vec<usize>| c@)
    }

    /// Each menu's active flag.
    pub closed spec fn flags(&self) -> Seq<bool> {
        self.menus@.map_values(|m: Menu| m.active())
    }

    /// Every index on a chain names a menu.
    pub open spec fn wf(&self) -> bool {
        forall|c: int, j: int|
            0 <= c < self.chains().len() && 0 <= j < #[trigger] self.chains()[c].len() ==> (
            #[trigger] self.chains()[c][j]) < self.flags().len()
    }

    /// No menus and no chains.
    pub fn new() -> (r: Self)
        ensures
            r.wf(),
            r.chains() == Seq::<Seq<usize>>::empty(),
            r.flags() == Seq::<bool>::empty(),
    {
        let r = UIState { menu_chains: Vec::new(), menus: Vec::new() };
        proof {
            assert(r.chains() =~= Seq::<Seq<usize>>::empty());
            assert(r.flags() =~= Seq::<bool>::empty());
        }
        r
    }

    /// Replaces the menus; every chain is emptied, since its indices named the old ones.
    pub fn set_menus(&mut self, menus: Vec<Menu>)
        ensures
            final(self).wf(),
            final(self).flags() == menus@.map_values(|m: Menu| m.active()),
            final(self).chains().len() == old(self).chains().len(),
            forall|c: int| 0 <= c < old(self).chains().len() ==> #[trigger] final(self).chains()[c].len() == 0,
    {
        self.menus = menus;
        self.clear_chains();
    }

    fn clear_chains(&mut self)
        ensures
            final(self).flags() == old(self).flags(),
            final(self).chains().len() == old(self).chains().len(),
            forall|c: int| 0 <= c < old(self).chains().len() ==> #[trigger] final(self).chains()[c].len() == 0,
            final(self).wf(),
    {
        let n = self.menu_chains.len();
        let mut chains: Vec<Vec<usize>> = Vec::new();
        let mut i: usize = 0;
        while i < n
            invariant
                0 <= i <= n,
                n == self.menu_chains@.len(),
                chains@.len() == i,
                forall|c: int| 0 <= c < i ==> #[trigger] chains@[c]@.len() == 0,
            decreases n - i,
        {
            chains.push(Vec::new());
            i = i + 1;
        }
        self.menu_chains = chains;
    }

    /// Number of menus.
    pub fn menu_count(&self) -> (r: usize)
        ensures
            r == self.flags().len(),
    {
        self.menus.len()
    }

    /// Number of chains.
    pub fn chain_count(&self) -> (r: usize)
        ensures
            r == self.chains().len(),
    {
        self.menu_chains.len()
    }

    /// Whether menu `menu` is on screen.
    pub fn is_menu_active(&self, menu: usize) -> (r: bool)
        requires
            menu < self.flags().len(),
        ensures
            r == self.flags()[menu as int],
    {
        self.menus[menu].is_active()
    }

    /// The menu indices of chain `chain`, bottom first.
    pub fn chain(&self, chain: usize) -> (r: Vec<usize>)
        requires
            chain < self.chains().len(),
        ensures
            r@ == self.chains()[chain as int],
    {
        let c = &self.menu_chains[chain];
        let mut r: Vec<usize> = Vec::new();
        let mut i: usize = 0;
        while i < c.len()
            invariant
                0 <= i <= c@.len(),
                c@ == self.chains()[chain as int],
                r@ == c@.subrange(0, i as int),
            decreases c@.len() - i,
        {
            r.push(c[i]);
            i = i + 1;
            proof {
                assert(r@ =~= c@.subrange(0, i as int));
            }
        }
        proof {
            assert(r@ =~= c@);
        }
        r
    }

    /// Adds a menu, hidden, and returns its index.
    pub fn add_menu(&mut self, menu: Menu) -> (r: usize)
        requires
            old(self).wf(),
        ensures
            final(self).wf(),
            r == old(self).flags().len(),
            final(self).flags() == old(self).flags().push(menu.active()),
            final(self).chains() == old(self).chains(),
    {
        let r = self.menus.len();
        self.menus.push(menu);
        proof {
            assert(self.flags() =~= old(self).flags().push(menu.active()));
            assert(self.chains() =~= old(self).chains());
        }
        r
    }

    /// Adds an empty chain and returns its index.
    pub fn create_menu_chain(&mut self) -> (r: usize)
        requires
            old(self).wf(),
        ensures
            final(self).wf(),
            r == old(self).chains().len(),
            final(self).chains() == old(self).chains().push(Seq::<usize>::empty()),
            final(self).flags() == old(self).flags(),
    {
        let r = self.menu_chains.len();
        self.menu_chains.push(Vec::new());
        proof {
            assert(self.chains() =~= old(self).chains().push(Seq::<usize>::empty()));
            assert(self.flags() =~= old(self).flags());
        }
        r
    }

    fn set_flag(&mut self, menu: usize, on: bool)
        requires
            menu < old(self).flags().len(),
        ensures
            final(self).flags() == old(self).flags().update(menu as int, on),
            final(self).chains() == old(self).chains(),
            final(self).menu_chains@ == old(self).menu_chains@,
    {
        let m = Menu { active: on };
        self.menus.set(menu, m);
        proof {
            assert(self.flags() =~= old(self).flags().update(menu as int, on));
        }
    }

    /// Hides the chain's top menu, if any, shows `dst`, and pushes it on the chain.
    pub fn append_to_chain(&mut self, chain: usize, dst: usize)
        requires
            old(self).wf(),
            chain < old(self).chains().len(),
            dst < old(self).flags().len(),
        ensures
            final(self).wf(),
            final(self).chains() == old(self).chains().update(
                chain as int,
                old(self).chains()[chain as int].push(dst),
            ),
            final(self).flags() == appended_flags(old(self).flags(), old(self).chains()[chain as int], dst),
    {
        let len = self.menu_chains[chain].len();
        if len > 0 {
            let src = self.menu_chains[chain][len - 1];
            proof {
                assert(self.chains()[chain as int][len - 1] == src);
            }
            self.set_flag(src, false);
        }
        self.set_flag(dst, true);
        let mut c: Vec<usize> = Vec::new();
        self.menu_chains.set_and_swap(chain, &mut c);
        c.push(dst);
        self.menu_chains.set_and_swap(chain, &mut c);
        proof {
            assert(self.chains() =~= old(self).chains().update(
                chain as int,
                old(self).chains()[chain as int].push(dst),
            ));
        }
    }

    /// Pops the chain's top menu and hides it; the menu below, if any, is shown again.
    /// A no-op on an empty chain.
    pub fn rollback_chain(&mut self, chain: usize)
        requires
            old(self).wf(),
            chain < old(self).chains().len(),
        ensures
            final(self).wf(),
            final(self).chains() == old(self).chains().update(
                chain as int,
                if old(self).chains()[chain as int].len() > 0 {
                    old(self).chains()[chain as int].drop_last()
                } else {
                    old(self).chains()[chain as int]
                },
            ),
            final(self).flags() == rolled_back_flags(old(self).flags(), old(self).chains()[chain as int]),
    {
        let mut c: Vec<usize> = Vec::new();
        self.menu_chains.set_and_swap(chain, &mut c);
        let ghost c0 = c@;
        proof {
            assert(c0 == old(self).chains()[chain as int]);
        }
        let top = c.pop();
        match top {
            Some(index) => {
                proof {
                    assert(index == c0.last());
                    assert(c@ == c0.drop_last());
                }
                self.set_flag(index, false);
                let len = c.len();
                if len > 0 {
                    let below = c[len - 1];
                    proof {
                        assert(c0[len - 1] == below);
                    }
                    self.set_flag(below, true);
                }
            },
            None => {},
        }
        self.menu_chains.set_and_swap(chain, &mut c);
        proof {
            assert(self.chains() =~= old(self).chains().update(
                chain as int,
                if c0.len() > 0 {
                    c0.drop_last()
                } else {
                    c0
                },
            ));
            assert forall|k: int, j: int|
                0 <= k < self.chains().len() && 0 <= j < #[trigger] self.chains()[k].len() implies (
                #[trigger] self.chains()[k][j]) < self.flags().len() by {
                if k == chain {
                    assert(self.chains()[k][j] == c0[j]);
                }
            }
        }
    }

    /// Rolls the chain back if `menu` is active, else appends `menu` to it.
    pub fn toggle_menu(&mut self, chain: usize, menu: usize)
        requires
            old(self).wf(),
            chain < old(self).chains().len(),
            menu < old(self).flags().len(),
        ensures
            final(self).wf(),
            old(self).flags()[menu as int] ==> final(self).chains() == old(self).chains().update(
                chain as int,
                if old(self).chains()[chain as int].len() > 0 {
                    old(self).chains()[chain as int].drop_last()
                } else {
                    old(self).chains()[chain as int]
                },
            ) && final(self).flags() == rolled_back_flags(old(self).flags(), old(self).chains()[chain as int]),
            !old(self).flags()[menu as int] ==> final(self).chains() == old(self).chains().update(
                chain as int,
                old(self).chains()[chain as int].push(menu),
            ) && final(self).flags() == appended_flags(old(self).flags(), old(self).chains()[chain as int], menu),
    {
        if self.menus[menu].is_active() {
            self.rollback_chain(chain);
        } else {
            self.append_to_chain(chain, menu);
        }
    }

    /// Hides every menu; the chains are left as they are.
    pub fn hide_all_menus(&mut self)
        requires
            old(self).wf(),
        ensures
            final(self).wf(),
            final(self).chains() == old(self).chains(),
            final(self).flags().len() == old(self).flags().len(),
            forall|m: int| 0 <= m < old(self).flags().len() ==> !#[trigger] final(self).flags()[m],
    {
        let n = self.menus.len();
        let mut i: usize = 0;
        while i < n
            invariant
                0 <= i <= n,
                n == old(self).flags().len(),
                self.flags().len() == n,
                self.chains() == old(self).chains(),
                forall|m: int| 0 <= m < i ==> !#[trigger] self.flags()[m],
            decreases n - i,
        {
            self.set_flag(i, false);
            i = i + 1;
        }
    }

    /// Hides every menu and empties every chain.
    pub fn reset(&mut self)
        requires
            old(self).wf(),
        ensures
            final(self).wf(),
            final(self).chains().len() == old(self).chains().len(),
            forall|c: int| 0 <= c < old(self).chains().len() ==> #[trigger] final(self).chains()[c].len() == 0,
            final(self).flags().len() == old(self).flags().len(),
            forall|m: int| 0 <= m < old(self).flags().len() ==> !#[trigger] final(self).flags()[m],
    {
        self.hide_all_menus();
        self.clear_chains();
    }
}

/// How a menu button is drawn: plain, or highlighted under the mouse.
#[derive(PartialEq, Eq, Structural, Clone, Copy, Debug)]
pub enum ButtonState {
    Normal,
    Highlighted,
}

/// The color a button is repainted with.
#[derive(PartialEq, Eq, Structural, Clone, Copy, Debug)]
pub enum ButtonColor {
    /// Under the mouse, with the left button held.
    Pressed,
    /// Under the mouse.
    Hover,
    /// Away from the mouse.
    Idle,
}

/// What one frame does to a button: its new state, whether its command is issued,
/// and the color to repaint it with, if any.
pub open spec fn button_outcome(state: ButtonState, hovered: bool, pressed: bool, pressed_last_frame: bool) -> (
    ButtonState,
    bool,
    Option<ButtonColor>,
) {
    if hovered {
        let clicked = pressed_last_frame && !pressed;
        if state == ButtonState::Normal || pressed == pressed_last_frame {
            (
                ButtonState::Highlighted,
                clicked,
                Some(if pressed { ButtonColor::Pressed } else { ButtonColor::Hover }),
            )
        } else {
            (state, clicked, None)
        }
    } else if state != ButtonState::Normal {
        (ButtonState::Normal, false, Some(ButtonColor::Idle))
    } else {
        (state, false, None)
    }
}

/// One frame of a menu button: a release of the left mouse button over it issues its
/// command; hovering highlights it, and leaving it turns it back to plain.
pub fn update_button(state: ButtonState, hovered: bool, pressed: bool, pressed_last_frame: bool) -> (r: (
    ButtonState,
    bool,
    Option<ButtonColor>,
))
    ensures
        r == button_outcome(state, hovered, pressed, pressed_last_frame),
{
    if hovered {
        let clicked = pressed_last_frame && !pressed;
        if state == ButtonState::Normal || pressed == pressed_last_frame {
            let color = if pressed {
                ButtonColor::Pressed
            } else {
                ButtonColor::Hover
            };
            (ButtonState::Highlighted, clicked, Some(color))
        } else {
            (state, clicked, None)
        }
    } else if state != ButtonState::Normal {
        (ButtonState::Normal, false, Some(ButtonColor::Idle))
    } else {
        (state, false, None)
    }
}

/// The commands that the first `n` buttons issue this frame, in button order.
pub open spec fn issued(
    states: Seq<ButtonState>,
    hovered: Seq<bool>,
    commands: Seq<Option<Command>>,
    pressed: bool,
    pressed_last_frame: bool,
    n: int,
) -> Seq<Command>
    decreases n,
{
    if n <= 0 {
        Seq::empty()
    } else {
        let before = issued(states, hovered, commands, pressed, pressed_last_frame, n - 1);
        let (_, clicked, _) = button_outcome(states[n - 1], hovered[n - 1], pressed, pressed_last_frame);
        if clicked && commands[n - 1] is Some {
            before.push(commands[n - 1].unwrap())
        } else {
            before
        }
    }
}

/// The repaints that the first `n` buttons need this frame, in button order.
pub open spec fn repaints(
    states: Seq<ButtonState>,
    hovered: Seq<bool>,
    pressed: bool,
    pressed_last_frame: bool,
    n: int,
) -> Seq<(usize, ButtonColor)>
    decreases n,
{
    if n <= 0 {
        Seq::empty()
    } else {
        let before = repaints(states, hovered, pressed, pressed_last_frame, n - 1);
        match button_outcome(states[n - 1], hovered[n - 1], pressed, pressed_last_frame).2 {
            Some(c) => before.push(((n - 1) as usize, c)),
            None => before,
        }
    }
}

/// One frame of all menu buttons: `hovered[k]` tells whether the mouse is over button
/// `k`, and `commands[k]` is its command. Updates each button's state, appends the
/// commands of the clicked buttons to the frame's buffer in button order, and returns
/// the buttons to repaint with their colors.
pub fn update_buttons(
    states: &mut Vec<ButtonState>,
    hovered: &Vec<bool>,
    commands: &Vec<Option<Command>>,
    pressed: bool,
    pressed_last_frame: bool,
    command_buffer: &mut Vec<Command>,
) -> (r: Vec<(usize, ButtonColor)>)
    requires
        hovered@.len() == old(states)@.len(),
        commands@.len() == old(states)@.len(),
    ensures
        final(states)@.len() == old(states)@.len(),
        forall|k: int|
            0 <= k < old(states)@.len() ==> #[trigger] final(states)@[k] == button_outcome(
                old(states)@[k],
                hovered@[k],
                pressed,
                pressed_last_frame,
            ).0,
        final(command_buffer)@ == old(command_buffer)@ + issued(
            old(states)@,
            hovered@,
            commands@,
            pressed,
            pressed_last_frame,
            old(states)@.len() as int,
        ),
        r@ == repaints(old(states)@, hovered@, pressed, pressed_last_frame, old(states)@.len() as int),
{
    let ghost s0 = states@;
    let ghost b0 = command_buffer@;
    let n = states.len();
    let mut out: Vec<(usize, ButtonColor)> = Vec::new();
    let mut k: usize = 0;
    while k < n
        invariant
            n == s0.len(),
            hovered@.len() == n,
            commands@.len() == n,
            0 <= k <= n,
            states@.len() == n,
            forall|j: int| 0 <= j < k ==> #[trigger] states@[j] == button_outcome(s0[j], hovered@[j], pressed, pressed_last_frame).0,
            forall|j: int| k <= j < n ==> #[trigger] states@[j] == s0[j],
            command_buffer@ == b0 + issued(s0, hovered@, commands@, pressed, pressed_last_frame, k as int),
            out@ == repaints(s0, hovered@, pressed, pressed_last_frame, k as int),
        decreases n - k,
    {
        let (next, clicked, color) = update_button(states[k], hovered[k], pressed, pressed_last_frame);
        if clicked {
            if let Some(command) = commands[k] {
                command_buffer.push(command);
            }
        }
        if let Some(c) = color {
            out.push((k, c));
        }
        states.set(k, next);
        proof {
            assert(command_buffer@ =~= b0 + issued(s0, hovered@, commands@, pressed, pressed_last_frame, k + 1));
        }
        k = k + 1;
    }
    out
}

/// Writes the six indices of glyph quad `i` (two triangles over its four vertices
/// `4i .. 4i + 3`) into `index_buffer[6i .. 6i + 5]`.
pub fn insert_index_buffer_quad(index_buffer: &mut Vec<u16>, i: usize)
    requires
        6 * i + 6 <= old(index_buffer)@.len(),
        4 * i + 3 <= u16::MAX,
    ensures
        final(index_buffer)@ == old(index_buffer)@.update(6 * i, (4 * i) as u16).update(
            6 * i + 1,
            (4 * i + 1) as u16,
        ).update(6 * i + 2, (4 * i + 2) as u16).update(6 * i + 3, (4 * i + 3) as u16).update(
            6 * i + 4,
            (4 * i + 2) as u16,
        ).update(6 * i + 5, (4 * i + 1) as u16),
{
    let base = 4 * (i as u16);
    index_buffer.set(i * 6, base);
    index_buffer.set(i * 6 + 1, base + 1);
    index_buffer.set(i * 6 + 2, base + 2);
    index_buffer.set(i * 6 + 3, base + 3);
    index_buffer.set(i * 6 + 4, base + 2);
    index_buffer.set(i * 6 + 5, base + 1);
}

} // verus!
