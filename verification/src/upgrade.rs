//! The upgrades that the player can buy between two levels.
use vstd::prelude::*;
use crate::input::Input;
use crate::money::Wallet;
use crate::phase::NextPhase;

verus! {

/// The price of holding a projectile.
pub const HOLD_PRICE: usize = 2000;

/// The price of splitting projectiles.
pub const SPLIT_PRICE: usize = 1000;

/// The upgrades that the player has bought in this run.
#[derive(Clone, Copy, Debug)]
pub struct Upgrades {
    pub hold: bool,
    pub split: bool,
}

/// The corner and the size of each button of the shop: the two upgrades, and
/// the start of the next level.
pub open spec fn button_layout() -> Seq<((i32, i32), (i32, i32))> {
    seq![
        ((25i32, 100i32), (350i32, 30i32)),
        ((25i32, 140i32), (350i32, 30i32)),
        ((25i32, 220i32), (350i32, 20i32)),
    ]
}

/// Whether the mouse is held down on a button.
pub open spec fn pressing(input: Input, button: ((i32, i32), (i32, i32))) -> bool {
    let ((x, y), (w, h)) = button;
    &&& input.mouse_down
    &&& x <= input.mouse_x < x + w
    &&& y <= input.mouse_y < y + h
}

impl Upgrades {
    /// No upgrade bought.
    pub fn new() -> (u: Upgrades)
        ensures
            !u.hold,
            !u.split,
    {
        Upgrades { hold: false, split: false }
    }

    /// Forgets what was bought.
    pub fn reset(&mut self)
        ensures
            !final(self).hold,
            !final(self).split,
    {
        self.hold = false;
        self.split = false;
    }

    /// Whether the upgrade to hold is bought now: it has not been bought, its
    /// button is pressed, and the wallet holds its price.
    pub open spec fn buys_hold(self, wallet: Wallet, input: Input) -> bool {
        !self.hold && pressing(input, button_layout()[0]) && wallet.amount >= HOLD_PRICE
    }

    /// Whether the upgrade to split is bought now, with what the wallet holds
    /// once the upgrade to hold has been paid for.
    pub open spec fn buys_split(self, wallet: Wallet, input: Input) -> bool {
        let left = if self.buys_hold(wallet, input) {
            wallet.amount - HOLD_PRICE
        } else {
            wallet.amount as int
        };
        !self.split && pressing(input, button_layout()[1]) && left >= SPLIT_PRICE
    }

    /// What the shop does in one frame. An upgrade is bought where its button
    /// is pressed, it has not been bought before and the wallet holds its
    /// price, which is then paid; the upgrade to hold comes first. Where the
    /// third button is pressed, the play phase is asked for.
    pub fn purchase(&mut self, wallet: &mut Wallet, request: &mut Option<NextPhase>, input: &Input)
        ensures
            final(self).hold == (old(self).hold || old(self).buys_hold(*old(wallet), *input)),
            final(self).split == (old(self).split || old(self).buys_split(*old(wallet), *input)),
            final(wallet).amount == old(wallet).amount - (if old(self).buys_hold(
                *old(wallet),
                *input,
            ) {
                HOLD_PRICE as int
            } else {
                0
            }) - (if old(self).buys_split(*old(wallet), *input) {
                SPLIT_PRICE as int
            } else {
                0
            }),
            *final(request) == if pressing(*input, button_layout()[2]) {
                Some(NextPhase::Play)
            } else {
                *old(request)
            },
    {
        if !self.hold {
            if Upgrades::pressed(input, 0) && wallet.money() >= HOLD_PRICE {
                self.hold = true;
                wallet.subtract(HOLD_PRICE);
            }
        }
        if !self.split {
            if Upgrades::pressed(input, 1) && wallet.money() >= SPLIT_PRICE {
                self.split = true;
                wallet.subtract(SPLIT_PRICE);
            }
        }
        if Upgrades::pressed(input, 2) {
            *request = Some(NextPhase::Play);
        }
    }

    /// Whether the mouse is held down on the button with the given index.
    pub fn pressed(input: &Input, index: usize) -> (b: bool)
        requires
            index < 3,
        ensures
            b == pressing(*input, button_layout()[index as int]),
    {
        let buttons = Upgrades::buttons();
        let ((x, y), (w, h)) = buttons[index];
        let mx: i32 = input.mouse_x();
        let my: i32 = input.mouse_y();
        input.mouse_down() && mx >= x && mx < x + w && my >= y && my < y + h
    }

    /// The corner and the size of each button of the shop.
    pub fn buttons() -> (b: Vec<((i32, i32), (i32, i32))>)
        ensures
            b@ == button_layout(),
    {
        let x: i32 = 25;
        let y: i32 = 100;
        let width: i32 = 400 - x * 2;
        let mut b: Vec<((i32, i32), (i32, i32))> = Vec::new();
        b.push(((x, y), (width, 30)));
        b.push(((x, y + 40), (width, 30)));
        b.push(((x, y + 120), (width, 20)));
        b
    }
}

impl Default for Upgrades {
    /// No upgrade bought.
    fn default() -> (u: Upgrades)
        ensures
            !u.hold && !u.split,
    {
        Upgrades { hold: false, split: false }
    }
}

} // verus!
