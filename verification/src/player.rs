//! Players and what they carry.

use vstd::prelude::*;
use vstd::string::*;
use crate::cell::within_reach;

verus! {

/// One named counter of an inventory.
#[derive(Debug)]
pub struct Item {
    pub item_id: u32,
    pub item_name: String,
    pub item_count: usize,
}

/// An [`Item`] as a mathematical value.
pub struct ItemView {
    pub item_id: u32,
    pub item_name: Seq<char>,
    pub item_count: nat,
}

impl View for Item {
    type V = ItemView;

    open spec fn view(&self) -> ItemView {
        ItemView {
            item_id: self.item_id,
            item_name: self.item_name@,
            item_count: self.item_count as nat,
        }
    }
}

/// A player: where it stands and what it carries. The first counter of the
/// inventory is the stone counter.
#[derive(Debug)]
pub struct Player {
    pub player_id: u32,
    pub x: usize,
    pub y: usize,
    pub inventory: Vec<Item>,
}

/// A [`Player`] as a mathematical value.
pub struct PlayerView {
    pub player_id: u32,
    pub x: int,
    pub y: int,
    pub inventory: Seq<ItemView>,
}

/// The items of an inventory as mathematical values, in order.
pub open spec fn inventory_view(items: Seq<Item>) -> Seq<ItemView> {
    Seq::new(items.len(), |k: int| items[k]@)
}

impl View for Player {
    type V = PlayerView;

    open spec fn view(&self) -> PlayerView {
        PlayerView {
            player_id: self.player_id,
            x: self.x as int,
            y: self.y as int,
            inventory: inventory_view(self.inventory@),
        }
    }
}

impl PlayerView {
    /// How many stones the player carries.
    pub open spec fn stones(self) -> nat {
        self.inventory[0].item_count
    }

    /// The same player with the stone counter set to `n`.
    pub open spec fn with_stones(self, n: nat) -> PlayerView {
        PlayerView {
            inventory: self.inventory.update(0, ItemView { item_count: n, ..self.inventory[0] }),
            ..self
        }
    }

    /// The same player standing at `(x, y)`.
    pub open spec fn moved_to(self, x: int, y: int) -> PlayerView {
        PlayerView { x, y, ..self }
    }

    /// The player stands at `(x, y)`.
    pub open spec fn stands_at(self, x: int, y: int) -> bool {
        self.x == x && self.y == y
    }

    /// `(x, y)` lies in the 3×3 block around the player.
    pub open spec fn reaches(self, x: int, y: int) -> bool {
        within_reach(self.x, self.y, x, y)
    }
}

/// How many stones the players carry, all together.
pub open spec fn carried_stones(players: Seq<PlayerView>) -> nat
    decreases players.len(),
{
    if players.len() == 0 {
        0
    } else {
        carried_stones(players.drop_last()) + players.last().stones()
    }
}

/// Replacing one player changes what all carry by what that player carried
/// and what its replacement carries.
pub proof fn lemma_carried_update(players: Seq<PlayerView>, i: int, p: PlayerView)
    requires
        0 <= i < players.len(),
    ensures
        carried_stones(players.update(i, p)) + players[i].stones() == carried_stones(players)
            + p.stones(),
    decreases players.len(),
{
    let replaced = players.update(i, p);
    if i == players.len() - 1 {
        assert(replaced.drop_last() =~= players.drop_last());
    } else {
        assert(replaced.drop_last() =~= players.drop_last().update(i, p));
        lemma_carried_update(players.drop_last(), i, p);
    }
}

/// No player carries more than all carry together.
pub proof fn lemma_carried_at_least(players: Seq<PlayerView>, i: int)
    requires
        0 <= i < players.len(),
    ensures
        players[i].stones() <= carried_stones(players),
    decreases players.len(),
{
    if i < players.len() - 1 {
        lemma_carried_at_least(players.drop_last(), i);
    }
}

/// Where no player carries a stone, all together carry none.
pub proof fn lemma_carried_none(players: Seq<PlayerView>)
    requires
        forall|k: int| 0 <= k < players.len() ==> (#[trigger] players[k]).stones() == 0,
    ensures
        carried_stones(players) == 0,
    decreases players.len(),
{
    if players.len() > 0 {
        lemma_carried_none(players.drop_last());
    }
}

/// The inventory that a new game hands out: the counters "Stone" and "Wood",
/// both at zero.
pub open spec fn fresh_inventory() -> Seq<ItemView> {
    seq![
        ItemView { item_id: 1, item_name: "Stone"@, item_count: 0 },
        ItemView { item_id: 2, item_name: "Wood"@, item_count: 0 },
    ]
}

impl Player {
    /// A player at `(x, y)` with the counters "Stone" and "Wood" at zero.
    pub fn new(player_id: u32, x: usize, y: usize) -> (p: Player)
        ensures
            p@ == (PlayerView {
                player_id,
                x: x as int,
                y: y as int,
                inventory: fresh_inventory(),
            }),
    {
        let mut inventory: Vec<Item> = Vec::new();
        inventory.push(Item { item_id: 1, item_name: String::from_str("Stone"), item_count: 0 });
        inventory.push(Item { item_id: 2, item_name: String::from_str("Wood"), item_count: 0 });
        let p = Player { player_id, x, y, inventory };
        assert(p@.inventory =~= fresh_inventory());
        p
    }

    /// How many stones the player carries.
    pub fn stone_count(&self) -> (n: usize)
        requires
            self@.inventory.len() >= 1,
        ensures
            n == self@.stones(),
    {
        self.inventory[0].item_count
    }

    /// Sets the stone counter and leaves everything else as it is.
    pub fn set_stone_count(&mut self, n: usize)
        requires
            old(self)@.inventory.len() >= 1,
        ensures
            final(self)@ == old(self)@.with_stones(n as nat),
    {
        self.inventory[0].item_count = n;
        assert(self@.inventory =~= old(self)@.with_stones(n as nat).inventory);
    }

    /// Moves the player to `(x, y)` and leaves what it carries as it is.
    pub fn set_position(&mut self, x: usize, y: usize)
        ensures
            final(self)@ == old(self)@.moved_to(x as int, y as int),
    {
        self.x = x;
        self.y = y;
    }
}

} // verus!
