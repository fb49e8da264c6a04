//! The wording of the debug messages.

use vstd::prelude::*;
use vstd::string::*;

verus! {

/// The character for one decimal digit.
pub open spec fn digit_char(d: nat) -> char {
    if d == 0 {
        '0'
    } else if d == 1 {
        '1'
    } else if d == 2 {
        '2'
    } else if d == 3 {
        '3'
    } else if d == 4 {
        '4'
    } else if d == 5 {
        '5'
    } else if d == 6 {
        '6'
    } else if d == 7 {
        '7'
    } else if d == 8 {
        '8'
    } else {
        '9'
    }
}

/// A number written in decimal, without leading zeros.
pub open spec fn decimal(n: nat) -> Seq<char>
    decreases n,
{
    if n < 10 {
        seq![digit_char(n)]
    } else {
        decimal(n / 10).push(digit_char(n % 10))
    }
}

fn digit_text(d: usize) -> (s: &'static str)
    requires
        d < 10,
    ensures
        s@ == seq![digit_char(d as nat)],
{
    proof {
        reveal_strlit("0");
        reveal_strlit("1");
        reveal_strlit("2");
        reveal_strlit("3");
        reveal_strlit("4");
        reveal_strlit("5");
        reveal_strlit("6");
        reveal_strlit("7");
        reveal_strlit("8");
        reveal_strlit("9");
    }
    let s = if d == 0 {
        "0"
    } else if d == 1 {
        "1"
    } else if d == 2 {
        "2"
    } else if d == 3 {
        "3"
    } else if d == 4 {
        "4"
    } else if d == 5 {
        "5"
    } else if d == 6 {
        "6"
    } else if d == 7 {
        "7"
    } else if d == 8 {
        "8"
    } else {
        "9"
    };
    assert(s@ =~= seq![digit_char(d as nat)]);
    s
}

/// Writes a number in decimal.
pub fn decimal_text(n: usize) -> (s: String)
    ensures
        s@ == decimal(n as nat),
    decreases n,
{
    if n < 10 {
        String::from_str(digit_text(n))
    } else {
        let head = decimal_text(n / 10);
        let s = head.concat(digit_text(n % 10));
        assert(s@ =~= decimal(n as nat));
        s
    }
}

/// "Player P collected a stone. Total: T"
pub open spec fn collected_message(player_number: nat, total: nat) -> Seq<char> {
    "Player "@ + decimal(player_number) + " collected a stone. Total: "@ + decimal(total)
}

/// "Out of bounds: (X, Y)"
pub open spec fn out_of_bounds_message(x: nat, y: nat) -> Seq<char> {
    "Out of bounds: ("@ + decimal(x) + ", "@ + decimal(y) + ")"@
}

/// "Cannot place stone: Cell not empty at (X, Y)"
pub open spec fn not_empty_message(x: nat, y: nat) -> Seq<char> {
    "Cannot place stone: Cell not empty at ("@ + decimal(x) + ", "@ + decimal(y) + ")"@
}

/// "Player P has no stones to use."
pub open spec fn no_stones_message(player_number: nat) -> Seq<char> {
    "Player "@ + decimal(player_number) + " has no stones to use."@
}

/// "Player P placed stone at (X, Y)."
pub open spec fn placed_message(player_number: nat, x: nat, y: nat) -> Seq<char> {
    "Player "@ + decimal(player_number) + " placed stone at ("@ + decimal(x) + ", "@ + decimal(y)
        + ")."@
}

/// "Placement at (X, Y) is not adjacent to Player P."
pub open spec fn not_adjacent_message(x: nat, y: nat, player_number: nat) -> Seq<char> {
    "Placement at ("@ + decimal(x) + ", "@ + decimal(y) + ") is not adjacent to Player "@
        + decimal(player_number) + "."@
}

/// The message for a player who picked up a stone and now holds `total`.
pub fn collected_text(player_number: usize, total: usize) -> (s: String)
    ensures
        s@ == collected_message(player_number as nat, total as nat),
{
    let mut s = String::from_str("Player ");
    s.append(decimal_text(player_number).as_str());
    s.append(" collected a stone. Total: ");
    s.append(decimal_text(total).as_str());
    s
}

/// The message for a target that lies outside the grid.
pub fn out_of_bounds_text(x: usize, y: usize) -> (s: String)
    ensures
        s@ == out_of_bounds_message(x as nat, y as nat),
{
    let mut s = String::from_str("Out of bounds: (");
    s.append(decimal_text(x).as_str());
    s.append(", ");
    s.append(decimal_text(y).as_str());
    s.append(")");
    s
}

/// The message for a target that already holds something.
pub fn not_empty_text(x: usize, y: usize) -> (s: String)
    ensures
        s@ == not_empty_message(x as nat, y as nat),
{
    let mut s = String::from_str("Cannot place stone: Cell not empty at (");
    s.append(decimal_text(x).as_str());
    s.append(", ");
    s.append(decimal_text(y).as_str());
    s.append(")");
    s
}

/// The message for a player who has no stone to place.
pub fn no_stones_text(player_number: usize) -> (s: String)
    ensures
        s@ == no_stones_message(player_number as nat),
{
    let mut s = String::from_str("Player ");
    s.append(decimal_text(player_number).as_str());
    s.append(" has no stones to use.");
    s
}

/// The message for a stone that was placed.
pub fn placed_text(player_number: usize, x: usize, y: usize) -> (s: String)
    ensures
        s@ == placed_message(player_number as nat, x as nat, y as nat),
{
    let mut s = String::from_str("Player ");
    s.append(decimal_text(player_number).as_str());
    s.append(" placed stone at (");
    s.append(decimal_text(x).as_str());
    s.append(", ");
    s.append(decimal_text(y).as_str());
    s.append(").");
    s
}

/// The message for a target that is out of the player's reach.
pub fn not_adjacent_text(x: usize, y: usize, player_number: usize) -> (s: String)
    ensures
        s@ == not_adjacent_message(x as nat, y as nat, player_number as nat),
{
    let mut s = String::from_str("Placement at (");
    s.append(decimal_text(x).as_str());
    s.append(", ");
    s.append(decimal_text(y).as_str());
    s.append(") is not adjacent to Player ");
    s.append(decimal_text(player_number).as_str());
    s.append(".");
    s
}

} // verus!
