use vstd::prelude::*;

verus! {

/// A control relative to the snake's current heading.
#[derive(Debug, Clone, Copy, PartialEq, Eq, Structural)]
pub enum RelativeAction {
    Straight,
    TurnLeft,
    TurnRight,
}

/// The action that the wire value `value` names, if it names one.
pub open spec fn action_from_index(value: u8) -> Option<RelativeAction> {
    if value == 0 {
        Some(RelativeAction::Straight)
    } else if value == 1 {
        Some(RelativeAction::TurnLeft)
    } else if value == 2 {
        Some(RelativeAction::TurnRight)
    } else {
        None
    }
}

/// The wire value of an action.
pub open spec fn action_index(action: RelativeAction) -> u8 {
    match action {
        RelativeAction::Straight => 0,
        RelativeAction::TurnLeft => 1,
        RelativeAction::TurnRight => 2,
    }
}

/// Decimal digits of a number, most significant first.
pub open spec fn decimal_text(n: nat) -> Seq<char>
    decreases n,
{
    if n < 10 {
        seq![digit_char(n)]
    } else {
        decimal_text(n / 10) + seq![digit_char(n % 10)]
    }
}

pub open spec fn digit_char(d: nat) -> char {
    if d == 0 { '0' }
    else if d == 1 { '1' }
    else if d == 2 { '2' }
    else if d == 3 { '3' }
    else if d == 4 { '4' }
    else if d == 5 { '5' }
    else if d == 6 { '6' }
    else if d == 7 { '7' }
    else if d == 8 { '8' }
    else { '9' }
}

/// The message of a refused wire value.
pub open spec fn invalid_action_text(value: u8) -> Seq<char> {
    "invalid action "@ + decimal_text(value as nat) + "; expected 0, 1, or 2"@
}

fn digit_str(d: u8) -> (s: &'static str)
    requires
        d < 10,
    ensures
        s@ == seq![digit_char(d as nat)],
{
    proof {
        reveal_strlit("0");
        reveal_strlit("1");
        reveal_strlit("2");
        reveal_strlit("3");
        reveal_strlit("4");
        reveal_strlit("5");
        reveal_strlit("6");
        reveal_strlit("7");
        reveal_strlit("8");
        reveal_strlit("9");
    }
    if d == 0 {
        "0"
    } else if d == 1 {
        "1"
    } else if d == 2 {
        "2"
    } else if d == 3 {
        "3"
    } else if d == 4 {
        "4"
    } else if d == 5 {
        "5"
    } else if d == 6 {
        "6"
    } else if d == 7 {
        "7"
    } else if d == 8 {
        "8"
    } else {
        "9"
    }
}

fn invalid_action_message(value: u8) -> (msg: String)
    ensures
        msg@ == invalid_action_text(value),
{
    let mut msg = String::from_str("invalid action ");
    let ghost v: nat = value as nat;
    if value >= 100 {
        msg.append(digit_str(value / 100));
        msg.append(digit_str((value / 10) % 10));
        msg.append(digit_str(value % 10));
        proof {
            assert(decimal_text(v / 10) == decimal_text(v / 100) + seq![digit_char((v / 10) % 10)]);
            assert(decimal_text(v / 100) == seq![digit_char(v / 100)]);
        }
    } else if value >= 10 {
        msg.append(digit_str(value / 10));
        msg.append(digit_str(value % 10));
        proof {
            assert(decimal_text(v / 10) == seq![digit_char(v / 10)]);
        }
    } else {
        msg.append(digit_str(value));
    }
    msg.append("; expected 0, 1, or 2");
    assert(msg@ =~= invalid_action_text(value));
    msg
}

impl RelativeAction {
    /// Parses a wire value: 0 is straight, 1 turns left, 2 turns right; any other
    /// value is refused with a message that names it.
    pub fn try_from(value: u8) -> (r: Result<RelativeAction, String>)
        ensures
            match r {
                Ok(a) => action_from_index(value) == Some(a),
                Err(msg) => action_from_index(value) is None && msg@ == invalid_action_text(value),
            },
    {
        if value == 0 {
            Ok(RelativeAction::Straight)
        } else if value == 1 {
            Ok(RelativeAction::TurnLeft)
        } else if value == 2 {
            Ok(RelativeAction::TurnRight)
        } else {
            Err(invalid_action_message(value))
        }
    }
}

/// An absolute heading on the grid; `Up` decreases `y`.
#[derive(Debug, Clone, Copy, PartialEq, Eq, Structural)]
pub enum Direction {
    Up,
    Right,
    Down,
    Left,
}

impl Direction {
    /// The heading a quarter turn counter-clockwise.
    pub open spec fn spec_turn_left(self) -> Direction {
        match self {
            Direction::Up => Direction::Left,
            Direction::Left => Direction::Down,
            Direction::Down => Direction::Right,
            Direction::Right => Direction::Up,
        }
    }

    /// The heading a quarter turn clockwise.
    pub open spec fn spec_turn_right(self) -> Direction {
        match self {
            Direction::Up => Direction::Right,
            Direction::Right => Direction::Down,
            Direction::Down => Direction::Left,
            Direction::Left => Direction::Up,
        }
    }

    /// The heading after a relative action.
    pub open spec fn spec_apply_relative(self, action: RelativeAction) -> Direction {
        match action {
            RelativeAction::Straight => self,
            RelativeAction::TurnLeft => self.spec_turn_left(),
            RelativeAction::TurnRight => self.spec_turn_right(),
        }
    }

    /// The unit step `(dx, dy)` of a heading.
    pub open spec fn spec_delta(self) -> (i32, i32) {
        match self {
            Direction::Up => (0i32, -1i32),
            Direction::Right => (1i32, 0i32),
            Direction::Down => (0i32, 1i32),
            Direction::Left => (-1i32, 0i32),
        }
    }

    pub fn apply_relative(self, action: RelativeAction) -> (d: Direction)
        ensures
            d == self.spec_apply_relative(action),
    {
        match action {
            RelativeAction::Straight => self,
            RelativeAction::TurnLeft => self.turn_left(),
            RelativeAction::TurnRight => self.turn_right(),
        }
    }

    pub fn turn_left(self) -> (d: Direction)
        ensures
            d == self.spec_turn_left(),
    {
        match self {
            Direction::Up => Direction::Left,
            Direction::Left => Direction::Down,
            Direction::Down => Direction::Right,
            Direction::Right => Direction::Up,
        }
    }

    pub fn turn_right(self) -> (d: Direction)
        ensures
            d == self.spec_turn_right(),
    {
        match self {
            Direction::Up => Direction::Right,
            Direction::Right => Direction::Down,
            Direction::Down => Direction::Left,
            Direction::Left => Direction::Up,
        }
    }

    pub fn delta(self) -> (d: (i32, i32))
        ensures
            d == self.spec_delta(),
    {
        match self {
            Direction::Up => (0, -1),
            Direction::Right => (1, 0),
            Direction::Down => (0, 1),
            Direction::Left => (-1, 0),
        }
    }
}

/// A left turn and a right turn undo each other, in either order.
pub proof fn lemma_turns_cancel(d: Direction)
    ensures
        d.spec_turn_left().spec_turn_right() == d,
        d.spec_turn_right().spec_turn_left() == d,
{
}

/// Four quarter turns in the same sense bring the heading back.
pub proof fn lemma_four_turns_identity(d: Direction)
    ensures
        d.spec_turn_left().spec_turn_left().spec_turn_left().spec_turn_left() == d,
        d.spec_turn_right().spec_turn_right().spec_turn_right().spec_turn_right() == d,
{
}

/// Going straight keeps the heading; a turn always changes it and never reverses it:
/// the new unit step is perpendicular to the old one.
pub proof fn lemma_relative_action_never_reverses(d: Direction, a: RelativeAction)
    ensures
        a == RelativeAction::Straight ==> d.spec_apply_relative(a) == d,
        a != RelativeAction::Straight ==> ({
            let (dx0, dy0) = d.spec_delta();
            let (dx1, dy1) = d.spec_apply_relative(a).spec_delta();
            dx0 * dx1 + dy0 * dy1 == 0
        }),
        d.spec_apply_relative(a).spec_delta() != ({
            let (dx, dy) = d.spec_delta();
            ((-dx) as i32, (-dy) as i32)
        }),
{
}

/// Every heading moves by exactly one cell along one axis.
pub proof fn lemma_delta_is_unit(d: Direction)
    ensures
        ({
            let (dx, dy) = d.spec_delta();
            (dx == 0 && (dy == 1 || dy == -1)) || (dy == 0 && (dx == 1 || dx == -1))
        }),
{
}

/// The wire values 0, 1, 2 are exactly the three actions, in both directions.
pub proof fn lemma_action_index_roundtrip(a: RelativeAction, v: u8)
    ensures
        action_from_index(action_index(a)) == Some(a),
        action_from_index(v) matches Some(b) ==> action_index(b) == v,
        action_from_index(v) is Some <==> v < 3,
{
}

} // verus!
