//! The closed vocabulary of directions a gesture can point in.

use crate::error::{ParseError, ParseErrorView};
use crate::text::{chars_of, spells};
use vstd::prelude::*;

verus! {

/// A direction on the screen. The set is closed, and each direction goes by
/// its bare name: `Left`, `Right`, `Up`, `Down`.
#[derive(Clone, Copy, Debug, PartialEq, Eq, Hash, Structural)]
pub enum Direction {
    Left,
    Right,
    Up,
    Down,
}

impl Direction {
    /// The canonical name of each direction, as a sequence of characters.
    pub open spec fn name_spec(self) -> Seq<char> {
        match self {
            Direction::Left => seq!['L', 'e', 'f', 't'],
            Direction::Right => seq!['R', 'i', 'g', 'h', 't'],
            Direction::Up => seq!['U', 'p'],
            Direction::Down => seq!['D', 'o', 'w', 'n'],
        }
    }

    /// The direction that `token` names, if it names one. The match is
    /// exact: case counts, and nothing is trimmed.
    pub open spec fn parse_spec(token: Seq<char>) -> Option<Direction> {
        if token == Direction::Left.name_spec() {
            Some(Direction::Left)
        } else if token == Direction::Right.name_spec() {
            Some(Direction::Right)
        } else if token == Direction::Up.name_spec() {
            Some(Direction::Up)
        } else if token == Direction::Down.name_spec() {
            Some(Direction::Down)
        } else {
            None
        }
    }

    /// The canonical name of this direction.
    pub fn name(self) -> (r: &'static str)
        ensures
            r@ == self.name_spec(),
    {
        proof {
            reveal_strlit("Left");
            reveal_strlit("Right");
            reveal_strlit("Up");
            reveal_strlit("Down");
        }
        let r = match self {
            Direction::Left => "Left",
            Direction::Right => "Right",
            Direction::Up => "Up",
            Direction::Down => "Down",
        };
        assert(r@ =~= self.name_spec());
        r
    }

    /// Reads the direction that the characters of `s` from `from` up to
    /// `to` name.
    pub fn parse_chars(s: &Vec<char>, from: usize, to: usize) -> (r: Option<Direction>)
        requires
            from <= to <= s.len(),
        ensures
            r == Direction::parse_spec(s@.subrange(from as int, to as int)),
    {
        if spells(s, from, to, Direction::Left.name()) {
            Some(Direction::Left)
        } else if spells(s, from, to, Direction::Right.name()) {
            Some(Direction::Right)
        } else if spells(s, from, to, Direction::Up.name()) {
            Some(Direction::Up)
        } else if spells(s, from, to, Direction::Down.name()) {
            Some(Direction::Down)
        } else {
            None
        }
    }

    /// Reads a direction from its canonical name. Any other text is
    /// rejected with [`ParseError::InvalidDirection`], which carries the
    /// whole of it.
    pub fn parse(s: &str) -> (r: Result<Direction, ParseError>)
        ensures
            match r {
                Ok(d) => Direction::parse_spec(s@) == Some(d),
                Err(e) => Direction::parse_spec(s@) is None
                    && e@ == ParseErrorView::InvalidDirection(s@),
            },
    {
        let chars = chars_of(s);
        assert(chars@.subrange(0, chars@.len() as int) =~= s@);
        match Direction::parse_chars(&chars, 0, chars.len()) {
            Some(d) => Ok(d),
            None => Err(ParseError::InvalidDirection(s.to_owned())),
        }
    }

    /// A token names a direction exactly when it is that direction's name.
    pub proof fn lemma_parse_iff_name(token: Seq<char>, d: Direction)
        ensures
            Direction::parse_spec(token) == Some(d) <==> token == d.name_spec(),
    {
        Direction::lemma_names_differ();
    }

    /// Reading the name of a direction gives that direction back.
    pub proof fn lemma_parse_name(d: Direction)
        ensures
            Direction::parse_spec(d.name_spec()) == Some(d),
    {
        Direction::lemma_parse_iff_name(d.name_spec(), d);
    }

    /// No two directions share a name, and no name holds a `+`.
    pub proof fn lemma_names_differ()
        ensures
            forall|a: Direction, b: Direction| #[trigger]
                a.name_spec() == #[trigger] b.name_spec() ==> a == b,
            forall|d: Direction, i: int|
                0 <= i < d.name_spec().len() ==> #[trigger] d.name_spec()[i] != '+',
    {
        assert forall|a: Direction, b: Direction| #[trigger]
            a.name_spec() == #[trigger] b.name_spec() implies a == b by {
            if a != b {
                assert(a.name_spec()[0] != b.name_spec()[0]);
            }
        }
    }
}

impl ToString for Direction {
    /// The canonical name of this direction, as an owned string.
    fn to_string(&self) -> (r: String)
        ensures
            r@ == self.name_spec(),
    {
        self.name().to_owned()
    }
}

impl std::str::FromStr for Direction {
    type Err = ParseError;

    fn from_str(s: &str) -> (r: Result<Direction, ParseError>)
        ensures
            match r {
                Ok(d) => Direction::parse_spec(s@) == Some(d),
                Err(e) => Direction::parse_spec(s@) is None
                    && e@ == ParseErrorView::InvalidDirection(s@),
            },
    {
        Direction::parse(s)
    }
}

} // verus!
