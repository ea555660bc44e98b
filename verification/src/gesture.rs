//! A gesture binding and its two texts: the display form, for people, and
//! the canonical encoding, which is stored and read back.

use crate::decimal::{
    decimal_digits, finger_count_spec, lemma_decimal_digits, parse_finger_count, push_decimal,
};
use crate::direction::Direction;
use crate::error::{ParseError, ParseErrorView};
use crate::text::{
    after_first_segment, chars_of, first_segment, lemma_joined_segments, lemma_plus_count_rest,
    lemma_plus_count_zero, lemma_segment_len, lemma_segment_len_unique, lemma_single_segment,
    segment_count, segment_end, segment_len, spells,
};
use vstd::prelude::*;
use vstd::string::*;

verus! {

/// Description of a gesture that can be handled by the compositor.
///
/// Two gestures are equal when all three fields are equal, the description
/// included; neither text of a gesture shows its description.
#[derive(Debug, Eq, Hash)]
pub struct Gesture {
    /// How many fingers are held down.
    pub fingers: u32,
    /// Where they move.
    pub direction: Direction,
    /// A custom description for a custom binding.
    pub description: Option<String>,
}

/// A [`Gesture`] with its description as a sequence of characters.
#[verifier::ext_equal]
pub struct GestureView {
    pub fingers: u32,
    pub direction: Direction,
    pub description: Option<Seq<char>>,
}

impl View for Gesture {
    type V = GestureView;

    open spec fn view(&self) -> GestureView {
        GestureView {
            fingers: self.fingers,
            direction: self.direction,
            description: match self.description {
                Some(text) => Some(text@),
                None => None,
            },
        }
    }
}

impl Clone for Gesture {
    fn clone(&self) -> (r: Gesture)
        ensures
            r@ == self@,
    {
        let description = match &self.description {
            Some(text) => Some(text.clone()),
            None => None,
        };
        Gesture { fingers: self.fingers, direction: self.direction, description }
    }
}

impl PartialEq for Gesture {
    fn eq(&self, other: &Gesture) -> (r: bool) {
        let same_description = match (&self.description, &other.description) {
            (Some(a), Some(b)) => *a == *b,
            (None, None) => true,
            _ => false,
        };
        assert(same_description == (self@.description == other@.description));
        self.fingers == other.fingers && self.direction == other.direction && same_description
    }
}

impl vstd::std_specs::cmp::PartialEqSpecImpl for Gesture {
    open spec fn obeys_eq_spec() -> bool {
        true
    }

    /// Gestures are equal when the finger counts, the directions and the
    /// descriptions are.
    open spec fn eq_spec(&self, other: &Gesture) -> bool {
        self@ == other@
    }
}

/// The gesture of `fingers` fingers towards `direction`, without a
/// description.
pub open spec fn plain(fingers: u32, direction: Direction) -> GestureView {
    GestureView { fingers, direction, description: None }
}

/// The display form: the finger count, ` Finger `, and the direction's name.
pub open spec fn display_spec(fingers: u32, direction: Direction) -> Seq<char> {
    decimal_digits(fingers as nat) + seq![' ', 'F', 'i', 'n', 'g', 'e', 'r', ' ']
        + direction.name_spec()
}

/// The canonical encoding: the finger count, `+`, and the direction's name.
pub open spec fn canonical_spec(fingers: u32, direction: Direction) -> Seq<char> {
    decimal_digits(fingers as nat) + seq!['+'] + direction.name_spec()
}

/// Whether `name` is one of the fields of a gesture record: `fingers`,
/// `direction` and `description`.
pub open spec fn is_field(name: Seq<char>) -> bool {
    ||| name == seq!['f', 'i', 'n', 'g', 'e', 'r', 's']
    ||| name == seq!['d', 'i', 'r', 'e', 'c', 't', 'i', 'o', 'n']
    ||| name == seq!['d', 'e', 's', 'c', 'r', 'i', 'p', 't', 'i', 'o', 'n']
}

/// What reading `s` as a canonical encoding gives.
///
/// The first segment runs up to the first `+`, the second from there up to
/// the second `+`. The faults are looked for in this order: a first segment
/// that is no finger count, no `+` at all, a second segment that names no
/// direction, and anything after a second `+`. A text always has a first
/// segment: that of the empty text is empty, and is no finger count.
pub open spec fn parse_spec(s: Seq<char>) -> Result<GestureView, ParseErrorView> {
    let first = first_segment(s);
    let rest = after_first_segment(s);
    let second = first_segment(rest);
    if finger_count_spec(first) is None {
        Err(ParseErrorView::InvalidFingerCount(first))
    } else if segment_len(s) == s.len() {
        Err(ParseErrorView::MissingDirection)
    } else if Direction::parse_spec(second) is None {
        Err(ParseErrorView::InvalidDirection(second))
    } else if segment_len(rest) < rest.len() {
        Err(ParseErrorView::TrailingData(after_first_segment(rest)))
    } else {
        Ok(plain(finger_count_spec(first)->0, Direction::parse_spec(second)->0))
    }
}

/// Reading the canonical encoding of a finger count and a direction gives
/// the gesture made of the two, without a description.
pub proof fn lemma_parse_canonical(fingers: u32, direction: Direction)
    ensures
        parse_spec(canonical_spec(fingers, direction)) == Ok::<GestureView, ParseErrorView>(
            plain(fingers, direction),
        ),
{
    let digits = decimal_digits(fingers as nat);
    let name = direction.name_spec();
    lemma_decimal_digits(fingers as nat);
    lemma_joined_segments(digits, name);
    Direction::lemma_names_differ();
    lemma_single_segment(name);
    Direction::lemma_parse_name(direction);
}

/// Writing a gesture in its canonical encoding and reading it back keeps the
/// finger count and the direction and drops the description: the same
/// gesture comes back exactly when it had none.
pub proof fn lemma_round_trip(g: GestureView)
    ensures
        parse_spec(canonical_spec(g.fingers, g.direction)) == Ok::<GestureView, ParseErrorView>(
            plain(g.fingers, g.direction),
        ),
        parse_spec(canonical_spec(g.fingers, g.direction)) == Ok::<GestureView, ParseErrorView>(g)
            <==> g.description is None,
{
    lemma_parse_canonical(g.fingers, g.direction);
}

/// In a text with more than two segments, a `+` ends the first segment and
/// another ends the second.
proof fn lemma_two_segments_end(s: Seq<char>)
    requires
        segment_count(s) > 2,
    ensures
        segment_len(s) < s.len(),
        segment_len(after_first_segment(s)) < after_first_segment(s).len(),
{
    lemma_plus_count_zero(s);
    lemma_segment_len(s);
    lemma_plus_count_rest(s);
    let rest = after_first_segment(s);
    lemma_plus_count_zero(rest);
    lemma_segment_len(rest);
}

/// A text with more than two segments is never read as a gesture.
pub proof fn lemma_extra_segments_rejected(s: Seq<char>)
    requires
        segment_count(s) > 2,
    ensures
        parse_spec(s) is Err,
{
    lemma_two_segments_end(s);
}

/// A text with more than two segments whose first is a finger count and
/// whose second names a direction is rejected for its trailing data, which
/// is everything after the second `+`.
pub proof fn lemma_trailing_data(s: Seq<char>)
    requires
        segment_count(s) > 2,
        finger_count_spec(first_segment(s)) is Some,
        Direction::parse_spec(first_segment(after_first_segment(s))) is Some,
    ensures
        parse_spec(s) == Err::<GestureView, ParseErrorView>(
            ParseErrorView::TrailingData(after_first_segment(after_first_segment(s))),
        ),
{
    lemma_two_segments_end(s);
}

/// A text whose first segment is no finger count is rejected for that,
/// whatever follows the segment; the error carries the segment, which may
/// be empty.
pub proof fn lemma_invalid_finger_count(s: Seq<char>)
    requires
        finger_count_spec(first_segment(s)) is None,
    ensures
        parse_spec(s) == Err::<GestureView, ParseErrorView>(
            ParseErrorView::InvalidFingerCount(first_segment(s)),
        ),
{
}

/// No text is rejected for a missing finger count: every text has a first
/// segment.
pub proof fn lemma_finger_count_never_missing(s: Seq<char>)
    ensures
        parse_spec(s) != Err::<GestureView, ParseErrorView>(ParseErrorView::MissingFingerCount),
{
}

/// A finger count followed by `+` and a token that names no direction is
/// rejected for the token, whatever follows it; the error carries the token
/// as it stands.
pub proof fn lemma_invalid_direction(fingers: u32, token: Seq<char>, tail: Seq<char>)
    requires
        forall|i: int| 0 <= i < token.len() ==> #[trigger] token[i] != '+',
        Direction::parse_spec(token) is None,
        tail.len() == 0 || tail[0] == '+',
    ensures
        parse_spec(decimal_digits(fingers as nat) + seq!['+'] + token + tail) == Err::<
            GestureView,
            ParseErrorView,
        >(ParseErrorView::InvalidDirection(token)),
{
    let digits = decimal_digits(fingers as nat);
    let rest = token + tail;
    lemma_decimal_digits(fingers as nat);
    lemma_joined_segments(digits, rest);
    assert(digits + seq!['+'] + token + tail =~= digits + seq!['+'] + rest);
    assert forall|i: int| 0 <= i < token.len() implies #[trigger] rest[i] != '+' by {
        assert(rest[i] == token[i]);
    }
    lemma_segment_len_unique(rest, token.len() as int);
    assert(rest.take(token.len() as int) =~= token);
}

/// The display form is not an encoding: it holds no `+`, so all of it is
/// read as the first segment, which is no finger count.
pub proof fn lemma_display_not_parsed(fingers: u32, direction: Direction)
    ensures
        parse_spec(display_spec(fingers, direction)) == Err::<GestureView, ParseErrorView>(
            ParseErrorView::InvalidFingerCount(display_spec(fingers, direction)),
        ),
{
    let digits = decimal_digits(fingers as nat);
    let word = seq![' ', 'F', 'i', 'n', 'g', 'e', 'r', ' '];
    let name = direction.name_spec();
    let s = display_spec(fingers, direction);
    lemma_decimal_digits(fingers as nat);
    Direction::lemma_names_differ();
    assert forall|i: int| 0 <= i < s.len() implies #[trigger] s[i] != '+' by {
        if i < digits.len() {
            assert(s[i] == digits[i]);
        } else if i < digits.len() + word.len() {
            assert(s[i] == word[i - digits.len()]);
        } else {
            assert(s[i] == name[i - digits.len() - word.len()]);
        }
    }
    lemma_single_segment(s);
    assert(s[digits.len() as int] == ' ');
}

impl Gesture {
    /// Creates a new gesture from a number of fingers and a direction.
    pub fn new(fingers: u32, direction: Direction) -> (r: Gesture)
        ensures
            r@ == plain(fingers, direction),
    {
        Gesture { fingers, direction, description: None }
    }

    /// Append the display form of the binding to an existing string.
    pub fn to_string_in_place(&self, string: &mut String)
        ensures
            final(string)@ == old(string)@ + display_spec(self.fingers, self.direction),
    {
        proof {
            reveal_strlit(" Finger ");
        }
        push_decimal(string, self.fingers);
        string.append(" Finger ");
        string.append(self.direction.name());
        assert(" Finger "@ =~= seq![' ', 'F', 'i', 'n', 'g', 'e', 'r', ' ']);
        assert(final(string)@ =~= old(string)@ + display_spec(self.fingers, self.direction));
    }

    /// The canonical encoding of the binding.
    pub fn to_canonical(&self) -> (r: String)
        ensures
            r@ == canonical_spec(self.fingers, self.direction),
    {
        proof {
            reveal_strlit("+");
        }
        let mut string = String::new();
        push_decimal(&mut string, self.fingers);
        string.append("+");
        string.append(self.direction.name());
        assert("+"@ =~= seq!['+']);
        assert(string@ =~= canonical_spec(self.fingers, self.direction));
        string
    }

    /// Accepts the name of a field of a gesture record and rejects any other
    /// name with [`ParseError::UnknownField`]: a record is held to these
    /// fields strictly.
    pub fn check_field(name: &str) -> (r: Result<(), ParseError>)
        ensures
            match r {
                Ok(_) => is_field(name@),
                Err(e) => !is_field(name@) && e@ == ParseErrorView::UnknownField(name@),
            },
    {
        proof {
            reveal_strlit("fingers");
            reveal_strlit("direction");
            reveal_strlit("description");
        }
        assert("fingers"@ =~= seq!['f', 'i', 'n', 'g', 'e', 'r', 's']);
        assert("direction"@ =~= seq!['d', 'i', 'r', 'e', 'c', 't', 'i', 'o', 'n']);
        assert("description"@ =~= seq!['d', 'e', 's', 'c', 'r', 'i', 'p', 't', 'i', 'o', 'n']);
        let chars = chars_of(name);
        let len = chars.len();
        assert(chars@.subrange(0, len as int) =~= name@);
        if spells(&chars, 0, len, "fingers") || spells(&chars, 0, len, "direction") || spells(
            &chars,
            0,
            len,
            "description",
        ) {
            Ok(())
        } else {
            Err(ParseError::UnknownField(name.to_owned()))
        }
    }

    /// Reads a gesture from its canonical encoding. The whole text must be
    /// the encoding; the gesture that comes out has no description.
    pub fn parse(s: &str) -> (r: Result<Gesture, ParseError>)
        ensures
            match r {
                Ok(g) => parse_spec(s@) == Ok::<GestureView, ParseErrorView>(g@),
                Err(e) => parse_spec(s@) == Err::<GestureView, ParseErrorView>(e@),
            },
    {
        let chars = chars_of(s);
        let len = chars.len();
        let first_end = segment_end(&chars, 0);
        assert(chars@.skip(0) =~= s@);
        assert(chars@.subrange(0, first_end as int) =~= first_segment(s@));
        let fingers = match parse_finger_count(&chars, 0, first_end) {
            Some(fingers) => fingers,
            None => {
                let token = s.substring_char(0, first_end);
                assert(token@ =~= first_segment(s@));
                return Err(ParseError::InvalidFingerCount(token.to_owned()));
            },
        };
        if first_end == len {
            return Err(ParseError::MissingDirection);
        }
        let second_start = first_end + 1;
        let second_end = segment_end(&chars, second_start);
        let ghost rest = after_first_segment(s@);
        assert(chars@.skip(second_start as int) =~= rest);
        assert(chars@.subrange(second_start as int, second_end as int) =~= first_segment(rest));
        let direction = match Direction::parse_chars(&chars, second_start, second_end) {
            Some(direction) => direction,
            None => {
                let token = s.substring_char(second_start, second_end);
                assert(token@ =~= first_segment(rest));
                return Err(ParseError::InvalidDirection(token.to_owned()));
            },
        };
        if second_end < len {
            let extra = s.substring_char(second_end + 1, len);
            assert(extra@ =~= after_first_segment(rest));
            return Err(ParseError::TrailingData(extra.to_owned()));
        }
        Ok(Gesture::new(fingers, direction))
    }
}

impl ToString for Gesture {
    /// The display form of the binding.
    fn to_string(&self) -> (r: String)
        ensures
            r@ == display_spec(self.fingers, self.direction),
    {
        let mut string = String::new();
        self.to_string_in_place(&mut string);
        assert(string@ =~= display_spec(self.fingers, self.direction));
        string
    }
}

impl std::str::FromStr for Gesture {
    type Err = ParseError;

    fn from_str(value: &str) -> (r: Result<Gesture, ParseError>)
        ensures
            match r {
                Ok(g) => parse_spec(value@) == Ok::<GestureView, ParseErrorView>(g@),
                Err(e) => parse_spec(value@) == Err::<GestureView, ParseErrorView>(e@),
            },
    {
        Gesture::parse(value)
    }
}

} // verus!
