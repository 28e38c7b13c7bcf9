//! Cards: a rank, a suit and an identity token.

use vstd::multiset::Multiset;
use vstd::prelude::*;

verus! {

/// Number of suits of a full deck.
pub const SUIT_COUNT: usize = 4;

/// Number of ranks of the standard deck (no wild ranks).
pub const RANK_COUNT: usize = 13;

/// Rank of a card. Action ranks are plain ranks here: they have no effect on
/// the order of turns.
#[derive(Clone, Copy, PartialEq, Eq, Debug, Structural)]
pub enum Rank {
    Zero,
    One,
    Two,
    Three,
    Four,
    Five,
    Six,
    Seven,
    Eight,
    Nine,
    Skip,
    Reverse,
    Draw2,
}

/// Colour of a card.
#[derive(Clone, Copy, PartialEq, Eq, Debug, Structural)]
pub enum Suit {
    Red,
    Blue,
    Yellow,
    Green,
}

/// Position of a rank in the order of declaration.
pub open spec fn rank_index(r: Rank) -> nat {
    match r {
        Rank::Zero => 0,
        Rank::One => 1,
        Rank::Two => 2,
        Rank::Three => 3,
        Rank::Four => 4,
        Rank::Five => 5,
        Rank::Six => 6,
        Rank::Seven => 7,
        Rank::Eight => 8,
        Rank::Nine => 9,
        Rank::Skip => 10,
        Rank::Reverse => 11,
        Rank::Draw2 => 12,
    }
}

/// Position of a suit in the order of declaration.
pub open spec fn suit_index(s: Suit) -> nat {
    match s {
        Suit::Red => 0,
        Suit::Blue => 1,
        Suit::Yellow => 2,
        Suit::Green => 3,
    }
}

/// The rank at position `i` of the order of declaration (`Draw2` past the end).
pub open spec fn rank_at(i: nat) -> Rank {
    if i == 0 {
        Rank::Zero
    } else if i == 1 {
        Rank::One
    } else if i == 2 {
        Rank::Two
    } else if i == 3 {
        Rank::Three
    } else if i == 4 {
        Rank::Four
    } else if i == 5 {
        Rank::Five
    } else if i == 6 {
        Rank::Six
    } else if i == 7 {
        Rank::Seven
    } else if i == 8 {
        Rank::Eight
    } else if i == 9 {
        Rank::Nine
    } else if i == 10 {
        Rank::Skip
    } else if i == 11 {
        Rank::Reverse
    } else {
        Rank::Draw2
    }
}

/// The suit at position `i` of the order of declaration (`Green` past the end).
pub open spec fn suit_at(i: nat) -> Suit {
    if i == 0 {
        Suit::Red
    } else if i == 1 {
        Suit::Blue
    } else if i == 2 {
        Suit::Yellow
    } else {
        Suit::Green
    }
}

/// Name of a rank, as it appears in display identifiers.
pub open spec fn rank_name(r: Rank) -> Seq<char> {
    match r {
        Rank::Zero => "Zero"@,
        Rank::One => "One"@,
        Rank::Two => "Two"@,
        Rank::Three => "Three"@,
        Rank::Four => "Four"@,
        Rank::Five => "Five"@,
        Rank::Six => "Six"@,
        Rank::Seven => "Seven"@,
        Rank::Eight => "Eight"@,
        Rank::Nine => "Nine"@,
        Rank::Skip => "Skip"@,
        Rank::Reverse => "Reverse"@,
        Rank::Draw2 => "Draw2"@,
    }
}

/// Name of a suit, as it appears in display identifiers.
pub open spec fn suit_name(s: Suit) -> Seq<char> {
    match s {
        Suit::Red => "Red"@,
        Suit::Blue => "Blue"@,
        Suit::Yellow => "Yellow"@,
        Suit::Green => "Green"@,
    }
}

impl Rank {
    /// The rank at position `i`, if there is one.
    pub fn from_index(i: usize) -> (r: Option<Rank>)
        ensures
            i < RANK_COUNT ==> r == Some(rank_at(i as nat)),
            i >= RANK_COUNT ==> r is None,
            r matches Some(k) ==> rank_index(k) == i,
    {
        match i {
            0 => Some(Rank::Zero),
            1 => Some(Rank::One),
            2 => Some(Rank::Two),
            3 => Some(Rank::Three),
            4 => Some(Rank::Four),
            5 => Some(Rank::Five),
            6 => Some(Rank::Six),
            7 => Some(Rank::Seven),
            8 => Some(Rank::Eight),
            9 => Some(Rank::Nine),
            10 => Some(Rank::Skip),
            11 => Some(Rank::Reverse),
            12 => Some(Rank::Draw2),
            _ => None,
        }
    }

    /// Position of the rank in the order of declaration.
    pub fn index(&self) -> (r: usize)
        ensures
            r == rank_index(*self),
    {
        match self {
            Rank::Zero => 0,
            Rank::One => 1,
            Rank::Two => 2,
            Rank::Three => 3,
            Rank::Four => 4,
            Rank::Five => 5,
            Rank::Six => 6,
            Rank::Seven => 7,
            Rank::Eight => 8,
            Rank::Nine => 9,
            Rank::Skip => 10,
            Rank::Reverse => 11,
            Rank::Draw2 => 12,
        }
    }

    /// Name of the rank.
    pub fn name(&self) -> (r: &'static str)
        ensures
            r@ == rank_name(*self),
    {
        match self {
            Rank::Zero => "Zero",
            Rank::One => "One",
            Rank::Two => "Two",
            Rank::Three => "Three",
            Rank::Four => "Four",
            Rank::Five => "Five",
            Rank::Six => "Six",
            Rank::Seven => "Seven",
            Rank::Eight => "Eight",
            Rank::Nine => "Nine",
            Rank::Skip => "Skip",
            Rank::Reverse => "Reverse",
            Rank::Draw2 => "Draw2",
        }
    }
}

impl Suit {
    /// The suit at position `i`, if there is one.
    pub fn from_index(i: usize) -> (r: Option<Suit>)
        ensures
            i < SUIT_COUNT ==> r == Some(suit_at(i as nat)),
            i >= SUIT_COUNT ==> r is None,
            r matches Some(s) ==> suit_index(s) == i,
    {
        match i {
            0 => Some(Suit::Red),
            1 => Some(Suit::Blue),
            2 => Some(Suit::Yellow),
            3 => Some(Suit::Green),
            _ => None,
        }
    }

    /// Position of the suit in the order of declaration.
    pub fn index(&self) -> (r: usize)
        ensures
            r == suit_index(*self),
    {
        match self {
            Suit::Red => 0,
            Suit::Blue => 1,
            Suit::Yellow => 2,
            Suit::Green => 3,
        }
    }

    /// Name of the suit.
    pub fn name(&self) -> (r: &'static str)
        ensures
            r@ == suit_name(*self),
    {
        match self {
            Suit::Red => "Red",
            Suit::Blue => "Blue",
            Suit::Yellow => "Yellow",
            Suit::Green => "Green",
        }
    }
}

/// A card. `id` correlates the card with its picture on screen and carries no
/// meaning for the rules; no two cards of one session share it.
#[derive(Clone, Copy, PartialEq, Eq, Debug, Structural)]
pub struct Card {
    pub rank: Rank,
    pub suit: Suit,
    pub id: usize,
}

/// Display identifier of a card: `<suit>_<rank>.png`.
pub open spec fn texture_of(c: Card) -> Seq<char> {
    suit_name(c.suit) + "_"@ + rank_name(c.rank) + ".png"@
}

/// A card may be played on `top` when it shares its rank or its suit.
pub open spec fn can_play(card: Card, top: Card) -> bool {
    card.rank == top.rank || card.suit == top.suit
}

impl Card {
    pub fn new(rank: Rank, suit: Suit, id: usize) -> (r: Card)
        ensures
            r == (Card { rank, suit, id }),
    {
        Card { rank, suit, id }
    }

    /// Identifier of the picture of this card, for example `Red_Five.png`.
    pub fn texture_name(&self) -> (r: String)
        ensures
            r@ == texture_of(*self),
    {
        let s = String::from_str(self.suit.name());
        let s = s.concat("_");
        let s = s.concat(self.rank.name());
        s.concat(".png")
    }
}

/// Whether `card` may be played on `top`: same rank or same suit.
pub fn validate(card: &Card, top: &Card) -> (r: bool)
    ensures
        r == can_play(*card, *top),
{
    card.rank == top.rank || card.suit == top.suit
}

/// No two positions of `s` hold cards with the same id.
pub open spec fn distinct_ids(s: Seq<Card>) -> bool {
    forall|i: int, j: int|
        0 <= i < s.len() && 0 <= j < s.len() && i != j ==> #[trigger] s[i].id != #[trigger] s[j].id
}

/// Each card of `m` occurs once, and two cards of `m` with the same id are the
/// same card.
pub open spec fn unique_ids(m: Multiset<Card>) -> bool {
    forall|a: Card, b: Card|
        #[trigger] m.count(a) > 0 && #[trigger] m.count(b) > 0 && a.id == b.id ==> a == b
            && m.count(a) == 1
}

/// Distinct ids at distinct positions make every id of the multiset unique.
pub proof fn lemma_distinct_ids_unique(s: Seq<Card>)
    requires
        distinct_ids(s),
    ensures
        unique_ids(s.to_multiset()),
{
    broadcast use vstd::seq_lib::group_to_multiset_ensures;

    assert(s.no_duplicates()) by {
        assert forall|i: int, j: int| 0 <= i < s.len() && 0 <= j < s.len() && i != j implies s[i]
            != s[j] by {
            assert(s[i].id != s[j].id);
        }
    }
    s.lemma_multiset_has_no_duplicates();
    assert forall|a: Card, b: Card|
        #[trigger] s.to_multiset().count(a) > 0 && #[trigger] s.to_multiset().count(b) > 0 && a.id
            == b.id implies a == b && s.to_multiset().count(a) == 1 by {
        assert(s.contains(a));
        assert(s.contains(b));
        let i = choose|i: int| 0 <= i < s.len() && s[i] == a;
        let j = choose|j: int| 0 <= j < s.len() && s[j] == b;
        assert(s[i].id == s[j].id);
        assert(s.to_multiset().contains(a));
    }
}

/// Unique ids in the multiset of `s` mean distinct ids at distinct positions.
pub proof fn lemma_unique_distinct_ids(s: Seq<Card>)
    requires
        unique_ids(s.to_multiset()),
    ensures
        distinct_ids(s),
{
    broadcast use vstd::seq_lib::group_to_multiset_ensures;

    assert forall|x: Card| s.to_multiset().contains(x) implies s.to_multiset().count(x) == 1 by {
        assert(s.to_multiset().count(x) > 0);
    }
    s.lemma_multiset_has_no_duplicates_conv();
    assert forall|i: int, j: int| 0 <= i < s.len() && 0 <= j < s.len() && i != j implies #[trigger] s[i].id
        != #[trigger] s[j].id by {
        if s[i].id == s[j].id {
            assert(s.contains(s[i]));
            assert(s.contains(s[j]));
            assert(s.to_multiset().count(s[i]) > 0);
            assert(s.to_multiset().count(s[j]) > 0);
            assert(s[i] == s[j]);
        }
    }
}

} // verus!
