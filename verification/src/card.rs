use crate::random::{shuffle, thread_rng};
use crate::text::push_char;
use vstd::prelude::*;

verus! {

broadcast use vstd::seq_lib::group_to_multiset_ensures;

/// How many standard 52-card decks go into one shoe.
pub const DECKS_PER_SHOE: u32 = 6;

/// A playing card: `id / 13` is the suit, `id % 13` the rank (0 is the ace,
/// 10, 11 and 12 the faces).
#[derive(Clone, Copy)]
pub struct Card {
    id: u8,
}

impl View for Card {
    type V = u8;

    closed spec fn view(&self) -> u8 {
        self.id
    }
}

/// Whether a card holds one of the 52 ids of a standard deck.
pub open spec fn card_valid(c: Card) -> bool {
    c@ < 52
}

/// The glyph of the card with the given id in the Unicode playing-cards block
/// (suit 0 from the hearts row, 1 diamonds, 2 spades, 3 clubs; rank `r` is the
/// `r`-th glyph of its row), or `'0'` for an id outside the deck.
pub open spec fn card_glyph(id: u8) -> char {
    let number = (id % 13) as u32;
    let suit = id / 13;
    if suit == 0 {
        (0x1F0B1u32 + number) as char
    } else if suit == 1 {
        (0x1F0C1u32 + number) as char
    } else if suit == 2 {
        (0x1F0A1u32 + number) as char
    } else if suit == 3 {
        (0x1F0D1u32 + number) as char
    } else {
        '0'
    }
}

/// Whether `x` is a Unicode scalar value, the values `char` can hold.
pub open spec fn is_scalar_value(x: u32) -> bool {
    x <= 0xD7FF || (0xE000 <= x && x <= 0x10FFFF)
}

/// std's `char::from_u32`: the character with code point `x` when `x` is a
/// Unicode scalar value, else `None`.
#[verifier::external_body]
fn char_from_u32(x: u32) -> (r: Option<char>)
    ensures
        is_scalar_value(x) ==> r == Some(x as char),
        !is_scalar_value(x) ==> r is None,
{
    char::from_u32(x)
}

/// The unshuffled shoe: six decks, card `i` having id `i % 52`.
pub closed spec fn shoe() -> Seq<Card> {
    Seq::new(312, |i: int| Card { id: (i % 52) as u8 })
}

/// What the unshuffled shoe holds.
pub proof fn lemma_shoe()
    ensures
        shoe().len() == 312,
        forall|i: int| 0 <= i < 312 ==> (#[trigger] shoe()[i])@ == i % 52,
{
}

impl Card {
    /// The card with id `id % 52`.
    pub fn new(id: u32) -> (c: Card)
        ensures
            c@ == id % 52,
            card_valid(c),
    {
        Card { id: (id % 52) as u8 }
    }

    /// The card's id.
    pub fn id(&self) -> (r: u8)
        ensures
            r == self@,
    {
        self.id
    }

    /// The card's rank: 0 for the ace, 1 to 9 for two to ten, 10 to 12 for the faces.
    pub fn number(&self) -> (r: u32)
        ensures
            r == self@ % 13,
    {
        (self.id % 13) as u32
    }

    /// The card as a one-character string: its playing-card glyph.
    pub fn to_string(&self) -> (s: String)
        ensures
            s@ == seq![card_glyph(self@)],
    {
        let number: u32 = (self.id % 13) as u32;
        let suit: u8 = self.id / 13;
        let glyph = if suit == 0 {
            char_from_u32(0x1F0B1u32 + number)
        } else if suit == 1 {
            char_from_u32(0x1F0C1u32 + number)
        } else if suit == 2 {
            char_from_u32(0x1F0A1u32 + number)
        } else if suit == 3 {
            char_from_u32(0x1F0D1u32 + number)
        } else {
            None
        };
        let c = match glyph {
            Some(c) => c,
            None => '0',
        };
        let mut s = String::new();
        push_char(&mut s, c);
        assert(s@ =~= seq![card_glyph(self@)]);
        s
    }

    /// The six unshuffled decks in order.
    pub fn new_shoe() -> (deck: Vec<Card>)
        ensures
            deck@ == shoe(),
    {
        let mut deck: Vec<Card> = Vec::new();
        let mut n: u32 = 0;
        while n < 52 * DECKS_PER_SHOE
            invariant
                n <= 312,
                deck@ =~= shoe().take(n as int),
            decreases 312 - n,
        {
            deck.push(Card::new(n % 52));
            n = n + 1;
        }
        deck
    }

    /// A freshly shuffled shoe of six decks.
    pub fn create_deck() -> (deck: Vec<Card>)
        ensures
            deck@.len() == 312,
            deck@.to_multiset() == shoe().to_multiset(),
    {
        let mut deck = Card::new_shoe();
        let mut rng = thread_rng();
        shuffle(&mut deck, &mut rng);
        proof {
            deck@.to_multiset_ensures();
            shoe().to_multiset_ensures();
        }
        deck
    }
}


/// How many of the first `n` positions of the shoe hold the card with id `id`.
spec fn positions_with(n: nat, id: int) -> nat
    decreases n,
{
    if n == 0 {
        0
    } else {
        positions_with((n - 1) as nat, id) + if (n - 1) % 52 == id {
            1nat
        } else {
            0nat
        }
    }
}

proof fn lemma_positions_per_deck(k: nat, m: nat, id: int)
    requires
        0 <= id < 52,
        m <= 52,
    ensures
        positions_with(52 * k + m, id) == k + if m > id {
            1nat
        } else {
            0nat
        },
    decreases k, m,
{
    if m == 0 {
        if k > 0 {
            lemma_positions_per_deck((k - 1) as nat, 52, id);
            assert(52 * k + m == 52 * ((k - 1) as nat) + 52);
        }
    } else {
        lemma_positions_per_deck(k, (m - 1) as nat, id);
        let j = m - 1;
        assert((52 * k + j) % 52 == j) by (nonlinear_arith)
            requires
                0 <= j < 52,
        ;
        assert(52 * k + m - 1 == 52 * k + j);
    }
}

proof fn lemma_shoe_prefix_count(n: nat, c: Card)
    requires
        n <= 312,
    ensures
        shoe().take(n as int).to_multiset().count(c) == positions_with(n, c@ as int),
    decreases n,
{
    if n > 0 {
        lemma_shoe_prefix_count((n - 1) as nat, c);
        let x = shoe()[n - 1];
        assert(shoe().take(n as int) =~= shoe().take(n - 1).push(x));
        assert(x == c <==> (n - 1) % 52 == c@);
    } else {
        assert(shoe().take(0) =~= Seq::<Card>::empty());
        vstd::multiset::lemma_multiset_empty_len(Seq::<Card>::empty().to_multiset());
    }
}

/// A shoe is six full decks: each of the 52 cards is in it exactly six times,
/// and nothing else is.
pub proof fn law_six_of_each(c: Card)
    ensures
        card_valid(c) ==> shoe().to_multiset().count(c) == DECKS_PER_SHOE,
        !card_valid(c) ==> shoe().to_multiset().count(c) == 0,
{
    lemma_shoe_prefix_count(312, c);
    assert(shoe().take(312) =~= shoe());
    if card_valid(c) {
        lemma_positions_per_deck(6, 0, c@ as int);
    } else {
        lemma_no_positions(312, c@ as int);
    }
}

proof fn lemma_no_positions(n: nat, id: int)
    requires
        id >= 52,
    ensures
        positions_with(n, id) == 0,
    decreases n,
{
    if n > 0 {
        lemma_no_positions((n - 1) as nat, id);
    }
}

} // verus!
