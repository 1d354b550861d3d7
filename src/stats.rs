use vstd::prelude::*;

use crate::category::Category;
use crate::text::{spells_ignoring_case, spells_word_ignoring_case, trim_text, trimmed};

verus! {

/// Cards in the hand before the first turn.
pub const OPENING_HAND_SIZE: u64 = 7;

/// Cards in a commander deck once the commander is set aside.
pub const COMMANDER_DECK_SIZE: u64 = 99;

/// The falling factorial `a·(a-1)·…·(a-k+1)`: the number of ordered ways to
/// pick `k` cards out of `a`. It is zero when `k > a`.
pub open spec fn falling(a: nat, k: nat) -> nat
    decreases k,
{
    if k == 0 {
        1
    } else if a == 0 {
        0
    } else {
        a * falling((a - 1) as nat, (k - 1) as nat)
    }
}

/// The chance of having drawn at least one of `category_size` cards after
/// `drawn` cards of a shuffled deck of `deck_size`:
/// `1 - falling(deck_size - drawn, category_size) / falling(deck_size, category_size)`.
///
/// It is kept as these three integers, so that the ratio is exact; `hit_count`
/// over `outcome_count` is its value.
#[derive(Clone, Copy, Debug, PartialEq, Eq, Structural)]
pub struct HitChance {
    pub deck_size: u64,
    pub category_size: u64,
    pub drawn: u64,
}

impl HitChance {
    pub open spec fn wf(self) -> bool {
        &&& self.category_size <= self.deck_size
        &&& self.drawn <= self.deck_size
    }

    /// Ordered draws of the category's size that miss the category, out of
    /// the cards left after `drawn`.
    pub open spec fn miss_count(self) -> nat {
        falling((self.deck_size - self.drawn) as nat, self.category_size as nat)
    }

    /// All ordered draws of the category's size out of the whole deck.
    pub open spec fn outcome_count(self) -> nat {
        falling(self.deck_size as nat, self.category_size as nat)
    }

    /// The numerator of the chance, over `outcome_count`.
    pub open spec fn hit_count(self) -> int {
        self.outcome_count() - self.miss_count()
    }

    /// `hit_count` and `outcome_count`, where both fit in 128 bits. They
    /// often do not: in a deck of 99 cards, a category of 20 or more cards
    /// already gives `None`.
    pub fn counts(&self) -> (r: Option<(u128, u128)>)
        requires
            self.wf(),
        ensures
            r matches Some((hits, outcomes)) ==> hits == self.hit_count() && outcomes
                == self.outcome_count(),
            r is None ==> self.outcome_count() > u128::MAX,
    {
        proof {
            lemma_falling_mono(
                (self.deck_size - self.drawn) as nat,
                self.deck_size as nat,
                self.category_size as nat,
            );
        }
        match falling_factorial(self.deck_size, self.category_size) {
            None => None,
            Some(outcomes) => match falling_factorial(self.deck_size - self.drawn, self.category_size) {
                Some(misses) => Some((outcomes - misses, outcomes)),
                None => None,
            },
        }
    }

    /// At least one card of the category has been drawn for certain.
    pub fn is_certain(&self) -> (r: bool)
        requires
            self.wf(),
        ensures
            r == (self.miss_count() == 0),
    {
        proof {
            lemma_falling_zero_iff((self.deck_size - self.drawn) as nat, self.category_size as nat);
        }
        self.category_size > self.deck_size - self.drawn
    }

    /// No card of the category can have been drawn.
    pub fn is_impossible(&self) -> (r: bool)
        requires
            self.wf(),
        ensures
            r == (self.hit_count() == 0),
    {
        proof {
            lemma_falling_mono(
                (self.deck_size - self.drawn) as nat,
                self.deck_size as nat,
                self.category_size as nat,
            );
            lemma_falling_zero_iff(self.deck_size as nat, self.category_size as nat);
            if self.category_size > 0 && self.drawn > 0 {
                lemma_falling_strict(
                    (self.deck_size - self.drawn) as nat,
                    self.deck_size as nat,
                    self.category_size as nat,
                );
            }
        }
        self.category_size == 0 || self.drawn == 0
    }
}

/// The first `i` factors of a falling factorial times the rest.
pub proof fn lemma_falling_split(a: nat, i: nat, j: nat)
    requires
        i <= a,
    ensures
        falling(a, i + j) == falling(a, i) * falling((a - i) as nat, j),
    decreases i,
{
    if i > 0 {
        lemma_falling_split((a - 1) as nat, (i - 1) as nat, j);
        let f = falling((a - 1) as nat, (i - 1) as nat);
        let g = falling((a - i) as nat, j);
        assert(((a - 1) as nat - (i - 1) as nat) as nat == (a - i) as nat);
        assert(falling(a, i + j) == a * falling((a - 1) as nat, ((i - 1) as nat + j) as nat));
        assert(falling(a, i) == a * f);
        assert(falling((a - 1) as nat, ((i - 1) as nat + j) as nat) == f * g);
        assert(a * (f * g) == (a * f) * g) by (nonlinear_arith);
    } else {
        assert((i + j) as nat == j);
        assert(1 * falling(a, j) == falling(a, j));
    }
}

/// `falling(a, k)`, counted exactly where it fits in 128 bits.
pub fn falling_factorial(a: u64, k: u64) -> (r: Option<u128>)
    ensures
        r matches Some(v) ==> v == falling(a as nat, k as nat),
        r is None ==> falling(a as nat, k as nat) > u128::MAX,
{
    if k > a {
        proof {
            lemma_falling_zero_iff(a as nat, k as nat);
        }
        return Some(0);
    }
    let mut res: u128 = 1;
    let mut i: u64 = 0;
    while i < k
        invariant
            i <= k <= a,
            res == falling(a as nat, i as nat),
        decreases k - i,
    {
        proof {
            lemma_falling_split(a as nat, i as nat, 1);
            lemma_falling_split(a as nat, (i + 1) as nat, (k - i - 1) as nat);
            lemma_falling_zero_iff((a - i - 1) as nat, (k - i - 1) as nat);
            let top = (a - i) as nat;
            assert(falling((top - 1) as nat, 0) == 1);
            assert(falling(top, 1) == top * falling((top - 1) as nat, 0));
            assert(falling(top, 1) == top);
        }
        match res.checked_mul((a - i) as u128) {
            Some(v) => {
                res = v;
            },
            None => {
                proof {
                    let p = falling(a as nat, (i + 1) as nat);
                    let q = falling((a - i - 1) as nat, (k - i - 1) as nat);
                    assert(p * q >= p) by (nonlinear_arith)
                        requires
                            q >= 1,
                    ;
                }
                return None;
            },
        }
        i = i + 1;
    }
    Some(res)
}

/// `falling(a, k)` is zero exactly when `k > a`.
pub proof fn lemma_falling_zero_iff(a: nat, k: nat)
    ensures
        (falling(a, k) == 0) == (k > a),
    decreases k,
{
    if k > 0 && a > 0 {
        lemma_falling_zero_iff((a - 1) as nat, (k - 1) as nat);
        if falling((a - 1) as nat, (k - 1) as nat) > 0 {
            assert(a * falling((a - 1) as nat, (k - 1) as nat) > 0) by (nonlinear_arith)
                requires
                    a > 0,
                    falling((a - 1) as nat, (k - 1) as nat) > 0,
            ;
        }
    }
}

/// Fewer cards give no more ordered draws.
pub proof fn lemma_falling_mono(a: nat, b: nat, k: nat)
    requires
        a <= b,
    ensures
        falling(a, k) <= falling(b, k),
    decreases k,
{
    if k > 0 && a > 0 {
        lemma_falling_mono((a - 1) as nat, (b - 1) as nat, (k - 1) as nat);
        let fa = falling((a - 1) as nat, (k - 1) as nat);
        let fb = falling((b - 1) as nat, (k - 1) as nat);
        assert(a * fa <= b * fb) by (nonlinear_arith)
            requires
                a <= b,
                fa <= fb,
        ;
    }
}

/// With some draws to make and room in the larger pile, fewer cards give
/// strictly fewer ordered draws.
pub proof fn lemma_falling_strict(a: nat, b: nat, k: nat)
    requires
        a < b,
        0 < k <= b,
    ensures
        falling(a, k) < falling(b, k),
    decreases k,
{
    lemma_falling_zero_iff((b - 1) as nat, (k - 1) as nat);
    let fb = falling((b - 1) as nat, (k - 1) as nat);
    if a == 0 {
        assert(b * fb > 0) by (nonlinear_arith)
            requires
                b > 0,
                fb > 0,
        ;
    } else {
        let fa = falling((a - 1) as nat, (k - 1) as nat);
        lemma_falling_mono((a - 1) as nat, (b - 1) as nat, (k - 1) as nat);
        assert(a * fa < b * fb) by (nonlinear_arith)
            requires
                a < b,
                fa <= fb,
                fb > 0,
        ;
    }
}

/// The opening hand, the horizon of `turns` turns and the category all fit
/// in the deck.
pub open spec fn feasible(category_size: nat, deck_size: nat, opening_hand: nat, turns: nat) -> bool {
    &&& turns + opening_hand <= deck_size
    &&& category_size <= deck_size
}

/// One chance per turn, from the opening hand (turn 0) to turn `turns`; none
/// when the horizon or the category does not fit in the deck.
pub open spec fn turn_chances(
    category_size: u64,
    deck_size: u64,
    opening_hand: u64,
    turns: u64,
) -> Seq<HitChance> {
    if feasible(category_size as nat, deck_size as nat, opening_hand as nat, turns as nat) {
        Seq::new(
            (turns + 1) as nat,
            |t: int| HitChance { deck_size, category_size, drawn: (opening_hand + t) as u64 },
        )
    } else {
        Seq::empty()
    }
}

/// The chance of a hit in the category by each turn up to `until_turn`, with
/// an opening hand of `opening_hand_size` cards and one card drawn per turn.
pub fn compute_hit_chances(
    cat_size: u64,
    deck_size: u64,
    opening_hand_size: u64,
    until_turn: u64,
) -> (r: Vec<HitChance>)
    ensures
        r@ == turn_chances(cat_size, deck_size, opening_hand_size, until_turn),
{
    if deck_size < opening_hand_size || until_turn > deck_size - opening_hand_size
        || cat_size > deck_size {
        Vec::new()
    } else {
        let mut turns: Vec<HitChance> = Vec::new();
        turns.push(HitChance { deck_size, category_size: cat_size, drawn: opening_hand_size });
        let mut t: u64 = 0;
        while t < until_turn
            invariant
                t <= until_turn,
                until_turn + opening_hand_size <= deck_size,
                cat_size <= deck_size,
                turns@ =~= turn_chances(cat_size, deck_size, opening_hand_size, until_turn).take(
                    t + 1,
                ),
            decreases until_turn - t,
        {
            t = t + 1;
            turns.push(
                HitChance { deck_size, category_size: cat_size, drawn: opening_hand_size + t },
            );
        }
        assert(turns@ =~= turn_chances(cat_size, deck_size, opening_hand_size, until_turn));
        turns
    }
}

/// The chance of a hit in the category by each turn up to `until_turn`, from
/// the usual opening hand of seven cards.
pub fn calculate_turns(cat_size: u64, deck_size: u64, until_turn: u64) -> (r: Vec<HitChance>)
    ensures
        r@ == turn_chances(cat_size, deck_size, OPENING_HAND_SIZE, until_turn),
{
    compute_hit_chances(cat_size, deck_size, OPENING_HAND_SIZE, until_turn)
}

/// With an empty category nothing can be hit: on every turn of a horizon
/// that fits in the deck the chance is exactly zero.
pub proof fn lemma_empty_category_never_hits(deck_size: u64, hand: u64, turns: u64)
    requires
        turns + hand <= deck_size,
    ensures
        turn_chances(0, deck_size, hand, turns).len() == turns + 1,
        forall|i: int|
            0 <= i < turns + 1 ==> #[trigger] turn_chances(0, deck_size, hand, turns)[i].hit_count() == 0,
{
    assert forall|i: int| 0 <= i < turns + 1 implies #[trigger] turn_chances(0, deck_size, hand, turns)[i].hit_count() == 0 by {
        let c = turn_chances(0, deck_size, hand, turns)[i];
        assert(c.miss_count() == 1 && c.outcome_count() == 1);
    }
}

/// When every card of the deck is in the category, the opening hand already
/// holds one, as long as it holds any card: every chance of a horizon that
/// fits is exactly one.
pub proof fn lemma_full_category_always_hits(deck_size: u64, hand: u64, turns: u64)
    requires
        turns + hand <= deck_size,
        hand > 0,
    ensures
        turn_chances(deck_size, deck_size, hand, turns).len() == turns + 1,
        forall|i: int|
            0 <= i < turns + 1 ==> {
                let c = #[trigger] turn_chances(deck_size, deck_size, hand, turns)[i];
                &&& c.outcome_count() > 0
                &&& c.hit_count() == c.outcome_count()
            },
{
    assert forall|i: int| 0 <= i < turns + 1 implies {
        let c = #[trigger] turn_chances(deck_size, deck_size, hand, turns)[i];
        &&& c.outcome_count() > 0
        &&& c.hit_count() == c.outcome_count()
    } by {
        let c = turn_chances(deck_size, deck_size, hand, turns)[i];
        lemma_falling_zero_iff(deck_size as nat, deck_size as nat);
        lemma_falling_zero_iff((deck_size - c.drawn) as nat, deck_size as nat);
    }
}

/// Every chance lies between zero and one: its numerator lies between zero
/// and its denominator, which is positive.
pub proof fn lemma_chances_in_unit_range(cat_size: u64, deck_size: u64, hand: u64, turns: u64)
    ensures
        forall|i: int|
            0 <= i < turn_chances(cat_size, deck_size, hand, turns).len() ==> {
                let c = #[trigger] turn_chances(cat_size, deck_size, hand, turns)[i];
                &&& c.wf()
                &&& c.outcome_count() > 0
                &&& 0 <= c.hit_count() <= c.outcome_count()
            },
{
    assert forall|i: int| 0 <= i < turn_chances(cat_size, deck_size, hand, turns).len() implies {
        let c = #[trigger] turn_chances(cat_size, deck_size, hand, turns)[i];
        &&& c.wf()
        &&& c.outcome_count() > 0
        &&& 0 <= c.hit_count() <= c.outcome_count()
    } by {
        let c = turn_chances(cat_size, deck_size, hand, turns)[i];
        lemma_falling_zero_iff(deck_size as nat, cat_size as nat);
        lemma_falling_mono((deck_size - c.drawn) as nat, deck_size as nat, cat_size as nat);
    }
}

/// The chances never decrease from one turn to a later one; all of them share
/// one denominator, so their numerators are compared.
pub proof fn lemma_chances_non_decreasing(cat_size: u64, deck_size: u64, hand: u64, turns: u64)
    ensures
        forall|i: int, j: int|
            0 <= i <= j < turn_chances(cat_size, deck_size, hand, turns).len() ==> {
                let a = #[trigger] turn_chances(cat_size, deck_size, hand, turns)[i];
                let b = #[trigger] turn_chances(cat_size, deck_size, hand, turns)[j];
                &&& a.outcome_count() == b.outcome_count()
                &&& a.hit_count() <= b.hit_count()
            },
{
    assert forall|i: int, j: int|
        0 <= i <= j < turn_chances(cat_size, deck_size, hand, turns).len() implies {
        let a = #[trigger] turn_chances(cat_size, deck_size, hand, turns)[i];
        let b = #[trigger] turn_chances(cat_size, deck_size, hand, turns)[j];
        &&& a.outcome_count() == b.outcome_count()
        &&& a.hit_count() <= b.hit_count()
    } by {
        let a = turn_chances(cat_size, deck_size, hand, turns)[i];
        let b = turn_chances(cat_size, deck_size, hand, turns)[j];
        lemma_falling_mono((deck_size - b.drawn) as nat, (deck_size - a.drawn) as nat, cat_size as nat);
    }
}

/// Outside the deck's bounds the engine computes nothing.
pub proof fn lemma_infeasible_is_empty(cat_size: u64, deck_size: u64, hand: u64, turns: u64)
    requires
        turns + hand > deck_size || cat_size > deck_size,
    ensures
        turn_chances(cat_size, deck_size, hand, turns).len() == 0,
{
}

/// The engine is a function of its inputs: two results of the same inputs are
/// the same chances.
pub proof fn lemma_same_inputs_same_chances(
    cat_size: u64,
    deck_size: u64,
    hand: u64,
    turns: u64,
    first: Seq<HitChance>,
    second: Seq<HitChance>,
)
    requires
        first == turn_chances(cat_size, deck_size, hand, turns),
        second == turn_chances(cat_size, deck_size, hand, turns),
    ensures
        first == second,
{
}

/// The chances of one category, turn by turn, under its name.
pub struct CategoryStats {
    pub name: String,
    pub turns: Vec<HitChance>,
}

/// One entry per category, in the order of the categories.
pub type TurnStats = Vec<CategoryStats>;

/// `stats` holds, in order, each category's name and its chances in a deck of
/// `deck_size` over `turns` turns.
pub open spec fn stats_match(
    stats: Seq<CategoryStats>,
    categories: Seq<Category>,
    deck_size: u64,
    turns: u64,
) -> bool {
    &&& stats.len() == categories.len()
    &&& forall|i: int|
        0 <= i < stats.len() ==> {
            &&& (#[trigger] stats[i]).name@ == categories[i].name@
            &&& stats[i].turns@ == turn_chances(categories[i].size, deck_size, OPENING_HAND_SIZE, turns)
        }
}

/// The chances of every category of a commander deck.
pub fn commander_with_categories(categories: &[Category], until_turn: u64) -> (r: TurnStats)
    ensures
        stats_match(r@, categories@, COMMANDER_DECK_SIZE, until_turn),
{
    let mut out: TurnStats = Vec::new();
    let mut i: usize = 0;
    while i < categories.len()
        invariant
            i <= categories@.len(),
            stats_match(out@, categories@.take(i as int), COMMANDER_DECK_SIZE, until_turn),
        decreases categories@.len() - i,
    {
        let category = &categories[i];
        let turns = calculate_turns(category.size, COMMANDER_DECK_SIZE, until_turn);
        out.push(CategoryStats { name: category.name.clone(), turns });
        i = i + 1;
        assert(categories@.take(i as int).drop_last() =~= categories@.take(i - 1));
    }
    assert(categories@.take(i as int) =~= categories@);
    out
}

/// A kind of game, which fixes the deck's size.
#[derive(Clone, Copy, Debug, PartialEq, Eq, Structural)]
pub enum GameFormat {
    Commander,
    Standard,
}

/// A text that names no game format.
#[derive(Debug)]
pub enum GameFormatParseError {
    UnknownFormat { format: String },
}

/// A format whose odds this library does not compute.
#[derive(Clone, Copy, Debug, PartialEq, Eq, Structural)]
pub enum StatsError {
    UnsupportedFormat { format: GameFormat },
}

/// "commander" or "edh", in any case of ASCII letters.
pub open spec fn names_commander(t: Seq<char>) -> bool {
    spells_ignoring_case(t, "commander"@) || spells_ignoring_case(t, "edh"@)
}

/// "standard" or "modern", in any case of ASCII letters.
pub open spec fn names_standard(t: Seq<char>) -> bool {
    spells_ignoring_case(t, "standard"@) || spells_ignoring_case(t, "modern"@)
}

impl GameFormat {
    /// Reads a format's name, white space around it aside: "commander" or
    /// "edh", "standard" or "modern", in upper or lower case.
    pub fn parse(s: &str) -> (r: Result<GameFormat, GameFormatParseError>)
        ensures
            names_commander(trimmed(s@)) ==> r == Ok::<GameFormat, GameFormatParseError>(
                GameFormat::Commander,
            ),
            names_standard(trimmed(s@)) ==> r == Ok::<GameFormat, GameFormatParseError>(
                GameFormat::Standard,
            ),
            !names_commander(trimmed(s@)) && !names_standard(trimmed(s@)) ==> match r {
                Err(GameFormatParseError::UnknownFormat { format }) => format@ == trimmed(s@),
                Ok(_) => false,
            },
    {
        let t = trim_text(s);
        GameFormat::from_name(t.as_str())
    }

    /// Reads a format's name that has no white space around it.
    pub fn from_name(t: &str) -> (r: Result<GameFormat, GameFormatParseError>)
        ensures
            names_commander(t@) ==> r == Ok::<GameFormat, GameFormatParseError>(
                GameFormat::Commander,
            ),
            names_standard(t@) ==> r == Ok::<GameFormat, GameFormatParseError>(
                GameFormat::Standard,
            ),
            !names_commander(t@) && !names_standard(t@) ==> match r {
                Err(GameFormatParseError::UnknownFormat { format }) => format@ == t@,
                Ok(_) => false,
            },
    {
        proof {
            reveal_strlit("commander");
            reveal_strlit("edh");
            reveal_strlit("standard");
            reveal_strlit("modern");
            assert("commander"@.len() == 9 && "edh"@.len() == 3);
            assert("standard"@.len() == 8 && "modern"@.len() == 6);
        }
        if spells_word_ignoring_case(t, "commander") || spells_word_ignoring_case(t, "edh") {
            Ok(GameFormat::Commander)
        } else if spells_word_ignoring_case(t, "standard") || spells_word_ignoring_case(
            t,
            "modern",
        ) {
            Ok(GameFormat::Standard)
        } else {
            Err(GameFormatParseError::UnknownFormat { format: String::from_str(t) })
        }
    }

    /// The deck's size in this format, where its odds are computed.
    pub fn deck_size(&self) -> (r: Option<u64>)
        ensures
            r == (match self {
                GameFormat::Commander => Some(COMMANDER_DECK_SIZE),
                GameFormat::Standard => None::<u64>,
            }),
    {
        match self {
            GameFormat::Commander => Some(COMMANDER_DECK_SIZE),
            GameFormat::Standard => None,
        }
    }

    /// The chances of every category by each turn up to `turns`, in the
    /// categories' order.
    pub fn stats(&self, categories: &[Category], turns: u64) -> (r: Result<TurnStats, StatsError>)
        ensures
            *self == GameFormat::Commander ==> (r matches Ok(s) && stats_match(
                s@,
                categories@,
                COMMANDER_DECK_SIZE,
                turns,
            )),
            *self == GameFormat::Standard ==> r == Err::<TurnStats, StatsError>(
                StatsError::UnsupportedFormat { format: GameFormat::Standard },
            ),
    {
        match self {
            GameFormat::Commander => Ok(commander_with_categories(categories, turns)),
            GameFormat::Standard => Err(StatsError::UnsupportedFormat { format: GameFormat::Standard }),
        }
    }
}

impl std::str::FromStr for GameFormat {
    type Err = GameFormatParseError;

    fn from_str(s: &str) -> (r: Result<GameFormat, GameFormatParseError>)
        ensures
            names_commander(trimmed(s@)) ==> r == Ok::<GameFormat, GameFormatParseError>(
                GameFormat::Commander,
            ),
            names_standard(trimmed(s@)) ==> r == Ok::<GameFormat, GameFormatParseError>(
                GameFormat::Standard,
            ),
            !names_commander(trimmed(s@)) && !names_standard(trimmed(s@)) ==> match r {
                Err(GameFormatParseError::UnknownFormat { format }) => format@ == trimmed(s@),
                Ok(_) => false,
            },
    {
        GameFormat::parse(s)
    }
}

} // verus!
