//! The state of one round and the rules by which it moves.

use crate::cards::{can_draw, copy_names, draw_card, draw_failure, has_repeats, is_draw_of};
use crate::dice::{dice_faces, roll_dice};
use crate::error::GameError;
use vstd::prelude::*;

verus! {

/// How many categories a card holds.
pub const CARD_SIZE: u32 = 6;

/// Where a round stands, as told by which parts of its state are set.
#[derive(Clone, Copy, Debug, PartialEq, Eq, Structural)]
pub enum Phase {
    /// No letter has been rolled and no card is in play.
    Empty,
    /// The letter is known; the card has not been drawn.
    LetterAssigned,
    /// A card has been drawn.
    Active,
}

/// The round as a mathematical value.
pub struct RoundView {
    /// Seconds left on the countdown; `None` until the timer is started.
    pub remaining_seconds: Option<nat>,
    /// The letter of the round; `None` until it is rolled.
    pub letter: Option<char>,
    /// The card as drawn.
    pub full_card: Option<Seq<Seq<char>>>,
    /// The categories of the card that are still open.
    pub active_card: Option<Seq<Seq<char>>>,
    /// The category being played.
    pub current_category: Option<Seq<char>>,
    /// The place of the current category on the active card.
    pub current_index: Option<nat>,
}

/// `at` places `part` inside `whole`: entry `k` of `part` is entry `at[k]` of
/// `whole`, and the places rise.
pub open spec fn embeds(at: Seq<int>, part: Seq<Seq<char>>, whole: Seq<Seq<char>>) -> bool {
    &&& at.len() == part.len()
    &&& forall|k: int|
        0 <= k < at.len() ==> 0 <= #[trigger] at[k] < whole.len() && whole[at[k]] == part[k]
    &&& forall|j: int, k: int| 0 <= j < k < at.len() ==> at[j] < at[k]
}

/// `part` is what is left of `whole` after some entries were taken out.
pub open spec fn is_subsequence(part: Seq<Seq<char>>, whole: Seq<Seq<char>>) -> bool {
    exists|at: Seq<int>| embeds(at, part, whole)
}

impl RoundView {
    /// The round before anything has happened.
    pub open spec fn empty() -> RoundView {
        RoundView {
            remaining_seconds: None,
            letter: None,
            full_card: None,
            active_card: None,
            current_category: None,
            current_index: None,
        }
    }

    pub open spec fn phase(self) -> Phase {
        if self.full_card is Some {
            Phase::Active
        } else if self.letter is Some {
            Phase::LetterAssigned
        } else {
            Phase::Empty
        }
    }

    /// A card has been drawn.
    pub open spec fn is_active(self) -> bool {
        self.full_card is Some
    }

    /// Every category of the card has been solved.
    pub open spec fn is_complete(self) -> bool {
        self.active_card is Some && self.active_card->0.len() == 0
    }

    /// The invariant of a round. Without a card there is no active card, no
    /// current category and no index. A card names no category twice, and its
    /// active card is what is left of it. While the active card has entries,
    /// the index points at one of them, and that is the current category.
    pub open spec fn wf(self) -> bool {
        match self.full_card {
            None => self.active_card is None && self.current_category is None
                && self.current_index is None,
            Some(full) => {
                &&& full.no_duplicates()
                &&& self.active_card is Some
                &&& is_subsequence(self.active_card->0, full)
                &&& self.active_card->0.len() > 0 ==> {
                    &&& self.current_index is Some
                    &&& self.current_index->0 < self.active_card->0.len()
                    &&& self.current_category == Some(
                        self.active_card->0[self.current_index->0 as int],
                    )
                }
            },
        }
    }

    /// The round after a roll that showed `rolled`: a round that has its
    /// letter keeps it and everything else; otherwise the round starts over
    /// with `rolled` as its letter.
    pub open spec fn with_letter(self, rolled: char) -> RoundView {
        if self.letter is Some {
            self
        } else {
            RoundView { letter: Some(rolled), ..RoundView::empty() }
        }
    }

    /// The round after `card` was drawn and the countdown set to `timeout`:
    /// the whole card is open and its first category is played.
    pub open spec fn begin(self, card: Seq<Seq<char>>, timeout: nat) -> RoundView
        recommends
            card.len() > 0,
    {
        RoundView {
            remaining_seconds: Some(timeout),
            letter: self.letter,
            full_card: Some(card),
            active_card: Some(card),
            current_category: Some(card[0]),
            current_index: Some(0),
        }
    }

    /// The round after the current category was solved. It leaves the active
    /// card. The index stays where the next category has moved up, steps back
    /// to the new last entry where the solved one was last, and is 0 on a card
    /// that has become empty, whose current category is the empty name.
    pub open spec fn succeed(self) -> RoundView
        recommends
            self.wf(),
            self.is_active(),
            !self.is_complete(),
    {
        let solved = self.current_index->0 as int;
        let rest = self.active_card->0.remove(solved);
        let index: nat = if solved < rest.len() {
            solved as nat
        } else if rest.len() > 0 {
            (solved - 1) as nat
        } else {
            0
        };
        RoundView {
            active_card: Some(rest),
            current_index: Some(index),
            current_category: Some(
                if rest.len() > 0 {
                    rest[index as int]
                } else {
                    Seq::empty()
                },
            ),
            ..self
        }
    }

    /// The round after the current category was passed over: the index moves
    /// on by one, and from the last entry back to the first.
    pub open spec fn next(self) -> RoundView
        recommends
            self.wf(),
            self.is_active(),
            !self.is_complete(),
    {
        let card = self.active_card->0;
        let index: nat = if self.current_index->0 == card.len() - 1 {
            0
        } else {
            self.current_index->0 + 1
        };
        RoundView {
            current_index: Some(index),
            current_category: Some(card[index as int]),
            ..self
        }
    }

    /// The round after an outcome was reported.
    pub open spec fn progress(self, success: bool) -> RoundView
        recommends
            self.wf(),
            self.is_active(),
            !self.is_complete(),
    {
        if success {
            self.succeed()
        } else {
            self.next()
        }
    }

    /// The round one second later: a countdown above zero loses a second,
    /// one at zero or not started stays.
    pub open spec fn tick(self) -> RoundView {
        match self.remaining_seconds {
            Some(seconds) if seconds > 0 => RoundView {
                remaining_seconds: Some((seconds - 1) as nat),
                ..self
            },
            _ => self,
        }
    }

    /// The round `count` seconds later.
    pub open spec fn ticks(self, count: nat) -> RoundView
        decreases count,
    {
        if count == 0 {
            self
        } else {
            self.tick().ticks((count - 1) as nat)
        }
    }

    /// The round after `count` categories in a row were passed over.
    pub open spec fn nexts(self, count: nat) -> RoundView
        decreases count,
    {
        if count == 0 {
            self
        } else {
            self.next().nexts((count - 1) as nat)
        }
    }
}

/// The names on a card that may not have been drawn yet.
pub open spec fn card_view(card: Option<Vec<String>>) -> Option<Seq<Seq<char>>> {
    match card {
        Some(names) => Some(names.deep_view()),
        None => None,
    }
}

/// State of a round, cleared before each new round.
#[derive(Clone, Debug, PartialEq, Eq)]
pub struct RoundState {
    pub timeout: Option<u32>,
    pub letter: Option<char>,
    pub reduced_card: Option<Vec<String>>,
    pub complete_card: Option<Vec<String>>,
    pub category: Option<String>,
    pub current_index: Option<usize>,
}

impl View for RoundState {
    type V = RoundView;

    open spec fn view(&self) -> RoundView {
        RoundView {
            remaining_seconds: match self.timeout {
                Some(seconds) => Some(seconds as nat),
                None => None,
            },
            letter: self.letter,
            full_card: card_view(self.complete_card),
            active_card: card_view(self.reduced_card),
            current_category: match self.category {
                Some(name) => Some(name@),
                None => None,
            },
            current_index: match self.current_index {
                Some(index) => Some(index as nat),
                None => None,
            },
        }
    }
}

/// What a round showed when it ended.
#[derive(Clone, Debug, PartialEq, Eq)]
pub struct RoundResult {
    pub timeout: Option<u32>,
    pub letter: Option<char>,
    pub card: Option<Vec<String>>,
    pub rest: Option<Vec<String>>,
}

/// What a player's request carries: the countdown to start with, on the
/// request that begins the round, and the outcome of the current category on
/// those that follow.
#[derive(Clone, Copy, Debug, PartialEq, Eq, Structural)]
pub struct RoundInput {
    pub timeout: Option<u32>,
    pub success: Option<bool>,
}

/// The failure of a timer request on `round`, if it fails. A round in play
/// takes every request as an outcome. Before that, a request without a
/// countdown is an outcome that has no card to act on, and one with a
/// countdown fails where no card can be drawn from `categories`.
pub open spec fn timer_failure(
    round: RoundView,
    categories: Seq<Seq<char>>,
    input: RoundInput,
) -> Option<GameError> {
    if round.is_active() {
        None
    } else if input.timeout is None {
        Some(GameError::ProgressionWithoutActiveRound)
    } else if !can_draw(categories, CARD_SIZE as nat) {
        Some(draw_failure(categories, CARD_SIZE as nat))
    } else {
        None
    }
}

/// Whether `part` is what is left of `whole` after some names were taken out.
pub fn is_remainder(part: &Vec<String>, whole: &Vec<String>) -> (fits: bool)
    ensures
        fits == is_subsequence(part.deep_view(), whole.deep_view()),
{
    let ghost small = part.deep_view();
    let ghost large = whole.deep_view();
    let ghost mut places: Seq<int> = Seq::empty();
    let mut from: usize = 0;
    let mut at: usize = 0;
    while at < part.len()
        invariant
            small == part.deep_view(),
            large == whole.deep_view(),
            at <= part@.len(),
            from <= whole@.len(),
            embeds(places, small.take(at as int), large),
            at > 0 ==> places[at - 1] < from,
            at == 0 ==> from == 0,
            forall|other: Seq<int>| #[trigger]
                embeds(other, small, large) && at > 0 ==> from <= other[at - 1] + 1,
        decreases part@.len() - at,
    {
        let mut found = from;
        while found < whole.len() && whole[found] != part[at]
            invariant
                small == part.deep_view(),
                large == whole.deep_view(),
                at < part@.len(),
                from <= found <= whole@.len(),
                forall|i: int| from <= i < found ==> large[i] != small[at as int],
            decreases whole@.len() - found,
        {
            found += 1;
        }
        if found == whole.len() {
            proof {
                if is_subsequence(small, large) {
                    let other = choose|other: Seq<int>| embeds(other, small, large);
                    assert(other[at as int] < large.len());
                }
            }
            return false;
        }
        proof {
            places = places.push(found as int);
        }
        from = found + 1;
        at += 1;
    }
    proof {
        assert(small.take(at as int) =~= small);
    }
    true
}

impl RoundState {
    /// Create an empty RoundState
    pub fn empty() -> (state: RoundState)
        ensures
            state@ == RoundView::empty(),
            state == (RoundState {
                timeout: None,
                letter: None,
                reduced_card: None,
                complete_card: None,
                category: None,
                current_index: None,
            }),
    {
        Self::new(None, None, None, None, None, None)
    }

    /// Create a new RoundState with the given fields
    pub fn new(
        timeout: Option<u32>,
        letter: Option<char>,
        reduced_card: Option<Vec<String>>,
        complete_card: Option<Vec<String>>,
        category: Option<String>,
        current_index: Option<usize>,
    ) -> (state: RoundState)
        ensures
            state == (RoundState {
                timeout,
                letter,
                reduced_card,
                complete_card,
                category,
                current_index,
            }),
    {
        RoundState { timeout, letter, reduced_card, complete_card, category, current_index }
    }

    /// Update a RoundState with the given value
    pub fn update_timeout(&mut self, timeout: Option<u32>)
        ensures
            *final(self) == (RoundState { timeout, ..*old(self) }),
    {
        self.timeout = timeout;
    }

    pub fn update_letter(&mut self, letter: Option<char>)
        ensures
            *final(self) == (RoundState { letter, ..*old(self) }),
    {
        self.letter = letter;
    }

    pub fn update_reduced_card(&mut self, reduced_card: Option<Vec<String>>)
        ensures
            *final(self) == (RoundState { reduced_card, ..*old(self) }),
    {
        self.reduced_card = reduced_card;
    }

    pub fn update_complete_card(&mut self, complete_card: Option<Vec<String>>)
        ensures
            *final(self) == (RoundState { complete_card, ..*old(self) }),
    {
        self.complete_card = complete_card;
    }

    pub fn update_category(&mut self, category: Option<String>)
        ensures
            *final(self) == (RoundState { category, ..*old(self) }),
    {
        self.category = category;
    }

    pub fn update_current_index(&mut self, current_index: Option<usize>)
        ensures
            *final(self) == (RoundState { current_index, ..*old(self) }),
    {
        self.current_index = current_index;
    }

    /// Where the round stands.
    pub fn phase(&self) -> (phase: Phase)
        ensures
            phase == self@.phase(),
    {
        if self.complete_card.is_some() {
            Phase::Active
        } else if self.letter.is_some() {
            Phase::LetterAssigned
        } else {
            Phase::Empty
        }
    }

    /// One second passes.
    pub fn tick(&mut self)
        ensures
            final(self)@ == old(self)@.tick(),
            old(self)@.wf() ==> final(self)@.wf(),
    {
        match self.timeout {
            Some(seconds) => {
                if seconds > 0 {
                    self.update_timeout(Some(seconds - 1));
                }
            },
            None => {},
        }
    }

    /// Takes `rolled` as the letter of a new round, unless the round has its
    /// letter already.
    pub fn assign_letter(&mut self, rolled: char)
        ensures
            final(self)@ == old(self)@.with_letter(rolled),
            old(self)@.wf() ==> final(self)@.wf(),
    {
        if self.letter.is_none() {
            *self = RoundState::empty();
            self.update_letter(Some(rolled));
        }
    }

    /// Rolls the letter of the round. A round that has its letter keeps it,
    /// and the die is not rolled.
    pub fn roll_letter(&mut self) -> (letter: char)
        ensures
            final(self)@ == old(self)@.with_letter(letter),
            final(self)@.letter == Some(letter),
            old(self)@.letter is None ==> dice_faces().contains(letter),
            old(self)@.wf() ==> final(self)@.wf(),
    {
        match self.letter {
            Some(letter) => letter,
            None => {
                let letter = roll_dice();
                self.assign_letter(letter);
                letter
            },
        }
    }

    /// Puts `card` into play with `timeout` seconds on the countdown. A
    /// round gets its card once, and a card names no category twice.
    pub fn begin(&mut self, card: Vec<String>, timeout: u32)
        requires
            !old(self)@.is_active(),
            card@.len() > 0,
            card.deep_view().no_duplicates(),
        ensures
            final(self)@ == old(self)@.begin(card.deep_view(), timeout as nat),
            final(self)@.wf(),
    {
        let first = card[0].clone();
        let active = copy_names(&card);
        proof {
            lemma_begin_keeps_wf(self@, card.deep_view(), timeout as nat);
        }
        self.update_timeout(Some(timeout));
        self.update_complete_card(Some(card));
        self.update_reduced_card(Some(active));
        self.update_category(Some(first));
        self.update_current_index(Some(0));
    }

    /// Reports the outcome of the current category: solved (`success`) or
    /// passed over. Without a card in play nothing changes.
    pub fn progress(&mut self, success: bool) -> (outcome: Result<(), GameError>)
        requires
            old(self)@.wf(),
            !old(self)@.is_complete(),
        ensures
            outcome is Ok <==> old(self)@.is_active(),
            outcome is Ok ==> final(self)@ == old(self)@.progress(success),
            outcome is Err ==> outcome == Err::<(), GameError>(
                GameError::ProgressionWithoutActiveRound,
            ) && *final(self) == *old(self),
            final(self)@.wf(),
            final(self)@.is_active() && !final(self)@.is_complete() ==> final(self)@.current_category
                == Some(final(self)@.active_card->0[final(self)@.current_index->0 as int]),
    {
        if self.complete_card.is_none() {
            return Err(GameError::ProgressionWithoutActiveRound);
        }
        proof {
            if success {
                lemma_succeed_keeps_wf(self@);
            } else {
                lemma_next_keeps_wf(self@);
            }
        }
        let mut card = self.reduced_card.take().unwrap();
        let at = self.current_index.unwrap();
        let ghost open = card.deep_view();
        let index: usize;
        let category: String;
        if success {
            card.remove(at);
            assert(card.deep_view() =~= open.remove(at as int));
            let left = card.len();
            index = if at < left {
                at
            } else if left > 0 {
                at - 1
            } else {
                0
            };
            category = if left > 0 {
                card[index].clone()
            } else {
                String::new()
            };
        } else {
            index = if at == card.len() - 1 {
                0
            } else {
                at + 1
            };
            category = card[index].clone();
        }
        self.update_reduced_card(Some(card));
        self.update_category(Some(category));
        self.update_current_index(Some(index));
        Ok(())
    }

    /// Reports `category` as solved. It has to be the current category.
    pub fn complete_category(&mut self, category: &str) -> (outcome: Result<(), GameError>)
        requires
            old(self)@.wf(),
            !old(self)@.is_complete(),
        ensures
            match outcome {
                Ok(_) => {
                    &&& old(self)@.is_active()
                    &&& old(self)@.current_category == Some(category@)
                    &&& final(self)@ == old(self)@.succeed()
                },
                Err(error) => {
                    &&& *final(self) == *old(self)
                    &&& error == if !old(self)@.is_active() {
                        GameError::ProgressionWithoutActiveRound
                    } else {
                        GameError::OutcomeCategoryMismatch
                    }
                    &&& old(self)@.is_active() ==> old(self)@.current_category != Some(category@)
                },
            },
            final(self)@.wf(),
    {
        if self.complete_card.is_none() {
            return Err(GameError::ProgressionWithoutActiveRound);
        }
        let given = category.to_owned();
        let matches = match &self.category {
            Some(current) => *current == given,
            None => false,
        };
        if !matches {
            return Err(GameError::OutcomeCategoryMismatch);
        }
        self.progress(true)
    }

    /// Handles a timer request. The first one of a round that carries a
    /// countdown draws a card of `CARD_SIZE` categories from `categories` and
    /// starts the countdown. On a round in play every request reports an
    /// outcome, and the countdown is left alone.
    pub fn begin_timer(&mut self, categories: &Vec<String>, input: RoundInput) -> (outcome: Result<
        (),
        GameError,
    >)
        requires
            old(self)@.wf(),
            old(self)@.is_active() ==> input.success is Some && !old(self)@.is_complete(),
        ensures
            match outcome {
                Ok(_) => {
                    &&& timer_failure(old(self)@, categories.deep_view(), input) is None
                    &&& old(self)@.is_active() ==> final(self)@ == old(self)@.progress(
                        input.success->0,
                    )
                    &&& !old(self)@.is_active() ==> {
                        &&& final(self)@.full_card is Some
                        &&& is_draw_of(
                            final(self)@.full_card->0,
                            categories.deep_view(),
                            CARD_SIZE as nat,
                        )
                        &&& final(self)@ == old(self)@.begin(
                            final(self)@.full_card->0,
                            input.timeout->0 as nat,
                        )
                    }
                },
                Err(error) => {
                    &&& timer_failure(old(self)@, categories.deep_view(), input) == Some(error)
                    &&& *final(self) == *old(self)
                },
            },
            final(self)@.wf(),
    {
        if self.complete_card.is_some() {
            return self.progress(input.success.unwrap());
        }
        match input.timeout {
            None => Err(GameError::ProgressionWithoutActiveRound),
            Some(timeout) => match draw_card(categories, CARD_SIZE) {
                Err(error) => Err(error),
                Ok(card) => {
                    self.begin(card, timeout);
                    Ok(())
                },
            },
        }
    }

    /// Whether the state keeps the invariant of a round.
    pub fn is_well_formed(&self) -> (sound: bool)
        ensures
            sound == self@.wf(),
    {
        match &self.complete_card {
            None => self.reduced_card.is_none() && self.category.is_none()
                && self.current_index.is_none(),
            Some(full) => {
                if has_repeats(full) {
                    return false;
                }
                match &self.reduced_card {
                    None => false,
                    Some(active) => {
                        if !is_remainder(active, full) {
                            return false;
                        }
                        if active.len() == 0 {
                            return true;
                        }
                        match (self.current_index, &self.category) {
                            (Some(index), Some(category)) => index < active.len()
                                && active[index] == *category,
                            _ => false,
                        }
                    },
                }
            },
        }
    }

    /// Whether every category of the card has been solved.
    pub fn is_complete(&self) -> (complete: bool)
        ensures
            complete == self@.is_complete(),
    {
        match &self.reduced_card {
            Some(card) => card.len() == 0,
            None => false,
        }
    }

    /// Whether the round can take an outcome: it keeps the invariant of a
    /// round, and its card is not complete.
    pub fn takes_outcome(&self) -> (ready: bool)
        ensures
            ready == (self@.wf() && !self@.is_complete()),
    {
        !self.is_complete() && self.is_well_formed()
    }

    /// Whether the round can take the timer request `input`: it keeps the
    /// invariant of a round, and if it is in play, its card is not complete
    /// and the request tells an outcome.
    pub fn takes_request(&self, input: RoundInput) -> (ready: bool)
        ensures
            ready == (self@.wf() && (self@.is_active() ==> input.success is Some
                && !self@.is_complete())),
    {
        if !self.is_well_formed() {
            return false;
        }
        self.complete_card.is_none() || (input.success.is_some() && !self.is_complete())
    }

    /// A copy of the state.
    pub fn snapshot(&self) -> (copy: RoundState)
        ensures
            copy@ == self@,
    {
        RoundState {
            timeout: self.timeout,
            letter: self.letter,
            reduced_card: match &self.reduced_card {
                Some(card) => Some(copy_names(card)),
                None => None,
            },
            complete_card: match &self.complete_card {
                Some(card) => Some(copy_names(card)),
                None => None,
            },
            category: match &self.category {
                Some(name) => Some(name.clone()),
                None => None,
            },
            current_index: self.current_index,
        }
    }

    /// Ends the round: hands out what it showed and clears it.
    pub fn show_result(&mut self) -> (result: RoundResult)
        ensures
            result.timeout == old(self).timeout,
            result.letter == old(self).letter,
            result.card == old(self).complete_card,
            result.rest == old(self).reduced_card,
            final(self)@ == RoundView::empty(),
    {
        let result = RoundResult {
            timeout: self.timeout,
            letter: self.letter,
            card: self.complete_card.take(),
            rest: self.reduced_card.take(),
        };
        *self = RoundState::empty();
        result
    }
}

/// A card without repeated names that is put into play gives a round that
/// keeps the invariant.
pub proof fn lemma_begin_keeps_wf(round: RoundView, card: Seq<Seq<char>>, timeout: nat)
    requires
        card.len() > 0,
        card.no_duplicates(),
    ensures
        round.begin(card, timeout).wf(),
{
    let places = Seq::new(card.len(), |k: int| k);
    assert(embeds(places, card, card));
}

/// Solving the current category keeps the invariant: the card as drawn is
/// untouched, the active card stays a remainder of it, and while it has
/// entries the current category is the one that the index points at.
pub proof fn lemma_succeed_keeps_wf(round: RoundView)
    requires
        round.wf(),
        round.is_active(),
        !round.is_complete(),
    ensures
        round.succeed().wf(),
        round.succeed().full_card == round.full_card,
        round.succeed().remaining_seconds == round.remaining_seconds,
        round.succeed().active_card->0.len() == round.active_card->0.len() - 1,
        !round.succeed().is_complete() ==> round.succeed().current_category == Some(
            round.succeed().active_card->0[round.succeed().current_index->0 as int],
        ),
        round.succeed().is_complete() ==> round.succeed().current_category == Some(
            Seq::<char>::empty(),
        ),
{
    let full = round.full_card->0;
    let open = round.active_card->0;
    let solved = round.current_index->0 as int;
    let places = choose|places: Seq<int>| embeds(places, open, full);
    let rest = places.remove(solved);
    assert(embeds(rest, open.remove(solved), full));
}

/// Passing over the current category keeps the invariant and the cards.
pub proof fn lemma_next_keeps_wf(round: RoundView)
    requires
        round.wf(),
        round.is_active(),
        !round.is_complete(),
    ensures
        round.next().wf(),
        round.next().full_card == round.full_card,
        round.next().active_card == round.active_card,
        round.next().remaining_seconds == round.remaining_seconds,
{
}

/// The letter of a round stays through every move short of clearing it.
pub proof fn lemma_letter_is_kept(
    round: RoundView,
    rolled: char,
    card: Seq<Seq<char>>,
    timeout: nat,
    success: bool,
)
    requires
        round.letter is Some,
    ensures
        round.with_letter(rolled).letter == round.letter,
        round.begin(card, timeout).letter == round.letter,
        round.progress(success).letter == round.letter,
        round.tick().letter == round.letter,
{
}

/// The card as drawn stays as it is while the round is played: no outcome
/// and no second touches it, nor does a roll on a round that has its letter.
pub proof fn lemma_full_card_is_kept(round: RoundView, rolled: char, success: bool)
    requires
        round.is_active(),
    ensures
        round.progress(success).full_card == round.full_card,
        round.tick().full_card == round.full_card,
        round.letter is Some ==> round.with_letter(rolled).full_card == round.full_card,
{
}

/// The active card only loses categories: after an outcome it is what is
/// left of the active card before.
pub proof fn lemma_active_card_only_shrinks(round: RoundView, success: bool)
    requires
        round.wf(),
        round.is_active(),
        !round.is_complete(),
    ensures
        round.progress(success).active_card is Some,
        is_subsequence(round.progress(success).active_card->0, round.active_card->0),
        round.progress(success).active_card->0.len() <= round.active_card->0.len(),
{
    let open = round.active_card->0;
    if success {
        let solved = round.current_index->0 as int;
        let places = Seq::new((open.len() - 1) as nat, |k: int| if k < solved { k } else { k + 1 });
        assert(embeds(places, open.remove(solved), open));
    } else {
        let places = Seq::new(open.len(), |k: int| k);
        assert(embeds(places, open, open));
    }
}

/// A second roll changes nothing: once a round has its letter, whatever the
/// die shows afterwards leaves the letter, and the whole round, as it was.
pub proof fn lemma_second_roll_changes_nothing(round: RoundView, first: char, second: char)
    ensures
        round.with_letter(first).letter is Some,
        round.with_letter(first).with_letter(second) == round.with_letter(first),
{
}

/// Passing over `count` categories in a row moves the index `count` places
/// round the active card and leaves the cards alone.
pub proof fn lemma_nexts(round: RoundView, count: nat)
    requires
        round.wf(),
        round.is_active(),
        !round.is_complete(),
    ensures
        round.nexts(count).wf(),
        round.nexts(count).active_card == round.active_card,
        round.nexts(count).full_card == round.full_card,
        round.nexts(count).current_index == Some(
            ((round.current_index->0 + count) % round.active_card->0.len()) as nat,
        ),
    decreases count,
{
    let size = round.active_card->0.len() as int;
    let index = round.current_index->0 as int;
    if count == 0 {
        assert(index % size == index) by (nonlinear_arith)
            requires
                0 <= index < size,
        ;
    } else {
        lemma_next_keeps_wf(round);
        let moved = round.next();
        lemma_nexts(moved, (count - 1) as nat);
        let step = moved.current_index->0 as int;
        assert((step + (count - 1)) % size == (index + count) % size) by {
            if index == size - 1 {
                assert((0 + (count - 1)) % size == (size - 1 + count) % size) by (nonlinear_arith)
                    requires
                        size > 0,
                ;
            }
        }
    }
}

/// Passing over every category of the active card once leads back to where
/// the round was: same index, same current category, same cards.
pub proof fn lemma_next_is_a_rotation(round: RoundView)
    requires
        round.wf(),
        round.is_active(),
        !round.is_complete(),
    ensures
        round.nexts(round.active_card->0.len()) == round,
{
    let size = round.active_card->0.len();
    let index = round.current_index->0 as int;
    lemma_nexts(round, size);
    lemma_nexts_keeps_rest(round, size);
    assert((index + size) % (size as int) == index) by (nonlinear_arith)
        requires
            0 <= index < size,
    ;
}

/// Passing over categories touches neither the letter nor the countdown.
pub proof fn lemma_nexts_keeps_rest(round: RoundView, count: nat)
    requires
        round.wf(),
        round.is_active(),
        !round.is_complete(),
    ensures
        round.nexts(count).letter == round.letter,
        round.nexts(count).remaining_seconds == round.remaining_seconds,
    decreases count,
{
    if count > 0 {
        lemma_next_keeps_wf(round);
        lemma_nexts_keeps_rest(round.next(), (count - 1) as nat);
    }
}

/// A countdown started at `start` shows `start - count` after `count`
/// seconds, and stays at zero from then on. Everything else is untouched.
pub proof fn lemma_ticks(round: RoundView, count: nat)
    ensures
        round.ticks(count) == (RoundView {
            remaining_seconds: match round.remaining_seconds {
                Some(start) => Some(
                    if count <= start {
                        (start - count) as nat
                    } else {
                        0
                    },
                ),
                None => None,
            },
            ..round
        }),
    decreases count,
{
    if count > 0 {
        lemma_ticks(round.tick(), (count - 1) as nat);
    }
}

} // verus!
