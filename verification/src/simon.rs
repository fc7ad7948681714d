//! The rules of the Simon memory game played with three buttons and three LEDs.
//!
//! A game holds a fixed sequence of 25 colours. Round `n` shows the first `n`
//! colours and then waits for the player to press them back in order. A wrong
//! press ends the game, and the next game starts again from round 1 with the
//! same sequence. Completing round 25 wins; the winner gets a fresh sequence.
use vstd::prelude::*;

verus! {

/// Number of colours in one game's sequence.
pub const SEQUENCE_LENGTH: usize = 25;

/// Number of buttons (and LEDs) of the game.
pub const BUTTON_COUNT: usize = 3;

/// How long an LED of the shown sequence stays lit.
pub const SHOW_ON_MS: u32 = 500;

/// The pause after each LED of the shown sequence.
pub const SHOW_OFF_MS: u32 = 200;

/// How long the LED of a pressed button flashes.
pub const PRESS_FLASH_MS: u32 = 150;

/// The pause after a correct button has been released.
pub const RELEASE_SETTLE_MS: u32 = 100;

/// The pause between two rounds.
pub const ROUND_PAUSE_MS: u32 = 500;

/// The colour (0, 1 or 2) that a random word stands for.
pub open spec fn colour_of(word: u32) -> u8 {
    (word % 3) as u8
}

/// The sequence drawn from a list of random words.
pub open spec fn sequence_from(words: Seq<u32>) -> Seq<u8> {
    words.map_values(|w: u32| colour_of(w))
}

/// The abstract state of a game: its sequence, the current round length and
/// how many colours of the current round the player has already repeated.
pub struct SimonState {
    pub sequence: Seq<u8>,
    pub round_length: nat,
    pub progress: nat,
}

/// What one button press did to the game.
#[derive(PartialEq, Eq, Structural, Clone, Copy, Debug)]
pub enum PressOutcome {
    /// The press was right and more colours of this round are still due.
    Correct,
    /// The press was right and finished the round; the next round is one longer.
    RoundComplete,
    /// The press was right and finished the last round: the player won.
    Won,
    /// The press was wrong: the game is over.
    GameOver,
}

/// A blinking of all LEDs: `times` flashes of `on_ms` lit and `off_ms` dark.
#[derive(PartialEq, Eq, Structural, Clone, Copy, Debug)]
pub struct Blink {
    pub times: u32,
    pub on_ms: u32,
    pub off_ms: u32,
}

/// The well-formed states: a full sequence of colours below 3, a round length
/// from 1 to 25, and a progress inside the round.
pub open spec fn state_wf(s: SimonState) -> bool {
    &&& s.sequence.len() == SEQUENCE_LENGTH
    &&& forall|i: int| 0 <= i < s.sequence.len() ==> #[trigger] s.sequence[i] < BUTTON_COUNT
    &&& 1 <= s.round_length <= SEQUENCE_LENGTH
    &&& s.progress < s.round_length
}

/// A fresh game on a sequence: round 1, nothing repeated yet.
pub open spec fn fresh(sequence: Seq<u8>) -> SimonState {
    SimonState { sequence, round_length: 1, progress: 0 }
}

/// The colour that the player has to press next.
pub open spec fn expected(s: SimonState) -> u8 {
    s.sequence[s.progress as int]
}

/// The outcome of pressing `button` in state `s`.
pub open spec fn press_outcome(s: SimonState, button: nat) -> PressOutcome {
    if button != expected(s) {
        PressOutcome::GameOver
    } else if s.progress + 1 < s.round_length {
        PressOutcome::Correct
    } else if s.round_length < SEQUENCE_LENGTH {
        PressOutcome::RoundComplete
    } else {
        PressOutcome::Won
    }
}

/// The state after pressing `button` in state `s`. After a win the game is
/// back at round 1 on the same sequence until a new one is drawn.
pub open spec fn press_next(s: SimonState, button: nat) -> SimonState {
    match press_outcome(s, button) {
        PressOutcome::Correct => SimonState { progress: s.progress + 1, ..s },
        PressOutcome::RoundComplete => SimonState {
            round_length: s.round_length + 1,
            progress: 0,
            ..s
        },
        _ => fresh(s.sequence),
    }
}

/// The state after a whole list of presses.
pub open spec fn press_all(s: SimonState, presses: Seq<nat>) -> SimonState
    decreases presses.len(),
{
    if presses.len() == 0 {
        s
    } else {
        press_all(press_next(s, presses[0]), presses.drop_first())
    }
}

/// The presses that repeat the round of state `s` from its current progress.
pub open spec fn due_presses(s: SimonState) -> Seq<nat> {
    s.sequence.subrange(s.progress as int, s.round_length as int).map_values(|c: u8| c as nat)
}

/// A game of Simon.
pub struct SimonGame {
    sequence: Vec<u8>,
    round_length: usize,
    progress: usize,
}

impl SimonGame {
    /// The abstract state of the game.
    pub closed spec fn state(&self) -> SimonState {
        SimonState {
            sequence: self.sequence@,
            round_length: self.round_length as nat,
            progress: self.progress as nat,
        }
    }

    #[verifier::type_invariant]
    spec fn inv(&self) -> bool {
        state_wf(self.state())
    }

    fn colours(words: &[u32]) -> (sequence: Vec<u8>)
        requires
            words@.len() == SEQUENCE_LENGTH,
        ensures
            sequence@ == sequence_from(words@),
            forall|i: int| 0 <= i < sequence@.len() ==> #[trigger] sequence@[i] < BUTTON_COUNT,
    {
        let mut sequence: Vec<u8> = Vec::new();
        let mut i: usize = 0;
        while i < words.len()
            invariant
                i <= words@.len(),
                sequence@ == sequence_from(words@.subrange(0, i as int)),
                forall|k: int| 0 <= k < sequence@.len() ==> #[trigger] sequence@[k] < BUTTON_COUNT,
            decreases words@.len() - i,
        {
            let colour = (words[i] % 3) as u8;
            sequence.push(colour);
            i = i + 1;
            assert(words@.subrange(0, i as int) =~= words@.subrange(0, i - 1).push(words@[i - 1]));
            assert(sequence@ =~= sequence_from(words@.subrange(0, i as int)));
        }
        assert(words@.subrange(0, i as int) =~= words@);
        sequence
    }

    /// Starts a game on the sequence drawn from 25 random words: the colour of
    /// each word is the word modulo 3.
    pub fn new(words: &[u32]) -> (game: Self)
        requires
            words@.len() == SEQUENCE_LENGTH,
        ensures
            game.state() == fresh(sequence_from(words@)),
            state_wf(game.state()),
    {
        let sequence = Self::colours(words);
        SimonGame { sequence, round_length: 1, progress: 0 }
    }

    /// Replaces the sequence by the one drawn from 25 new random words and
    /// starts over at round 1 (after a win).
    pub fn new_sequence(&mut self, words: &[u32])
        requires
            words@.len() == SEQUENCE_LENGTH,
        ensures
            final(self).state() == fresh(sequence_from(words@)),
            state_wf(final(self).state()),
    {
        let sequence = Self::colours(words);
        *self = SimonGame { sequence, round_length: 1, progress: 0 };
    }

    /// The length of the current round.
    pub fn round_length(&self) -> (n: usize)
        ensures
            n == self.state().round_length,
            1 <= n <= SEQUENCE_LENGTH,
    {
        proof { use_type_invariant(self); }
        self.round_length
    }

    /// The whole sequence of the game.
    pub fn sequence(&self) -> (s: Vec<u8>)
        ensures
            s@ == self.state().sequence,
    {
        self.sequence.clone()
    }

    /// The colours shown in the current round: the first `round_length`
    /// colours of the sequence.
    pub fn shown(&self) -> (shown: Vec<u8>)
        ensures
            shown@ == self.state().sequence.subrange(0, self.state().round_length as int),
            forall|i: int| 0 <= i < shown@.len() ==> #[trigger] shown@[i] < BUTTON_COUNT,
    {
        proof { use_type_invariant(self); }
        let mut shown: Vec<u8> = Vec::new();
        let mut i: usize = 0;
        while i < self.round_length
            invariant
                i <= self.round_length <= self.sequence@.len(),
                shown@ == self.sequence@.subrange(0, i as int),
                forall|k: int| 0 <= k < self.sequence@.len() ==> #[trigger] self.sequence@[k] < BUTTON_COUNT,
            decreases self.round_length - i,
        {
            shown.push(self.sequence[i]);
            i = i + 1;
            assert(shown@ =~= self.sequence@.subrange(0, i as int));
        }
        shown
    }

    /// The colour the player has to press next.
    pub fn expected(&self) -> (c: u8)
        ensures
            c == expected(self.state()),
            c < BUTTON_COUNT,
    {
        proof { use_type_invariant(self); }
        self.sequence[self.progress]
    }

    /// Applies one button press.
    pub fn press(&mut self, button: usize) -> (outcome: PressOutcome)
        ensures
            outcome == press_outcome(old(self).state(), button as nat),
            final(self).state() == press_next(old(self).state(), button as nat),
            state_wf(old(self).state()),
            state_wf(final(self).state()),
    {
        proof { use_type_invariant(&*self); }
        let expected = self.sequence[self.progress];
        if button != expected as usize {
            self.progress = 0;
            self.round_length = 1;
            PressOutcome::GameOver
        } else if self.progress + 1 < self.round_length {
            self.progress = self.progress + 1;
            PressOutcome::Correct
        } else if self.round_length < SEQUENCE_LENGTH {
            self.round_length = self.round_length + 1;
            self.progress = 0;
            PressOutcome::RoundComplete
        } else {
            self.progress = 0;
            self.round_length = 1;
            PressOutcome::Won
        }
    }
}

/// The button that is pressed, given the levels of the buttons in order
/// (`true` for a low level, that is pressed): the first pressed one.
pub fn first_pressed(low: &[bool]) -> (pressed: Option<usize>)
    ensures
        match pressed {
            Some(i) => i < low@.len() && low@[i as int] && forall|k: int|
                0 <= k < i ==> !#[trigger] low@[k],
            None => forall|k: int| 0 <= k < low@.len() ==> !#[trigger] low@[k],
        },
{
    let mut i: usize = 0;
    while i < low.len()
        invariant
            i <= low@.len(),
            forall|k: int| 0 <= k < i ==> !#[trigger] low@[k],
        decreases low@.len() - i,
    {
        if low[i] {
            return Some(i);
        }
        i = i + 1;
    }
    None
}

/// The blinking of all LEDs that ends a game: three slow flashes after a loss,
/// three quick ones after a win, none otherwise.
pub fn end_of_game_blink(outcome: PressOutcome) -> (blink: Option<Blink>)
    ensures
        outcome == PressOutcome::GameOver ==> blink == Some(Blink { times: 3, on_ms: 200, off_ms: 200 }),
        outcome == PressOutcome::Won ==> blink == Some(Blink { times: 3, on_ms: 150, off_ms: 150 }),
        outcome == PressOutcome::Correct || outcome == PressOutcome::RoundComplete ==> blink.is_none(),
{
    match outcome {
        PressOutcome::GameOver => Some(Blink { times: 3, on_ms: 200, off_ms: 200 }),
        PressOutcome::Won => Some(Blink { times: 3, on_ms: 150, off_ms: 150 }),
        _ => None,
    }
}

/// Pressing keeps a game well formed.
pub proof fn lemma_press_keeps_wf(s: SimonState, button: nat)
    requires
        state_wf(s),
    ensures
        state_wf(press_next(s, button)),
{
}

/// A wrong press ends the game: the next game starts at round 1 on the same
/// sequence.
pub proof fn lemma_wrong_press_restarts(s: SimonState, button: nat)
    requires
        state_wf(s),
        button != expected(s),
    ensures
        press_outcome(s, button) == PressOutcome::GameOver,
        press_next(s, button) == fresh(s.sequence),
{
}

/// Repeating the rest of the current round, colour by colour, completes the
/// round: before the last round the game moves on to a round one longer, with
/// the same sequence; in the last round the game is won and back at round 1.
pub proof fn lemma_repeat_round(s: SimonState)
    requires
        state_wf(s),
    ensures
        s.round_length < SEQUENCE_LENGTH ==> press_all(s, due_presses(s)) == (SimonState {
            round_length: s.round_length + 1,
            progress: 0,
            ..s
        }),
        s.round_length == SEQUENCE_LENGTH ==> press_all(s, due_presses(s)) == fresh(s.sequence),
    decreases s.round_length - s.progress,
{
    let presses = due_presses(s);
    let b = presses[0];
    assert(b == expected(s));
    let t = press_next(s, b);
    if s.progress + 1 < s.round_length {
        assert(t == SimonState { progress: s.progress + 1, ..s });
        assert(presses.drop_first() =~= due_presses(t));
        lemma_repeat_round(t);
    } else {
        assert(presses.drop_first() =~= Seq::<nat>::empty());
        assert(press_all(t, presses.drop_first()) == t);
    }
}

/// Every press either keeps the round going, completes it, wins or loses,
/// and only the outcome `Correct` leaves the round length as it was.
pub proof fn lemma_round_length_moves(s: SimonState, button: nat)
    requires
        state_wf(s),
    ensures
        press_outcome(s, button) == PressOutcome::Correct ==> press_next(s, button).round_length
            == s.round_length && press_next(s, button).progress == s.progress + 1,
        press_outcome(s, button) == PressOutcome::RoundComplete ==> press_next(
            s,
            button,
        ).round_length == s.round_length + 1,
        press_outcome(s, button) == PressOutcome::Won ==> s.round_length == SEQUENCE_LENGTH
            && s.progress + 1 == SEQUENCE_LENGTH,
        press_next(s, button).sequence == s.sequence,
{
}

/// The presses that repeat round `round` from its start: the first `round`
/// colours of the sequence.
pub open spec fn round_presses(sequence: Seq<u8>, round: nat) -> Seq<nat> {
    sequence.subrange(0, round as int).map_values(|c: u8| c as nat)
}

/// The presses of a player who repeats rounds 1 to `rounds` without a mistake.
pub open spec fn presses_up_to(sequence: Seq<u8>, rounds: nat) -> Seq<nat>
    decreases rounds,
{
    if rounds == 0 {
        Seq::empty()
    } else {
        presses_up_to(sequence, (rounds - 1) as nat) + round_presses(sequence, rounds)
    }
}

/// Pressing one list and then another is pressing both in turn.
pub proof fn lemma_press_all_concat(s: SimonState, a: Seq<nat>, b: Seq<nat>)
    ensures
        press_all(s, a + b) == press_all(press_all(s, a), b),
    decreases a.len(),
{
    if a.len() == 0 {
        assert(a + b =~= b);
    } else {
        assert((a + b).drop_first() =~= a.drop_first() + b);
        assert((a + b)[0] == a[0]);
        lemma_press_all_concat(press_next(s, a[0]), a.drop_first(), b);
    }
}

/// A player who repeats the first `rounds` rounds of a fresh game without a
/// mistake (fewer than 25) is at round `rounds + 1`, with nothing of it
/// repeated yet.
pub proof fn lemma_rounds_without_mistake(sequence: Seq<u8>, rounds: nat)
    requires
        state_wf(fresh(sequence)),
        rounds < SEQUENCE_LENGTH,
    ensures
        press_all(fresh(sequence), presses_up_to(sequence, rounds)) == (SimonState {
            sequence,
            round_length: rounds + 1,
            progress: 0,
        }),
    decreases rounds,
{
    if rounds == 0 {
    } else {
        let before = SimonState { sequence, round_length: rounds, progress: 0 };
        lemma_rounds_without_mistake(sequence, (rounds - 1) as nat);
        lemma_press_all_concat(
            fresh(sequence),
            presses_up_to(sequence, (rounds - 1) as nat),
            round_presses(sequence, rounds),
        );
        assert(due_presses(before) =~= round_presses(sequence, rounds));
        lemma_repeat_round(before);
    }
}

/// The last colour of round 25, pressed right, wins the game.
pub proof fn lemma_last_press_wins(sequence: Seq<u8>)
    requires
        state_wf(fresh(sequence)),
    ensures
        ({
            let last = SimonState {
                sequence,
                round_length: SEQUENCE_LENGTH as nat,
                progress: (SEQUENCE_LENGTH - 1) as nat,
            };
            &&& state_wf(last)
            &&& press_outcome(last, sequence[SEQUENCE_LENGTH - 1] as nat) == PressOutcome::Won
            &&& press_next(last, sequence[SEQUENCE_LENGTH - 1] as nat) == fresh(sequence)
        }),
{
}

/// The colour drawn from a random word is the remainder of the whole word
/// divided by 3, colour by colour along the words.
pub proof fn lemma_colours_are_words_mod_3(words: Seq<u32>)
    ensures
        sequence_from(words).len() == words.len(),
        forall|i: int|
            0 <= i < words.len() ==> #[trigger] sequence_from(words)[i] as int == words[i] as int % 3,
{
}

} // verus!
