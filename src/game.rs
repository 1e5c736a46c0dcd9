//! One game: the secret, the attempts made so far with their feedback, and
//! the decision between playing on, winning and losing.
use crate::code::{
    canonical_symbol, is_code, is_color, lemma_normalize_error_stays, lemma_validated_is_code,
    normalize_upto, palette, palette_spec, rejected_symbol, validated, GuessError, CODE_LENGTH, MAX_ATTEMPTS,
};
use crate::scoring::{color_count, exact_count, score, Feedback};
use rand::seq::SliceRandom;
use vstd::prelude::*;
use vstd::string::*;

verus! {

/// Where a game stands.
#[derive(Debug, Clone, Copy, PartialEq, Eq, Structural)]
pub enum GameState {
    InProgress,
    Won,
    Lost,
    /// The player quit; the secret was revealed, nobody won or lost.
    Abandoned,
}

/// One submitted guess and the feedback it got.
#[derive(Debug)]
pub struct Round {
    pub guess: Vec<char>,
    pub feedback: Feedback,
}

/// A game in play.
pub struct Game {
    secret_code: Vec<char>,
    attempts: usize,
    max_attempts: usize,
    history: Vec<Round>,
    state: GameState,
}

/// Relies on rand's `SliceRandom::choose` on a slice, drawing from
/// `thread_rng`: on a non-empty slice it returns one of its elements.
#[verifier::external_body]
fn choose_symbol(symbols: &[char]) -> (r: char)
    requires
        symbols.len() > 0,
    ensures
        symbols@.contains(r),
{
    *symbols.choose(&mut rand::thread_rng()).unwrap()
}

impl Game {
    /// The secret code.
    pub closed spec fn secret(&self) -> Seq<char> {
        self.secret_code@
    }

    /// How many guesses were submitted.
    pub closed spec fn attempt_count(&self) -> nat {
        self.attempts as nat
    }

    /// How many guesses the game allows.
    pub closed spec fn attempt_limit(&self) -> nat {
        self.max_attempts as nat
    }

    pub closed spec fn status(&self) -> GameState {
        self.state
    }

    /// The submitted guesses with their feedback, oldest first.
    pub closed spec fn rounds(&self) -> Seq<(Seq<char>, Feedback)> {
        self.history@.map_values(|r: Round| (r.guess@, r.feedback))
    }

    pub closed spec fn wf(&self) -> bool {
        &&& is_code(self.secret_code@)
        &&& 0 < self.max_attempts
        &&& self.attempts <= self.max_attempts
        &&& self.history@.len() == self.attempts
        &&& forall|i: int|
            0 <= i < self.history@.len() ==> {
                let r = #[trigger] self.history@[i];
                &&& is_code(r.guess@)
                &&& r.feedback.exact_matches == exact_count(self.secret_code@, r.guess@)
                &&& r.feedback.color_matches == color_count(self.secret_code@, r.guess@)
            }
        &&& self.state != GameState::Won ==> forall|i: int|
            0 <= i < self.history@.len() ==> (#[trigger] self.history@[i]).feedback.exact_matches
                != CODE_LENGTH
        &&& self.state == GameState::Won ==> self.attempts > 0
            && self.history@.last().feedback.exact_matches == CODE_LENGTH
        &&& self.state == GameState::Lost ==> self.attempts == self.max_attempts
        &&& (self.state == GameState::InProgress || self.state == GameState::Abandoned)
            ==> self.attempts < self.max_attempts
    }

    /// What holds of every game: the secret is a code, one round is kept per
    /// attempt, each with the feedback its guess earns, and the attempts stay
    /// within the limit, below it while the game is open.
    pub proof fn lemma_wf_facts(&self)
        requires
            self.wf(),
        ensures
            is_code(self.secret()),
            0 < self.attempt_limit(),
            self.attempt_count() <= self.attempt_limit(),
            self.rounds().len() == self.attempt_count(),
            forall|i: int|
                0 <= i < self.rounds().len() ==> {
                    let r = #[trigger] self.rounds()[i];
                    &&& is_code(r.0)
                    &&& r.1.exact_matches == exact_count(self.secret(), r.0)
                    &&& r.1.color_matches == color_count(self.secret(), r.0)
                },
            self.status() == GameState::InProgress ==> self.attempt_count()
                < self.attempt_limit(),
            self.status() == GameState::Lost ==> self.attempt_count() == self.attempt_limit(),
    {
        assert forall|i: int| 0 <= i < self.rounds().len() implies {
            let r = #[trigger] self.rounds()[i];
            &&& is_code(r.0)
            &&& r.1.exact_matches == exact_count(self.secret(), r.0)
            &&& r.1.color_matches == color_count(self.secret(), r.0)
        } by {
            assert(self.history@[i] == self.history@[i]);
        }
    }

    /// Win condition: once any guess has every symbol exact, the game is won,
    /// however many attempts remain.
    pub proof fn lemma_exact_guess_wins(&self, i: int)
        requires
            self.wf(),
            0 <= i < self.rounds().len(),
            self.rounds()[i].1.exact_matches == CODE_LENGTH,
        ensures
            self.status() == GameState::Won,
    {
        assert(self.history@[i].feedback == self.rounds()[i].1);
    }

    /// Loss condition: once the attempt limit is used up without a guess
    /// that is exact everywhere, the game is lost.
    pub proof fn lemma_spent_attempts_lose(&self)
        requires
            self.wf(),
            self.attempt_count() == self.attempt_limit(),
            forall|i: int|
                0 <= i < self.rounds().len() ==> (#[trigger] self.rounds()[i]).1.exact_matches
                    != CODE_LENGTH,
        ensures
            self.status() == GameState::Lost,
    {
        if self.state == GameState::Won {
            let k = self.history@.len() - 1;
            assert(self.rounds()[k].1 == self.history@[k].feedback);
        }
    }

    /// A fresh game with a random secret and the default attempt budget.
    pub fn new() -> (g: Game)
        ensures
            g.wf(),
            is_code(g.secret()),
            g.attempt_count() == 0,
            g.attempt_limit() == MAX_ATTEMPTS,
            g.status() == GameState::InProgress,
            g.rounds().len() == 0,
    {
        let colors = palette();
        let mut secret_code: Vec<char> = Vec::new();
        let mut i: usize = 0;
        while i < CODE_LENGTH
            invariant
                i <= CODE_LENGTH,
                secret_code@.len() == i,
                forall|k: int| 0 <= k < i ==> is_color(#[trigger] secret_code@[k]),
                colors@ == palette_spec(),
                forall|c: char| colors@.contains(c) ==> is_color(c),
            decreases CODE_LENGTH - i,
        {
            let c = choose_symbol(colors.as_slice());
            secret_code.push(c);
            i += 1;
        }
        Game::with_secret(secret_code, MAX_ATTEMPTS)
    }

    /// A fresh game on a given secret and attempt budget.
    pub fn with_secret(secret_code: Vec<char>, max_attempts: usize) -> (g: Game)
        requires
            is_code(secret_code@),
            max_attempts > 0,
        ensures
            g.wf(),
            is_code(g.secret()),
            g.secret() == secret_code@,
            g.attempt_count() == 0,
            g.attempt_limit() == max_attempts,
            g.status() == GameState::InProgress,
            g.rounds().len() == 0,
    {
        let g = Game {
            secret_code,
            attempts: 0,
            max_attempts,
            history: Vec::new(),
            state: GameState::InProgress,
        };
        assert(g.rounds() =~= Seq::empty());
        g
    }

    /// Checks typed text and turns it into a code: exactly `CODE_LENGTH`
    /// characters, each a palette symbol in either case.
    pub fn validate_guess(&self, guess: &str) -> (r: Result<Vec<char>, GuessError>)
        ensures
            r is Ok <==> validated(guess@) is Ok,
            r is Ok ==> r->Ok_0@ == validated(guess@)->Ok_0,
            r is Ok ==> is_code(r->Ok_0@),
            r is Err ==> r->Err_0 == validated(guess@)->Err_0,
    {
        let n = guess.unicode_len();
        if n != CODE_LENGTH {
            return Err(GuessError::LengthMismatch);
        }
        let mut out: Vec<char> = Vec::new();
        let mut i: usize = 0;
        while i < n
            invariant
                n == guess@.len(),
                n == CODE_LENGTH,
                i <= n,
                normalize_upto(guess@, i as int) == Ok::<Seq<char>, char>(out@),
            decreases n - i,
        {
            let c = guess.get_char(i);
            match canonical_symbol(c) {
                Some(u) => out.push(u),
                None => {
                    let bad = rejected_symbol(c);
                    proof {
                        assert(normalize_upto(guess@, i + 1) == Err::<Seq<char>, char>(bad));
                        lemma_normalize_error_stays(guess@, i + 1, n as int);
                    }
                    return Err(GuessError::UnknownSymbol(bad));
                },
            }
            i += 1;
        }
        proof {
            lemma_validated_is_code(guess@);
        }
        Ok(out)
    }

    /// The feedback that `guess` gets against this game's secret.
    pub fn get_feedback(&self, guess: &[char]) -> (r: Feedback)
        requires
            self.wf(),
            guess@.len() == CODE_LENGTH,
        ensures
            r.exact_matches == exact_count(self.secret(), guess@),
            r.color_matches == color_count(self.secret(), guess@),
    {
        score(self.secret_code.as_slice(), guess)
    }

    /// Submits one guess: counts the attempt, scores it, records it, and
    /// decides whether the game is won, lost or goes on.
    pub fn play_round(&mut self, guess: Vec<char>) -> (r: Feedback)
        requires
            old(self).wf(),
            old(self).status() == GameState::InProgress,
            is_code(guess@),
        ensures
            final(self).wf(),
            r.exact_matches == exact_count(old(self).secret(), guess@),
            r.color_matches == color_count(old(self).secret(), guess@),
            final(self).secret() == old(self).secret(),
            final(self).attempt_limit() == old(self).attempt_limit(),
            final(self).attempt_count() == old(self).attempt_count() + 1,
            final(self).rounds() == old(self).rounds().push((guess@, r)),
            r.exact_matches == CODE_LENGTH ==> final(self).status() == GameState::Won,
            r.exact_matches != CODE_LENGTH && final(self).attempt_count()
                == final(self).attempt_limit() ==> final(self).status() == GameState::Lost,
            r.exact_matches != CODE_LENGTH && final(self).attempt_count()
                < final(self).attempt_limit() ==> final(self).status() == GameState::InProgress,
    {
        let feedback = self.get_feedback(guess.as_slice());
        self.attempts += 1;
        let ghost g = guess@;
        self.history.push(Round { guess, feedback });
        if feedback.exact_matches == CODE_LENGTH {
            self.state = GameState::Won;
        } else if self.attempts == self.max_attempts {
            self.state = GameState::Lost;
        }
        assert(self.rounds() =~= old(self).rounds().push((g, feedback)));
        feedback
    }

    /// Validates typed text and, when it is a code, plays it as the next
    /// guess. A rejected guess leaves the game as it was.
    pub fn submit(&mut self, raw_guess: &str) -> (r: Result<Feedback, GuessError>)
        requires
            old(self).wf(),
            old(self).status() == GameState::InProgress,
        ensures
            final(self).wf(),
            final(self).secret() == old(self).secret(),
            final(self).attempt_limit() == old(self).attempt_limit(),
            r is Err <==> validated(raw_guess@) is Err,
            r is Err ==> r->Err_0 == validated(raw_guess@)->Err_0,
            r is Err ==> final(self).attempt_count() == old(self).attempt_count()
                && final(self).rounds() == old(self).rounds() && final(self).status()
                == old(self).status(),
            r is Ok ==> ({
                let guess = validated(raw_guess@)->Ok_0;
                let f = r->Ok_0;
                &&& f.exact_matches == exact_count(old(self).secret(), guess)
                &&& f.color_matches == color_count(old(self).secret(), guess)
                &&& final(self).attempt_count() == old(self).attempt_count() + 1
                &&& final(self).rounds() == old(self).rounds().push((guess, f))
                &&& f.exact_matches == CODE_LENGTH ==> final(self).status() == GameState::Won
                &&& f.exact_matches != CODE_LENGTH && final(self).attempt_count()
                    == final(self).attempt_limit() ==> final(self).status() == GameState::Lost
                &&& f.exact_matches != CODE_LENGTH && final(self).attempt_count()
                    < final(self).attempt_limit() ==> final(self).status()
                    == GameState::InProgress
            }),
    {
        match self.validate_guess(raw_guess) {
            Ok(guess) => Ok(self.play_round(guess)),
            Err(e) => Err(e),
        }
    }

    /// Quits the game and reveals the secret.
    pub fn abandon(&mut self) -> (r: Vec<char>)
        requires
            old(self).wf(),
            old(self).status() == GameState::InProgress,
        ensures
            final(self).wf(),
            final(self).status() == GameState::Abandoned,
            r@ == old(self).secret(),
            final(self).secret() == old(self).secret(),
            final(self).attempt_count() == old(self).attempt_count(),
            final(self).attempt_limit() == old(self).attempt_limit(),
            final(self).rounds() == old(self).rounds(),
    {
        self.state = GameState::Abandoned;
        self.reveal_code()
    }

    /// How many guesses were submitted.
    pub fn attempts(&self) -> (r: usize)
        ensures
            r == self.attempt_count(),
    {
        self.attempts
    }

    /// How many guesses the game allows.
    pub fn max_attempts(&self) -> (r: usize)
        ensures
            r == self.attempt_limit(),
    {
        self.max_attempts
    }

    pub fn state(&self) -> (r: GameState)
        ensures
            r == self.status(),
    {
        self.state
    }

    /// The submitted guesses with their feedback, oldest first.
    pub fn history(&self) -> (r: &Vec<Round>)
        ensures
            r@.map_values(|x: Round| (x.guess@, x.feedback)) == self.rounds(),
    {
        &self.history
    }

    /// Whether at most two guesses remain after the ones made.
    pub fn running_out(&self) -> (r: bool)
        ensures
            r == (self.attempt_count() + 2 >= self.attempt_limit()),
    {
        self.attempts as u128 + 2 >= self.max_attempts as u128
    }

    /// A copy of the secret code.
    pub fn reveal_code(&self) -> (r: Vec<char>)
        ensures
            r@ == self.secret(),
    {
        let mut r: Vec<char> = Vec::new();
        let mut i: usize = 0;
        while i < self.secret_code.len()
            invariant
                i <= self.secret_code@.len(),
                r@ == self.secret_code@.subrange(0, i as int),
            decreases self.secret_code@.len() - i,
        {
            r.push(self.secret_code[i]);
            i += 1;
            assert(r@ =~= self.secret_code@.subrange(0, i as int));
        }
        assert(r@ =~= self.secret_code@);
        r
    }
}

} // verus!
