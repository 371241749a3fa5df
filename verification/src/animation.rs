//! The cues the front end plays between frames: highlights, card reveals, log lines and
//! pauses, queued in order and played against the clock.

use vstd::prelude::*;

use crate::PlayerId;

verus! {

/// A cue for the animation player of the front end.
#[derive(Debug, Clone)]
pub enum Animation {
    /// Highlight a player for a while.
    PlayerHighlight { player_id: PlayerId, duration_ms: u32 },
    /// Turn a player's cards over after a delay.
    CardReveal { player_id: PlayerId, delay_ms: u32 },
    /// Write a line to the log when the cue is reached.
    LogMessage { text: String },
    /// Wait.
    Pause { duration_ms: u32 },
}

/// What a cue holds, with its text as characters.
pub enum Cue {
    /// Highlight a player.
    Highlight(PlayerId, u32),
    /// Reveal a player's cards.
    Reveal(PlayerId, u32),
    /// Write a line to the log.
    Log(Seq<char>),
    /// Wait.
    Wait(u32),
}

impl View for Animation {
    type V = Cue;

    open spec fn view(&self) -> Cue {
        match self {
            Animation::PlayerHighlight { player_id, duration_ms } => Cue::Highlight(*player_id, *duration_ms),
            Animation::CardReveal { player_id, delay_ms } => Cue::Reveal(*player_id, *delay_ms),
            Animation::LogMessage { text } => Cue::Log(text@),
            Animation::Pause { duration_ms } => Cue::Wait(*duration_ms),
        }
    }
}

/// The cues of a list of animations.
pub open spec fn cues(v: Seq<Animation>) -> Seq<Cue> {
    v.map_values(|a: Animation| a@)
}

/// How long a cue lasts: a log line takes no time.
pub open spec fn cue_ms(c: Cue) -> nat {
    match c {
        Cue::Highlight(_, d) => d as nat,
        Cue::Reveal(_, d) => d as nat,
        Cue::Log(_) => 0,
        Cue::Wait(d) => d as nat,
    }
}

/// Playing the cues `cs` for `t` milliseconds: how many of them are done, from the
/// front, and how long the first one left has been playing.
pub open spec fn played(cs: Seq<Cue>, t: nat) -> (nat, nat)
    decreases cs.len(),
{
    if cs.len() == 0 {
        (0, 0)
    } else if cue_ms(cs[0]) <= t {
        let rest = played(cs.drop_first(), (t - cue_ms(cs[0])) as nat);
        (rest.0 + 1, rest.1)
    } else {
        (0, t)
    }
}

/// The lines the log cues among `cs` write, in order.
pub open spec fn log_texts(cs: Seq<Cue>) -> Seq<Seq<char>>
    decreases cs.len(),
{
    if cs.len() == 0 {
        Seq::empty()
    } else {
        log_texts(cs.drop_last()) + match cs.last() {
            Cue::Log(t) => seq![t],
            _ => Seq::empty(),
        }
    }
}

/// The texts of a list of strings.
pub open spec fn texts(v: Seq<String>) -> Seq<Seq<char>> {
    v.map_values(|s: String| s@)
}

/// The cues waiting to be played, the first one playing for `elapsed_ms` already.
pub struct AnimationQueue {
    /// The cues, in the order they play.
    pub pending: Vec<Animation>,
    /// How long the first cue has been playing.
    pub elapsed_ms: u32,
}

impl View for AnimationQueue {
    type V = Seq<Animation>;

    open spec fn view(&self) -> Seq<Animation> {
        self.pending@
    }
}

/// There are no more lines than cues.
pub proof fn lemma_log_texts_len(cs: Seq<Cue>)
    ensures
        log_texts(cs).len() <= cs.len(),
    decreases cs.len(),
{
    if cs.len() > 0 {
        lemma_log_texts_len(cs.drop_last());
    }
}

/// Playing cues finishes no more cues than there are, and the one left playing has not
/// run its course.
pub proof fn lemma_played_bounds(cs: Seq<Cue>, t: nat)
    ensures
        played(cs, t).0 <= cs.len(),
        played(cs, t).0 < cs.len() ==> played(cs, t).1 < cue_ms(cs[played(cs, t).0 as int]),
        played(cs, t).0 == cs.len() ==> played(cs, t).1 == 0,
    decreases cs.len(),
{
    if cs.len() > 0 && cue_ms(cs[0]) <= t {
        lemma_played_bounds(cs.drop_first(), (t - cue_ms(cs[0])) as nat);
        let k = played(cs.drop_first(), (t - cue_ms(cs[0])) as nat).0;
        if k < cs.len() - 1 {
            assert(cs.drop_first()[k as int] == cs[(k + 1) as int]);
        }
    }
}

proof fn lemma_log_texts_push(cs: Seq<Cue>, c: Cue)
    ensures
        log_texts(cs.push(c)) == log_texts(cs) + match c {
            Cue::Log(t) => seq![t],
            _ => Seq::<Seq<char>>::empty(),
        },
{
    assert(cs.push(c).drop_last() =~= cs);
}

impl AnimationQueue {
    /// An empty queue.
    pub fn new() -> (q: AnimationQueue)
        ensures
            q@.len() == 0,
            q.elapsed_ms == 0,
    {
        AnimationQueue { pending: Vec::new(), elapsed_ms: 0 }
    }

    /// Queue a cue after the others.
    pub fn push(&mut self, a: Animation)
        ensures
            final(self)@ == old(self)@.push(a),
            final(self).elapsed_ms == old(self).elapsed_ms,
    {
        self.pending.push(a);
    }

    /// Whether a cue is waiting.
    pub fn is_animating(&self) -> (b: bool)
        ensures
            b == (self@.len() > 0),
    {
        self.pending.len() > 0
    }

    /// Play the cues for `dt` more milliseconds: the cues that are done leave the queue,
    /// and the lines of the log cues among them are returned, in order.
    pub fn tick(&mut self, dt: u32) -> (msgs: Vec<String>)
        ensures
            ({
                let p = played(cues(old(self)@), (old(self).elapsed_ms + dt) as nat);
                &&& cues(final(self)@) == cues(old(self)@).skip(p.0 as int)
                &&& final(self).elapsed_ms == p.1
                &&& texts(msgs@) == log_texts(cues(old(self)@).take(p.0 as int))
            }),
    {
        let ghost cs = cues(old(self)@);
        let ghost total: nat = (old(self).elapsed_ms + dt) as nat;
        let mut t: u64 = self.elapsed_ms as u64 + dt as u64;
        let mut msgs: Vec<String> = Vec::new();
        let ghost mut i: nat = 0;
        loop
            invariant
                i <= cs.len(),
                cues(self.pending@) == cs.skip(i as int),
                played(cs, total) == ((i + played(cs.skip(i as int), t as nat).0) as nat, played(cs.skip(i as int), t as nat).1),
                texts(msgs@) == log_texts(cs.take(i as int)),
                t <= total,
            ensures
                i <= cs.len(),
                cues(self.pending@) == cs.skip(i as int),
                played(cs, total) == ((i + played(cs.skip(i as int), t as nat).0) as nat, played(cs.skip(i as int), t as nat).1),
                texts(msgs@) == log_texts(cs.take(i as int)),
                self.pending@.len() > 0 ==> cue_ms(cs.skip(i as int)[0]) > t,
            decreases self.pending@.len(),
        {
            if self.pending.len() == 0 {
                break;
            }
            let ms: u64 = match &self.pending[0] {
                Animation::PlayerHighlight { duration_ms, .. } => *duration_ms as u64,
                Animation::CardReveal { delay_ms, .. } => *delay_ms as u64,
                Animation::LogMessage { .. } => 0,
                Animation::Pause { duration_ms } => *duration_ms as u64,
            };
            assert(cues(self.pending@)[0] == cs[i as int]);
            assert(self.pending@[0]@ == cs[i as int]);
            if ms > t {
                break;
            }
            let a = self.pending.remove(0);
            proof {
                assert(cs.skip(i as int).drop_first() =~= cs.skip((i + 1) as int));
                assert(cues(self.pending@) =~= cs.skip((i + 1) as int));
                assert(cs.take((i + 1) as int) =~= cs.take(i as int).push(cs[i as int]));
                lemma_log_texts_push(cs.take(i as int), cs[i as int]);
            }
            match a {
                Animation::LogMessage { text } => {
                    msgs.push(text);
                    assert(texts(msgs@) =~= log_texts(cs.take(i as int)) + seq![cs[i as int]->Log_0]);
                },
                _ => {
                    assert(texts(msgs@) =~= log_texts(cs.take(i as int)));
                },
            }
            t = t - ms;
            proof {
                i = i + 1;
            }
        }
        proof {
            lemma_played_bounds(cs.skip(i as int), t as nat);
        }
        if self.pending.len() == 0 {
            self.elapsed_ms = 0;
        } else {
            let ms: u64 = match &self.pending[0] {
                Animation::PlayerHighlight { duration_ms, .. } => *duration_ms as u64,
                Animation::CardReveal { delay_ms, .. } => *delay_ms as u64,
                Animation::LogMessage { .. } => 0,
                Animation::Pause { duration_ms } => *duration_ms as u64,
            };
            assert(ms == cue_ms(cs.skip(i as int)[0]));
            self.elapsed_ms = t as u32;
        }
        msgs
    }

    /// Play every cue at once: the queue empties and the lines of all its log cues are
    /// returned, in order.
    pub fn skip_all(&mut self) -> (msgs: Vec<String>)
        ensures
            final(self)@.len() == 0,
            final(self).elapsed_ms == 0,
            texts(msgs@) == log_texts(cues(old(self)@)),
    {
        let ghost cs = cues(old(self)@);
        let mut msgs: Vec<String> = Vec::new();
        let ghost mut i: nat = 0;
        while self.pending.len() > 0
            invariant
                i <= cs.len(),
                cues(self.pending@) == cs.skip(i as int),
                texts(msgs@) == log_texts(cs.take(i as int)),
            decreases self.pending@.len(),
        {
            assert(cues(self.pending@).len() == self.pending@.len());
            assert(cues(self.pending@)[0] == cs[i as int]);
            let a = self.pending.remove(0);
            proof {
                assert(cs.skip(i as int).drop_first() =~= cs.skip((i + 1) as int));
                assert(cues(self.pending@) =~= cs.skip((i + 1) as int));
                assert(cs.take((i + 1) as int) =~= cs.take(i as int).push(cs[i as int]));
                lemma_log_texts_push(cs.take(i as int), cs[i as int]);
            }
            match a {
                Animation::LogMessage { text } => {
                    msgs.push(text);
                    assert(texts(msgs@) =~= log_texts(cs.take(i as int)) + seq![cs[i as int]->Log_0]);
                },
                _ => {
                    assert(texts(msgs@) =~= log_texts(cs.take(i as int)));
                },
            }
            proof {
                i = i + 1;
            }
        }
        assert(cs.take(i as int) =~= cs);
        self.elapsed_ms = 0;
        msgs
    }
}

} // verus!
