//! The play queue: which track plays, what `next` and `previous` do in each
//! play mode, which tracks are fetched ahead, and the mode buttons.
//!
//! The player itself (decoding, the audio device, the download cache) stays
//! with the caller: every decision here returns a [`PlayStep`] that says what
//! the caller has to do with the audio sink.
use vstd::prelude::*;
use rand::Rng;
use crate::timing::Timer;

verus! {

/// How the queue moves on when a track ends or `next` is pressed.
///
/// `Normal` stops after the last track, `Loop` starts the list over,
/// `Random` picks any track of the list, `Single` repeats the current track.
#[derive(Clone, Copy, Debug, PartialEq, Eq, Structural)]
pub enum PlayMode {
    Normal,
    Loop,
    Random,
    Single,
}

/// What the caller has to do after a queue decision.
#[derive(Clone, Copy, Debug, PartialEq, Eq, Structural)]
pub enum PlayStep {
    /// Nothing: the queue is empty or the mode ignores the request.
    Stay,
    /// Stop the sink, stop the clock; the queue is no longer playing.
    Stop,
    /// Load and start the track with this id (it is now the current one).
    Start(u64),
}

/// How loading the current track into the sink went.
#[derive(Clone, Copy, Debug, PartialEq, Eq, Structural)]
pub enum LoadOutcome {
    /// The audio was in the cache already.
    Cached,
    /// The audio was downloaded into the cache first.
    Downloaded,
    /// The download failed; nothing was loaded.
    Failed,
}

/// What the play list page shows.
#[derive(Clone, Copy, Debug, PartialEq, Eq, Structural)]
pub enum QueuePage {
    /// There is no current track or no play list.
    Missing,
    /// The order is random, so no upcoming list is shown.
    RandomOrder,
    /// The play list, with the current track marked.
    List,
}

/// The shared playback state: current track, whether it plays, the track
/// ids of the play list, the mode, how many tracks to fetch ahead, mute.
#[derive(Clone, Debug)]
pub struct Play {
    pub play_current_id: Option<u64>,
    pub play_flag: bool,
    pub play_list: Option<Vec<u64>>,
    pub mode: PlayMode,
    pub preload_limit: usize,
    pub mute: bool,
}

/// The mathematical value of a [`Play`].
pub struct PlayView {
    pub current: Option<u64>,
    pub playing: bool,
    pub list: Option<Seq<u64>>,
    pub mode: PlayMode,
    pub preload_limit: nat,
    pub mute: bool,
}

impl View for Play {
    type V = PlayView;

    open spec fn view(&self) -> PlayView {
        PlayView {
            current: self.play_current_id,
            playing: self.play_flag,
            list: match self.play_list {
                Some(l) => Some(l@),
                None => None,
            },
            mode: self.mode,
            preload_limit: self.preload_limit as nat,
            mute: self.mute,
        }
    }
}

/// `i` is the first position of `x` in `s`.
pub open spec fn is_first_index(s: Seq<u64>, x: u64, i: int) -> bool {
    &&& 0 <= i < s.len()
    &&& s[i] == x
    &&& forall|j: int| 0 <= j < i ==> s[j] != x
}

/// The first position of `x` in `s` (meaningful when `s` holds `x`).
pub open spec fn first_index(s: Seq<u64>, x: u64) -> int {
    choose|i: int| is_first_index(s, x, i)
}

/// No id occurs twice in `s`.
pub open spec fn distinct(s: Seq<u64>) -> bool {
    forall|i: int, j: int| 0 <= i < s.len() && 0 <= j < s.len() && i != j ==> s[i] != s[j]
}

proof fn lemma_first_index_below(s: Seq<u64>, x: u64, k: int)
    requires
        0 <= k < s.len(),
        s[k] == x,
    ensures
        exists|i: int| is_first_index(s, x, i),
    decreases k,
{
    if exists|j: int| 0 <= j < k && s[j] == x {
        let j = choose|j: int| 0 <= j < k && s[j] == x;
        lemma_first_index_below(s, x, j);
    } else {
        assert(is_first_index(s, x, k));
    }
}

pub proof fn lemma_first_index(s: Seq<u64>, x: u64)
    requires
        s.contains(x),
    ensures
        is_first_index(s, x, first_index(s, x)),
{
    let k = choose|k: int| 0 <= k < s.len() && s[k] == x;
    lemma_first_index_below(s, x, k);
}

pub proof fn lemma_first_index_distinct(s: Seq<u64>, i: int)
    requires
        distinct(s),
        0 <= i < s.len(),
    ensures
        first_index(s, s[i]) == i,
{
    lemma_first_index(s, s[i]);
}

impl PlayView {
    /// The current track, when there is one, is in the play list.
    pub open spec fn wf(self) -> bool {
        match (self.current, self.list) {
            (Some(c), Some(l)) => l.contains(c),
            _ => true,
        }
    }

    /// The same state with another current track.
    pub open spec fn with_current(self, id: u64) -> PlayView {
        PlayView { current: Some(id), ..self }
    }

    /// The same state, stopped.
    pub open spec fn stopped(self) -> PlayView {
        PlayView { playing: false, ..self }
    }
}

/// The track that `next` moves to from position `i` of `l`, or `None` when
/// the queue stops there; `pick` is the random position `Random` uses.
pub open spec fn next_target(mode: PlayMode, l: Seq<u64>, i: int, pick: int) -> Option<u64> {
    match mode {
        PlayMode::Normal => if i + 1 >= l.len() {
            None
        } else {
            Some(l[i + 1])
        },
        PlayMode::Loop => if i + 1 >= l.len() {
            Some(l[0])
        } else {
            Some(l[i + 1])
        },
        PlayMode::Random => Some(l[pick]),
        PlayMode::Single => Some(l[i]),
    }
}

/// `next` can run: outside `Random` the current track must be found in
/// the list; `Random` only needs a list to pick from.
pub open spec fn next_ready(v: PlayView) -> bool {
    match (v.current, v.list) {
        (Some(c), Some(l)) => if v.mode == PlayMode::Random {
            l.len() > 0
        } else {
            l.contains(c)
        },
        _ => true,
    }
}

/// `pick` is a position of the list wherever `Random` needs one.
pub open spec fn pick_in_range(v: PlayView, pick: int) -> bool {
    v.mode == PlayMode::Random ==> match (v.current, v.list) {
        (Some(_), Some(l)) => 0 <= pick < l.len(),
        _ => true,
    }
}

/// The state after `next` and what the caller has to do.
pub open spec fn next_outcome(v: PlayView, pick: int) -> (PlayView, PlayStep) {
    match (v.current, v.list) {
        (Some(c), Some(l)) => match next_target(v.mode, l, first_index(l, c), pick) {
            Some(id) => (v.with_current(id), PlayStep::Start(id)),
            None => (v.stopped(), PlayStep::Stop),
        },
        _ => (v, PlayStep::Stay),
    }
}

/// The state after `previous` and what the caller has to do: only `Normal`
/// moves back; from the first track it stops.
pub open spec fn previous_outcome(v: PlayView) -> (PlayView, PlayStep) {
    match (v.current, v.list) {
        (Some(c), Some(l)) => if v.mode == PlayMode::Normal {
            let i = first_index(l, c);
            if i == 0 {
                (v.stopped(), PlayStep::Stop)
            } else {
                (v.with_current(l[i - 1]), PlayStep::Start(l[i - 1]))
            }
        } else {
            (v, PlayStep::Stay)
        },
        _ => (v, PlayStep::Stay),
    }
}

/// The ids fetched ahead of position `i` of `l`: the `limit` ids after it,
/// wrapping to the front of the list once the end is passed.
pub open spec fn preload_window(l: Seq<u64>, i: int, limit: int) -> Seq<u64> {
    let index = i + 1;
    let end = index + limit;
    if end >= l.len() {
        l.subrange(index, l.len() as int) + l.subrange(0, end % (l.len() as int))
    } else {
        l.subrange(index, end)
    }
}

/// The end of the window fetched ahead fits in a `usize`.
pub open spec fn preload_fits(v: PlayView) -> bool {
    match (v.current, v.list) {
        (Some(c), Some(l)) => v.mode == PlayMode::Normal ==> first_index(l, c) + 1
            + v.preload_limit <= usize::MAX,
        _ => true,
    }
}

/// What is fetched ahead: only `Normal` fetches, and only with a current
/// track in a list.
pub open spec fn preload_spec(v: PlayView) -> Seq<u64> {
    match (v.current, v.list) {
        (Some(c), Some(l)) => if v.mode == PlayMode::Normal {
            preload_window(l, first_index(l, c), v.preload_limit as int)
        } else {
            Seq::empty()
        },
        _ => Seq::empty(),
    }
}

/// The position of the current track in the list, as the play bar finds it.
pub open spec fn current_index_spec(v: PlayView) -> Option<int> {
    match (v.current, v.list) {
        (Some(c), Some(l)) => if l.contains(c) {
            Some(first_index(l, c))
        } else {
            None
        },
        _ => None,
    }
}

/// The mode the repeat button switches to; `Random` shows no repeat button.
pub open spec fn repeat_toggled_spec(m: PlayMode) -> Option<PlayMode> {
    match m {
        PlayMode::Normal => Some(PlayMode::Loop),
        PlayMode::Loop => Some(PlayMode::Single),
        PlayMode::Single => Some(PlayMode::Normal),
        PlayMode::Random => None,
    }
}

/// The mode the shuffle button switches to.
pub open spec fn shuffle_toggled_spec(m: PlayMode) -> PlayMode {
    if m == PlayMode::Random {
        PlayMode::Normal
    } else {
        PlayMode::Random
    }
}

/// The first position of `x` in `list`, or `None` when it does not occur.
pub fn position(list: &Vec<u64>, x: u64) -> (r: Option<usize>)
    ensures
        r matches Some(i) ==> is_first_index(list@, x, i as int),
        r is None ==> !list@.contains(x),
{
    let mut i: usize = 0;
    while i < list.len()
        invariant
            i <= list@.len(),
            forall|j: int| 0 <= j < i ==> list@[j] != x,
        decreases list@.len() - i,
    {
        if list[i] == x {
            return Some(i);
        }
        i = i + 1;
    }
    None
}

/// A uniformly random position below `n`, from rand's thread-local
/// generator (`thread_rng().gen_range(0..n)`); the contract claims only
/// that the position is below `n`.
#[verifier::external_body]
fn random_below(n: usize) -> (r: usize)
    requires
        n > 0,
    ensures
        r < n,
{
    rand::thread_rng().gen_range(0..n)
}

impl PlayMode {
    /// The mode the repeat button switches to: `Normal` to `Loop` to
    /// `Single` and back to `Normal`; in `Random` there is no repeat button.
    pub fn repeat_toggled(self) -> (r: Option<PlayMode>)
        ensures
            r == repeat_toggled_spec(self),
    {
        match self {
            PlayMode::Normal => Some(PlayMode::Loop),
            PlayMode::Loop => Some(PlayMode::Single),
            PlayMode::Single => Some(PlayMode::Normal),
            PlayMode::Random => None,
        }
    }

    /// The mode the shuffle button switches to: out of `Random` to
    /// `Normal`, from any other mode to `Random`.
    pub fn shuffle_toggled(self) -> (r: PlayMode)
        ensures
            r == shuffle_toggled_spec(self),
    {
        match self {
            PlayMode::Random => PlayMode::Normal,
            _ => PlayMode::Random,
        }
    }
}

impl Play {
    /// Nothing selected, not playing, `Normal` mode, sound on.
    pub fn new(preload_limit: usize) -> (p: Play)
        ensures
            p@ == (PlayView {
                current: None,
                playing: false,
                list: None,
                mode: PlayMode::Normal,
                preload_limit: preload_limit as nat,
                mute: false,
            }),
            p@.wf(),
    {
        Play {
            play_current_id: None,
            play_flag: false,
            play_list: None,
            mode: PlayMode::Normal,
            preload_limit,
            mute: false,
        }
    }

    /// A click on a track of a list: that list becomes the play list and
    /// that track the current one; the caller then starts it.
    pub fn select(&mut self, id: u64, list: Vec<u64>)
        ensures
            final(self)@ == (PlayView { current: Some(id), list: Some(list@), ..old(self)@ }),
            final(self)@.wf() <==> list@.contains(id),
    {
        self.play_current_id = Some(id);
        self.play_list = Some(list);
    }

    /// The track to (re)start, if any.
    pub fn start_id(&self) -> (r: Option<u64>)
        ensures
            r == self@.current,
    {
        self.play_current_id
    }

    /// Records whether the sink is playing.
    pub fn set_play_flag(&mut self, flag: bool)
        ensures
            final(self)@ == (PlayView { playing: flag, ..old(self)@ }),
    {
        self.play_flag = flag;
    }

    /// Switches the play mode.
    pub fn set_mode(&mut self, mode: PlayMode)
        ensures
            final(self)@ == (PlayView { mode: mode, ..old(self)@ }),
    {
        self.mode = mode;
    }

    /// Switches the sound on or off.
    pub fn set_mute(&mut self, mute: bool)
        ensures
            final(self)@ == (PlayView { mute: mute, ..old(self)@ }),
    {
        self.mute = mute;
    }

    /// Pausing: the queue is no longer playing; the clock pauses.
    pub fn pause(&mut self) -> (msg: Timer)
        ensures
            final(self)@ == old(self)@.stopped(),
            msg == Timer::Pause,
    {
        self.play_flag = false;
        Timer::Pause
    }

    /// Resuming: the queue plays again; the clock follows again.
    pub fn resume(&mut self) -> (msg: Timer)
        ensures
            final(self)@ == (PlayView { playing: true, ..old(self)@ }),
            msg == Timer::Start,
    {
        self.play_flag = true;
        Timer::Start
    }

    /// After the current track was loaded into the sink: the messages for
    /// the clock, in order, and whether to fetch the next tracks ahead.
    /// A cached track restarts the clock from zero; a downloaded one starts
    /// it and fetches ahead; a failed download changes nothing.
    pub fn after_load(&mut self, outcome: LoadOutcome) -> (r: (Vec<Timer>, bool))
        ensures
            outcome == LoadOutcome::Cached ==> r.0@ == seq![Timer::Stop, Timer::Start] && !r.1
                && final(self)@ == (PlayView { playing: true, ..old(self)@ }),
            outcome == LoadOutcome::Downloaded ==> r.0@ == seq![Timer::Start] && r.1
                && final(self)@ == (PlayView { playing: true, ..old(self)@ }),
            outcome == LoadOutcome::Failed ==> r.0@ == Seq::<Timer>::empty() && !r.1
                && final(self)@ == old(self)@,
    {
        match outcome {
            LoadOutcome::Cached => {
                self.play_flag = true;
                (vec![Timer::Stop, Timer::Start], false)
            },
            LoadOutcome::Downloaded => {
                self.play_flag = true;
                (vec![Timer::Start], true)
            },
            LoadOutcome::Failed => (Vec::new(), false),
        }
    }

    /// What the play list page shows.
    pub fn queue_page(&self) -> (r: QueuePage)
        ensures
            r == (if self@.current is None || self@.list is None {
                QueuePage::Missing
            } else if self@.mode == PlayMode::Random {
                QueuePage::RandomOrder
            } else {
                QueuePage::List
            }),
    {
        if self.play_current_id.is_none() || self.play_list.is_none() {
            QueuePage::Missing
        } else if self.mode == PlayMode::Random {
            QueuePage::RandomOrder
        } else {
            QueuePage::List
        }
    }

    /// Whether a track is selected (the play bar is shown).
    pub fn has_current(&self) -> (r: bool)
        ensures
            r == self@.current is Some,
    {
        self.play_current_id.is_some()
    }

    /// Whether the poll loop moves on to the next track: the sink ran dry
    /// while the queue is meant to be playing.
    pub fn should_advance(&self, sink_empty: bool) -> (r: bool)
        ensures
            r == (sink_empty && self@.playing),
    {
        sink_empty && self.play_flag
    }

    /// `next`, with `pick` as the random position that `Random` uses.
    pub fn next_with(&mut self, pick: usize) -> (step: PlayStep)
        requires
            next_ready(old(self)@),
            pick_in_range(old(self)@, pick as int),
        ensures
            (final(self)@, step) == next_outcome(old(self)@, pick as int),
            final(self)@.wf(),
    {
        let current = match self.play_current_id {
            Some(c) => c,
            None => return PlayStep::Stay,
        };
        let target: Option<u64>;
        match &self.play_list {
            None => return PlayStep::Stay,
            Some(list) => {
                if self.mode == PlayMode::Random {
                    target = Some(list[pick]);
                    assert(list@.contains(list@[pick as int]));
                } else {
                    proof {
                        lemma_first_index(list@, current);
                    }
                    let i = match position(list, current) {
                        Some(i) => i,
                        None => {
                            return PlayStep::Stay;
                        },
                    };
                    proof {
                        assert(first_index(list@, current) == i);
                    }
                    let len = list.len();
                    target = match self.mode {
                        PlayMode::Normal => if i + 1 >= len {
                            None
                        } else {
                            Some(list[i + 1])
                        },
                        PlayMode::Loop => if i + 1 >= len {
                            Some(list[0])
                        } else {
                            Some(list[i + 1])
                        },
                        _ => Some(list[i]),
                    };
                    assert(target == next_target(self@.mode, list@, i as int, pick as int));
                    assert(target matches Some(id) ==> list@.contains(id));
                }
            },
        }
        match target {
            Some(id) => {
                self.play_current_id = Some(id);
                PlayStep::Start(id)
            },
            None => {
                self.play_flag = false;
                PlayStep::Stop
            },
        }
    }

    /// `next`: in `Random` the position comes from rand; whatever it is,
    /// the outcome is `next_outcome` for some position inside the list.
    pub fn next(&mut self) -> (step: PlayStep)
        requires
            next_ready(old(self)@),
        ensures
            exists|pick: int|
                pick_in_range(old(self)@, pick) && (final(self)@, step) == #[trigger] next_outcome(
                    old(self)@,
                    pick,
                ),
            final(self)@.wf(),
    {
        let mut pick: usize = 0;
        if self.mode == PlayMode::Random {
            match (&self.play_current_id, &self.play_list) {
                (Some(_), Some(list)) => {
                    pick = random_below(list.len());
                },
                _ => {},
            }
        }
        let step = self.next_with(pick);
        assert(next_outcome(old(self)@, pick as int) == (self@, step));
        step
    }

    /// `previous`: in `Normal` the track before the current one, stopping
    /// at the first track; the other modes ignore it.
    pub fn previous(&mut self) -> (step: PlayStep)
        requires
            old(self)@.mode == PlayMode::Normal ==> old(self)@.wf(),
        ensures
            (final(self)@, step) == previous_outcome(old(self)@),
            old(self)@.wf() ==> final(self)@.wf(),
    {
        let current = match self.play_current_id {
            Some(c) => c,
            None => return PlayStep::Stay,
        };
        if self.mode != PlayMode::Normal {
            return PlayStep::Stay;
        }
        let target: Option<u64>;
        match &self.play_list {
            None => return PlayStep::Stay,
            Some(list) => {
                proof {
                    lemma_first_index(list@, current);
                }
                let i = match position(list, current) {
                    Some(i) => i,
                    None => {
                        return PlayStep::Stay;
                    },
                };
                proof {
                    assert(first_index(list@, current) == i);
                }
                target = if i == 0 {
                    None
                } else {
                    Some(list[i - 1])
                };
                assert(target matches Some(id) ==> list@.contains(id));
            },
        }
        match target {
            Some(id) => {
                self.play_current_id = Some(id);
                PlayStep::Start(id)
            },
            None => {
                self.play_flag = false;
                PlayStep::Stop
            },
        }
    }

    /// Whether `next` can run (see `next_ready`).
    pub fn ready_for_next(&self) -> (r: bool)
        ensures
            r == next_ready(self@),
    {
        match (&self.play_current_id, &self.play_list) {
            (Some(c), Some(list)) => if self.mode == PlayMode::Random {
                list.len() > 0
            } else {
                position(list, *c).is_some()
            },
            _ => true,
        }
    }

    /// Whether `previous` can run: in `Normal` the current track must be in
    /// the list.
    pub fn ready_for_previous(&self) -> (r: bool)
        ensures
            r == (self@.mode == PlayMode::Normal ==> self@.wf()),
    {
        if self.mode != PlayMode::Normal {
            return true;
        }
        match (&self.play_current_id, &self.play_list) {
            (Some(c), Some(list)) => position(list, *c).is_some(),
            _ => true,
        }
    }

    /// Whether `preload_ids` can run: in `Normal` the current track must be
    /// in the list and the end of the window must fit in a `usize`.
    pub fn ready_for_preload(&self) -> (r: bool)
        ensures
            r == ((self@.mode == PlayMode::Normal ==> self@.wf()) && preload_fits(self@)),
    {
        if self.mode != PlayMode::Normal {
            return true;
        }
        match (&self.play_current_id, &self.play_list) {
            (Some(c), Some(list)) => match position(list, *c) {
                Some(i) => {
                    proof {
                        lemma_first_index(list@, *c);
                    }
                    self.preload_limit < usize::MAX - i
                },
                None => false,
            },
            _ => true,
        }
    }

    /// The position of the current track in the play list.
    pub fn current_index(&self) -> (r: Option<usize>)
        ensures
            r matches Some(i) ==> current_index_spec(self@) == Some(i as int),
            r is None ==> current_index_spec(self@) is None,
    {
        match (&self.play_current_id, &self.play_list) {
            (Some(c), Some(list)) => {
                let r = position(list, *c);
                proof {
                    if let Some(i) = r {
                        lemma_first_index(list@, *c);
                        assert(list@.contains(*c));
                    }
                }
                r
            },
            _ => None,
        }
    }

    /// The ids to fetch ahead after a track started: in `Normal` the
    /// `preload_limit` ids after the current one, wrapping to the front of
    /// the list; nothing in the other modes.
    pub fn preload_ids(&self) -> (r: Vec<u64>)
        requires
            self@.mode == PlayMode::Normal ==> self@.wf(),
            preload_fits(self@),
        ensures
            r@ == preload_spec(self@),
    {
        if self.mode != PlayMode::Normal {
            return Vec::new();
        }
        let current = match self.play_current_id {
            Some(c) => c,
            None => return Vec::new(),
        };
        match &self.play_list {
            None => Vec::new(),
            Some(list) => {
                proof {
                    lemma_first_index(list@, current);
                }
                let i = match position(list, current) {
                    Some(i) => i,
                    None => {
                        return Vec::new();
                    },
                };
                proof {
                    assert(first_index(list@, current) == i);
                }
                let len = list.len();
                let index = i + 1;
                let end_index = index + self.preload_limit;
                let mut out: Vec<u64> = Vec::new();
                if end_index >= len {
                    let wrapped = end_index % len;
                    let mut k = index;
                    while k < len
                        invariant
                            index <= k <= len,
                            len == list@.len(),
                            out@ == list@.subrange(index as int, k as int),
                        decreases len - k,
                    {
                        out.push(list[k]);
                        proof {
                            assert(out@ =~= list@.subrange(index as int, k + 1));
                        }
                        k = k + 1;
                    }
                    let ghost head = out@;
                    let mut k2: usize = 0;
                    while k2 < wrapped
                        invariant
                            k2 <= wrapped < len,
                            len == list@.len(),
                            out@ == head + list@.subrange(0, k2 as int),
                        decreases wrapped - k2,
                    {
                        out.push(list[k2]);
                        proof {
                            assert(out@ =~= head + list@.subrange(0, k2 + 1));
                        }
                        k2 = k2 + 1;
                    }
                } else {
                    let mut k = index;
                    while k < end_index
                        invariant
                            index <= k <= end_index < len,
                            len == list@.len(),
                            out@ == list@.subrange(index as int, k as int),
                        decreases end_index - k,
                    {
                        out.push(list[k]);
                        proof {
                            assert(out@ =~= list@.subrange(index as int, k + 1));
                        }
                        k = k + 1;
                    }
                }
                out
            },
        }
    }
}

/// In `Normal` mode, with no id twice in the list, `previous` undoes `next`
/// whenever `next` did not stop: the state is back where it was and the
/// caller restarts the track it started from.
pub proof fn law_previous_undoes_next(v: PlayView, pick: int)
    requires
        v.wf(),
        v.mode == PlayMode::Normal,
        v.current is Some,
        v.list matches Some(l) && distinct(l),
        next_outcome(v, pick).1 != PlayStep::Stop,
    ensures
        previous_outcome(next_outcome(v, pick).0) == (v, PlayStep::Start(v.current->0)),
{
    let c = v.current->0;
    let l = v.list->0;
    lemma_first_index(l, c);
    let i = first_index(l, c);
    lemma_first_index_distinct(l, i + 1);
    assert(v.with_current(l[i + 1]).with_current(l[i]) == v);
}

/// In `Normal` mode, with no id twice in the list, `next` undoes
/// `previous` whenever `previous` did not stop.
pub proof fn law_next_undoes_previous(v: PlayView, pick: int)
    requires
        v.wf(),
        v.mode == PlayMode::Normal,
        v.current is Some,
        v.list matches Some(l) && distinct(l),
        previous_outcome(v).1 != PlayStep::Stop,
    ensures
        next_outcome(previous_outcome(v).0, pick) == (v, PlayStep::Start(v.current->0)),
{
    let c = v.current->0;
    let l = v.list->0;
    lemma_first_index(l, c);
    let i = first_index(l, c);
    lemma_first_index_distinct(l, i - 1);
    assert(v.with_current(l[i - 1]).with_current(l[i]) == v);
}

/// `Normal` stops after the last track and `previous` stops at the first;
/// stopping keeps the current track and only clears the playing flag.
pub proof fn law_normal_stops_at_the_ends(v: PlayView, pick: int)
    requires
        v.wf(),
        v.mode == PlayMode::Normal,
        v.current is Some,
        v.list is Some,
    ensures
        first_index(v.list->0, v.current->0) == v.list->0.len() - 1 ==> next_outcome(v, pick)
            == (v.stopped(), PlayStep::Stop),
        first_index(v.list->0, v.current->0) == 0 ==> previous_outcome(v) == (
            v.stopped(),
            PlayStep::Stop,
        ),
{
    lemma_first_index(v.list->0, v.current->0);
}

/// `Loop` never stops: `next` always starts a track of the list, and after
/// the last track it starts the first one.
pub proof fn law_loop_never_stops(v: PlayView, pick: int)
    requires
        v.wf(),
        v.mode == PlayMode::Loop,
        v.current is Some,
        v.list is Some,
    ensures
        next_outcome(v, pick).1 matches PlayStep::Start(id) && v.list->0.contains(id),
        first_index(v.list->0, v.current->0) == v.list->0.len() - 1 ==> next_outcome(v, pick).1
            == PlayStep::Start(v.list->0[0]),
{
    let l = v.list->0;
    lemma_first_index(l, v.current->0);
    let i = first_index(l, v.current->0);
    if i + 1 >= l.len() {
        assert(l.contains(l[0]));
    } else {
        assert(l.contains(l[i + 1]));
    }
}

/// `Single` repeats: `next` restarts the current track and changes nothing.
pub proof fn law_single_repeats(v: PlayView, pick: int)
    requires
        v.wf(),
        v.mode == PlayMode::Single,
        v.current is Some,
        v.list is Some,
    ensures
        next_outcome(v, pick) == (v, PlayStep::Start(v.current->0)),
{
    lemma_first_index(v.list->0, v.current->0);
    assert(v.with_current(v.current->0) == v);
}

/// `Random` starts the picked track of the list, and `previous` does
/// nothing in `Random`, `Loop` and `Single`.
pub proof fn law_random_and_previous(v: PlayView, pick: int)
    requires
        v.current is Some,
        v.list matches Some(l) && 0 <= pick < l.len(),
    ensures
        v.mode == PlayMode::Random ==> next_outcome(v, pick) == (
            v.with_current(v.list->0[pick]),
            PlayStep::Start(v.list->0[pick]),
        ),
        v.mode != PlayMode::Normal ==> previous_outcome(v) == (v, PlayStep::Stay),
{
}

/// Without a current track or without a play list, `next` and `previous`
/// change nothing and ask for nothing.
pub proof fn law_empty_queue_stays(v: PlayView, pick: int)
    requires
        v.current is None || v.list is None,
    ensures
        next_outcome(v, pick) == (v, PlayStep::Stay),
        previous_outcome(v) == (v, PlayStep::Stay),
{
}

/// The repeat button cycles `Normal`, `Loop`, `Single` with period three,
/// and the shuffle button, pressed twice, returns to `Random` from `Random`
/// and to `Normal` from `Normal`.
pub proof fn law_mode_buttons(m: PlayMode)
    ensures
        m != PlayMode::Random ==> (repeat_toggled_spec(m) matches Some(m1) && (repeat_toggled_spec(
            m1,
        ) matches Some(m2) && repeat_toggled_spec(m2) == Some(m))),
        m != PlayMode::Random ==> repeat_toggled_spec(m) != Some(m),
        shuffle_toggled_spec(m) != m,
        (m == PlayMode::Random || m == PlayMode::Normal) ==> shuffle_toggled_spec(
            shuffle_toggled_spec(m),
        ) == m,
{
}

/// In `Normal` mode, when fewer ids are fetched ahead than the list holds,
/// the ids fetched ahead are the next `preload_limit` ids of the list,
/// counted cyclically from the one after the current track.
pub proof fn law_preload_is_cyclic_window(v: PlayView)
    requires
        v.wf(),
        v.mode == PlayMode::Normal,
        v.current is Some,
        v.list matches Some(l) && v.preload_limit < l.len(),
    ensures
        preload_spec(v).len() == v.preload_limit,
        forall|k: int|
            0 <= k < v.preload_limit ==> #[trigger] preload_spec(v)[k] == v.list->0[(first_index(
                v.list->0,
                v.current->0,
            ) + 1 + k) % (v.list->0.len() as int)],
{
    let l = v.list->0;
    lemma_first_index(l, v.current->0);
    let i = first_index(l, v.current->0);
    let len = l.len() as int;
    let limit = v.preload_limit as int;
    let w = preload_spec(v);
    assert(w == preload_window(l, i, limit));
    let end = i + 1 + limit;
    if end >= len {
        assert(end % len == end - len) by {
            vstd::arithmetic::div_mod::lemma_fundamental_div_mod_converse(end, len, 1, end - len);
        }
        assert forall|k: int| 0 <= k < limit implies #[trigger] w[k] == l[(i + 1 + k) % len] by {
            if i + 1 + k < len {
                vstd::arithmetic::div_mod::lemma_small_mod((i + 1 + k) as nat, len as nat);
            } else {
                vstd::arithmetic::div_mod::lemma_fundamental_div_mod_converse(
                    i + 1 + k,
                    len,
                    1,
                    i + 1 + k - len,
                );
            }
        }
    } else {
        assert forall|k: int| 0 <= k < limit implies #[trigger] w[k] == l[(i + 1 + k) % len] by {
            vstd::arithmetic::div_mod::lemma_small_mod((i + 1 + k) as nat, len as nat);
        }
    }
}

/// The state after `k` presses of `next` outside `Random`.
pub open spec fn next_times(v: PlayView, k: nat) -> PlayView
    decreases k,
{
    if k == 0 {
        v
    } else {
        next_outcome(next_times(v, (k - 1) as nat), 0).0
    }
}

proof fn lemma_loop_steps(v: PlayView, k: nat)
    requires
        v.mode == PlayMode::Loop,
        v.current matches Some(c) && (v.list matches Some(l) && distinct(l) && l.contains(c)),
    ensures
        next_times(v, k) == v.with_current(
            v.list->0[(first_index(v.list->0, v.current->0) + k) % (v.list->0.len() as int)],
        ),
    decreases k,
{
    let l = v.list->0;
    let c = v.current->0;
    let len = l.len() as int;
    lemma_first_index(l, c);
    let i = first_index(l, c);
    if k == 0 {
        vstd::arithmetic::div_mod::lemma_small_mod(i as nat, len as nat);
        assert(v.with_current(l[i]) == v);
    } else {
        lemma_loop_steps(v, (k - 1) as nat);
        let j = (i + k - 1) % len;
        let prev = next_times(v, (k - 1) as nat);
        assert(prev == v.with_current(l[j]));
        assert(0 <= j < len) by {
            vstd::arithmetic::div_mod::lemma_mod_bound(i + k - 1, len);
        }
        lemma_first_index_distinct(l, j);
        if len == 1 {
            vstd::arithmetic::div_mod::lemma_fundamental_div_mod_converse(i + k, 1, i + k, 0);
            assert((i + k) % len == 0);
            assert(prev.with_current(l[0]) == v.with_current(l[0]));
        } else {
            vstd::arithmetic::div_mod::lemma_add_mod_noop(i + k - 1, 1, len);
            vstd::arithmetic::div_mod::lemma_small_mod(1, len as nat);
            if j + 1 < len {
                vstd::arithmetic::div_mod::lemma_small_mod((j + 1) as nat, len as nat);
                assert((i + k) % len == j + 1);
                assert(prev.with_current(l[j + 1]) == v.with_current(l[j + 1]));
            } else {
                vstd::arithmetic::div_mod::lemma_mod_self_0(len);
                assert((i + k) % len == 0);
                assert(prev.with_current(l[0]) == v.with_current(l[0]));
            }
        }
    }
}

/// `Loop` goes round the whole list: with no id twice in it, pressing
/// `next` as many times as the list is long comes back to the same track,
/// and the `k`-th press plays the track `k` places further, cyclically.
pub proof fn law_loop_goes_round(v: PlayView, k: nat)
    requires
        v.mode == PlayMode::Loop,
        v.current matches Some(c) && (v.list matches Some(l) && distinct(l) && l.contains(c)),
    ensures
        next_times(v, k).current == Some(
            v.list->0[(first_index(v.list->0, v.current->0) + k) % (v.list->0.len() as int)],
        ),
        next_times(v, v.list->0.len()) == v,
{
    let l = v.list->0;
    let len = l.len() as int;
    lemma_first_index(l, v.current->0);
    let i = first_index(l, v.current->0);
    lemma_loop_steps(v, k);
    lemma_loop_steps(v, l.len());
    vstd::arithmetic::div_mod::lemma_mod_add_multiples_vanish(i, len);
    vstd::arithmetic::div_mod::lemma_small_mod(i as nat, len as nat);
    assert(v.with_current(l[i]) == v);
}

proof fn lemma_first_index_unique(s: Seq<u64>, x: u64, i: int)
    requires
        is_first_index(s, x, i),
    ensures
        first_index(s, x) == i,
{
    assert(s.contains(x));
    lemma_first_index(s, x);
    let j = first_index(s, x);
    if j < i {
        assert(s[j] != x);
    } else if j > i {
        assert(s[i] != x);
    }
}

/// `next` in `Normal`: from the track at (first) position `i`, the track
/// at `i + 1` becomes current and is started, whatever the other fields
/// (playing, mute, fetch-ahead limit) hold; from the last track the queue
/// stops on it. `previous` in `Normal` starts the track at `i - 1`, and
/// stops on the first track.
pub proof fn law_normal_steps(v: PlayView, c: u64, l: Seq<u64>, i: int, pick: int)
    requires
        v.mode == PlayMode::Normal,
        v.current == Some(c),
        v.list == Some(l),
        is_first_index(l, c, i),
    ensures
        i + 1 < l.len() ==> next_outcome(v, pick) == (
            PlayView { current: Some(l[i + 1]), ..v },
            PlayStep::Start(l[i + 1]),
        ),
        i + 1 == l.len() ==> next_outcome(v, pick) == (
            PlayView { playing: false, ..v },
            PlayStep::Stop,
        ),
        i > 0 ==> previous_outcome(v) == (
            PlayView { current: Some(l[i - 1]), ..v },
            PlayStep::Start(l[i - 1]),
        ),
        i == 0 ==> previous_outcome(v) == (PlayView { playing: false, ..v }, PlayStep::Stop),
{
    lemma_first_index_unique(l, c, i);
}

/// `next` in `Loop`: the track at `i + 1` is started, and after the last
/// track the first one, whatever the other fields hold.
pub proof fn law_loop_steps(v: PlayView, c: u64, l: Seq<u64>, i: int, pick: int)
    requires
        v.mode == PlayMode::Loop,
        v.current == Some(c),
        v.list == Some(l),
        is_first_index(l, c, i),
    ensures
        i + 1 < l.len() ==> next_outcome(v, pick) == (
            PlayView { current: Some(l[i + 1]), ..v },
            PlayStep::Start(l[i + 1]),
        ),
        i + 1 == l.len() ==> next_outcome(v, pick) == (
            PlayView { current: Some(l[0]), ..v },
            PlayStep::Start(l[0]),
        ),
        previous_outcome(v) == (v, PlayStep::Stay),
{
    lemma_first_index_unique(l, c, i);
}

/// `next` in `Single` restarts the current track and changes nothing;
/// `next` in `Random` starts the picked track of the list (the current one
/// need not be in it). `previous` does nothing in either.
pub proof fn law_single_and_random_steps(v: PlayView, c: u64, l: Seq<u64>, pick: int)
    requires
        v.current == Some(c),
        v.list == Some(l),
    ensures
        v.mode == PlayMode::Single && l.contains(c) ==> next_outcome(v, pick) == (
            v,
            PlayStep::Start(c),
        ),
        v.mode == PlayMode::Random && 0 <= pick < l.len() ==> next_outcome(v, pick) == (
            PlayView { current: Some(l[pick]), ..v },
            PlayStep::Start(l[pick]),
        ),
        v.mode == PlayMode::Single || v.mode == PlayMode::Random ==> previous_outcome(v) == (
            v,
            PlayStep::Stay,
        ),
{
    if l.contains(c) {
        lemma_first_index(l, c);
    }
}

} // verus!
