use vstd::prelude::*;

use vstd::arithmetic::div_mod::lemma_fundamental_div_mod_converse;

verus! {

/// One request that playback makes of the output.
#[derive(Clone, Copy, Debug, PartialEq, Eq, Structural)]
pub enum Action {
    /// Queue the rendered bar of `channel` on its sink; `bar` counts repetitions from 0.
    Append { channel: usize, bar: u32 },
    /// Start the sink of `channel`.
    Play { channel: usize },
    /// Block until everything queued on the sink of `channel` has played.
    AwaitEnd { channel: usize },
    /// Hard-stop the sink of `channel`, discarding whatever is still queued.
    Stop { channel: usize },
    /// Playback is over; nothing is left to do.
    Finished,
}

/// Where playback stands.
#[derive(Clone, Copy, Debug, PartialEq, Eq, Structural)]
pub enum Phase {
    /// Bars are being queued.
    Queueing,
    /// Sinks are being started.
    Playing,
    /// Sinks are being waited on.
    Draining,
    /// Sinks are being stopped.
    Stopping,
    /// Every sink has been stopped.
    Stopped,
}

/// Number of bar buffers queued in all: one per channel per bar.
pub open spec fn queued(channels: int, bars: int) -> int {
    bars * channels
}

/// Number of actions before `Finished`.
pub open spec fn schedule_len(channels: int, bars: int) -> int {
    queued(channels, bars) + 3 * channels
}

/// The `k`-th action of playing `bars` bars on `channels` channels: every bar is
/// queued on every channel, bar by bar and in channel order; then every sink is
/// started, then waited on until drained, then stopped, each in channel order;
/// after that playback is finished.
pub open spec fn action_at(channels: int, bars: int, k: int) -> Action {
    let q = queued(channels, bars);
    if k < q {
        Action::Append { channel: (k % channels) as usize, bar: (k / channels) as u32 }
    } else if k < q + channels {
        Action::Play { channel: (k - q) as usize }
    } else if k < q + 2 * channels {
        Action::AwaitEnd { channel: (k - q - channels) as usize }
    } else if k < q + 3 * channels {
        Action::Stop { channel: (k - q - 2 * channels) as usize }
    } else {
        Action::Finished
    }
}

/// The playback driver: a state machine that hands out, one at a time, the
/// actions that play every channel's bar `bars` times.
#[derive(Clone, Copy, Debug, PartialEq, Eq, Structural)]
pub struct Playback {
    /// Number of channels.
    pub channels: usize,
    /// Number of bars to play.
    pub bars: u32,
    /// Current phase.
    pub phase: Phase,
    /// Bar being queued.
    pub bar: u32,
    /// Channel the next action is for.
    pub channel: usize,
}

impl Playback {
    pub open spec fn wf(&self) -> bool {
        match self.phase {
            Phase::Queueing => self.bar < self.bars && self.channel < self.channels,
            Phase::Stopped => true,
            _ => self.channel < self.channels,
        }
    }

    /// How many actions have been handed out.
    pub open spec fn position(&self) -> int {
        let c = self.channels as int;
        let q = queued(c, self.bars as int);
        match self.phase {
            Phase::Queueing => self.bar * c + self.channel,
            Phase::Playing => q + self.channel,
            Phase::Draining => q + c + self.channel,
            Phase::Stopping => q + 2 * c + self.channel,
            Phase::Stopped => schedule_len(c, self.bars as int),
        }
    }

    pub open spec fn spec_len(&self) -> int {
        schedule_len(self.channels as int, self.bars as int)
    }

    /// Playback of `bars` bars on `channels` channels, before its first action.
    /// A bar count below one plays nothing.
    pub fn new(channels: usize, bars: i32) -> (r: Playback)
        ensures
            r.wf(),
            r.channels == channels,
            r.bars == if bars > 0 {
                bars as int
            } else {
                0
            },
            r.position() == 0,
    {
        let n: u32 = if bars > 0 {
            bars as u32
        } else {
            0
        };
        let phase = if channels == 0 {
            Phase::Stopped
        } else if n == 0 {
            Phase::Playing
        } else {
            Phase::Queueing
        };
        Playback { channels, bars: n, phase, bar: 0, channel: 0 }
    }

    /// Whether every action has been handed out.
    pub fn is_finished(&self) -> (r: bool)
        requires
            self.wf(),
        ensures
            r == (self.position() == self.spec_len()),
    {
        proof {
            lemma_position_bounded(*self);
        }
        match self.phase {
            Phase::Stopped => true,
            _ => false,
        }
    }

    /// Hands out the next action and moves past it. Once every action has been
    /// handed out, answers `Finished` and stays put.
    pub fn next(&mut self) -> (a: Action)
        requires
            old(self).wf(),
        ensures
            final(self).wf(),
            final(self).channels == old(self).channels,
            final(self).bars == old(self).bars,
            a == action_at(old(self).channels as int, old(self).bars as int, old(self).position()),
            old(self).position() < old(self).spec_len() ==> final(self).position() == old(
                self,
            ).position() + 1,
            old(self).position() == old(self).spec_len() ==> final(self).position() == old(
                self,
            ).position(),
    {
        proof {
            lemma_position_bounded(*self);
        }
        let c = self.channel;
        let ghost cs = self.channels as int;
        let ghost bs = self.bars as int;
        match self.phase {
            Phase::Queueing => {
                let b = self.bar;
                proof {
                    lemma_queue_slot(b as int, c as int, cs, bs);
                }
                if c + 1 < self.channels {
                    self.channel = c + 1;
                } else if b + 1 < self.bars {
                    self.channel = 0;
                    self.bar = b + 1;
                } else {
                    self.channel = 0;
                    self.phase = Phase::Playing;
                }
                Action::Append { channel: c, bar: b }
            },
            Phase::Playing => {
                if c + 1 < self.channels {
                    self.channel = c + 1;
                } else {
                    self.channel = 0;
                    self.phase = Phase::Draining;
                }
                Action::Play { channel: c }
            },
            Phase::Draining => {
                if c + 1 < self.channels {
                    self.channel = c + 1;
                } else {
                    self.channel = 0;
                    self.phase = Phase::Stopping;
                }
                Action::AwaitEnd { channel: c }
            },
            Phase::Stopping => {
                if c + 1 < self.channels {
                    self.channel = c + 1;
                } else {
                    self.channel = 0;
                    self.phase = Phase::Stopped;
                }
                Action::Stop { channel: c }
            },
            Phase::Stopped => Action::Finished,
        }
    }
}

/// Position of the buffer of `channel` for bar `bar` in the schedule.
pub open spec fn queue_slot(channels: int, channel: int, bar: int) -> int {
    bar * channels + channel
}

/// Playing `bars` bars queues exactly `bars` full-bar buffers on each channel:
/// the buffer of channel `c` for bar `b` is queued for every channel and every
/// bar below `bars`, at one position only, and nothing else is queued.
pub proof fn lemma_each_bar_queued_once(channels: int, bars: int)
    requires
        0 <= channels <= usize::MAX,
        0 <= bars <= u32::MAX,
    ensures
        forall|c: int, b: int|
            0 <= c < channels && 0 <= b < bars ==> #[trigger] action_at(
                channels,
                bars,
                queue_slot(channels, c, b),
            ) == (Action::Append { channel: c as usize, bar: b as u32 }),
        forall|k: int|
            0 <= k && #[trigger] action_at(channels, bars, k) is Append ==> {
                &&& action_at(channels, bars, k)->Append_channel < channels
                &&& action_at(channels, bars, k)->Append_bar < bars
                &&& k == queue_slot(
                    channels,
                    action_at(channels, bars, k)->Append_channel as int,
                    action_at(channels, bars, k)->Append_bar as int,
                )
            },
        forall|k: int, j: int|
            0 <= k && 0 <= j && #[trigger] action_at(channels, bars, k) is Append
                && action_at(channels, bars, k) == #[trigger] action_at(channels, bars, j) ==> k
                == j,
{
    assert forall|c: int, b: int| 0 <= c < channels && 0 <= b < bars implies #[trigger] action_at(
        channels,
        bars,
        queue_slot(channels, c, b),
    ) == (Action::Append { channel: c as usize, bar: b as u32 }) by {
        lemma_queue_slot(b, c, channels, bars);
    }
    assert forall|k: int| 0 <= k && #[trigger] action_at(channels, bars, k) is Append implies {
        &&& action_at(channels, bars, k)->Append_channel < channels
        &&& action_at(channels, bars, k)->Append_bar < bars
        &&& k == queue_slot(
            channels,
            action_at(channels, bars, k)->Append_channel as int,
            action_at(channels, bars, k)->Append_bar as int,
        )
    } by {
        lemma_append_slot(channels, bars, k);
    }
    assert forall|k: int, j: int|
        0 <= k && 0 <= j && #[trigger] action_at(channels, bars, k) is Append && action_at(
            channels,
            bars,
            k,
        ) == #[trigger] action_at(channels, bars, j) implies k == j by {
        lemma_append_slot(channels, bars, k);
        lemma_append_slot(channels, bars, j);
    }
}

/// An `Append` at position `k` names a channel and a bar in range, and `k` is
/// their slot.
proof fn lemma_append_slot(channels: int, bars: int, k: int)
    requires
        0 <= channels <= usize::MAX,
        0 <= bars <= u32::MAX,
        0 <= k,
        action_at(channels, bars, k) is Append,
    ensures
        action_at(channels, bars, k)->Append_channel < channels,
        action_at(channels, bars, k)->Append_bar < bars,
        k == queue_slot(
            channels,
            action_at(channels, bars, k)->Append_channel as int,
            action_at(channels, bars, k)->Append_bar as int,
        ),
{
    assert(channels > 0) by (nonlinear_arith)
        requires
            0 <= k < bars * channels,
            0 <= bars,
    ;
    assert(0 <= k / channels < bars && 0 <= k % channels < channels) by (nonlinear_arith)
        requires
            0 <= k < bars * channels,
            channels > 0,
    ;
    assert(k == (k / channels) * channels + k % channels) by (nonlinear_arith)
        requires
            channels > 0,
    ;
}

/// Playback blocks until every channel has drained before it stops anything:
/// every buffer is queued before any sink is started or waited on; each channel
/// is waited on exactly once; every wait comes before every stop and before the
/// end; and the end comes only after all of them.
pub proof fn lemma_drains_before_stop(channels: int, bars: int)
    requires
        0 <= channels <= usize::MAX,
        0 <= bars <= u32::MAX,
    ensures
        forall|k: int, j: int|
            0 <= k && 0 <= j && #[trigger] action_at(channels, bars, k) is Append && (
            #[trigger] action_at(channels, bars, j) is Play || action_at(channels, bars, j) is AwaitEnd)
                ==> k < j,
        forall|c: int|
            0 <= c < channels ==> #[trigger] action_at(
                channels,
                bars,
                queued(channels, bars) + channels + c,
            ) == (Action::AwaitEnd { channel: c as usize }),
        forall|k: int, j: int|
            0 <= k && 0 <= j && #[trigger] action_at(channels, bars, k) is AwaitEnd
                && action_at(channels, bars, k) == #[trigger] action_at(channels, bars, j) ==> k
                == j,
        forall|k: int, j: int|
            0 <= k && 0 <= j && #[trigger] action_at(channels, bars, k) is AwaitEnd && (
            #[trigger] action_at(channels, bars, j) is Stop || action_at(channels, bars, j) is Finished)
                ==> k < j,
        forall|k: int|
            0 <= k < schedule_len(channels, bars) ==> !(#[trigger] action_at(
                channels,
                bars,
                k,
            ) is Finished),
{
    assert(0 <= bars * channels) by (nonlinear_arith)
        requires
            0 <= bars,
            0 <= channels,
    ;
}

/// A well-formed driver never stands past the end of its schedule.
proof fn lemma_position_bounded(p: Playback)
    requires
        p.wf(),
    ensures
        0 <= p.position() <= p.spec_len(),
        p.phase != Phase::Stopped ==> p.position() < p.spec_len(),
{
    let c = p.channels as int;
    let b = p.bars as int;
    if p.phase == Phase::Queueing {
        lemma_queue_slot(p.bar as int, p.channel as int, c, b);
    }
    assert(0 <= b * c) by (nonlinear_arith)
        requires
            0 <= b,
            0 <= c,
    ;
}

/// Slot `bar * channels + channel` of the queueing phase holds that bar and channel.
proof fn lemma_queue_slot(bar: int, channel: int, channels: int, bars: int)
    requires
        0 <= bar < bars,
        0 <= channel < channels,
    ensures
        0 <= bar * channels + channel < queued(channels, bars),
        (bar * channels + channel) / channels == bar,
        (bar * channels + channel) % channels == channel,
        (bar + 1) * channels == bar * channels + channels,
        bar + 1 == bars ==> bar * channels + channels == queued(channels, bars),
{
    lemma_fundamental_div_mod_converse(bar * channels + channel, channels, bar, channel);
    assert(0 <= bar * channels + channel < bars * channels) by (nonlinear_arith)
        requires
            0 <= bar < bars,
            0 <= channel < channels,
    ;
    assert((bar + 1) * channels == bar * channels + channels) by (nonlinear_arith);
}

} // verus!
